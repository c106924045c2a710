//! The bridge registry: exclusive one-to-one links between two content
//! nodes (a chapter and a knowledge topic). Each node identifier takes
//! part in at most one link; the node deletion path consults this table
//! before removing an addressable-unit node.

use vstd::prelude::*;

use crate::errors::StoreError;
use crate::store::id_selected;

verus! {

/// One link between a chapter node and a knowledge-topic node.
#[derive(Clone, Copy, PartialEq, Eq, Structural, Debug)]
pub struct ChapterKnowledge {
    /// Identifier of the link itself; categories attach to it.
    pub id: i32,
    /// The chapter endpoint.
    pub chapter_id: i32,
    /// The knowledge-topic endpoint.
    pub knowledge_id: i32,
}

/// The node identifier takes part in the link, as either endpoint.
pub open spec fn bridge_touches(b: ChapterKnowledge, node_id: int) -> bool {
    b.chapter_id as int == node_id || b.knowledge_id as int == node_id
}

/// Some stored link touches the node identifier.
pub open spec fn has_bridge_for(s: Seq<ChapterKnowledge>, node_id: int) -> bool {
    exists|i: int| 0 <= i < s.len() && bridge_touches(s[i], node_id)
}

/// Link identifiers are unique, positive and below the next to be assigned.
pub open spec fn bridge_ids_ok(s: Seq<ChapterKnowledge>, next_id: int) -> bool {
    &&& forall|i: int, j: int|
        0 <= i < s.len() && 0 <= j < s.len() && i != j ==> s[i].id != s[j].id
    &&& forall|i: int| 0 <= i < s.len() ==> 0 < #[trigger] s[i].id < next_id
    &&& 1 <= next_id <= i32::MAX as int
}

/// Each node identifier takes part in at most one link.
pub open spec fn bridges_exclusive(s: Seq<ChapterKnowledge>) -> bool {
    forall|i: int, j: int|
        0 <= i < s.len() && 0 <= j < s.len() && i != j ==> s[i].chapter_id != s[j].chapter_id
            && s[i].chapter_id != s[j].knowledge_id && s[i].knowledge_id != s[j].chapter_id
            && s[i].knowledge_id != s[j].knowledge_id
}

/// The durable table of chapter-knowledge links.
pub struct BridgeStore {
    rows: Vec<ChapterKnowledge>,
    next_id: i32,
}

impl View for BridgeStore {
    type V = Seq<ChapterKnowledge>;

    closed spec fn view(&self) -> Seq<ChapterKnowledge> {
        self.rows@
    }
}

impl BridgeStore {
    /// The next identifier the registry will assign.
    pub closed spec fn spec_next_id(&self) -> int {
        self.next_id as int
    }

    /// The maintained invariant of the registry.
    pub open spec fn wf(&self) -> bool {
        bridge_ids_ok(self@, self.spec_next_id()) && bridges_exclusive(self@)
    }

    /// An empty registry.
    pub fn new() -> (r: BridgeStore)
        ensures
            r@ == Seq::<ChapterKnowledge>::empty(),
            r.wf(),
    {
        BridgeStore { rows: Vec::new(), next_id: 1 }
    }

    /// Create a link. Fails with `Conflict` when either endpoint already
    /// takes part in a link, and with `StoreFailure` when identifiers are
    /// exhausted.
    pub fn insert(&mut self, chapter_id: i32, knowledge_id: i32) -> (r: Result<
        ChapterKnowledge,
        StoreError,
    >)
        requires
            old(self).wf(),
        ensures
            final(self).wf(),
            match r {
                Result::Ok(b) => {
                    &&& !has_bridge_for(old(self)@, chapter_id as int)
                    &&& !has_bridge_for(old(self)@, knowledge_id as int)
                    &&& old(self).spec_next_id() < i32::MAX as int
                    &&& b.chapter_id == chapter_id && b.knowledge_id == knowledge_id
                    &&& b.id as int == old(self).spec_next_id()
                    &&& final(self)@ == old(self)@.push(b)
                },
                Result::Err(e) => {
                    &&& final(self)@ == old(self)@
                    &&& if has_bridge_for(old(self)@, chapter_id as int) || has_bridge_for(
                        old(self)@,
                        knowledge_id as int,
                    ) {
                        e == StoreError::Conflict
                    } else {
                        e == StoreError::StoreFailure && old(self).spec_next_id() == i32::MAX as int
                    }
                },
            },
    {
        if self.find_by_chapter_or_knowledge_id(chapter_id).is_some()
            || self.find_by_chapter_or_knowledge_id(knowledge_id).is_some() {
            return Result::Err(StoreError::Conflict);
        }
        if self.next_id == i32::MAX {
            return Result::Err(StoreError::StoreFailure);
        }
        let b = ChapterKnowledge { id: self.next_id, chapter_id, knowledge_id };
        self.rows.push(b);
        self.next_id = self.next_id + 1;
        Result::Ok(b)
    }

    /// The link a node takes part in, if any.
    pub fn find_by_chapter_or_knowledge_id(&self, node_id: i32) -> (r: Option<ChapterKnowledge>)
        ensures
            r is Some <==> has_bridge_for(self@, node_id as int),
            match r {
                Option::Some(b) => self@.contains(b) && bridge_touches(b, node_id as int),
                Option::None => true,
            },
    {
        let n = self.rows.len();
        for i in 0..n
            invariant
                n == self.rows.len(),
                forall|j: int| 0 <= j < i ==> !bridge_touches(self@[j], node_id as int),
        {
            let b = self.rows[i];
            if b.chapter_id == node_id || b.knowledge_id == node_id {
                proof {
                    assert(self@[i as int] == b);
                    assert(self@.contains(b));
                }
                return Option::Some(b);
            }
        }
        Option::None
    }

    /// The stored pair, if this exact chapter and knowledge pair is linked.
    pub fn find_unique(&self, chapter_id: i32, knowledge_id: i32) -> (r: Option<ChapterKnowledge>)
        ensures
            r is Some <==> exists|i: int|
                0 <= i < self@.len() && self@[i].chapter_id == chapter_id && self@[i].knowledge_id
                    == knowledge_id,
            match r {
                Option::Some(b) => self@.contains(b) && b.chapter_id == chapter_id
                    && b.knowledge_id == knowledge_id,
                Option::None => true,
            },
    {
        let n = self.rows.len();
        for i in 0..n
            invariant
                n == self.rows.len(),
                forall|j: int|
                    0 <= j < i ==> !(self@[j].chapter_id == chapter_id && self@[j].knowledge_id
                        == knowledge_id),
        {
            let b = self.rows[i];
            if b.chapter_id == chapter_id && b.knowledge_id == knowledge_id {
                proof {
                    assert(self@[i as int] == b);
                    assert(self@.contains(b));
                }
                return Option::Some(b);
            }
        }
        Option::None
    }

    /// All links whose chapter endpoint appears in `ids`, in store order.
    pub fn find_by_chapter_ids(&self, ids: &Vec<i32>) -> (r: Vec<ChapterKnowledge>)
        ensures
            r@ == self@.filter(chapter_in(ids@)),
    {
        let mut out: Vec<ChapterKnowledge> = Vec::new();
        let n = self.rows.len();
        for i in 0..n
            invariant
                n == self.rows.len(),
                out@ == self@.take(i as int).filter(chapter_in(ids@)),
        {
            proof {
                self@.lemma_take_succ_push(i as int);
                self@.take(i as int).lemma_filter_push(self@[i as int], chapter_in(ids@));
            }
            let b = self.rows[i];
            if crate::bridge::contains_id(ids, b.chapter_id) {
                out.push(b);
            }
        }
        proof {
            assert(self@.take(n as int) =~= self@);
        }
        out
    }

    /// All links whose knowledge endpoint appears in `ids`, in store order.
    pub fn find_by_knowledge_ids(&self, ids: &Vec<i32>) -> (r: Vec<ChapterKnowledge>)
        ensures
            r@ == self@.filter(knowledge_in(ids@)),
    {
        let mut out: Vec<ChapterKnowledge> = Vec::new();
        let n = self.rows.len();
        for i in 0..n
            invariant
                n == self.rows.len(),
                out@ == self@.take(i as int).filter(knowledge_in(ids@)),
        {
            proof {
                self@.lemma_take_succ_push(i as int);
                self@.take(i as int).lemma_filter_push(self@[i as int], knowledge_in(ids@));
            }
            let b = self.rows[i];
            if crate::bridge::contains_id(ids, b.knowledge_id) {
                out.push(b);
            }
        }
        proof {
            assert(self@.take(n as int) =~= self@);
        }
        out
    }

    /// All links either of whose endpoints appears in `ids`, in store order.
    pub fn find_by_ids(&self, ids: &Vec<i32>) -> (r: Vec<ChapterKnowledge>)
        ensures
            r@ == self@.filter(either_in(ids@)),
    {
        let mut out: Vec<ChapterKnowledge> = Vec::new();
        let n = self.rows.len();
        for i in 0..n
            invariant
                n == self.rows.len(),
                out@ == self@.take(i as int).filter(either_in(ids@)),
        {
            proof {
                self@.lemma_take_succ_push(i as int);
                self@.take(i as int).lemma_filter_push(self@[i as int], either_in(ids@));
            }
            let b = self.rows[i];
            if crate::bridge::contains_id(ids, b.chapter_id) || crate::bridge::contains_id(
                ids,
                b.knowledge_id,
            ) {
                out.push(b);
            }
        }
        proof {
            assert(self@.take(n as int) =~= self@);
        }
        out
    }

    /// Remove every link the node takes part in; returns how many were
    /// removed.
    pub fn delete_by_chapter_or_knowledge_id(&mut self, node_id: i32) -> (r: u64)
        requires
            old(self).wf(),
        ensures
            final(self).wf(),
            final(self)@ == old(self)@.filter(untouched_by(node_id as int)),
            r as int == old(self)@.len() - final(self)@.len(),
    {
        let ghost s = self@;
        let mut kept: Vec<ChapterKnowledge> = Vec::new();
        let ghost mut idxs: Seq<int> = Seq::empty();
        let n = self.rows.len();
        for i in 0..n
            invariant
                n == self.rows.len(),
                s == self@,
                s == old(self)@,
                self.spec_next_id() == old(self).spec_next_id(),
                kept@ == s.take(i as int).filter(untouched_by(node_id as int)),
                kept@.len() <= i,
                idxs.len() == kept@.len(),
                forall|a: int|
                    0 <= a < idxs.len() ==> 0 <= #[trigger] idxs[a] < i as int && s[idxs[a]]
                        == kept@[a],
                forall|a: int, b: int| 0 <= a < b < idxs.len() ==> idxs[a] < idxs[b],
        {
            proof {
                s.lemma_take_succ_push(i as int);
                s.take(i as int).lemma_filter_push(s[i as int], untouched_by(node_id as int));
                s.take(i as int).lemma_filter_len(untouched_by(node_id as int));
                assert(s.take(i as int).len() == i as int);
            }
            let b = self.rows[i];
            if !(b.chapter_id == node_id || b.knowledge_id == node_id) {
                kept.push(b);
                proof {
                    idxs = idxs.push(i as int);
                }
            }
        }
        proof {
            assert(s.take(n as int) =~= s);
        }
        let removed = (n - kept.len()) as u64;
        let ghost knext = self.spec_next_id();
        self.rows = kept;
        proof {
            let t = self@;
            assert forall|i: int, j: int|
                0 <= i < t.len() && 0 <= j < t.len() && i != j implies t[i].id != t[j].id && t[i].chapter_id
                != t[j].chapter_id && t[i].chapter_id != t[j].knowledge_id && t[i].knowledge_id
                != t[j].chapter_id && t[i].knowledge_id != t[j].knowledge_id by {
                assert(s[idxs[i]] == t[i] && s[idxs[j]] == t[j] && idxs[i] != idxs[j]);
            }
            assert forall|i: int| 0 <= i < t.len() implies 0 < #[trigger] t[i].id < knext by {
                assert(s[idxs[i]] == t[i]);
            }
        }
        removed
    }
}

/// Predicate selecting the links whose chapter endpoint is listed.
pub open spec fn chapter_in(ids: Seq<i32>) -> spec_fn(ChapterKnowledge) -> bool {
    |b: ChapterKnowledge| id_selected(ids, b.chapter_id as int)
}

/// Predicate selecting the links whose knowledge endpoint is listed.
pub open spec fn knowledge_in(ids: Seq<i32>) -> spec_fn(ChapterKnowledge) -> bool {
    |b: ChapterKnowledge| id_selected(ids, b.knowledge_id as int)
}

/// Predicate selecting the links either of whose endpoints is listed.
pub open spec fn either_in(ids: Seq<i32>) -> spec_fn(ChapterKnowledge) -> bool {
    |b: ChapterKnowledge| id_selected(ids, b.chapter_id as int) || id_selected(
        ids,
        b.knowledge_id as int,
    )
}

/// Predicate selecting the links the node takes part in neither side of.
pub open spec fn untouched_by(node_id: int) -> spec_fn(ChapterKnowledge) -> bool {
    |b: ChapterKnowledge| !bridge_touches(b, node_id)
}

/// The list contains the identifier.
pub(crate) fn contains_id(ids: &Vec<i32>, id: i32) -> (r: bool)
    ensures
        r == id_selected(ids@, id as int),
{
    let n = ids.len();
    for k in 0..n
        invariant
            n == ids.len(),
            forall|j: int| 0 <= j < k ==> ids@[j] as int != id as int,
    {
        if ids[k] == id {
            return true;
        }
    }
    false
}

} // verus!
