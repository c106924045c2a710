//! The node store: the durable table of tree nodes, kept in memory.
//!
//! It offers the point lookups, parent-indexed lookups, depth-bounded
//! lookups and atomic multi-row updates that the tree manager builds on.
//! Contracts are stated over the store's view, a sequence of [`NodeV`].

use vstd::prelude::*;

use crate::digest::{get_label_key, spec_label_key};
use crate::errors::StoreError;
use crate::node::{
    anc, depth_bounded, depth_consistent, has_node, ids_below, ids_unique, idx_of, lemma_anc_add,
    lemma_anc_depth, lemma_node_at_index, node_of, reaches, siblings_unique, wf, NodeV, Textbook,
    DEPTH_LIMIT,
};
use crate::order::{sort_rows, spec_level_sort};

verus! {

/// Some stored node has this parent.
pub open spec fn has_child(s: Seq<NodeV>, parent_id: int) -> bool {
    exists|i: int| 0 <= i < s.len() && s[i].parent_id == Option::Some(parent_id)
}

/// The node matches a `(parent, label)` lookup that may exclude one identifier.
pub open spec fn matches_parent_label(
    n: NodeV,
    parent_id: Option<int>,
    label: Seq<char>,
    exclude_id: Option<int>,
) -> bool {
    &&& n.parent_id == parent_id
    &&& n.label == label
    &&& match exclude_id {
        Option::None => true,
        Option::Some(e) => n.id != e,
    }
}

/// The identifier appears in the list.
pub open spec fn id_selected(ids: Seq<i32>, id: int) -> bool {
    exists|k: int| 0 <= k < ids.len() && ids[k] as int == id
}

/// The durable table of tree nodes.
pub struct NodeStore {
    rows: Vec<Textbook>,
    next_id: i32,
}

impl View for NodeStore {
    type V = Seq<NodeV>;

    closed spec fn view(&self) -> Seq<NodeV> {
        Seq::new(self.rows@.len(), |i: int| self.rows@[i]@)
    }
}

impl NodeStore {
    /// The next identifier the store will assign.
    pub closed spec fn spec_next_id(&self) -> int {
        self.next_id as int
    }

    /// The maintained invariant of the store.
    pub open spec fn wf(&self) -> bool {
        wf(self@, self.spec_next_id())
    }

    /// An empty store.
    pub fn new() -> (r: NodeStore)
        ensures
            r@ == Seq::<NodeV>::empty(),
            r.wf(),
    {
        let r = NodeStore { rows: Vec::new(), next_id: 1 };
        proof {
            assert(r@ =~= Seq::<NodeV>::empty());
        }
        r
    }

    /// Point lookup by identifier.
    pub fn find_by_id(&self, id: i32) -> (r: Option<&Textbook>)
        requires
            self.wf(),
        ensures
            match r {
                Option::Some(t) => has_node(self@, id as int) && t@ == node_of(self@, id as int),
                Option::None => !has_node(self@, id as int),
            },
    {
        let n = self.rows.len();
        for i in 0..n
            invariant
                n == self.rows.len(),
                self.wf(),
                forall|j: int| 0 <= j < i ==> self@[j].id != id as int,
        {
            if self.rows[i].id == id {
                proof {
                    lemma_node_at_index(self@, i as int);
                }
                return Option::Some(&self.rows[i]);
            }
        }
        Option::None
    }

    /// First stored child of the given parent, if any; used as an
    /// existence check before deletion.
    pub fn find_by_parent_id(&self, parent_id: i32) -> (r: Option<&Textbook>)
        requires
            self.wf(),
        ensures
            r is Some <==> has_child(self@, parent_id as int),
            match r {
                Option::Some(t) => t@.parent_id == Option::Some(parent_id as int),
                Option::None => true,
            },
    {
        let n = self.rows.len();
        for i in 0..n
            invariant
                n == self.rows.len(),
                self.wf(),
                forall|j: int| 0 <= j < i ==> self@[j].parent_id != Option::Some(parent_id as int),
        {
            match self.rows[i].parent_id {
                Option::Some(p) => {
                    if p == parent_id {
                        assert(self@[i as int].parent_id == Option::Some(parent_id as int));
                        return Option::Some(&self.rows[i]);
                    }
                },
                Option::None => {},
            }
        }
        Option::None
    }

    /// Lookup by `(parent, label)`, optionally excluding one identifier;
    /// this is the sibling-uniqueness probe.
    pub fn find_by_parent_and_label(
        &self,
        parent_id: Option<i32>,
        label: &str,
        exclude_id: Option<i32>,
    ) -> (r: Option<&Textbook>)
        requires
            self.wf(),
        ensures
            r is Some <==> exists|i: int|
                0 <= i < self@.len() && matches_parent_label(
                    self@[i],
                    spec_opt_id(parent_id),
                    label@,
                    spec_opt_id(exclude_id),
                ),
            match r {
                Option::Some(t) => matches_parent_label(
                    t@,
                    spec_opt_id(parent_id),
                    label@,
                    spec_opt_id(exclude_id),
                ),
                Option::None => true,
            },
    {
        let label_owned: String = label.to_owned();
        let n = self.rows.len();
        for i in 0..n
            invariant
                n == self.rows.len(),
                self.wf(),
                label_owned@ == label@,
                forall|j: int|
                    0 <= j < i ==> !matches_parent_label(
                        self@[j],
                        spec_opt_id(parent_id),
                        label@,
                        spec_opt_id(exclude_id),
                    ),
        {
            let row = &self.rows[i];
            let parent_matches = match (row.parent_id, parent_id) {
                (Option::Some(a), Option::Some(b)) => a == b,
                (Option::None, Option::None) => true,
                _ => false,
            };
            let excluded = match exclude_id {
                Option::Some(e) => row.id == e,
                Option::None => false,
            };
            if parent_matches && !excluded && row.label == label_owned {
                assert(matches_parent_label(
                    self@[i as int],
                    spec_opt_id(parent_id),
                    label@,
                    spec_opt_id(exclude_id),
                ));
                return Option::Some(&self.rows[i]);
            }
        }
        Option::None
    }

    /// Batch lookup: all stored nodes whose identifier appears in `ids`,
    /// in store order.
    pub fn find_by_ids(&self, ids: &Vec<i32>) -> (r: Vec<Textbook>)
        requires
            self.wf(),
        ensures
            views_of(r@) == self@.filter(selected_by(ids@)),
    {
        let mut out: Vec<Textbook> = Vec::new();
        let n = self.rows.len();
        for i in 0..n
            invariant
                n == self.rows.len(),
                self.wf(),
                views_of(out@) == self@.take(i as int).filter(selected_by(ids@)),
        {
            proof {
                self@.lemma_take_succ_push(i as int);
                self@.take(i as int).lemma_filter_push(self@[i as int], selected_by(ids@));
            }
            let row = &self.rows[i];
            if contains_id(ids, row.id) {
                let ghost prev = views_of(out@);
                out.push(row.duplicate());
                proof {
                    assert(views_of(out@) =~= prev.push(self@[i as int]));
                }
            }
        }
        proof {
            assert(self@.take(n as int) =~= self@);
        }
        out
    }

    /// Identifier of the next node the store would create.
    pub fn peek_next_id(&self) -> (r: i32)
        ensures
            r as int == self.spec_next_id(),
    {
        self.next_id
    }

    /// Create a node. The parent must be stored (`NotFound` otherwise), a
    /// depth given with the request must agree with the parent chain and
    /// the label must be free under the parent (`Conflict` otherwise);
    /// `StoreFailure` reports an exhausted store.
    pub fn insert(
        &mut self,
        parent_id: Option<i32>,
        label: &str,
        path_depth: Option<i32>,
        sort_order: i32,
        path_type: &str,
    ) -> (r: Result<Textbook, StoreError>)
        requires
            old(self).wf(),
        ensures
            final(self).wf(),
            match r {
                Result::Ok(t) => {
                    &&& final(self)@ == old(self)@.push(t@)
                    &&& t@.id == old(self).spec_next_id()
                    &&& t@.parent_id == spec_opt_id(parent_id)
                    &&& t@.label == label@
                    &&& t@.key == spec_label_key(spec_opt_id(parent_id), label@)
                    &&& t@.sort_order == sort_order as int
                    &&& t@.path_type == path_type@
                    &&& t@.depth == spec_insert_depth(old(self)@, spec_opt_id(parent_id))
                    &&& spec_insert_ok(old(self)@, old(self).spec_next_id(), spec_opt_id(parent_id), label@, spec_opt_depth(path_depth))
                },
                Result::Err(e) => {
                    &&& final(self)@ == old(self)@
                    &&& !spec_insert_ok(old(self)@, old(self).spec_next_id(), spec_opt_id(parent_id), label@, spec_opt_depth(path_depth))
                    &&& e == spec_insert_err(old(self)@, old(self).spec_next_id(), spec_opt_id(parent_id), label@, spec_opt_depth(path_depth))
                },
            },
    {
        let parent_depth: i32 = match parent_id {
            Option::Some(p) => {
                match self.find_by_id(p) {
                    Option::Some(t) => t.path_depth,
                    Option::None => {
                        return Result::Err(StoreError::NotFound);
                    },
                }
            },
            Option::None => 0,
        };
        if parent_depth >= DEPTH_LIMIT {
            return Result::Err(StoreError::StoreFailure);
        }
        let depth = parent_depth + 1;
        match path_depth {
            Option::Some(d) => {
                if d != depth {
                    return Result::Err(StoreError::Conflict);
                }
            },
            Option::None => {},
        }
        if self.find_by_parent_and_label(parent_id, label, Option::None).is_some() {
            return Result::Err(StoreError::Conflict);
        }
        if self.next_id == i32::MAX {
            return Result::Err(StoreError::StoreFailure);
        }
        let row = Textbook {
            id: self.next_id,
            path_type: path_type.to_owned(),
            parent_id,
            label: label.to_owned(),
            key: get_label_key(parent_id, label),
            path_depth: depth,
            sort_order,
        };
        let result = row.duplicate();
        let ghost prev = self@;
        self.rows.push(row);
        self.next_id = self.next_id + 1;
        proof {
            assert(self@ =~= prev.push(result@));
            self.lemma_insert_wf(prev, result@);
        }
        Result::Ok(result)
    }

    proof fn lemma_insert_wf(&self, prev: Seq<NodeV>, t: NodeV)
        requires
            wf(prev, t.id),
            t.id >= 1,
            self@ == prev.push(t),
            self.spec_next_id() == t.id + 1,
            t.id + 1 <= i32::MAX as int,
            match t.parent_id {
                Option::None => t.depth == 1,
                Option::Some(p) => has_node(prev, p) && t.depth == node_of(prev, p).depth + 1,
            },
            1 <= t.depth <= DEPTH_LIMIT as int,
            forall|i: int|
                0 <= i < prev.len() ==> !matches_parent_label(
                    #[trigger] prev[i],
                    t.parent_id,
                    t.label,
                    Option::None,
                ),
        ensures
            self.wf(),
    {
        let s = self@;
        let n = prev.len() as int;
        assert(ids_unique(s)) by {
            assert(forall|i: int| 0 <= i < n ==> s[i] == prev[i]);
            assert(forall|i: int| 0 <= i < n ==> #[trigger] prev[i].id < t.id);
        }
        assert(ids_below(s, self.spec_next_id()));
        assert(depth_bounded(s));
        assert(siblings_unique(s)) by {
            assert(forall|i: int|
                0 <= i < n ==> !(#[trigger] prev[i].parent_id == t.parent_id && prev[i].label
                    == t.label));
        }
        assert forall|i: int| 0 <= i < s.len() implies match #[trigger] s[i].parent_id {
            Option::None => s[i].depth == 1,
            Option::Some(p) => has_node(s, p) && s[i].depth == node_of(s, p).depth + 1,
        } by {
            if i < n {
                match s[i].parent_id {
                    Option::None => {},
                    Option::Some(p) => {
                        assert(has_node(prev, p));
                        let j = choose|j: int| 0 <= j < prev.len() && prev[j].id == p;
                        assert(s[j].id == p);
                        assert(has_node(s, p));
                        lemma_node_at_index(s, j);
                        lemma_node_at_index(prev, j);
                    },
                }
            } else {
                match t.parent_id {
                    Option::None => {},
                    Option::Some(p) => {
                        let j = choose|j: int| 0 <= j < prev.len() && prev[j].id == p;
                        assert(s[j].id == p);
                        assert(has_node(s, p));
                        lemma_node_at_index(s, j);
                        lemma_node_at_index(prev, j);
                    },
                }
            }
        }
    }
}

impl NodeStore {
    /// Whether `potential_parent_id` lies in the subtree below
    /// `target_id`; a move of `target_id` under such a node would create
    /// a cycle.
    pub fn is_descendant(&self, target_id: i32, potential_parent_id: i32) -> (r: bool)
        requires
            self.wf(),
        ensures
            r == reaches(self@, potential_parent_id as int, target_id as int),
    {
        self.walks_up_to(potential_parent_id, target_id)
    }

    /// Walk the parent chain upward from `node_id` and report whether it
    /// meets `anc_id`.
    #[verifier::rlimit(60)]
    fn walks_up_to(&self, node_id: i32, anc_id: i32) -> (r: bool)
        requires
            self.wf(),
        ensures
            r == reaches(self@, node_id as int, anc_id as int),
    {
        let ghost s = self@;
        let mut cur: i32 = node_id;
        let ghost mut j: nat = 0nat;
        if self.find_by_id(cur).is_none() {
            proof {
                assert forall|k: nat| k >= 1 implies anc(s, node_id as int, k) != Option::Some(
                    anc_id as int,
                ) by {
                    assert(anc(s, node_id as int, k) is None);
                }
            }
            return false;
        }
        loop
            invariant
                self.wf(),
                s == self@,
                has_node(s, cur as int),
                anc(s, node_id as int, j) == Option::Some(cur as int),
                forall|k: nat|
                    1 <= k <= j ==> anc(s, node_id as int, k) != Option::Some(anc_id as int),
            decreases node_of(s, cur as int).depth,
        {
            let row = match self.find_by_id(cur) {
                Option::Some(t) => t,
                Option::None => {
                    proof {
                        assert(false);
                    }
                    return false;
                },
            };
            match row.parent_id {
                Option::None => {
                    proof {
                        assert forall|k: nat| k >= 1 implies anc(s, node_id as int, k)
                            != Option::Some(anc_id as int) by {
                            if k <= j {
                            } else {
                                lemma_anc_add(s, node_id as int, j, (k - j) as nat, cur as int);
                                assert(anc(s, cur as int, (k - j) as nat) is None);
                            }
                        }
                    }
                    return false;
                },
                Option::Some(p) => {
                    proof {
                        assert(node_of(s, cur as int).parent_id == Option::Some(p as int));
                        crate::node::lemma_anc_step(s, cur as int, p as int, 0nat);
                        assert(anc(s, p as int, 0nat) == Option::Some(p as int));
                        lemma_anc_add(s, node_id as int, j, 1nat, cur as int);
                        assert(anc(s, cur as int, 1nat) == Option::Some(p as int));
                        j = j + 1;
                    }
                    if p == anc_id {
                        proof {
                            assert(anc(s, node_id as int, j) == Option::Some(anc_id as int));
                        }
                        return true;
                    }
                    proof {
                        let i = choose|i: int| 0 <= i < s.len() && s[i].id == cur as int;
                        lemma_node_at_index(s, i);
                    }
                    cur = p;
                },
            }
        }
    }

    /// All nodes at or above the given depth bound, in listing order.
    pub fn find_all_by_depth(&self, depth: u32) -> (r: Vec<Textbook>)
        requires
            self.wf(),
        ensures
            views_of(r@) == spec_level_sort(self@.filter(depth_at_most(depth as int))),
    {
        let mut picked: Vec<Textbook> = Vec::new();
        let n = self.rows.len();
        for i in 0..n
            invariant
                n == self.rows.len(),
                self.wf(),
                views_of(picked@) == self@.take(i as int).filter(depth_at_most(depth as int)),
        {
            proof {
                self@.lemma_take_succ_push(i as int);
                self@.take(i as int).lemma_filter_push(self@[i as int], depth_at_most(depth as int));
            }
            let row = &self.rows[i];
            if row.path_depth as i64 <= depth as i64 {
                let ghost prev = views_of(picked@);
                picked.push(row.duplicate());
                proof {
                    assert(views_of(picked@) =~= prev.push(self@[i as int]));
                }
            }
        }
        proof {
            assert(self@.take(n as int) =~= self@);
        }
        sort_rows(picked)
    }

    /// All nodes in the subtree below `root_id`, in listing order.
    pub fn find_all_by_parent_id(&self, root_id: i32) -> (r: Vec<Textbook>)
        requires
            self.wf(),
        ensures
            views_of(r@) == spec_level_sort(self@.filter(subtree_of(self@, root_id as int))),
    {
        let mut picked: Vec<Textbook> = Vec::new();
        let n = self.rows.len();
        for i in 0..n
            invariant
                n == self.rows.len(),
                self.wf(),
                views_of(picked@) == self@.take(i as int).filter(subtree_of(self@, root_id as int)),
        {
            proof {
                self@.lemma_take_succ_push(i as int);
                self@.take(i as int).lemma_filter_push(
                    self@[i as int],
                    subtree_of(self@, root_id as int),
                );
            }
            let row = &self.rows[i];
            if self.walks_up_to(row.id, root_id) {
                let ghost prev = views_of(picked@);
                picked.push(row.duplicate());
                proof {
                    assert(views_of(picked@) =~= prev.push(self@[i as int]));
                }
            }
        }
        proof {
            assert(self@.take(n as int) =~= self@);
        }
        sort_rows(picked)
    }

    /// Overwrite one row: parent, label, sibling order, depth and path
    /// type are replaced, the key is kept. Used inside the reparent
    /// transaction, after the cascade has shifted the subtree.
    pub fn update(
        &mut self,
        id: i32,
        parent_id: Option<i32>,
        label: &str,
        sort_order: i32,
        path_depth: i32,
        path_type: &str,
    ) -> (r: Result<Textbook, StoreError>)
        requires
            ids_unique(old(self)@),
        ensures
            final(self).spec_next_id() == old(self).spec_next_id(),
            ids_unique(final(self)@),
            match r {
                Result::Ok(t) => {
                    &&& has_node(old(self)@, id as int)
                    &&& t@ == updated_node(
                        old(self)@,
                        id as int,
                        spec_opt_id(parent_id),
                        label@,
                        sort_order as int,
                        path_depth as int,
                        path_type@,
                    )
                    &&& final(self)@ == replace_row(old(self)@, id as int, t@)
                },
                Result::Err(e) => {
                    &&& final(self)@ == old(self)@
                    &&& !has_node(old(self)@, id as int)
                    &&& e == StoreError::NotFound
                },
            },
    {
        let ghost s = self@;
        let n = self.rows.len();
        for i in 0..n
            invariant
                n == self.rows.len(),
                s == self@,
                s == old(self)@,
                self.spec_next_id() == old(self).spec_next_id(),
                ids_unique(s),
                forall|j: int| 0 <= j < i ==> s[j].id != id as int,
        {
            if self.rows[i].id == id {
                proof {
                    lemma_node_at_index(s, i as int);
                    assert(has_node(s, id as int));
                }
                let key = self.rows[i].key.clone();
                let row = Textbook {
                    id,
                    path_type: path_type.to_owned(),
                    parent_id,
                    label: label.to_owned(),
                    key,
                    path_depth,
                    sort_order,
                };
                let result = row.duplicate();
                self.rows.set(i, row);
                proof {
                    assert(self@ =~= replace_row(s, id as int, result@));
                    assert forall|a: int, b: int|
                        0 <= a < self@.len() && 0 <= b < self@.len() && a != b implies self@[a].id
                            != self@[b].id by {
                        assert(self@[a].id == s[a].id);
                        assert(self@[b].id == s[b].id);
                    }
                }
                return Result::Ok(result);
            }
        }
        Result::Err(StoreError::NotFound)
    }

    /// Shift a subtree: set the root's parent, give it the new depth, and
    /// move every descendant so that relative depths are preserved; the
    /// path type is rewritten throughout. Returns the number of rows
    /// written; a depth pushed past the store's limit fails the whole
    /// operation with `StoreFailure` and writes nothing.
    pub fn update_descendant_depth(
        &mut self,
        target_id: i32,
        new_parent_id: Option<i32>,
        new_depth: i32,
        new_path_type: &str,
    ) -> (r: Result<u64, StoreError>)
        requires
            old(self).wf(),
        ensures
            final(self).spec_next_id() == old(self).spec_next_id(),
            match r {
                Result::Ok(count) => {
                    if has_node(old(self)@, target_id as int) {
                        &&& spec_cascade_ok(old(self)@, target_id as int, new_depth as int)
                        &&& final(self)@ == cascade_rows(
                            old(self)@,
                            target_id as int,
                            spec_opt_id(new_parent_id),
                            new_depth as int,
                            new_path_type@,
                        )
                        &&& count as int == old(self)@.filter(
                            affected_by(old(self)@, target_id as int),
                        ).len()
                    } else {
                        final(self)@ == old(self)@ && count == 0
                    }
                },
                Result::Err(e) => {
                    &&& final(self)@ == old(self)@
                    &&& has_node(old(self)@, target_id as int)
                    &&& !spec_cascade_ok(old(self)@, target_id as int, new_depth as int)
                    &&& e == StoreError::StoreFailure
                },
            },
    {
        let ghost s = self@;
        let target_depth: i32 = match self.find_by_id(target_id) {
            Option::Some(t) => t.path_depth,
            Option::None => {
                return Result::Ok(0);
            },
        };
        if new_depth < 1 || new_depth > DEPTH_LIMIT {
            return Result::Err(StoreError::StoreFailure);
        }
        // First pass: decide which rows move and where, before anything is
        // written, so that a depth overflow aborts the operation unseen.
        let mut flags: Vec<bool> = Vec::new();
        let mut new_depths: Vec<i32> = Vec::new();
        let mut count: u64 = 0;
        let n = self.rows.len();
        for i in 0..n
            invariant
                n == self.rows.len(),
                s == self@,
                s == old(self)@,
                self.wf(),
                has_node(s, target_id as int),
                target_depth as int == node_of(s, target_id as int).depth,
                1 <= new_depth as int <= DEPTH_LIMIT as int,
                flags@.len() == i,
                new_depths@.len() == i,
                forall|j: int|
                    0 <= j < i ==> flags@[j] == reaches(s, #[trigger] s[j].id, target_id as int),
                forall|j: int|
                    0 <= j < i && flags@[j] ==> #[trigger] new_depths@[j] as int == new_depth as int
                        + s[j].depth - target_depth as int && 1 <= new_depths@[j] as int
                        <= DEPTH_LIMIT as int,
                count as int == s.take(i as int).filter(affected_by(s, target_id as int)).len(),
                count as int <= i as int,
        {
            proof {
                s.lemma_take_succ_push(i as int);
                s.take(i as int).lemma_filter_push(s[i as int], affected_by(s, target_id as int));
                s.take(i as int).lemma_filter_len(affected_by(s, target_id as int));
                assert(s.take(i as int).len() == i as int);
            }
            let row_id = self.rows[i].id;
            let row_depth = self.rows[i].path_depth;
            proof {
                assert(s[i as int].id == row_id as int);
                assert(s[i as int].depth == row_depth as int);
            }
            let is_desc = self.walks_up_to(row_id, target_id);
            flags.push(is_desc);
            if is_desc {
                proof {
                    let k = choose|k: nat|
                        k >= 1 && anc(s, s[i as int].id, k) == Option::Some(target_id as int);
                    lemma_anc_depth(s, s[i as int].id, k, target_id as int);
                }
                let shifted: i64 = new_depth as i64 + row_depth as i64 - target_depth as i64;
                if shifted > DEPTH_LIMIT as i64 {
                    return Result::Err(StoreError::StoreFailure);
                }
                new_depths.push(shifted as i32);
                count = count + 1;
            } else {
                new_depths.push(row_depth);
                if row_id == target_id {
                    count = count + 1;
                }
            }
        }
        proof {
            assert(s.take(n as int) =~= s);
            assert(spec_cascade_ok(s, target_id as int, new_depth as int)) by {
                assert forall|i: int|
                    0 <= i < s.len() && reaches(s, #[trigger] s[i].id, target_id as int) implies
                    new_depth as int + s[i].depth - node_of(s, target_id as int).depth
                        <= DEPTH_LIMIT as int by {
                    assert(flags@[i] == reaches(s, s[i].id, target_id as int));
                    assert(flags@[i]);
                    assert(new_depths@[i] as int == new_depth as int + s[i].depth
                        - target_depth as int && new_depths@[i] as int <= DEPTH_LIMIT as int);
                }
            }
        }
        // Second pass: write the new rows.
        for i in 0..n
            invariant
                n == self.rows.len(),
                n == flags@.len(),
                n == new_depths@.len(),
                n == s.len(),
                s == old(self)@,
                self.spec_next_id() == old(self).spec_next_id(),
                has_node(s, target_id as int),
                target_depth as int == node_of(s, target_id as int).depth,
                forall|j: int|
                    0 <= j < n ==> flags@[j] == reaches(s, #[trigger] s[j].id, target_id as int),
                forall|j: int|
                    0 <= j < n && flags@[j] ==> #[trigger] new_depths@[j] as int == new_depth as int
                        + s[j].depth - target_depth as int,
                forall|j: int| i <= j < n ==> self@[j] == s[j],
                forall|j: int|
                    0 <= j < i ==> self@[j] == cascade_one(
                        s,
                        s[j],
                        target_id as int,
                        spec_opt_id(new_parent_id),
                        new_depth as int,
                        new_path_type@,
                    ),
        {
            let ghost before = self@;
            proof {
                assert(self@[i as int] == s[i as int]);
                assert(flags@[i as int] == reaches(s, s[i as int].id, target_id as int));
            }
            let row = &self.rows[i];
            if row.id == target_id {
                let fresh = Textbook {
                    id: target_id,
                    path_type: new_path_type.to_owned(),
                    parent_id: new_parent_id,
                    label: row.label.clone(),
                    key: row.key.clone(),
                    path_depth: new_depth,
                    sort_order: row.sort_order,
                };
                self.rows.set(i, fresh);
                proof {
                    assert(self@[i as int] == cascade_one(
                        s,
                        s[i as int],
                        target_id as int,
                        spec_opt_id(new_parent_id),
                        new_depth as int,
                        new_path_type@,
                    ));
                    assert(forall|j: int| 0 <= j < n && j != i ==> self@[j] == before[j]);
                }
            } else if flags[i] {
                let fresh = Textbook {
                    id: row.id,
                    path_type: new_path_type.to_owned(),
                    parent_id: row.parent_id,
                    label: row.label.clone(),
                    key: row.key.clone(),
                    path_depth: new_depths[i],
                    sort_order: row.sort_order,
                };
                self.rows.set(i, fresh);
                proof {
                    assert(self@[i as int] == cascade_one(
                        s,
                        s[i as int],
                        target_id as int,
                        spec_opt_id(new_parent_id),
                        new_depth as int,
                        new_path_type@,
                    ));
                    assert(forall|j: int| 0 <= j < n && j != i ==> self@[j] == before[j]);
                }
            } else {
                proof {
                    assert(self@[i as int] == cascade_one(
                        s,
                        s[i as int],
                        target_id as int,
                        spec_opt_id(new_parent_id),
                        new_depth as int,
                        new_path_type@,
                    ));
                    assert(forall|j: int| 0 <= j < n && j != i ==> self@[j] == before[j]);
                }
            }
            proof {
                assert forall|j: int| 0 <= j < i + 1 implies self@[j] == cascade_one(
                    s,
                    s[j],
                    target_id as int,
                    spec_opt_id(new_parent_id),
                    new_depth as int,
                    new_path_type@,
                ) by {
                    if j == i as int {
                    } else {
                        assert(self@[j] == before[j]);
                        assert(before[j] == cascade_one(
                            s,
                            s[j],
                            target_id as int,
                            spec_opt_id(new_parent_id),
                            new_depth as int,
                            new_path_type@,
                        ));
                    }
                }
            }
        }
        proof {
            assert(self@ =~= cascade_rows(
                s,
                target_id as int,
                spec_opt_id(new_parent_id),
                new_depth as int,
                new_path_type@,
            ));
        }
        Result::Ok(count)
    }

    /// Remove one row by identifier; returns the number of rows removed.
    pub fn delete(&mut self, id: i32) -> (r: u64)
        requires
            ids_unique(old(self)@),
        ensures
            final(self).spec_next_id() == old(self).spec_next_id(),
            if has_node(old(self)@, id as int) {
                r == 1 && final(self)@ == old(self)@.remove(idx_of(old(self)@, id as int))
            } else {
                r == 0 && final(self)@ == old(self)@
            },
    {
        let ghost s = self@;
        let n = self.rows.len();
        for i in 0..n
            invariant
                n == self.rows.len(),
                s == self@,
                s == old(self)@,
                self.spec_next_id() == old(self).spec_next_id(),
                ids_unique(s),
                forall|j: int| 0 <= j < i ==> s[j].id != id as int,
        {
            if self.rows[i].id == id {
                proof {
                    assert(s[i as int].id == id as int);
                    assert(has_node(s, id as int));
                }
                let _removed = self.rows.remove(i);
                proof {
                    let k = idx_of(s, id as int);
                    assert(0 <= k < s.len() && s[k].id == id as int);
                    assert(k == i as int);
                    assert(self@ =~= s.remove(i as int));
                }
                return 1;
            }
        }
        0
    }
}

/// The views of a sequence of stored rows.
pub open spec fn views_of(rows: Seq<Textbook>) -> Seq<NodeV> {
    Seq::new(rows.len(), |i: int| rows[i]@)
}

/// Predicate selecting the nodes at or above a depth bound.
pub open spec fn depth_at_most(d: int) -> spec_fn(NodeV) -> bool {
    |n: NodeV| n.depth <= d
}

/// Predicate selecting the strict descendants of `root`.
pub open spec fn subtree_of(s: Seq<NodeV>, root: int) -> spec_fn(NodeV) -> bool {
    |n: NodeV| reaches(s, n.id, root)
}

/// One row as the reparent cascade leaves it: the moved node gets the new
/// parent and depth, each of its descendants keeps its relative depth, and
/// both take the new path type; every other row is untouched.
pub open spec fn cascade_one(
    s: Seq<NodeV>,
    n: NodeV,
    target: int,
    new_parent: Option<int>,
    new_depth: int,
    new_path_type: Seq<char>,
) -> NodeV {
    if n.id == target {
        NodeV { parent_id: new_parent, depth: new_depth, path_type: new_path_type, ..n }
    } else if reaches(s, n.id, target) {
        NodeV {
            depth: new_depth + n.depth - node_of(s, target).depth,
            path_type: new_path_type,
            ..n
        }
    } else {
        n
    }
}

/// The whole store as the reparent cascade leaves it.
pub open spec fn cascade_rows(
    s: Seq<NodeV>,
    target: int,
    new_parent: Option<int>,
    new_depth: int,
    new_path_type: Seq<char>,
) -> Seq<NodeV> {
    Seq::new(s.len(), |i: int| cascade_one(s, s[i], target, new_parent, new_depth, new_path_type))
}

/// Predicate selecting the rows the cascade writes: the moved node and
/// its strict descendants.
pub open spec fn affected_by(s: Seq<NodeV>, target: int) -> spec_fn(NodeV) -> bool {
    |n: NodeV| n.id == target || reaches(s, n.id, target)
}

/// The cascade fits: the new depth is admissible and no descendant is
/// pushed past the store's depth limit.
pub open spec fn spec_cascade_ok(s: Seq<NodeV>, target: int, new_depth: int) -> bool {
    &&& 1 <= new_depth <= DEPTH_LIMIT as int
    &&& forall|i: int|
        0 <= i < s.len() && reaches(s, #[trigger] s[i].id, target) ==> new_depth + s[i].depth
            - node_of(s, target).depth <= DEPTH_LIMIT as int
}

/// The row as `update` rewrites it: new parent, label, ordering, depth and
/// path type; the derived key is kept.
pub open spec fn updated_node(
    s: Seq<NodeV>,
    id: int,
    parent_id: Option<int>,
    label: Seq<char>,
    sort_order: int,
    depth: int,
    path_type: Seq<char>,
) -> NodeV {
    NodeV {
        id: id,
        path_type: path_type,
        parent_id: parent_id,
        label: label,
        key: node_of(s, id).key,
        depth: depth,
        sort_order: sort_order,
    }
}

/// The store with the row of `id` replaced by `n`.
pub open spec fn replace_row(s: Seq<NodeV>, id: int, n: NodeV) -> Seq<NodeV> {
    Seq::new(s.len(), |i: int| if s[i].id == id { n } else { s[i] })
}

/// Predicate selecting the nodes whose identifier appears in `ids`.
pub open spec fn selected_by(ids: Seq<i32>) -> spec_fn(NodeV) -> bool {
    |n: NodeV| id_selected(ids, n.id)
}

/// The mathematical value of an optional identifier.
pub open spec fn spec_opt_id(id: Option<i32>) -> Option<int> {
    match id {
        Option::None => Option::None,
        Option::Some(p) => Option::Some(p as int),
    }
}

/// The mathematical value of an optional depth.
pub open spec fn spec_opt_depth(d: Option<i32>) -> Option<int> {
    match d {
        Option::None => Option::None,
        Option::Some(p) => Option::Some(p as int),
    }
}

/// Depth the store assigns to a node created under this parent.
pub open spec fn spec_insert_depth(s: Seq<NodeV>, parent_id: Option<int>) -> int {
    match parent_id {
        Option::None => 1,
        Option::Some(p) => node_of(s, p).depth + 1,
    }
}

/// Creation succeeds: the parent (if any) is stored and not at the depth
/// limit, a depth given with the request agrees with the parent chain, the
/// label is free under the parent, and identifiers are not exhausted.
pub open spec fn spec_insert_ok(
    s: Seq<NodeV>,
    next_id: int,
    parent_id: Option<int>,
    label: Seq<char>,
    path_depth: Option<int>,
) -> bool {
    &&& match parent_id {
        Option::None => true,
        Option::Some(p) => has_node(s, p) && node_of(s, p).depth < DEPTH_LIMIT as int,
    }
    &&& match path_depth {
        Option::None => true,
        Option::Some(d) => d == spec_insert_depth(s, parent_id),
    }
    &&& !(exists|i: int|
        0 <= i < s.len() && matches_parent_label(s[i], parent_id, label, Option::None))
    &&& next_id < i32::MAX as int
}

/// The error kind a failed creation reports: a missing parent is
/// `NotFound`; a depth limit or exhausted identifiers are `StoreFailure`;
/// a wrong requested depth or an occupied label is `Conflict`.
pub open spec fn spec_insert_err(
    s: Seq<NodeV>,
    next_id: int,
    parent_id: Option<int>,
    label: Seq<char>,
    path_depth: Option<int>,
) -> StoreError {
    if (match parent_id {
        Option::None => false,
        Option::Some(p) => !has_node(s, p),
    }) {
        StoreError::NotFound
    } else if (match parent_id {
        Option::None => false,
        Option::Some(p) => node_of(s, p).depth >= DEPTH_LIMIT as int,
    }) {
        StoreError::StoreFailure
    } else if (match path_depth {
        Option::None => false,
        Option::Some(d) => d != spec_insert_depth(s, parent_id),
    }) {
        StoreError::Conflict
    } else if (exists|i: int|
        0 <= i < s.len() && matches_parent_label(s[i], parent_id, label, Option::None)) {
        StoreError::Conflict
    } else {
        StoreError::StoreFailure
    }
}

/// The list contains the identifier.
fn contains_id(ids: &Vec<i32>, id: i32) -> (r: bool)
    ensures
        r == id_selected(ids@, id as int),
{
    let n = ids.len();
    for k in 0..n
        invariant
            n == ids.len(),
            forall|j: int| 0 <= j < k ==> ids@[j] as int != id as int,
    {
        if ids[k] == id {
            return true;
        }
    }
    false
}

} // verus!
