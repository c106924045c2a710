//! The question-category table: labeled classification records attached
//! to a bridge identifier. Many categories may reference one bridge; a
//! bridge with live categories cannot be unlinked.

use vstd::prelude::*;

use crate::digest::{digest_prefix, md5_hex_of};
use crate::errors::StoreError;
use crate::store::id_selected;

verus! {

/// One category record.
pub struct QuestionCate {
    /// Identifier of the record.
    pub id: i32,
    /// The bridge this category attaches to.
    pub related_id: i32,
    /// Label of the category.
    pub label: String,
    /// Short digest key derived from the label.
    pub key: String,
    /// Ordering key.
    pub sort_order: i32,
}

/// Mathematical value of one category record.
pub ghost struct CateV {
    pub id: int,
    pub related_id: int,
    pub label: Seq<char>,
    pub key: Seq<char>,
    pub sort_order: int,
}

impl View for QuestionCate {
    type V = CateV;

    open spec fn view(&self) -> CateV {
        CateV {
            id: self.id as int,
            related_id: self.related_id as int,
            label: self.label@,
            key: self.key@,
            sort_order: self.sort_order as int,
        }
    }
}

impl QuestionCate {
    /// A fresh record holding the same values.
    pub fn duplicate(&self) -> (r: QuestionCate)
        ensures
            r@ == self@,
    {
        QuestionCate {
            id: self.id,
            related_id: self.related_id,
            label: self.label.clone(),
            key: self.key.clone(),
            sort_order: self.sort_order,
        }
    }
}

/// The views of a sequence of category records.
pub open spec fn cate_views(rows: Seq<QuestionCate>) -> Seq<CateV> {
    Seq::new(rows.len(), |i: int| rows[i]@)
}

/// Some stored category attaches to this bridge.
pub open spec fn has_category_for(s: Seq<CateV>, related_id: int) -> bool {
    exists|i: int| 0 <= i < s.len() && s[i].related_id == related_id
}

/// Predicate selecting the categories attached to a listed bridge.
pub open spec fn related_in(ids: Seq<i32>) -> spec_fn(CateV) -> bool {
    |c: CateV| id_selected(ids, c.related_id)
}

/// Predicate selecting the categories attached to one bridge.
pub open spec fn related_to(id: int) -> spec_fn(CateV) -> bool {
    |c: CateV| c.related_id == id
}

/// The durable table of category records.
pub struct CategoryStore {
    rows: Vec<QuestionCate>,
    next_id: i32,
}

impl View for CategoryStore {
    type V = Seq<CateV>;

    closed spec fn view(&self) -> Seq<CateV> {
        cate_views(self.rows@)
    }
}

impl CategoryStore {
    /// The next identifier the table will assign.
    pub closed spec fn spec_next_id(&self) -> int {
        self.next_id as int
    }

    /// The maintained invariant of the table.
    pub open spec fn wf(&self) -> bool {
        &&& forall|i: int, j: int|
            0 <= i < self@.len() && 0 <= j < self@.len() && i != j ==> self@[i].id != self@[j].id
        &&& forall|i: int| 0 <= i < self@.len() ==> 0 < #[trigger] self@[i].id < self.spec_next_id()
        &&& 1 <= self.spec_next_id() <= i32::MAX as int
    }

    /// An empty table.
    pub fn new() -> (r: CategoryStore)
        ensures
            r@ == Seq::<CateV>::empty(),
            r.wf(),
    {
        let r = CategoryStore { rows: Vec::new(), next_id: 1 };
        proof {
            assert(r@ =~= Seq::<CateV>::empty());
        }
        r
    }

    /// Create a category attached to a bridge; its key is the short digest
    /// of its label. `StoreFailure` reports exhausted identifiers.
    pub fn insert(&mut self, related_id: i32, label: &str, sort_order: i32) -> (r: Result<
        QuestionCate,
        StoreError,
    >)
        requires
            old(self).wf(),
        ensures
            final(self).wf(),
            match r {
                Result::Ok(c) => {
                    &&& old(self).spec_next_id() < i32::MAX as int
                    &&& c@.id == old(self).spec_next_id()
                    &&& c@.related_id == related_id as int
                    &&& c@.label == label@
                    &&& c@.key == md5_hex_of(label@).subrange(0, 10)
                    &&& c@.sort_order == sort_order as int
                    &&& final(self)@ == old(self)@.push(c@)
                },
                Result::Err(e) => {
                    &&& final(self)@ == old(self)@
                    &&& e == StoreError::StoreFailure
                    &&& old(self).spec_next_id() == i32::MAX as int
                },
            },
    {
        if self.next_id == i32::MAX {
            return Result::Err(StoreError::StoreFailure);
        }
        let c = QuestionCate {
            id: self.next_id,
            related_id,
            label: label.to_owned(),
            key: digest_prefix(label, 10),
            sort_order,
        };
        let result = c.duplicate();
        let ghost prev = self@;
        self.rows.push(c);
        self.next_id = self.next_id + 1;
        proof {
            assert(self@ =~= prev.push(result@));
        }
        Result::Ok(result)
    }

    /// Remove one category by identifier; returns the number removed.
    pub fn delete(&mut self, id: i32) -> (r: u64)
        requires
            old(self).wf(),
        ensures
            final(self).wf(),
            if exists|i: int| 0 <= i < old(self)@.len() && old(self)@[i].id == id as int {
                r == 1 && exists|i: int|
                    0 <= i < old(self)@.len() && old(self)@[i].id == id as int && final(self)@
                        == old(self)@.remove(i)
            } else {
                r == 0 && final(self)@ == old(self)@
            },
    {
        let ghost s = self@;
        let n = self.rows.len();
        for i in 0..n
            invariant
                n == self.rows.len(),
                s == self@,
                s == old(self)@,
                old(self).wf(),
                self.wf(),
                self.spec_next_id() == old(self).spec_next_id(),
                forall|j: int| 0 <= j < i ==> s[j].id != id as int,
        {
            if self.rows[i].id == id {
                let _removed = self.rows.remove(i);
                proof {
                    assert(self@ =~= s.remove(i as int));
                    assert(s[i as int].id == id as int);
                    assert forall|a: int| 0 <= a < self@.len() implies #[trigger] self@[a] == (
                    if a < i as int {
                        s[a]
                    } else {
                        s[a + 1]
                    }) by {
                        assert(s.remove(i as int)[a] == (if a < i as int {
                            s[a]
                        } else {
                            s[a + 1]
                        }));
                    }
                    assert forall|a: int, b: int|
                        0 <= a < self@.len() && 0 <= b < self@.len() && a != b implies self@[a].id
                            != self@[b].id by {
                        let x: int = if a < i as int {
                            a
                        } else {
                            a + 1
                        };
                        let y: int = if b < i as int {
                            b
                        } else {
                            b + 1
                        };
                        assert(0 <= x < s.len() && 0 <= y < s.len() && x != y);
                        assert(self@[a].id == s[x].id && self@[b].id == s[y].id);
                        assert(s[x].id != s[y].id);
                    }
                    assert forall|a: int| 0 <= a < self@.len() implies 0 < #[trigger] self@[a].id
                        < self.spec_next_id() by {
                        let x: int = if a < i as int {
                            a
                        } else {
                            a + 1
                        };
                        assert(0 <= x < s.len());
                        assert(self@[a].id == s[x].id);
                        assert(0 < s[x].id < self.spec_next_id());
                    }
                }
                return 1;
            }
        }
        0
    }

    /// All categories attached to one bridge, in store order.
    pub fn find_all_by_related_id(&self, related_id: i32) -> (r: Vec<QuestionCate>)
        ensures
            cate_views(r@) == self@.filter(related_to(related_id as int)),
    {
        let mut out: Vec<QuestionCate> = Vec::new();
        let n = self.rows.len();
        for i in 0..n
            invariant
                n == self.rows.len(),
                cate_views(out@) == self@.take(i as int).filter(related_to(related_id as int)),
        {
            proof {
                self@.lemma_take_succ_push(i as int);
                self@.take(i as int).lemma_filter_push(
                    self@[i as int],
                    related_to(related_id as int),
                );
            }
            let c = &self.rows[i];
            if c.related_id == related_id {
                let ghost prev = cate_views(out@);
                out.push(c.duplicate());
                proof {
                    assert(cate_views(out@) =~= prev.push(self@[i as int]));
                }
            }
        }
        proof {
            assert(self@.take(n as int) =~= self@);
        }
        out
    }

    /// All categories attached to a listed bridge, in store order.
    pub fn find_all_by_related_ids(&self, ids: &Vec<i32>) -> (r: Vec<QuestionCate>)
        ensures
            cate_views(r@) == self@.filter(related_in(ids@)),
    {
        let mut out: Vec<QuestionCate> = Vec::new();
        let n = self.rows.len();
        for i in 0..n
            invariant
                n == self.rows.len(),
                cate_views(out@) == self@.take(i as int).filter(related_in(ids@)),
        {
            proof {
                self@.lemma_take_succ_push(i as int);
                self@.take(i as int).lemma_filter_push(self@[i as int], related_in(ids@));
            }
            let c = &self.rows[i];
            if crate::bridge::contains_id(ids, c.related_id) {
                let ghost prev = cate_views(out@);
                out.push(c.duplicate());
                proof {
                    assert(cate_views(out@) =~= prev.push(self@[i as int]));
                }
            }
        }
        proof {
            assert(self@.take(n as int) =~= self@);
        }
        out
    }
}

} // verus!
