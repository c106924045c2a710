//! Per-textbook dictionaries: typed key-value entries attached to one
//! textbook, unique per `(textbook, type, value)` triple.

use vstd::prelude::*;

use crate::errors::StoreError;

verus! {

/// One dictionary entry.
pub struct TextbookDict {
    /// Identifier of the entry.
    pub id: i32,
    /// The textbook the entry belongs to.
    pub textbook_id: i32,
    /// Kind of the entry.
    pub type_code: String,
    /// Stored value.
    pub item_value: String,
    /// Ordering key.
    pub sort_order: i32,
}

/// Mathematical value of one dictionary entry.
pub ghost struct DictV {
    pub id: int,
    pub textbook_id: int,
    pub type_code: Seq<char>,
    pub item_value: Seq<char>,
    pub sort_order: int,
}

impl View for TextbookDict {
    type V = DictV;

    open spec fn view(&self) -> DictV {
        DictV {
            id: self.id as int,
            textbook_id: self.textbook_id as int,
            type_code: self.type_code@,
            item_value: self.item_value@,
            sort_order: self.sort_order as int,
        }
    }
}

impl TextbookDict {
    /// A fresh entry holding the same values.
    pub fn duplicate(&self) -> (r: TextbookDict)
        ensures
            r@ == self@,
    {
        TextbookDict {
            id: self.id,
            textbook_id: self.textbook_id,
            type_code: self.type_code.clone(),
            item_value: self.item_value.clone(),
            sort_order: self.sort_order,
        }
    }
}

/// The views of a sequence of dictionary entries.
pub open spec fn dict_views(rows: Seq<TextbookDict>) -> Seq<DictV> {
    Seq::new(rows.len(), |i: int| rows[i]@)
}

/// The entry matches a `(textbook, type, value)` triple.
pub open spec fn dict_matches(
    d: DictV,
    textbook_id: int,
    type_code: Seq<char>,
    item_value: Seq<char>,
) -> bool {
    d.textbook_id == textbook_id && d.type_code == type_code && d.item_value == item_value
}

/// Predicate selecting the entries of one textbook and kind.
pub open spec fn dict_of_type(textbook_id: int, type_code: Seq<char>) -> spec_fn(DictV) -> bool {
    |d: DictV| d.textbook_id == textbook_id && d.type_code == type_code
}

/// The durable table of dictionary entries.
pub struct DictStore {
    rows: Vec<TextbookDict>,
    next_id: i32,
}

impl View for DictStore {
    type V = Seq<DictV>;

    closed spec fn view(&self) -> Seq<DictV> {
        dict_views(self.rows@)
    }
}

impl DictStore {
    /// The next identifier the table will assign.
    pub closed spec fn spec_next_id(&self) -> int {
        self.next_id as int
    }

    /// The maintained invariant of the table.
    pub open spec fn wf(&self) -> bool {
        &&& forall|i: int, j: int|
            0 <= i < self@.len() && 0 <= j < self@.len() && i != j ==> self@[i].id != self@[j].id
        &&& forall|i: int| 0 <= i < self@.len() ==> 0 < #[trigger] self@[i].id < self.spec_next_id()
        &&& 1 <= self.spec_next_id() <= i32::MAX as int
    }

    /// An empty table.
    pub fn new() -> (r: DictStore)
        ensures
            r@ == Seq::<DictV>::empty(),
            r.wf(),
    {
        let r = DictStore { rows: Vec::new(), next_id: 1 };
        proof {
            assert(r@ =~= Seq::<DictV>::empty());
        }
        r
    }

    /// Store one entry; `StoreFailure` reports exhausted identifiers.
    pub fn insert(
        &mut self,
        textbook_id: i32,
        type_code: &str,
        item_value: &str,
        sort_order: i32,
    ) -> (r: Result<TextbookDict, StoreError>)
        requires
            old(self).wf(),
        ensures
            final(self).wf(),
            match r {
                Result::Ok(d) => {
                    &&& final(self)@ == old(self)@.push(d@)
                    &&& d@.id == old(self).spec_next_id()
                    &&& d@.textbook_id == textbook_id as int
                    &&& d@.type_code == type_code@
                    &&& d@.item_value == item_value@
                    &&& d@.sort_order == sort_order as int
                },
                Result::Err(e) => {
                    &&& final(self)@ == old(self)@
                    &&& e == StoreError::StoreFailure
                    &&& old(self).spec_next_id() == i32::MAX as int
                },
            },
    {
        if self.next_id == i32::MAX {
            return Result::Err(StoreError::StoreFailure);
        }
        let d = TextbookDict {
            id: self.next_id,
            textbook_id,
            type_code: type_code.to_owned(),
            item_value: item_value.to_owned(),
            sort_order,
        };
        let result = d.duplicate();
        let ghost prev = self@;
        self.rows.push(d);
        self.next_id = self.next_id + 1;
        proof {
            assert(self@ =~= prev.push(result@));
        }
        Result::Ok(result)
    }

    /// The stored entry with this exact triple, if any.
    pub fn find_by_unique(
        &self,
        textbook_id: i32,
        type_code: &str,
        item_value: &str,
    ) -> (r: Option<TextbookDict>)
        ensures
            r is Some <==> exists|i: int|
                0 <= i < self@.len() && dict_matches(
                    self@[i],
                    textbook_id as int,
                    type_code@,
                    item_value@,
                ),
            match r {
                Option::Some(d) => dict_matches(d@, textbook_id as int, type_code@, item_value@),
                Option::None => true,
            },
    {
        let tc: String = type_code.to_owned();
        let iv: String = item_value.to_owned();
        let n = self.rows.len();
        for i in 0..n
            invariant
                n == self.rows.len(),
                tc@ == type_code@,
                iv@ == item_value@,
                forall|j: int|
                    0 <= j < i ==> !dict_matches(
                        self@[j],
                        textbook_id as int,
                        type_code@,
                        item_value@,
                    ),
        {
            let row = &self.rows[i];
            if row.textbook_id == textbook_id && row.type_code == tc && row.item_value == iv {
                proof {
                    assert(dict_matches(
                        self@[i as int],
                        textbook_id as int,
                        type_code@,
                        item_value@,
                    ));
                }
                return Option::Some(self.rows[i].duplicate());
            }
        }
        Option::None
    }

    /// All entries of one textbook and kind, in store order.
    pub fn find_by_textbook_and_type(&self, textbook_id: i32, type_code: &str) -> (r: Vec<
        TextbookDict,
    >)
        ensures
            dict_views(r@) == self@.filter(dict_of_type(textbook_id as int, type_code@)),
    {
        let tc: String = type_code.to_owned();
        let mut out: Vec<TextbookDict> = Vec::new();
        let n = self.rows.len();
        for i in 0..n
            invariant
                n == self.rows.len(),
                tc@ == type_code@,
                dict_views(out@) == self@.take(i as int).filter(
                    dict_of_type(textbook_id as int, type_code@),
                ),
        {
            proof {
                self@.lemma_take_succ_push(i as int);
                self@.take(i as int).lemma_filter_push(
                    self@[i as int],
                    dict_of_type(textbook_id as int, type_code@),
                );
            }
            let row = &self.rows[i];
            if row.textbook_id == textbook_id && row.type_code == tc {
                let ghost prev = dict_views(out@);
                out.push(row.duplicate());
                proof {
                    assert(dict_views(out@) =~= prev.push(self@[i as int]));
                }
            }
        }
        proof {
            assert(self@.take(n as int) =~= self@);
        }
        out
    }

    /// Remove one entry by identifier; returns the number removed.
    pub fn delete(&mut self, id: i32) -> (r: u64)
        requires
            old(self).wf(),
        ensures
            final(self).wf(),
            if exists|i: int| 0 <= i < old(self)@.len() && #[trigger] old(self)@[i].id == id as int {
                r == 1 && exists|i: int|
                    0 <= i < old(self)@.len() && old(self)@[i].id == id as int && final(self)@
                        == old(self)@.remove(i)
            } else {
                r == 0 && final(self)@ == old(self)@
            },
    {
        let ghost s = self@;
        let n = self.rows.len();
        for i in 0..n
            invariant
                n == self.rows.len(),
                s == self@,
                s == old(self)@,
                old(self).wf(),
                self.wf(),
                self.spec_next_id() == old(self).spec_next_id(),
                forall|j: int| 0 <= j < i ==> s[j].id != id as int,
        {
            if self.rows[i].id == id {
                let _removed = self.rows.remove(i);
                proof {
                    assert(self@ =~= s.remove(i as int));
                    assert(s[i as int].id == id as int);
                    assert forall|a: int| 0 <= a < self@.len() implies #[trigger] self@[a] == (
                    if a < i as int {
                        s[a]
                    } else {
                        s[a + 1]
                    }) by {
                        assert(s.remove(i as int)[a] == (if a < i as int {
                            s[a]
                        } else {
                            s[a + 1]
                        }));
                    }
                    assert forall|a: int, b: int|
                        0 <= a < self@.len() && 0 <= b < self@.len() && a != b implies self@[a].id
                            != self@[b].id by {
                        let x: int = if a < i as int {
                            a
                        } else {
                            a + 1
                        };
                        let y: int = if b < i as int {
                            b
                        } else {
                            b + 1
                        };
                        assert(self@[a].id == s[x].id && self@[b].id == s[y].id && x != y);
                    }
                    assert forall|a: int| 0 <= a < self@.len() implies 0 < #[trigger] self@[a].id
                        < self.spec_next_id() by {
                        let x: int = if a < i as int {
                            a
                        } else {
                            a + 1
                        };
                        assert(self@[a].id == s[x].id);
                        assert(0 < s[x].id < self.spec_next_id());
                    }
                }
                return 1;
            }
        }
        0
    }
}

/// Fields of a dictionary-creation request.
pub struct CreateTextbookDictReq {
    /// The textbook the entry belongs to.
    pub textbook_id: i32,
    /// Kind of the entry.
    pub type_code: String,
    /// Stored value.
    pub item_value: String,
    /// Ordering key.
    pub sort_order: i32,
}

/// Public projection of one dictionary entry.
#[derive(Debug)]
pub struct TextbookDictResp {
    /// Identifier of the entry.
    pub id: i32,
    /// The textbook the entry belongs to.
    pub textbook_id: i32,
    /// Kind of the entry.
    pub type_code: String,
    /// Stored value.
    pub item_value: String,
    /// Ordering key.
    pub sort_order: i32,
}

/// A dictionary listing request.
pub struct TextbookDictListReq {
    /// The textbook whose entries are listed.
    pub textbook_id: i32,
    /// Kind of the entries to list.
    pub type_code: String,
}

/// The public projection of one stored entry.
pub fn to_resp(row: TextbookDict) -> (r: TextbookDictResp)
    ensures
        r.id as int == row@.id,
        r.textbook_id as int == row@.textbook_id,
        r.type_code@ == row@.type_code,
        r.item_value@ == row@.item_value,
        r.sort_order as int == row@.sort_order,
{
    TextbookDictResp {
        id: row.id,
        textbook_id: row.textbook_id,
        type_code: row.type_code,
        item_value: row.item_value,
        sort_order: row.sort_order,
    }
}

/// Add a dictionary entry; an entry with the same textbook, kind and
/// value is rejected as a conflict.
pub fn add(dicts: &mut DictStore, req: CreateTextbookDictReq) -> (r: Result<
    TextbookDictResp,
    StoreError,
>)
    requires
        old(dicts).wf(),
    ensures
        final(dicts).wf(),
        match r {
            Result::Ok(resp) => {
                &&& !(exists|i: int|
                    0 <= i < old(dicts)@.len() && dict_matches(
                        old(dicts)@[i],
                        req.textbook_id as int,
                        req.type_code@,
                        req.item_value@,
                    ))
                &&& final(dicts)@ == old(dicts)@.push(final(dicts)@.last())
                &&& final(dicts)@.last().id == old(dicts).spec_next_id()
                &&& final(dicts)@.last().textbook_id == req.textbook_id as int
                &&& final(dicts)@.last().type_code == req.type_code@
                &&& final(dicts)@.last().item_value == req.item_value@
                &&& final(dicts)@.last().sort_order == req.sort_order as int
                &&& resp.id as int == final(dicts)@.last().id
                &&& resp.textbook_id == req.textbook_id
                &&& resp.type_code@ == req.type_code@
                &&& resp.item_value@ == req.item_value@
                &&& resp.sort_order == req.sort_order
            },
            Result::Err(e) => {
                &&& final(dicts)@ == old(dicts)@
                &&& if exists|i: int|
                    0 <= i < old(dicts)@.len() && dict_matches(
                        old(dicts)@[i],
                        req.textbook_id as int,
                        req.type_code@,
                        req.item_value@,
                    ) {
                    e == StoreError::Conflict
                } else {
                    e == StoreError::StoreFailure && old(dicts).spec_next_id() == i32::MAX as int
                }
            },
        },
{
    if dicts.find_by_unique(req.textbook_id, req.type_code.as_str(), req.item_value.as_str())
        .is_some() {
        return Result::Err(StoreError::Conflict);
    }
    match dicts.insert(
        req.textbook_id,
        req.type_code.as_str(),
        req.item_value.as_str(),
        req.sort_order,
    ) {
        Result::Ok(row) => {
            proof {
                assert(dicts@.last() == row@);
            }
            Result::Ok(to_resp(row))
        },
        Result::Err(e) => Result::Err(e),
    }
}

/// The entries of one textbook and kind, in store order.
pub fn get_list(dicts: &DictStore, req: TextbookDictListReq) -> (r: Result<
    Vec<TextbookDictResp>,
    StoreError,
>)
    ensures
        match r {
            Result::Ok(v) => {
                let picked = dicts@.filter(dict_of_type(req.textbook_id as int, req.type_code@));
                &&& v@.len() == picked.len()
                &&& forall|i: int|
                    0 <= i < v@.len() ==> (#[trigger] v@[i]).id as int == picked[i].id
                        && v@[i].textbook_id as int == picked[i].textbook_id && v@[i].type_code@
                        == picked[i].type_code && v@[i].item_value@ == picked[i].item_value
                        && v@[i].sort_order as int == picked[i].sort_order
            },
            Result::Err(_) => false,
        },
{
    let rows = dicts.find_by_textbook_and_type(req.textbook_id, req.type_code.as_str());
    let ghost picked = dicts@.filter(dict_of_type(req.textbook_id as int, req.type_code@));
    let mut res: Vec<TextbookDictResp> = Vec::new();
    let n = rows.len();
    proof {
        assert(dict_views(rows@).len() == picked.len());
    }
    for i in 0..n
        invariant
            n == rows.len(),
            dict_views(rows@) == picked,
            n == picked.len(),
            res@.len() == i,
            forall|j: int|
                0 <= j < i ==> (#[trigger] res@[j]).id as int == picked[j].id
                    && res@[j].textbook_id as int == picked[j].textbook_id && res@[j].type_code@
                    == picked[j].type_code && res@[j].item_value@ == picked[j].item_value
                    && res@[j].sort_order as int == picked[j].sort_order,
    {
        proof {
            assert(dict_views(rows@)[i as int] == rows@[i as int]@);
        }
        let row = rows[i].duplicate();
        res.push(to_resp(row));
        proof {
            assert(res@[i as int].id as int == picked[i as int].id);
        }
    }
    Result::Ok(res)
}

/// Remove a dictionary entry by identifier; reports whether one was
/// removed.
pub fn delete(dicts: &mut DictStore, id: i32) -> (r: Result<bool, StoreError>)
    requires
        old(dicts).wf(),
    ensures
        final(dicts).wf(),
        match r {
            Result::Ok(done) => {
                &&& done == exists|i: int|
                    0 <= i < old(dicts)@.len() && #[trigger] old(dicts)@[i].id == id as int
                &&& (done ==> exists|i: int|
                    0 <= i < old(dicts)@.len() && old(dicts)@[i].id == id as int && final(dicts)@
                        == old(dicts)@.remove(i))
                &&& (!done ==> final(dicts)@ == old(dicts)@)
            },
            Result::Err(_) => false,
        },
{
    let count = dicts.delete(id);
    Result::Ok(count > 0)
}

} // verus!
