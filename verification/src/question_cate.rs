//! Question categories over the category table: list, add and remove.

use vstd::prelude::*;

use crate::category::{cate_views, related_to, CategoryStore, QuestionCate};
use crate::digest::md5_hex_of;
use crate::errors::StoreError;

verus! {

/// Fields of a category-creation request.
pub struct CreateQuestionCateReq {
    /// The bridge the category attaches to.
    pub related_id: i32,
    /// Label of the category.
    pub label: String,
    /// Ordering key.
    pub sort_order: i32,
}

/// Public projection of one category.
pub struct QuestionCateResp {
    /// Identifier of the record.
    pub id: i32,
    /// The bridge this category attaches to.
    pub related_id: i32,
    /// Label of the category.
    pub label: String,
    /// Short digest key derived from the label.
    pub key: String,
    /// Ordering key.
    pub sort_order: i32,
}

/// The public projection of one stored category.
pub fn to_resp(row: QuestionCate) -> (r: QuestionCateResp)
    ensures
        r.id == row.id,
        r.related_id == row.related_id,
        r.label@ == row@.label,
        r.key@ == row@.key,
        r.sort_order == row.sort_order,
{
    QuestionCateResp {
        id: row.id,
        related_id: row.related_id,
        label: row.label,
        key: row.key,
        sort_order: row.sort_order,
    }
}

/// The categories attached to one bridge, in store order.
pub fn list(cates: &CategoryStore, related_id: i32) -> (r: Result<
    Vec<QuestionCateResp>,
    StoreError,
>)
    ensures
        match r {
            Result::Ok(v) => {
                let picked = cates@.filter(related_to(related_id as int));
                &&& v@.len() == picked.len()
                &&& forall|i: int|
                    0 <= i < v@.len() ==> (#[trigger] v@[i]).id as int == picked[i].id
                        && v@[i].label@ == picked[i].label && v@[i].key@ == picked[i].key
                        && v@[i].sort_order as int == picked[i].sort_order
                        && v@[i].related_id as int == picked[i].related_id
            },
            Result::Err(_) => false,
        },
{
    let rows = cates.find_all_by_related_id(related_id);
    let mut res: Vec<QuestionCateResp> = Vec::new();
    let ghost picked = cates@.filter(related_to(related_id as int));
    let n = rows.len();
    proof {
        assert(cate_views(rows@).len() == picked.len());
    }
    for i in 0..n
        invariant
            n == rows.len(),
            cate_views(rows@) == picked,
            n == picked.len(),
            res@.len() == i,
            forall|j: int|
                0 <= j < i ==> (#[trigger] res@[j]).id as int == picked[j].id && res@[j].label@
                    == picked[j].label && res@[j].key@ == picked[j].key && res@[j].sort_order as int
                    == picked[j].sort_order && res@[j].related_id as int == picked[j].related_id,
    {
        proof {
            assert(cate_views(rows@)[i as int] == rows@[i as int]@);
        }
        let row = rows[i].duplicate();
        res.push(to_resp(row));
        proof {
            assert(res@[i as int].id as int == picked[i as int].id);
        }
    }
    Result::Ok(res)
}

/// Add a category; its key is the short digest of its label.
pub fn add(cates: &mut CategoryStore, req: CreateQuestionCateReq) -> (r: Result<
    QuestionCateResp,
    StoreError,
>)
    requires
        old(cates).wf(),
    ensures
        final(cates).wf(),
        match r {
            Result::Ok(resp) => {
                &&& final(cates)@ == old(cates)@.push(final(cates)@.last())
                &&& final(cates)@.last().id == old(cates).spec_next_id()
                &&& final(cates)@.last().related_id == req.related_id as int
                &&& final(cates)@.last().label == req.label@
                &&& final(cates)@.last().key == md5_hex_of(req.label@).subrange(0, 10)
                &&& final(cates)@.last().sort_order == req.sort_order as int
                &&& resp.id as int == final(cates)@.last().id
                &&& resp.related_id == req.related_id
                &&& resp.label@ == req.label@
                &&& resp.key@ == final(cates)@.last().key
                &&& resp.sort_order == req.sort_order
            },
            Result::Err(e) => {
                &&& final(cates)@ == old(cates)@
                &&& e == StoreError::StoreFailure
                &&& old(cates).spec_next_id() == i32::MAX as int
            },
        },
{
    match cates.insert(req.related_id, req.label.as_str(), req.sort_order) {
        Result::Ok(row) => {
            proof {
                assert(cates@.last() == row@);
            }
            Result::Ok(to_resp(row))
        },
        Result::Err(e) => Result::Err(e),
    }
}

/// Remove a category by identifier; reports whether one was removed.
pub fn remove(cates: &mut CategoryStore, id: i32) -> (r: Result<bool, StoreError>)
    requires
        old(cates).wf(),
    ensures
        final(cates).wf(),
        match r {
            Result::Ok(done) => {
                &&& done == exists|i: int|
                    0 <= i < old(cates)@.len() && #[trigger] old(cates)@[i].id == id as int
                &&& (done ==> exists|i: int|
                    0 <= i < old(cates)@.len() && old(cates)@[i].id == id as int && final(cates)@
                        == old(cates)@.remove(i))
                &&& (!done ==> final(cates)@ == old(cates)@)
            },
            Result::Err(_) => false,
        },
{
    let count = cates.delete(id);
    Result::Ok(count > 0)
}

} // verus!
