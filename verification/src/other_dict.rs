//! Request and response shapes of the secondary dictionary surface, which
//! serves the same per-textbook dictionary entries with a selection mark.

use vstd::prelude::*;

verus! {

/// Fields of a dictionary-creation request carrying a selection mark.
pub struct CreateTextbookDictReq {
    /// The textbook the entry belongs to.
    pub textbook_id: i32,
    /// Kind of the entry.
    pub type_code: String,
    /// Stored value.
    pub item_value: String,
    /// Ordering key.
    pub sort_order: i32,
    /// Whether the entry is preselected.
    pub is_select: bool,
}

/// Public projection of one dictionary entry with its selection mark.
pub struct TextbookDictResp {
    /// Identifier of the entry.
    pub id: i32,
    /// The textbook the entry belongs to.
    pub textbook_id: i32,
    /// Kind of the entry.
    pub type_code: String,
    /// Stored value.
    pub item_value: String,
    /// Ordering key.
    pub sort_order: i32,
    /// Whether the entry is preselected.
    pub is_select: bool,
}

/// Strip the selection mark off a creation request.
pub fn to_dict_req(req: CreateTextbookDictReq) -> (r: crate::textbook_dict::CreateTextbookDictReq)
    ensures
        r.textbook_id == req.textbook_id,
        r.type_code@ == req.type_code@,
        r.item_value@ == req.item_value@,
        r.sort_order == req.sort_order,
{
    crate::textbook_dict::CreateTextbookDictReq {
        textbook_id: req.textbook_id,
        type_code: req.type_code,
        item_value: req.item_value,
        sort_order: req.sort_order,
    }
}

} // verus!
