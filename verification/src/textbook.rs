//! The hierarchical content tree manager: listing, creation, reparenting
//! and deletion of nodes of the content forest.
//!
//! Listings are produced by the tree materializer: one depth-bounded fetch
//! from the store, then a recursive assembly of the nested response,
//! decrementing a remaining-depth budget at each level.

use vstd::prelude::*;

use crate::bridge::{has_bridge_for, BridgeStore};
use crate::errors::StoreError;
use crate::node::{
    anc, depth_bounded, depth_consistent, has_node, ids_below, ids_unique, idx_of,
    lemma_node_at_index, node_of, reaches, siblings_unique, wf, NodeV, Textbook,
};
use crate::resp::{
    flat_resp, lemma_resp_views_len, lemma_resp_views_push, resp_of, resp_view, resp_views, RespV,
    TextbookResp,
};
use crate::store::{
    depth_at_most, has_child, matches_parent_label, spec_opt_id, subtree_of, views_of, NodeStore,
};
use crate::order::spec_level_sort;
use crate::MAX_DEPTH;

verus! {

/// Fields of a node-creation request.
pub struct CreateTextbookReq {
    /// Parent under which to create the node; absent for a root.
    pub parent_id: Option<i32>,
    /// Label of the new node.
    pub label: String,
    /// Expected depth of the new node, if the caller states one.
    pub path_depth: Option<i32>,
    /// Sibling ordering key.
    pub sort_order: i32,
    /// Structural role of the new node.
    pub path_type: String,
}

/// Fields of a node-edit request.
pub struct UpdateTextbookReq {
    /// The node to edit.
    pub id: i32,
    /// The parent to place it under; absent or zero for a root.
    pub parent_id: Option<i32>,
    /// The new label.
    pub label: String,
    /// The new sibling ordering key.
    pub sort_order: i32,
    /// The new structural role; absent keeps the stored one.
    pub path_type: Option<String>,
}

/// The parent bucket a node falls into: its parent identifier, with the
/// global root standing for an absent parent.
pub open spec fn parent_or_zero(n: NodeV) -> int {
    match n.parent_id {
        Option::None => 0,
        Option::Some(p) => p,
    }
}

/// Predicate selecting the nodes bucketed under this parent.
pub open spec fn child_of(parent: int) -> spec_fn(NodeV) -> bool {
    |n: NodeV| parent_or_zero(n) == parent
}

/// The nodes bucketed under this parent, in row order.
pub open spec fn bucket(rows: Seq<NodeV>, parent: int) -> Seq<NodeV> {
    rows.filter(child_of(parent))
}

/// The nested responses assembled under one parent with a remaining-depth
/// budget.
pub open spec fn spec_levels(rows: Seq<NodeV>, parent: int, depth: nat) -> Seq<RespV>
    decreases depth, bucket(rows, parent).len() + 1,
{
    if depth == 0 {
        Seq::empty()
    } else {
        spec_level_items(rows, bucket(rows, parent), depth)
    }
}

/// The nested responses of a list of sibling nodes.
pub open spec fn spec_level_items(rows: Seq<NodeV>, items: Seq<NodeV>, depth: nat) -> Seq<RespV>
    decreases depth, items.len(),
{
    if depth == 0 || items.len() == 0 {
        Seq::empty()
    } else {
        seq![resp_of(items[0], spec_levels(rows, items[0].id, (depth - 1) as nat))]
            + spec_level_items(rows, items.drop_first(), depth)
    }
}

/// Assembling after appending a sibling appends its response.
proof fn lemma_level_items_push(rows: Seq<NodeV>, items: Seq<NodeV>, x: NodeV, depth: nat)
    requires
        depth >= 1,
    ensures
        spec_level_items(rows, items.push(x), depth) == spec_level_items(rows, items, depth).push(
            resp_of(x, spec_levels(rows, x.id, (depth - 1) as nat)),
        ),
    decreases items.len(),
{
    let r = resp_of(x, spec_levels(rows, x.id, (depth - 1) as nat));
    if items.len() == 0 {
        reveal_with_fuel(spec_level_items, 2);
        assert(items.push(x)[0] == x);
        assert(items.push(x).drop_first() =~= Seq::<NodeV>::empty());
        assert(spec_level_items(rows, items.push(x), depth) =~= spec_level_items(
            rows,
            items,
            depth,
        ).push(r));
    } else {
        lemma_level_items_push(rows, items.drop_first(), x, depth);
        assert(items.push(x).drop_first() =~= items.drop_first().push(x));
        assert(items.push(x)[0] == items[0]);
        assert(spec_level_items(rows, items.push(x), depth) =~= spec_level_items(
            rows,
            items,
            depth,
        ).push(r));
    }
}

/// Assemble the nested responses under one parent from a flat row list,
/// spending one level of the remaining-depth budget per level of nesting.
pub fn get_levels_by_parent_id(
    rows: &Vec<Textbook>,
    current_parent_id: i32,
    safe_depth: u32,
) -> (r: Vec<TextbookResp>)
    ensures
        resp_views(r@, safe_depth as nat) == spec_levels(
            views_of(rows@),
            current_parent_id as int,
            safe_depth as nat,
        ),
        r@.len() == spec_levels(views_of(rows@), current_parent_id as int, safe_depth as nat).len(),
    decreases safe_depth,
{
    let ghost rv = views_of(rows@);
    let ghost d = safe_depth as nat;
    let mut res: Vec<TextbookResp> = Vec::new();
    if safe_depth == 0 {
        proof {
            lemma_resp_views_len(res@, d);
        }
        return res;
    }
    let n = rows.len();
    for i in 0..n
        invariant
            n == rows.len(),
            rv == views_of(rows@),
            d == safe_depth as nat,
            1 <= safe_depth,
            resp_views(res@, d) == spec_level_items(
                rv,
                rv.take(i as int).filter(child_of(current_parent_id as int)),
                d,
            ),
        decreases n - i,
    {
        proof {
            rv.lemma_take_succ_push(i as int);
            rv.take(i as int).lemma_filter_push(rv[i as int], child_of(current_parent_id as int));
        }
        let row = &rows[i];
        let row_parent: i32 = match row.parent_id {
            Option::None => 0,
            Option::Some(p) => p,
        };
        if row_parent == current_parent_id {
            proof {
                assert(child_of(current_parent_id as int)(rv[i as int]));
            }
            let children = get_levels_by_parent_id(rows, row.id, safe_depth - 1);
            proof {
                lemma_resp_views_len(children@, (d - 1) as nat);
            }
            let info = TextbookResp {
                id: row.id,
                path_type: row.path_type.clone(),
                parent_id: row.parent_id,
                label: row.label.clone(),
                key: row.key.clone(),
                sort_order: row.sort_order,
                path_depth: Option::Some(row.path_depth),
                children: if children.len() == 0 {
                    Option::None
                } else {
                    Option::Some(children)
                },
            };
            proof {
                assert(resp_view(info, d) == resp_of(
                    rv[i as int],
                    spec_levels(rv, rv[i as int].id, (d - 1) as nat),
                ));
                lemma_level_items_push(
                    rv,
                    rv.take(i as int).filter(child_of(current_parent_id as int)),
                    rv[i as int],
                    d,
                );
                lemma_resp_views_push(res@, info, d);
            }
            res.push(info);
        } else {
            proof {
                assert(!child_of(current_parent_id as int)(rv[i as int]));
            }
        }
    }
    proof {
        assert(rv.take(n as int) =~= rv);
        lemma_resp_views_len(res@, d);
    }
    res
}

/// Depth bound actually used for a listing: the request, clamped to the
/// hard maximum.
pub open spec fn spec_clamp_depth(depth: int) -> int {
    if depth < MAX_DEPTH as int {
        depth
    } else {
        MAX_DEPTH as int
    }
}

/// The nested structure a full listing returns: nodes at or above the
/// clamped depth, in listing order, assembled from the global root.
pub open spec fn spec_list_all(s: Seq<NodeV>, depth: int) -> Seq<RespV> {
    spec_levels(
        spec_level_sort(s.filter(depth_at_most(spec_clamp_depth(depth)))),
        0,
        spec_clamp_depth(depth) as nat,
    )
}

/// Full listing: every node down to the clamped depth, nested from the
/// global root. Reads never fail.
pub fn list_all(store: &NodeStore, depth: u32) -> (r: Result<Vec<TextbookResp>, StoreError>)
    requires
        store.wf(),
    ensures
        match r {
            Result::Ok(v) => resp_views(v@, spec_clamp_depth(depth as int) as nat)
                == spec_list_all(store@, depth as int),
            Result::Err(_) => false,
        },
{
    let safe_depth: u32 = if depth < MAX_DEPTH {
        depth
    } else {
        MAX_DEPTH
    };
    let rows = store.find_all_by_depth(safe_depth);
    Result::Ok(get_levels_by_parent_id(&rows, 0, safe_depth))
}

/// The nested structure a subtree listing returns: the descendants of the
/// parent, in listing order, assembled two levels deep.
pub open spec fn spec_list_part(s: Seq<NodeV>, parent_id: int) -> Seq<RespV> {
    spec_levels(spec_level_sort(s.filter(subtree_of(s, parent_id))), parent_id, 2)
}

/// Subtree listing: the children and grandchildren of one parent.
pub fn list_part(store: &NodeStore, parent_id: u32) -> (r: Result<
    Vec<TextbookResp>,
    StoreError,
>)
    requires
        store.wf(),
        parent_id <= i32::MAX as u32,
    ensures
        match r {
            Result::Ok(v) => resp_views(v@, 2) == spec_list_part(store@, parent_id as int),
            Result::Err(_) => false,
        },
{
    let rows = store.find_all_by_parent_id(parent_id as i32);
    Result::Ok(get_levels_by_parent_id(&rows, parent_id as i32, 2))
}

/// The public projection of one stored row, with no children in view.
pub fn to_resp(row: Textbook) -> (r: TextbookResp)
    ensures
        forall|d: nat| #[trigger] resp_view(r, d) == flat_resp(row@),
{
    TextbookResp {
        id: row.id,
        path_type: row.path_type,
        parent_id: row.parent_id,
        label: row.label,
        key: row.key,
        sort_order: row.sort_order,
        path_depth: Option::Some(row.path_depth),
        children: Option::None,
    }
}

/// Reject a creation or edit whose label is already used under the same
/// parent (excluding, for an edit, the node itself).
pub fn check_parent_and_label_is_exists(
    store: &NodeStore,
    parent_id: Option<i32>,
    label: &str,
    id: Option<i32>,
) -> (r: Result<(), StoreError>)
    requires
        store.wf(),
    ensures
        match r {
            Result::Ok(_) => !(exists|i: int|
                0 <= i < store@.len() && matches_parent_label(
                    store@[i],
                    spec_opt_id(parent_id),
                    label@,
                    spec_opt_id(id),
                )),
            Result::Err(e) => e == StoreError::Conflict && exists|i: int|
                0 <= i < store@.len() && matches_parent_label(
                    store@[i],
                    spec_opt_id(parent_id),
                    label@,
                    spec_opt_id(id),
                ),
        },
{
    if store.find_by_parent_and_label(parent_id, label, id).is_some() {
        Result::Err(StoreError::Conflict)
    } else {
        Result::Ok(())
    }
}

/// Creation succeeds: the label is free under the parent and the store
/// accepts the row.
pub open spec fn spec_add_ok(
    s: Seq<NodeV>,
    next_id: int,
    parent_id: Option<int>,
    label: Seq<char>,
    path_depth: Option<int>,
) -> bool {
    &&& !(exists|i: int|
        0 <= i < s.len() && matches_parent_label(s[i], parent_id, label, Option::None))
    &&& crate::store::spec_insert_ok(s, next_id, parent_id, label, path_depth)
}

/// The error a refused creation reports, in pipeline order: an occupied
/// sibling label is a conflict; after that check the store's own refusal
/// stands (a missing parent is not found, a disagreeing stated depth is a
/// conflict, the depth limit and exhausted identifiers are store failures).
pub open spec fn spec_add_err(
    s: Seq<NodeV>,
    next_id: int,
    parent_id: Option<int>,
    label: Seq<char>,
    path_depth: Option<int>,
) -> StoreError {
    if exists|i: int|
        0 <= i < s.len() && matches_parent_label(s[i], parent_id, label, Option::None) {
        StoreError::Conflict
    } else {
        crate::store::spec_insert_err(s, next_id, parent_id, label, path_depth)
    }
}

/// Create a node under a parent (or as a new root). The new node's depth
/// is its parent's plus one; a depth sent with the request must agree.
pub fn add(store: &mut NodeStore, req: CreateTextbookReq) -> (r: Result<TextbookResp, StoreError>)
    requires
        old(store).wf(),
    ensures
        final(store).wf(),
        match r {
            Result::Ok(resp) => {
                &&& spec_add_ok(
                    old(store)@,
                    old(store).spec_next_id(),
                    spec_opt_id(req.parent_id),
                    req.label@,
                    crate::store::spec_opt_depth(req.path_depth),
                )
                &&& final(store)@.len() == old(store)@.len() + 1
                &&& final(store)@ == old(store)@.push(final(store)@.last())
                &&& forall|d: nat| #[trigger] resp_view(resp, d) == flat_resp(final(store)@.last())
                &&& final(store)@.last().id == old(store).spec_next_id()
                &&& final(store)@.last().parent_id == spec_opt_id(req.parent_id)
                &&& final(store)@.last().label == req.label@
                &&& final(store)@.last().sort_order == req.sort_order as int
                &&& final(store)@.last().path_type == req.path_type@
                &&& final(store)@.last().key == crate::digest::spec_label_key(
                    spec_opt_id(req.parent_id),
                    req.label@,
                )
                &&& final(store)@.last().depth == crate::store::spec_insert_depth(
                    old(store)@,
                    spec_opt_id(req.parent_id),
                )
            },
            Result::Err(e) => {
                &&& final(store)@ == old(store)@
                &&& !spec_add_ok(
                    old(store)@,
                    old(store).spec_next_id(),
                    spec_opt_id(req.parent_id),
                    req.label@,
                    crate::store::spec_opt_depth(req.path_depth),
                )
                &&& e == spec_add_err(
                    old(store)@,
                    old(store).spec_next_id(),
                    spec_opt_id(req.parent_id),
                    req.label@,
                    crate::store::spec_opt_depth(req.path_depth),
                )
            },
        },
{
    match check_parent_and_label_is_exists(store, req.parent_id, req.label.as_str(), Option::None) {
        Result::Ok(_) => {},
        Result::Err(e) => {
            return Result::Err(e);
        },
    }
    match store.insert(
        req.parent_id,
        req.label.as_str(),
        req.path_depth,
        req.sort_order,
        req.path_type.as_str(),
    ) {
        Result::Ok(row) => Result::Ok(to_resp(row)),
        Result::Err(e) => Result::Err(e),
    }
}

/// Details of one node.
pub fn info(store: &NodeStore, id: i32) -> (r: Result<TextbookResp, StoreError>)
    requires
        store.wf(),
    ensures
        match r {
            Result::Ok(resp) => has_node(store@, id as int) && forall|d: nat|
                #[trigger] resp_view(resp, d) == flat_resp(node_of(store@, id as int)),
            Result::Err(e) => !has_node(store@, id as int) && e == StoreError::NotFound,
        },
{
    match store.find_by_id(id) {
        Option::Some(row) => Result::Ok(to_resp(row.duplicate())),
        Option::None => Result::Err(StoreError::NotFound),
    }
}

/// Details of each listed node that is stored, in store order.
pub fn info_list_by_ids(store: &NodeStore, ids: &Vec<i32>) -> (r: Result<
    Vec<TextbookResp>,
    StoreError,
>)
    requires
        store.wf(),
    ensures
        match r {
            Result::Ok(v) => {
                &&& v@.len() == store@.filter(crate::store::selected_by(ids@)).len()
                &&& forall|i: int, d: nat|
                    0 <= i < v@.len() ==> #[trigger] resp_view(v@[i], d) == flat_resp(
                        store@.filter(crate::store::selected_by(ids@))[i],
                    )
            },
            Result::Err(_) => false,
        },
{
    let rows = store.find_by_ids(ids);
    let ghost picked = store@.filter(crate::store::selected_by(ids@));
    let mut res: Vec<TextbookResp> = Vec::new();
    let n = rows.len();
    proof {
        assert(views_of(rows@).len() == picked.len());
    }
    for i in 0..n
        invariant
            n == rows.len(),
            views_of(rows@) == picked,
            n == picked.len(),
            res@.len() == i,
            forall|j: int, d: nat|
                0 <= j < i ==> #[trigger] resp_view(res@[j], d) == flat_resp(picked[j]),
    {
        proof {
            assert(views_of(rows@)[i as int] == rows@[i as int]@);
        }
        res.push(to_resp(rows[i].duplicate()));
    }
    Result::Ok(res)
}

/// Deletion succeeds: the node is stored, has no children, and, when it
/// sits at the addressable-unit depth, takes part in no bridge.
pub open spec fn spec_delete_ok(
    s: Seq<NodeV>,
    bridges: Seq<crate::bridge::ChapterKnowledge>,
    id: int,
) -> bool {
    &&& has_node(s, id)
    &&& !has_child(s, id)
    &&& !(node_of(s, id).depth == crate::ADDRESSABLE_UNIT_DEPTH as int && has_bridge_for(
        bridges,
        id,
    ))
}

/// The error a refused deletion reports: an unknown node is `NotFound`; a
/// node with children, or an addressable-unit node with a live bridge, is
/// `Blocked`.
pub open spec fn spec_delete_err(
    s: Seq<NodeV>,
    bridges: Seq<crate::bridge::ChapterKnowledge>,
    id: int,
) -> StoreError {
    if !has_node(s, id) {
        StoreError::NotFound
    } else {
        StoreError::Blocked
    }
}

/// Delete one node. Succeeds only on a stored leaf that, at the
/// addressable-unit depth, takes part in no bridge; any refusal leaves the
/// store untouched.
pub fn delete(store: &mut NodeStore, bridges: &BridgeStore, id: i32) -> (r: Result<
    bool,
    StoreError,
>)
    requires
        old(store).wf(),
    ensures
        final(store).wf(),
        match r {
            Result::Ok(done) => {
                &&& done == true
                &&& spec_delete_ok(old(store)@, bridges@, id as int)
                &&& final(store)@ == old(store)@.remove(idx_of(old(store)@, id as int))
                &&& !has_node(final(store)@, id as int)
            },
            Result::Err(e) => {
                &&& final(store)@ == old(store)@
                &&& !spec_delete_ok(old(store)@, bridges@, id as int)
                &&& e == spec_delete_err(old(store)@, bridges@, id as int)
            },
        },
{
    let ghost s = store@;
    let row_depth: i32 = match store.find_by_id(id) {
        Option::Some(t) => t.path_depth,
        Option::None => {
            return Result::Err(StoreError::NotFound);
        },
    };
    if store.find_by_parent_id(id).is_some() {
        return Result::Err(StoreError::Blocked);
    }
    if row_depth == crate::ADDRESSABLE_UNIT_DEPTH {
        if bridges.find_by_chapter_or_knowledge_id(id).is_some() {
            return Result::Err(StoreError::Blocked);
        }
    }
    proof {
        let k = idx_of(s, id as int);
        assert(0 <= k < s.len() && s[k].id == id as int);
        assert forall|j: int|
            0 <= j < s.len() implies #[trigger] s[j].parent_id != Option::Some(s[k].id) by {
            assert(!has_child(s, id as int));
        }
        crate::node::lemma_remove_leaf_wf(s, old(store).spec_next_id(), k);
    }
    let count = store.delete(id);
    proof {
        let k = idx_of(s, id as int);
        assert(!has_node(store@, id as int)) by {
            assert forall|j: int| 0 <= j < store@.len() implies #[trigger] store@[j].id
                != id as int by {
                let x: int = if j < k {
                    j
                } else {
                    j + 1
                };
                assert(store@[j] == s[x] && x != k);
            }
        }
    }
    Result::Ok(count > 0)
}

/// The parent actually requested by an edit: an absent or non-positive
/// identifier places the node at the root.
pub open spec fn spec_edit_parent(p: Option<i32>) -> Option<int> {
    match p {
        Option::None => Option::None,
        Option::Some(x) => if x <= 0 {
            Option::None
        } else {
            Option::Some(x as int)
        },
    }
}

/// The value of an optional replacement path type.
pub open spec fn spec_opt_text(t: Option<String>) -> Option<Seq<char>> {
    match t {
        Option::None => Option::None,
        Option::Some(x) => Option::Some(x@),
    }
}

/// Depth an edited node receives: one below its new parent, or one for a
/// root.
pub open spec fn spec_edit_depth(s: Seq<NodeV>, pn: Option<int>) -> int {
    match pn {
        Option::None => 1,
        Option::Some(p) => node_of(s, p).depth + 1,
    }
}

/// Path type an edited node receives: the requested one, or the stored one
/// when the request leaves it out.
pub open spec fn spec_edit_ptype(s: Seq<NodeV>, id: int, ptv: Option<Seq<char>>) -> Seq<char> {
    match ptv {
        Option::None => node_of(s, id).path_type,
        Option::Some(t) => t,
    }
}

/// The edit moves the node to a different parent.
pub open spec fn spec_edit_changed(s: Seq<NodeV>, id: int, pn: Option<int>) -> bool {
    pn != node_of(s, id).parent_id
}

/// The edit passes the validation pipeline: the node is not made its own
/// parent, it exists, the label is free under the new parent, the new
/// parent exists, a changed parent is no descendant of the node, and the
/// shifted depths fit the store.
pub open spec fn spec_edit_ok(s: Seq<NodeV>, id: int, pn: Option<int>, label: Seq<char>) -> bool {
    &&& pn != Option::Some(id)
    &&& has_node(s, id)
    &&& !(exists|i: int|
        0 <= i < s.len() && matches_parent_label(s[i], pn, label, Option::Some(id)))
    &&& match pn {
        Option::None => true,
        Option::Some(p) => has_node(s, p),
    }
    &&& (spec_edit_changed(s, id, pn) ==> match pn {
        Option::None => true,
        Option::Some(p) => !reaches(s, p, id),
    })
    &&& (spec_edit_changed(s, id, pn) ==> crate::store::spec_cascade_ok(
        s,
        id,
        spec_edit_depth(s, pn),
    ))
}

/// The error a refused edit reports, in pipeline order: self-parent is a
/// conflict, a missing node or new parent is not found, an occupied label
/// or a cycle-creating move is a conflict, and a depth pushed past the
/// store's limit is a store failure.
pub open spec fn spec_edit_err(s: Seq<NodeV>, id: int, pn: Option<int>, label: Seq<char>)
    -> StoreError {
    if pn == Option::Some(id) {
        StoreError::Conflict
    } else if !has_node(s, id) {
        StoreError::NotFound
    } else if exists|i: int|
        0 <= i < s.len() && matches_parent_label(s[i], pn, label, Option::Some(id)) {
        StoreError::Conflict
    } else if (match pn {
        Option::None => false,
        Option::Some(p) => !has_node(s, p),
    }) {
        StoreError::NotFound
    } else if spec_edit_changed(s, id, pn) && (match pn {
        Option::None => false,
        Option::Some(p) => reaches(s, p, id),
    }) {
        StoreError::Conflict
    } else {
        StoreError::StoreFailure
    }
}

/// The node as a successful edit stores it: new parent, label, ordering,
/// depth and path type; the derived key is kept.
pub open spec fn spec_edit_target(
    s: Seq<NodeV>,
    id: int,
    pn: Option<int>,
    label: Seq<char>,
    sortv: int,
    pt: Seq<char>,
) -> NodeV {
    NodeV {
        id: id,
        path_type: pt,
        parent_id: pn,
        label: label,
        key: node_of(s, id).key,
        depth: spec_edit_depth(s, pn),
        sort_order: sortv,
    }
}

/// The store as a successful edit leaves it: when the parent changes, the
/// node's whole subtree is shifted in the same transaction; then the
/// node's own row is rewritten.
pub open spec fn spec_edit_result(
    s: Seq<NodeV>,
    id: int,
    pn: Option<int>,
    label: Seq<char>,
    sortv: int,
    pt: Seq<char>,
) -> Seq<NodeV> {
    let nd = spec_edit_depth(s, pn);
    let s1 = if spec_edit_changed(s, id, pn) {
        crate::store::cascade_rows(s, id, pn, nd, pt)
    } else {
        s
    };
    crate::store::replace_row(s1, id, spec_edit_target(s, id, pn, label, sortv, pt))
}

/// Two stores with equal lengths and pointwise-equal identifiers locate
/// every identifier at the same index.
proof fn lemma_pointwise_node_of(s: Seq<NodeV>, t: Seq<NodeV>, x: int)
    requires
        ids_unique(s),
        t.len() == s.len(),
        forall|i: int| 0 <= i < s.len() ==> #[trigger] t[i].id == s[i].id,
        has_node(s, x),
    ensures
        ids_unique(t),
        has_node(t, x),
        0 <= idx_of(s, x) < s.len(),
        s[idx_of(s, x)].id == x,
        node_of(t, x) == t[idx_of(s, x)],
        node_of(s, x) == s[idx_of(s, x)],
{
    let k = idx_of(s, x);
    assert(0 <= k < s.len() && s[k].id == x);
    assert(ids_unique(t));
    assert(t[k].id == x);
    assert(has_node(t, x));
    lemma_node_at_index(t, k);
    lemma_node_at_index(s, k);
}

/// A successful edit leaves the store well-formed: the moved subtree's
/// depths follow its new base, everything else is untouched, and the
/// validation pipeline rules out dangling parents, duplicate labels and
/// cycles.
#[verifier::rlimit(100)]
proof fn lemma_edit_wf(
    s: Seq<NodeV>,
    next: int,
    id: int,
    pn: Option<int>,
    label: Seq<char>,
    sortv: int,
    pt: Seq<char>,
)
    requires
        wf(s, next),
        spec_edit_ok(s, id, pn, label),
    ensures
        wf(spec_edit_result(s, id, pn, label, sortv, pt), next),
        has_node(spec_edit_result(s, id, pn, label, sortv, pt), id),
    decreases 0int,
{
    let nd = spec_edit_depth(s, pn);
    let changed = spec_edit_changed(s, id, pn);
    let s1 = if changed {
        crate::store::cascade_rows(s, id, pn, nd, pt)
    } else {
        s
    };
    let tnew = spec_edit_target(s, id, pn, label, sortv, pt);
    let t = crate::store::replace_row(s1, id, tnew);
    let k = idx_of(s, id);
    assert(0 <= k < s.len() && s[k].id == id);
    lemma_node_at_index(s, k);
    assert(forall|i: int| 0 <= i < s.len() ==> #[trigger] s1[i].id == s[i].id);
    assert(forall|i: int| 0 <= i < s.len() ==> #[trigger] t[i].id == s[i].id);
    assert(forall|i: int| 0 <= i < s.len() && i != k ==> #[trigger] s[i].id != id);
    assert(t[k] == tnew);
    assert(forall|i: int| 0 <= i < s.len() && i != k ==> #[trigger] t[i] == s1[i]);
    assert(ids_unique(t));
    assert(ids_below(t, next));
    assert(has_node(t, id)) by {
        assert(t[k].id == id);
    }
    // Depth of the moved node.
    assert(1 <= nd <= crate::node::DEPTH_LIMIT as int) by {
        match pn {
            Option::None => {},
            Option::Some(p) => {
                if changed {
                } else {
                    let kp = idx_of(s, p);
                    assert(0 <= kp < s.len() && s[kp].id == p);
                    lemma_node_at_index(s, kp);
                }
            },
        }
    }
    // Depths of the shifted subtree.
    assert forall|i: int|
        0 <= i < s.len() && i != k && changed && reaches(s, s[i].id, id) implies s1[i].depth == nd
        + s[i].depth - s[k].depth && 1 <= s1[i].depth <= crate::node::DEPTH_LIMIT as int by {
        lemma_node_at_index(s, i);
        let kk = choose|kk: nat| kk >= 1 && anc(s, s[i].id, kk) == Option::Some(id);
        crate::node::lemma_anc_depth(s, s[i].id, kk, id);
    }
    assert(depth_bounded(t)) by {
        assert forall|i: int| 0 <= i < t.len() implies 1 <= #[trigger] t[i].depth
            <= crate::node::DEPTH_LIMIT as int by {
            if i == k {
            } else if changed && reaches(s, s[i].id, id) {
            } else {
                assert(t[i] == s[i]);
            }
        }
    }
    assert(siblings_unique(t)) by {
        assert forall|i: int, j: int|
            0 <= i < t.len() && 0 <= j < t.len() && i != j implies !(t[i].parent_id
            == t[j].parent_id && t[i].label == t[j].label) by {
            if i != k && j != k {
                assert(t[i].parent_id == s[i].parent_id && t[i].label == s[i].label);
                assert(t[j].parent_id == s[j].parent_id && t[j].label == s[j].label);
            } else if i == k {
                assert(t[j].parent_id == s[j].parent_id && t[j].label == s[j].label);
                assert(!matches_parent_label(s[j], pn, label, Option::Some(id)));
            } else {
                assert(t[i].parent_id == s[i].parent_id && t[i].label == s[i].label);
                assert(!matches_parent_label(s[i], pn, label, Option::Some(id)));
            }
        }
    }
    assert(depth_consistent(t)) by {
        assert forall|i: int| 0 <= i < t.len() implies match #[trigger] t[i].parent_id {
            Option::None => t[i].depth == 1,
            Option::Some(p) => has_node(t, p) && t[i].depth == node_of(t, p).depth + 1,
        } by {
            lemma_node_at_index(s, i);
            if i == k {
                match pn {
                    Option::None => {},
                    Option::Some(p) => {
                        lemma_pointwise_node_of(s, t, p);
                        let kp = idx_of(s, p);
                        assert(kp != k);
                        if changed {
                            assert(!reaches(s, s[kp].id, id));
                            assert(t[kp] == s[kp]);
                        } else {
                            assert(t[kp] == s[kp]);
                        }
                        assert(node_of(t, p) == s[kp]);
                        assert(node_of(s, p) == s[kp]);
                    },
                }
            } else if changed && reaches(s, s[i].id, id) {
                crate::node::lemma_parent_of_descendant(s, s[i].id, id);
                match s[i].parent_id {
                    Option::None => {
                        assert(false);
                    },
                    Option::Some(pd) => {
                        assert(t[i].parent_id == Option::Some(pd));
                        lemma_pointwise_node_of(s, t, pd);
                        let kp = idx_of(s, pd);
                        assert(node_of(t, pd) == t[kp]);
                        if pd == id {
                            assert(kp == k);
                            assert(t[kp].depth == nd);
                            assert(s[i].depth == s[k].depth + 1);
                        } else {
                            assert(reaches(s, s[kp].id, id));
                            assert(kp != k);
                            assert(t[kp].depth == nd + s[kp].depth - s[k].depth);
                            assert(s[i].depth == s[kp].depth + 1) by {
                                assert(node_of(s, pd) == s[kp]);
                            }
                        }
                    },
                }
            } else {
                assert(t[i] == s[i]);
                match s[i].parent_id {
                    Option::None => {},
                    Option::Some(pd) => {
                        lemma_pointwise_node_of(s, t, pd);
                        let kp = idx_of(s, pd);
                        assert(node_of(t, pd) == t[kp]);
                        assert(node_of(s, pd) == s[kp]);
                        if pd == id {
                            assert(kp == k);
                            // A child of the edited node: when the parent
                            // changed, it would be in the shifted subtree.
                            if changed {
                                crate::node::lemma_child_reaches(s, s[i].id, pd, id);
                                assert(false);
                            } else {
                                assert(t[kp].depth == nd);
                                assert(nd == s[k].depth) by {
                                    match pn {
                                        Option::None => {},
                                        Option::Some(p2) => {
                                            let kp2 = idx_of(s, p2);
                                            assert(0 <= kp2 < s.len() && s[kp2].id == p2);
                                            lemma_node_at_index(s, kp2);
                                        },
                                    }
                                }
                            }
                        } else {
                            if changed && reaches(s, s[kp].id, id) {
                                crate::node::lemma_child_reaches(s, s[i].id, pd, id);
                                assert(false);
                            } else {
                                assert(t[kp] == s[kp]);
                            }
                        }
                    },
                }
            }
        }
    }
}

/// Edit a node: update its label, sibling order and path type, and, when
/// the parent changes, move its whole subtree in one atomic step,
/// recomputing every descendant's depth from the new base. A move that
/// would create a cycle, a duplicate label under the new parent, or a
/// missing node or parent leaves the store untouched.
pub fn edit(store: &mut NodeStore, req: UpdateTextbookReq) -> (r: Result<TextbookResp, StoreError>)
    requires
        old(store).wf(),
    ensures
        final(store).wf(),
        match r {
            Result::Ok(resp) => {
                &&& spec_edit_ok(
                    old(store)@,
                    req.id as int,
                    spec_edit_parent(req.parent_id),
                    req.label@,
                )
                &&& final(store)@ == spec_edit_result(
                    old(store)@,
                    req.id as int,
                    spec_edit_parent(req.parent_id),
                    req.label@,
                    req.sort_order as int,
                    spec_edit_ptype(
                        old(store)@,
                        req.id as int,
                        spec_opt_text(req.path_type),
                    ),
                )
                &&& forall|d: nat|
                    #[trigger] resp_view(resp, d) == flat_resp(
                        spec_edit_target(
                            old(store)@,
                            req.id as int,
                            spec_edit_parent(req.parent_id),
                            req.label@,
                            req.sort_order as int,
                            spec_edit_ptype(
                                old(store)@,
                                req.id as int,
                                spec_opt_text(req.path_type),
                            ),
                        ),
                    )
            },
            Result::Err(e) => {
                &&& final(store)@ == old(store)@
                &&& !spec_edit_ok(
                    old(store)@,
                    req.id as int,
                    spec_edit_parent(req.parent_id),
                    req.label@,
                )
                &&& e == spec_edit_err(
                    old(store)@,
                    req.id as int,
                    spec_edit_parent(req.parent_id),
                    req.label@,
                )
            },
        },
{
    let ghost s = store@;
    let ghost pn = spec_edit_parent(req.parent_id);
    let parent_norm: Option<i32> = match req.parent_id {
        Option::Some(p) => if p > 0 {
            Option::Some(p)
        } else {
            Option::None
        },
        Option::None => Option::None,
    };
    let is_self = match parent_norm {
        Option::Some(p) => p == req.id,
        Option::None => false,
    };
    if is_self {
        return Result::Err(StoreError::Conflict);
    }
    let (old_parent, old_ptype): (Option<i32>, String) = match store.find_by_id(req.id) {
        Option::Some(t) => (t.parent_id, t.path_type.clone()),
        Option::None => {
            return Result::Err(StoreError::NotFound);
        },
    };
    if store.find_by_parent_and_label(parent_norm, req.label.as_str(), Option::Some(req.id))
        .is_some() {
        return Result::Err(StoreError::Conflict);
    }
    let path_depth: i32 = match parent_norm {
        Option::Some(p) => {
            match store.find_by_id(p) {
                Option::Some(t) => t.path_depth + 1,
                Option::None => {
                    return Result::Err(StoreError::NotFound);
                },
            }
        },
        Option::None => 1,
    };
    let path_type: String = match req.path_type {
        Option::Some(t) => t,
        Option::None => old_ptype,
    };
    let is_parent_changed = match (parent_norm, old_parent) {
        (Option::Some(a), Option::Some(b)) => a != b,
        (Option::None, Option::None) => false,
        _ => true,
    };
    proof {
        assert(is_parent_changed == spec_edit_changed(s, req.id as int, pn));
        assert(path_depth as int == spec_edit_depth(s, pn));
        assert(path_type@ == spec_edit_ptype(s, req.id as int, spec_opt_text(req.path_type)));
    }
    if is_parent_changed {
        match parent_norm {
            Option::Some(p) => {
                if store.is_descendant(req.id, p) {
                    return Result::Err(StoreError::Conflict);
                }
            },
            Option::None => {},
        }
    }
    if is_parent_changed {
        match store.update_descendant_depth(
            req.id,
            parent_norm,
            path_depth,
            path_type.as_str(),
        ) {
            Result::Ok(_) => {},
            Result::Err(e) => {
                return Result::Err(e);
            },
        }
    }
    proof {
        assert(forall|i: int| 0 <= i < s.len() ==> #[trigger] store@[i].id == s[i].id);
        lemma_pointwise_node_of(s, store@, req.id as int);
    }
    let row = match store.update(
        req.id,
        parent_norm,
        req.label.as_str(),
        req.sort_order,
        path_depth,
        path_type.as_str(),
    ) {
        Result::Ok(row) => row,
        Result::Err(_) => {
            proof {
                assert(false);
            }
            return Result::Err(StoreError::NotFound);
        },
    };
    proof {
        lemma_edit_wf(s, old(store).spec_next_id(), req.id as int, pn, req.label@,
            req.sort_order as int, path_type@);
        let k = idx_of(s, req.id as int);
        assert(0 <= k < s.len() && s[k].id == req.id as int);
        lemma_node_at_index(s, k);
        let ghost s1 = if spec_edit_changed(s, req.id as int, pn) {
            crate::store::cascade_rows(s, req.id as int, pn, path_depth as int, path_type@)
        } else {
            s
        };
        lemma_pointwise_node_of(s, s1, req.id as int);
        assert(node_of(s1, req.id as int).key == node_of(s, req.id as int).key);
        assert(store@ =~= spec_edit_result(
            s,
            req.id as int,
            pn,
            req.label@,
            req.sort_order as int,
            path_type@,
        ));
    }
    Result::Ok(to_resp(row))
}

/// Path type given to question categories listed under a chapter node.
pub const PATH_TYPE_COMMON: &'static str = "common";

/// Each position of a read list is the view of the response there.
proof fn lemma_resp_views_index(cs: Seq<TextbookResp>, depth: nat, i: int)
    requires
        0 <= i < cs.len(),
    ensures
        resp_views(cs, depth).len() == cs.len(),
        resp_views(cs, depth)[i] == resp_view(cs[i], depth),
    decreases i,
{
    lemma_resp_views_len(cs, depth);
    if i == 0 {
    } else {
        lemma_resp_views_index(cs.drop_first(), depth, i - 1);
        lemma_resp_views_len(cs.drop_first(), depth);
    }
}

/// Each position of an assembled sibling list is that sibling's response.
proof fn lemma_level_items_index(rows: Seq<NodeV>, items: Seq<NodeV>, depth: nat, i: int)
    requires
        depth >= 1,
        0 <= i < items.len(),
    ensures
        spec_level_items(rows, items, depth).len() == items.len(),
        spec_level_items(rows, items, depth)[i] == resp_of(
            items[i],
            spec_levels(rows, items[i].id, (depth - 1) as nat),
        ),
    decreases i,
{
    lemma_level_items_len(rows, items, depth);
    if i == 0 {
    } else {
        lemma_level_items_index(rows, items.drop_first(), depth, i - 1);
        lemma_level_items_len(rows, items.drop_first(), depth);
    }
}

/// An assembled sibling list has one response per sibling.
proof fn lemma_level_items_len(rows: Seq<NodeV>, items: Seq<NodeV>, depth: nat)
    requires
        depth >= 1,
    ensures
        spec_level_items(rows, items, depth).len() == items.len(),
    decreases items.len(),
{
    if items.len() > 0 {
        lemma_level_items_len(rows, items.drop_first(), depth);
    }
}

/// A response without children reads the same at every budget.
proof fn lemma_childless_view_any_budget(r: TextbookResp, d1: nat, d2: nat)
    requires
        r.children is None,
    ensures
        resp_view(r, d1) == resp_view(r, d2),
{
}

/// The value of one category, listed as a child row.
pub open spec fn cate_resp_v(c: crate::category::CateV) -> RespV {
    RespV {
        id: c.id,
        path_type: PATH_TYPE_COMMON@,
        parent_id: Option::None,
        label: c.label,
        key: Seq::empty(),
        sort_order: c.sort_order,
        path_depth: Option::None,
        children: Option::None,
    }
}

/// The category rows listed under a node: those attached to the node's
/// binding, in table order; none when the node is unbound.
pub open spec fn cates_for_node(
    bs: Seq<crate::bridge::ChapterKnowledge>,
    cs: Seq<crate::category::CateV>,
    node_id: int,
) -> Seq<RespV> {
    if has_bridge_for(bs, node_id) {
        let k = choose|k: int|
            0 <= k < bs.len() && crate::bridge::bridge_touches(bs[k], node_id);
        let picked = cs.filter(crate::category::related_to(bs[k].id as int));
        Seq::new(picked.len(), |i: int| cate_resp_v(picked[i]))
    } else {
        Seq::empty()
    }
}

/// A child row as the children listing fills it: its categories appended
/// below it when it has any.
pub open spec fn spec_augment_kid(
    bs: Seq<crate::bridge::ChapterKnowledge>,
    cs: Seq<crate::category::CateV>,
    kid: RespV,
) -> RespV {
    let extra = cates_for_node(bs, cs, kid.id);
    if extra.len() == 0 {
        kid
    } else {
        RespV {
            children: Option::Some(
                (match kid.children {
                    Option::None => Seq::empty(),
                    Option::Some(existing) => existing,
                }) + extra,
            ),
            ..kid
        }
    }
}

/// A listed node as the children listing fills it: when it sits one level
/// above the addressable units and has children in view, each child gets
/// its categories.
pub open spec fn spec_augment_top(
    bs: Seq<crate::bridge::ChapterKnowledge>,
    cs: Seq<crate::category::CateV>,
    top: RespV,
) -> RespV {
    if top.path_depth == Option::Some(crate::ADDRESSABLE_UNIT_DEPTH as int - 1) && top.children
        is Some {
        let kids = top.children.unwrap();
        RespV {
            children: Option::Some(
                Seq::new(kids.len(), |i: int| spec_augment_kid(bs, cs, kids[i])),
            ),
            ..top
        }
    } else {
        top
    }
}

/// The nested structure a children listing returns: the subtree listing,
/// with question categories filled in under the chapter level.
pub open spec fn spec_list_children(
    s: Seq<NodeV>,
    bs: Seq<crate::bridge::ChapterKnowledge>,
    cs: Seq<crate::category::CateV>,
    parent_id: int,
) -> Seq<RespV> {
    let part = spec_list_part(s, parent_id);
    Seq::new(part.len(), |i: int| spec_augment_top(bs, cs, part[i]))
}

/// Subtree listing with question categories: like the subtree listing,
/// and every child one level above the addressable units additionally
/// carries the categories of its binding.
#[verifier::rlimit(100)]
pub fn list_children(
    store: &NodeStore,
    bridges: &BridgeStore,
    cates: &crate::category::CategoryStore,
    parent_id: u32,
) -> (r: Result<Vec<TextbookResp>, StoreError>)
    requires
        store.wf(),
        bridges.wf(),
        parent_id <= i32::MAX as u32,
    ensures
        match r {
            Result::Ok(v) => resp_views(v@, 3) == spec_list_children(
                store@,
                bridges@,
                cates@,
                parent_id as int,
            ),
            Result::Err(_) => false,
        },
{
    let ghost sv = store@;
    let rows = store.find_all_by_parent_id(parent_id as i32);
    let part = get_levels_by_parent_id(&rows, parent_id as i32, 2);
    let ghost partv = spec_list_part(sv, parent_id as int);
    proof {
        assert(resp_views(part@, 2) == partv);
    }
    let mut out: Vec<TextbookResp> = Vec::new();
    let mut rest = part;
    let ghost part0 = rest@;
    let total = rest.len();
    proof {
        lemma_resp_views_len(part0, 2);
    }
    for done in 0..total
        invariant
            total == part0.len(),
            total == partv.len(),
            rest@.len() + done == total,
            sv == store@,
            bridges.wf(),
            partv == spec_list_part(sv, parent_id as int),
            resp_views(part0, 2) == partv,
            forall|j: int| 0 <= j < rest@.len() ==> #[trigger] rest@[j] == part0[j + done],
            resp_views(out@, 3) == Seq::new(
                done as nat,
                |i: int| spec_augment_top(bridges@, cates@, partv[i]),
            ),
        decreases total - done,
    {
        let ghost rest_before = rest@;
        let ghost outv_before = resp_views(out@, 3);
        let top = rest.remove(0);
        proof {
            assert(top == part0[done as int]);
            assert(forall|j: int|
                0 <= j < rest@.len() ==> #[trigger] rest@[j] == rest_before[j + 1]);
            lemma_resp_views_index(part0, 2, done as int);
            assert(resp_view(top, 2) == partv[done as int]);
        }
        let is_chapter_level = match top.path_depth {
            Option::Some(d) => d == crate::ADDRESSABLE_UNIT_DEPTH - 1,
            Option::None => false,
        };
        let TextbookResp {
            id: top_id,
            path_type: top_path_type,
            parent_id: top_parent,
            label: top_label,
            key: top_key,
            sort_order: top_sort,
            path_depth: top_depth,
            children: top_children,
        } = top;
        let rebuilt: TextbookResp = match top_children {
            Option::Some(kids) => {
                let ghost kidsv = resp_views(kids@, 1);
                proof {
                    assert(partv[done as int].children == Option::Some(kidsv));
                    let rows2 = spec_level_sort(sv.filter(subtree_of(sv, parent_id as int)));
                    let items = bucket(rows2, parent_id as int);
                    assert(partv == spec_level_items(rows2, items, 2));
                    lemma_level_items_len(rows2, items, 2);
                    lemma_level_items_index(rows2, items, 2, done as int);
                    let item = items[done as int];
                    let subkids = spec_levels(rows2, item.id, 1);
                    assert(partv[done as int] == resp_of(item, subkids));
                    assert(kidsv == subkids);
                    lemma_level_items_len(rows2, bucket(rows2, item.id), 1);
                    assert forall|j: int| 0 <= j < kidsv.len() implies (#[trigger] kidsv[j]).children
                        is None by {
                        lemma_level_items_index(rows2, bucket(rows2, item.id), 1, j);
                        assert(kidsv[j] == resp_of(
                            bucket(rows2, item.id)[j],
                            spec_levels(rows2, bucket(rows2, item.id)[j].id, 0),
                        ));
                    }
                    assert forall|j: int| 0 <= j < kids@.len() implies (#[trigger] kids@[j]).children
                        is None by {
                        lemma_resp_views_index(kids@, 1, j);
                        assert(resp_view(kids@[j], 1).children == kidsv[j].children);
                    }
                }
                if is_chapter_level {
                    let mut new_kids: Vec<TextbookResp> = Vec::new();
                    let mut kids_rest = kids;
                    let ghost kids0 = kids_rest@;
                    let kid_total = kids_rest.len();
                    proof {
                        lemma_resp_views_len(kids0, 1);
                    }
                    for kdone in 0..kid_total
                        invariant
                            kid_total == kids0.len(),
                            kid_total == kidsv.len(),
                            kids_rest@.len() + kdone == kid_total,
                            sv == store@,
                            resp_views(kids0, 1) == kidsv,
                            bridges.wf(),
                            partv == spec_list_part(sv, parent_id as int),
                            done < total,
                            total == partv.len(),
                            partv[done as int].children == Option::Some(kidsv),
                            forall|j: int|
                                0 <= j < kids_rest@.len() ==> #[trigger] kids_rest@[j] == kids0[j
                                    + kdone],
                            forall|j: int|
                                0 <= j < kidsv.len() ==> (#[trigger] kidsv[j]).children is None,
                            forall|j: int| 0 <= j < kids0.len() ==> (#[trigger] kids0[j]).children is None,
                            resp_views(new_kids@, 2) == Seq::new(
                                kdone as nat,
                                |i: int| spec_augment_kid(bridges@, cates@, kidsv[i]),
                            ),
                        decreases kid_total - kdone,
                    {
                        let ghost krest_before = kids_rest@;
                        let kid = kids_rest.remove(0);
                        proof {
                            assert(kid == kids0[kdone as int]);
                            assert(forall|j: int|
                                0 <= j < kids_rest@.len() ==> #[trigger] kids_rest@[j]
                                    == krest_before[j + 1]);
                            lemma_resp_views_index(kids0, 1, kdone as int);
                            assert(resp_view(kid, 1) == kidsv[kdone as int]);
                            assert(kid.children is None);
                        }
                        let extra = match bridges.find_by_chapter_or_knowledge_id(kid.id) {
                            Option::Some(b) => {
                                proof {
                                    let k0 = choose|k0: int|
                                        0 <= k0 < bridges@.len() && crate::bridge::bridge_touches(
                                            bridges@[k0],
                                            kid.id as int,
                                        );
                                    let kb = choose|kb: int|
                                        0 <= kb < bridges@.len() && bridges@[kb] == b;
                                    assert(bridges@[kb] == b && crate::bridge::bridge_touches(
                                        bridges@[kb],
                                        kid.id as int,
                                    ));
                                    assert(k0 == kb);
                                }
                                cates.find_all_by_related_id(b.id)
                            },
                            Option::None => Vec::new(),
                        };
                        let ghost extrav = cates_for_node(bridges@, cates@, kid.id as int);
                        proof {
                            if !has_bridge_for(bridges@, kid.id as int) {
                                assert(crate::category::cate_views(extra@) =~= Seq::<
                                    crate::category::CateV,
                                >::empty());
                            }
                            assert(extrav.len() == extra@.len());
                        }
                        let new_kid: TextbookResp = if extra.len() == 0 {
                            proof {
                                assert(extrav.len() == 0);
                                assert(spec_augment_kid(bridges@, cates@, kidsv[kdone as int])
                                    == kidsv[kdone as int]);
                                lemma_childless_view_any_budget(kid, 2, 1);
                            }
                            kid
                        } else {
                            let mut q_children: Vec<TextbookResp> = Vec::new();
                            let extra_total = extra.len();
                            for q in 0..extra_total
                                invariant
                                    extra_total == extra@.len(),
                                    extra_total == extrav.len(),
                                    forall|x: int|
                                        0 <= x < extrav.len() ==> #[trigger] extrav[x]
                                            == cate_resp_v(
                                            crate::category::cate_views(extra@)[x],
                                        ),
                                    resp_views(q_children@, 1) == extrav.take(q as int),
                                decreases extra_total - q,
                            {
                                let c = &extra[q];
                                let q_row = TextbookResp {
                                    id: c.id,
                                    path_type: PATH_TYPE_COMMON.to_owned(),
                                    parent_id: Option::None,
                                    label: c.label.clone(),
                                    key: String::new(),
                                    sort_order: c.sort_order,
                                    path_depth: Option::None,
                                    children: Option::None,
                                };
                                proof {
                                    assert(crate::category::cate_views(extra@)[q as int]
                                        == extra@[q as int]@);
                                    assert(resp_view(q_row, 1) == extrav[q as int]);
                                    lemma_resp_views_push(q_children@, q_row, 1);
                                    assert(extrav.take(q as int).push(extrav[q as int])
                                        =~= extrav.take(q + 1));
                                }
                                q_children.push(q_row);
                            }
                            proof {
                                assert(extrav.take(extra_total as int) =~= extrav);
                            }
                            let TextbookResp {
                                id: kid_id,
                                path_type: kid_path_type,
                                parent_id: kid_parent,
                                label: kid_label,
                                key: kid_key,
                                sort_order: kid_sort,
                                path_depth: kid_depth,
                                children: _kid_children,
                            } = kid;
                            TextbookResp {
                                id: kid_id,
                                path_type: kid_path_type,
                                parent_id: kid_parent,
                                label: kid_label,
                                key: kid_key,
                                sort_order: kid_sort,
                                path_depth: kid_depth,
                                children: Option::Some(q_children),
                            }
                        };
                        proof {
                            assert(Seq::<RespV>::empty() + extrav =~= extrav);
                            assert(resp_view(new_kid, 2) == spec_augment_kid(
                                bridges@,
                                cates@,
                                kidsv[kdone as int],
                            ));
                            lemma_resp_views_push(new_kids@, new_kid, 2);
                            assert(resp_views(new_kids@, 2).push(resp_view(new_kid, 2))
                                =~= Seq::new(
                                (kdone + 1) as nat,
                                |i: int| spec_augment_kid(bridges@, cates@, kidsv[i]),
                            ));
                        }
                        new_kids.push(new_kid);
                    }
                    proof {
                        assert(resp_views(new_kids@, 2) =~= Seq::new(
                            kidsv.len(),
                            |i: int| spec_augment_kid(bridges@, cates@, kidsv[i]),
                        ));
                    }
                    TextbookResp {
                        id: top_id,
                        path_type: top_path_type,
                        parent_id: top_parent,
                        label: top_label,
                        key: top_key,
                        sort_order: top_sort,
                        path_depth: top_depth,
                        children: Option::Some(new_kids),
                    }
                } else {
                    proof {
                        assert forall|j: int| 0 <= j < kids@.len() implies resp_view(
                            #[trigger] kids@[j],
                            2,
                        ) == resp_view(kids@[j], 1) by {
                            lemma_childless_view_any_budget(kids@[j], 2, 1);
                        }
                        assert forall|j: int| 0 <= j < kids@.len() implies #[trigger] resp_views(
                            kids@,
                            2,
                        )[j] == resp_views(kids@, 1)[j] by {
                            lemma_resp_views_index(kids@, 2, j);
                            lemma_resp_views_index(kids@, 1, j);
                        }
                        lemma_resp_views_len(kids@, 2);
                        lemma_resp_views_len(kids@, 1);
                        assert(resp_views(kids@, 2) =~= kidsv);
                    }
                    TextbookResp {
                        id: top_id,
                        path_type: top_path_type,
                        parent_id: top_parent,
                        label: top_label,
                        key: top_key,
                        sort_order: top_sort,
                        path_depth: top_depth,
                        children: Option::Some(kids),
                    }
                }
            },
            Option::None => TextbookResp {
                id: top_id,
                path_type: top_path_type,
                parent_id: top_parent,
                label: top_label,
                key: top_key,
                sort_order: top_sort,
                path_depth: top_depth,
                children: Option::None,
            },
        };
        proof {
            assert(resp_view(rebuilt, 3) == spec_augment_top(
                bridges@,
                cates@,
                partv[done as int],
            ));
            lemma_resp_views_push(out@, rebuilt, 3);
            assert(outv_before.push(resp_view(rebuilt, 3)) =~= Seq::new(
                (done + 1) as nat,
                |i: int| spec_augment_top(bridges@, cates@, partv[i]),
            ));
        }
        out.push(rebuilt);
    }
    proof {
        assert(resp_views(out@, 3) =~= spec_list_children(sv, bridges@, cates@, parent_id as int));
    }
    Result::Ok(out)
}

/// The depth invariant: in a well-formed store, every root sits at depth
/// one and every other node one level below its stored parent.
pub proof fn lemma_depth_invariant(s: Seq<NodeV>, next_id: int, i: int)
    requires
        wf(s, next_id),
        0 <= i < s.len(),
    ensures
        match s[i].parent_id {
            Option::None => s[i].depth == 1,
            Option::Some(p) => has_node(s, p) && s[i].depth == node_of(s, p).depth + 1,
        },
{
}

/// Sibling uniqueness: in a well-formed store, at most one node exists
/// for each `(parent, label)` pair.
pub proof fn lemma_sibling_uniqueness(s: Seq<NodeV>, next_id: int, i: int, j: int)
    requires
        wf(s, next_id),
        0 <= i < s.len(),
        0 <= j < s.len(),
        i != j,
    ensures
        !(s[i].parent_id == s[j].parent_id && s[i].label == s[j].label),
{
}

/// Cascade correctness: a successful move of `target` to depth `nd`
/// places every node of its subtree at `nd` plus its old depth offset
/// from the target, preserving relative depths exactly.
pub proof fn lemma_cascade_preserves_offsets(
    s: Seq<NodeV>,
    target: int,
    new_parent: Option<int>,
    nd: int,
    pt: Seq<char>,
    d: int,
)
    requires
        0 <= d < s.len(),
        s[d].id != target,
        reaches(s, s[d].id, target),
    ensures
        crate::store::cascade_rows(s, target, new_parent, nd, pt)[d].depth == nd + (s[d].depth
            - node_of(s, target).depth),
{
}

/// Cycle rejection: an edit that would place a node under one of its own
/// descendants fails the validation pipeline with a conflict; by the edit
/// contract the store is then left unchanged, an atomic no-op.
pub proof fn lemma_cycle_rejected(s: Seq<NodeV>, id: int, p: int, label: Seq<char>)
    requires
        has_node(s, id),
        p != id,
        has_node(s, p),
        reaches(s, p, id),
        node_of(s, id).parent_id != Option::Some(p),
        !(exists|i: int|
            0 <= i < s.len() && matches_parent_label(s[i], Option::Some(p), label, Option::Some(id))),
    ensures
        !spec_edit_ok(s, id, Option::Some(p), label),
        spec_edit_err(s, id, Option::Some(p), label) == StoreError::Conflict,
{
}

/// Sibling uniqueness at the edit boundary: an edit of a stored node
/// whose label is already used under the requested parent by another node
/// fails the validation pipeline with a conflict; by the edit contract the
/// store is then left unchanged, so at most one node per `(parent, label)`
/// pair ever exists.
pub proof fn lemma_duplicate_label_rejected(s: Seq<NodeV>, id: int, pn: Option<int>, label: Seq<char>)
    requires
        has_node(s, id),
        exists|i: int|
            0 <= i < s.len() && matches_parent_label(s[i], pn, label, Option::Some(id)),
    ensures
        !spec_edit_ok(s, id, pn, label),
        spec_edit_err(s, id, pn, label) == StoreError::Conflict,
{
}

/// The materializer is a pure function of the stored nodes: two listings
/// at the same depth with no intervening writes yield identical nested
/// structures.
pub proof fn lemma_materializer_idempotent(s1: Seq<NodeV>, s2: Seq<NodeV>, depth: int)
    requires
        s1 == s2,
    ensures
        spec_list_all(s1, depth) == spec_list_all(s2, depth),
{
}

} // verus!
