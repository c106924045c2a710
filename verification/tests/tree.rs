//! The tree manager end to end: creation, listing, reparenting with its
//! depth cascade, cycle rejection, and guarded deletion.

use tiku::bridge::BridgeStore;
use tiku::category::CategoryStore;
use tiku::errors::StoreError;
use tiku::store::NodeStore;
use tiku::textbook::{
    add, delete, edit, info, info_list_by_ids, list_all, list_children, list_part,
    CreateTextbookReq, UpdateTextbookReq,
};

fn create_req(parent_id: Option<i32>, label: &str, sort_order: i32) -> CreateTextbookReq {
    CreateTextbookReq {
        parent_id,
        label: label.to_string(),
        path_depth: None,
        sort_order,
        path_type: "subject".to_string(),
    }
}

#[test]
fn add_assigns_ids_depths_and_keys() {
    let mut store = NodeStore::new();
    let a = add(&mut store, create_req(None, "a", 0)).unwrap();
    assert_eq!(a.id, 1);
    assert_eq!(a.path_depth, Some(1));
    assert_eq!(a.parent_id, None);
    assert_eq!(a.key.len(), 10);

    let b = add(&mut store, create_req(Some(1), "b", 0)).unwrap();
    assert_eq!(b.id, 2);
    assert_eq!(b.path_depth, Some(2));
    assert_eq!(b.parent_id, Some(1));
    assert_ne!(a.key, b.key);
    // The stored key is the content-addressed one.
    assert_eq!(a.key, tiku::digest::get_label_key(None, "a"));
    assert_eq!(b.key, tiku::digest::get_label_key(Some(1), "b"));
}

#[test]
fn add_rejects_duplicate_sibling_label() {
    let mut store = NodeStore::new();
    add(&mut store, create_req(None, "math", 0)).unwrap();
    let err = add(&mut store, create_req(None, "math", 1)).unwrap_err();
    assert_eq!(err, StoreError::Conflict);
    // The same label under a different parent is fine.
    let under = add(&mut store, create_req(Some(1), "math", 0)).unwrap();
    assert_eq!(under.path_depth, Some(2));
}

#[test]
fn add_rejects_missing_parent_and_wrong_depth() {
    let mut store = NodeStore::new();
    let err = add(&mut store, create_req(Some(77), "x", 0)).unwrap_err();
    assert_eq!(err, StoreError::NotFound);
    let mut req = create_req(None, "x", 0);
    req.path_depth = Some(3);
    let err = add(&mut store, req).unwrap_err();
    assert_eq!(err, StoreError::Conflict);
    let mut req = create_req(None, "x", 0);
    req.path_depth = Some(1);
    assert!(add(&mut store, req).is_ok());
}

#[test]
fn info_reports_missing_nodes() {
    let mut store = NodeStore::new();
    assert_eq!(info(&store, 5).unwrap_err(), StoreError::NotFound);
    add(&mut store, create_req(None, "a", 0)).unwrap();
    assert_eq!(info(&store, 1).unwrap().label, "a");
}

/// Nodes A(depth 1, root), B(parent A, depth 2), C(parent B, depth 3):
/// moving B under a new root D leaves B at depth 2 and C at depth 3 with
/// B's parent now D; moving A under C is rejected, because A is an
/// ancestor of C.
#[test]
fn reparent_scenario() {
    let mut store = NodeStore::new();
    add(&mut store, create_req(None, "A", 0)).unwrap(); // id 1
    add(&mut store, create_req(Some(1), "B", 0)).unwrap(); // id 2
    add(&mut store, create_req(Some(2), "C", 0)).unwrap(); // id 3
    add(&mut store, create_req(None, "D", 0)).unwrap(); // id 4

    // While C sits below A, moving A under C would close a cycle.
    let err = edit(
        &mut store,
        UpdateTextbookReq {
            id: 1,
            parent_id: Some(3),
            label: "A".to_string(),
            sort_order: 0,
            path_type: None,
        },
    )
    .unwrap_err();
    assert_eq!(err, StoreError::Conflict);

    let b = edit(
        &mut store,
        UpdateTextbookReq {
            id: 2,
            parent_id: Some(4),
            label: "B".to_string(),
            sort_order: 0,
            path_type: None,
        },
    )
    .unwrap();
    assert_eq!(b.parent_id, Some(4));
    assert_eq!(b.path_depth, Some(2));
    assert_eq!(info(&store, 3).unwrap().path_depth, Some(3));
    assert_eq!(info(&store, 3).unwrap().parent_id, Some(2));
}

/// A subtree with relative depths d, d+1, d+2 moved under a parent at
/// depth k comes out at depths k+1, k+2, k+3: offsets are preserved.
#[test]
fn cascade_preserves_relative_depths() {
    let mut store = NodeStore::new();
    add(&mut store, create_req(None, "x", 0)).unwrap(); // id 1, depth 1
    add(&mut store, create_req(Some(1), "y", 0)).unwrap(); // id 2, depth 2
    add(&mut store, create_req(Some(2), "z", 0)).unwrap(); // id 3, depth 3
    add(&mut store, create_req(None, "p", 0)).unwrap(); // id 4, depth 1
    add(&mut store, create_req(Some(4), "q", 0)).unwrap(); // id 5, depth 2

    // Move x (depth 1, subtree depths [1, 2, 3]) under q (depth 2).
    edit(
        &mut store,
        UpdateTextbookReq {
            id: 1,
            parent_id: Some(5),
            label: "x".to_string(),
            sort_order: 0,
            path_type: None,
        },
    )
    .unwrap();
    assert_eq!(info(&store, 1).unwrap().path_depth, Some(3));
    assert_eq!(info(&store, 2).unwrap().path_depth, Some(4));
    assert_eq!(info(&store, 3).unwrap().path_depth, Some(5));
}

/// A rejected move is an atomic no-op: every parent and depth stays as it
/// was.
#[test]
fn cycle_rejection_changes_nothing() {
    let mut store = NodeStore::new();
    add(&mut store, create_req(None, "A", 0)).unwrap(); // 1
    add(&mut store, create_req(Some(1), "B", 0)).unwrap(); // 2
    add(&mut store, create_req(Some(2), "C", 0)).unwrap(); // 3

    let before: Vec<_> = (1..=3).map(|i| info(&store, i).unwrap()).collect();
    let err = edit(
        &mut store,
        UpdateTextbookReq {
            id: 1,
            parent_id: Some(3),
            label: "A".to_string(),
            sort_order: 0,
            path_type: None,
        },
    )
    .unwrap_err();
    assert_eq!(err, StoreError::Conflict);
    let after: Vec<_> = (1..=3).map(|i| info(&store, i).unwrap()).collect();
    assert_eq!(before, after);

    // A node cannot be made its own parent either.
    let err = edit(
        &mut store,
        UpdateTextbookReq {
            id: 2,
            parent_id: Some(2),
            label: "B".to_string(),
            sort_order: 0,
            path_type: None,
        },
    )
    .unwrap_err();
    assert_eq!(err, StoreError::Conflict);
}

#[test]
fn edit_rejects_duplicate_label_under_new_parent() {
    let mut store = NodeStore::new();
    add(&mut store, create_req(None, "A", 0)).unwrap(); // 1
    add(&mut store, create_req(None, "B", 0)).unwrap(); // 2
    add(&mut store, create_req(Some(1), "B", 0)).unwrap(); // 3
    // Renaming node 2 to "A" collides with node 1 at the root.
    let err = edit(
        &mut store,
        UpdateTextbookReq {
            id: 2,
            parent_id: None,
            label: "A".to_string(),
            sort_order: 0,
            path_type: None,
        },
    )
    .unwrap_err();
    assert_eq!(err, StoreError::Conflict);
    // Keeping its own label is fine even though a nephew shares it.
    assert!(edit(
        &mut store,
        UpdateTextbookReq {
            id: 2,
            parent_id: None,
            label: "B".to_string(),
            sort_order: 7,
            path_type: Some("stage".to_string()),
        },
    )
    .is_ok());
    assert_eq!(info(&store, 2).unwrap().sort_order, 7);
    assert_eq!(info(&store, 2).unwrap().path_type, "stage");
}

fn deep_chain(store: &mut NodeStore, labels: &[&str]) -> Vec<i32> {
    let mut ids = Vec::new();
    let mut parent = None;
    for label in labels {
        let resp = add(store, create_req(parent, label, 0)).unwrap();
        parent = Some(resp.id);
        ids.push(resp.id);
    }
    ids
}

/// Deleting a node with children is blocked; deleting an addressable-unit
/// node with a live binding is blocked; deleting a free leaf succeeds and
/// the node is gone afterwards.
#[test]
fn deletion_guard() {
    let mut store = NodeStore::new();
    let mut bridges = BridgeStore::new();
    let ids = deep_chain(&mut store, &["l1", "l2", "l3", "l4", "l5", "l6", "l7"]);
    let leaf = ids[6]; // depth 7: the addressable-unit level

    // Its parent has a child, so it cannot go.
    assert_eq!(
        delete(&mut store, &bridges, ids[5]).unwrap_err(),
        StoreError::Blocked
    );

    // A bound addressable-unit node cannot go either.
    tiku::chapter_knowledge::add(
        &mut bridges,
        tiku::chapter_knowledge::CreateChapterKnowledgeReq {
            chapter_id: leaf,
            knowledge_id: 1000,
        },
    )
    .unwrap();
    assert_eq!(
        delete(&mut store, &bridges, leaf).unwrap_err(),
        StoreError::Blocked
    );

    // Unbind it, and deletion goes through; the node is gone.
    let cates = CategoryStore::new();
    tiku::chapter_knowledge::remove(
        &mut bridges,
        &cates,
        tiku::chapter_knowledge::RemoveChapterKnowledgeReq { id: leaf },
    )
    .unwrap();
    assert_eq!(delete(&mut store, &bridges, leaf).unwrap(), true);
    assert_eq!(info(&store, leaf).unwrap_err(), StoreError::NotFound);

    // An unknown node reports NotFound.
    assert_eq!(
        delete(&mut store, &bridges, 999).unwrap_err(),
        StoreError::NotFound
    );
}

#[test]
fn list_all_nests_and_clamps() {
    let mut store = NodeStore::new();
    add(&mut store, create_req(None, "root-b", 1)).unwrap(); // id 1
    add(&mut store, create_req(None, "root-a", 0)).unwrap(); // id 2
    add(&mut store, create_req(Some(1), "kid", 0)).unwrap(); // id 3

    let listing = list_all(&store, 5).unwrap();
    assert_eq!(listing.len(), 2);
    // Siblings come out in sibling order.
    assert_eq!(listing[0].label, "root-a");
    assert_eq!(listing[1].label, "root-b");
    // A node without children carries an absent children field.
    assert!(listing[0].children.is_none());
    let kids = listing[1].children.as_ref().unwrap();
    assert_eq!(kids.len(), 1);
    assert_eq!(kids[0].label, "kid");
    assert!(kids[0].children.is_none());

    // Depth 1 cuts the nesting off at the roots.
    let shallow = list_all(&store, 1).unwrap();
    assert_eq!(shallow.len(), 2);
    assert!(shallow[1].children.is_none());
}

/// Listing twice with no intervening writes yields identical nested
/// structures.
#[test]
fn materializer_idempotent() {
    let mut store = NodeStore::new();
    deep_chain(&mut store, &["a", "b", "c"]);
    add(&mut store, create_req(Some(1), "d", 5)).unwrap();
    let first = list_all(&store, 7).unwrap();
    let second = list_all(&store, 7).unwrap();
    assert_eq!(first, second);
}

#[test]
fn list_part_shows_two_levels() {
    let mut store = NodeStore::new();
    deep_chain(&mut store, &["a", "b", "c", "d"]);
    let part = list_part(&store, 1).unwrap();
    assert_eq!(part.len(), 1);
    assert_eq!(part[0].label, "b");
    let kids = part[0].children.as_ref().unwrap();
    assert_eq!(kids.len(), 1);
    assert_eq!(kids[0].label, "c");
    // The listing stops two levels below the parent.
    assert!(kids[0].children.is_none());
}

#[test]
fn list_children_attaches_categories() {
    let mut store = NodeStore::new();
    let mut bridges = BridgeStore::new();
    let mut cates = CategoryStore::new();
    let ids = deep_chain(&mut store, &["l1", "l2", "l3", "l4", "l5", "l6", "l7"]);
    let chapter = ids[6]; // depth 7, listed under its depth-6 parent

    let bind = tiku::chapter_knowledge::add(
        &mut bridges,
        tiku::chapter_knowledge::CreateChapterKnowledgeReq {
            chapter_id: chapter,
            knowledge_id: 1000,
        },
    )
    .unwrap();
    tiku::question_cate::add(
        &mut cates,
        tiku::question_cate::CreateQuestionCateReq {
            related_id: bind.id.unwrap(),
            label: "choice".to_string(),
            sort_order: 0,
        },
    )
    .unwrap();

    // Listing under the depth-5 node shows the depth-6 node, its depth-7
    // child, and that child's categories as a third level.
    let listing = list_children(&store, &bridges, &cates, ids[4] as u32).unwrap();
    assert_eq!(listing.len(), 1);
    assert_eq!(listing[0].label, "l6");
    let kids = listing[0].children.as_ref().unwrap();
    assert_eq!(kids.len(), 1);
    assert_eq!(kids[0].label, "l7");
    let q = kids[0].children.as_ref().unwrap();
    assert_eq!(q.len(), 1);
    assert_eq!(q[0].label, "choice");
    assert_eq!(q[0].path_type, "common");
    assert_eq!(q[0].key, "");

    // Without a binding, nothing is attached.
    let plain = list_children(&store, &bridges, &cates, ids[3] as u32).unwrap();
    assert_eq!(plain[0].label, "l5");
    let kids = plain[0].children.as_ref().unwrap();
    assert!(kids[0].children.is_none());
}

#[test]
fn info_list_by_ids_filters() {
    let mut store = NodeStore::new();
    add(&mut store, create_req(None, "a", 0)).unwrap();
    add(&mut store, create_req(None, "b", 0)).unwrap();
    add(&mut store, create_req(None, "c", 0)).unwrap();
    let got = info_list_by_ids(&store, &vec![3, 1]).unwrap();
    assert_eq!(got.len(), 2);
    assert_eq!(got[0].label, "a");
    assert_eq!(got[1].label, "c");
}
