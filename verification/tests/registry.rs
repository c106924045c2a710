//! The bridge registry, question categories, dictionaries, images and the
//! guidance assembly.

use tiku::bridge::BridgeStore;
use tiku::category::CategoryStore;
use tiku::chapter_knowledge::{
    check_unique, get_by_chapter, get_by_knowledge, info_by_chapter_or_knowledge,
    ChapterKnowledgeIdsReq, CreateChapterKnowledgeReq, RemoveChapterKnowledgeReq,
};
use tiku::config::{get_guidance, Knowledge, Publisher, Stage, Subject, Textbook as CfgTextbook};
use tiku::errors::StoreError;
use tiku::question_cate::{list as cate_list, remove as cate_remove, CreateQuestionCateReq};
use tiku::store::NodeStore;
use tiku::textbook_dict::{
    delete as dict_delete, get_list as dict_list, CreateTextbookDictReq, DictStore,
    TextbookDictListReq,
};
use tiku::upload::{get_content_type, get_read_image_url, validate_file_type, UploadImageReq};

#[test]
fn bindings_are_exclusive() {
    let mut bridges = BridgeStore::new();
    let b = tiku::chapter_knowledge::add(&mut bridges, CreateChapterKnowledgeReq { chapter_id: 7, knowledge_id: 20 })
        .unwrap();
    assert_eq!(b.id, Some(1));
    assert_eq!(b.chapter_id, 7);
    assert_eq!(b.knowledge_id, 20);

    // The exact pair again, and any reuse of either endpoint, conflict.
    assert_eq!(
        tiku::chapter_knowledge::add(&mut bridges, CreateChapterKnowledgeReq { chapter_id: 7, knowledge_id: 20 })
            .unwrap_err(),
        StoreError::Conflict
    );
    assert_eq!(
        tiku::chapter_knowledge::add(&mut bridges, CreateChapterKnowledgeReq { chapter_id: 7, knowledge_id: 21 })
            .unwrap_err(),
        StoreError::Conflict
    );
    assert_eq!(
        tiku::chapter_knowledge::add(&mut bridges, CreateChapterKnowledgeReq { chapter_id: 8, knowledge_id: 20 })
            .unwrap_err(),
        StoreError::Conflict
    );

    // Lookup works from either endpoint.
    assert_eq!(info_by_chapter_or_knowledge(&bridges, 7).unwrap().id, Some(1));
    assert_eq!(info_by_chapter_or_knowledge(&bridges, 20).unwrap().id, Some(1));
    assert_eq!(
        info_by_chapter_or_knowledge(&bridges, 99).unwrap_err(),
        StoreError::NotFound
    );
    assert!(check_unique(&bridges, &CreateChapterKnowledgeReq { chapter_id: 9, knowledge_id: 10 })
        .is_ok());
}

#[test]
fn unbinding_is_gated_by_categories() {
    let mut bridges = BridgeStore::new();
    let mut cates = CategoryStore::new();
    let b = tiku::chapter_knowledge::add(&mut bridges, CreateChapterKnowledgeReq { chapter_id: 7, knowledge_id: 20 })
        .unwrap();
    tiku::question_cate::add(
        &mut cates,
        CreateQuestionCateReq { related_id: b.id.unwrap(), label: "choice".to_string(), sort_order: 0 },
    )
    .unwrap();

    assert_eq!(
        tiku::chapter_knowledge::remove(&mut bridges, &cates, RemoveChapterKnowledgeReq { id: 7 }).unwrap_err(),
        StoreError::Blocked
    );
    cate_remove(&mut cates, 1).unwrap();
    assert_eq!(tiku::chapter_knowledge::remove(&mut bridges, &cates, RemoveChapterKnowledgeReq { id: 7 }).unwrap(), true);
    assert_eq!(
        info_by_chapter_or_knowledge(&bridges, 7).unwrap_err(),
        StoreError::NotFound
    );
    // Unbinding an unbound node removes nothing; a blank id is refused.
    assert_eq!(tiku::chapter_knowledge::remove(&mut bridges, &cates, RemoveChapterKnowledgeReq { id: 7 }).unwrap(), false);
    assert_eq!(
        tiku::chapter_knowledge::remove(&mut bridges, &cates, RemoveChapterKnowledgeReq { id: 0 }).unwrap_err(),
        StoreError::NotFound
    );
}

#[test]
fn bindings_resolve_to_node_details() {
    let mut store = NodeStore::new();
    let mut bridges = BridgeStore::new();
    for label in ["chapter", "topic"] {
        tiku::textbook::add(
            &mut store,
            tiku::textbook::CreateTextbookReq {
                parent_id: None,
                label: label.to_string(),
                path_depth: None,
                sort_order: 0,
                path_type: "chapter".to_string(),
            },
        )
        .unwrap();
    }
    tiku::chapter_knowledge::add(&mut bridges, CreateChapterKnowledgeReq { chapter_id: 1, knowledge_id: 2 }).unwrap();

    let topics = get_by_chapter(&store, &bridges, ChapterKnowledgeIdsReq { ids: vec![1] }).unwrap();
    assert_eq!(topics.len(), 1);
    assert_eq!(topics[0].label, "topic");
    let chapters = get_by_knowledge(&store, &bridges, ChapterKnowledgeIdsReq { ids: vec![2] })
        .unwrap();
    assert_eq!(chapters.len(), 1);
    assert_eq!(chapters[0].label, "chapter");
    let none = get_by_chapter(&store, &bridges, ChapterKnowledgeIdsReq { ids: vec![] }).unwrap();
    assert!(none.is_empty());
}

#[test]
fn categories_carry_digest_keys() {
    let mut cates = CategoryStore::new();
    let c = tiku::question_cate::add(
        &mut cates,
        CreateQuestionCateReq { related_id: 4, label: "hello".to_string(), sort_order: 2 },
    )
    .unwrap();
    assert_eq!(c.id, 1);
    assert_eq!(c.key, "5d41402abc");
    let listed = cate_list(&cates, 4).unwrap();
    assert_eq!(listed.len(), 1);
    assert_eq!(listed[0].label, "hello");
    assert!(cate_list(&cates, 9).unwrap().is_empty());
    assert_eq!(cate_remove(&mut cates, 1).unwrap(), true);
    assert_eq!(cate_remove(&mut cates, 1).unwrap(), false);
}

#[test]
fn dictionaries_enforce_their_triple() {
    let mut dicts = DictStore::new();
    let d = tiku::textbook_dict::add(
        &mut dicts,
        CreateTextbookDictReq {
            textbook_id: 1,
            type_code: "unit".to_string(),
            item_value: "one".to_string(),
            sort_order: 0,
        },
    )
    .unwrap();
    assert_eq!(d.id, 1);
    assert_eq!(
        tiku::textbook_dict::add(
            &mut dicts,
            CreateTextbookDictReq {
                textbook_id: 1,
                type_code: "unit".to_string(),
                item_value: "one".to_string(),
                sort_order: 5,
            },
        )
        .unwrap_err(),
        StoreError::Conflict
    );
    tiku::textbook_dict::add(
        &mut dicts,
        CreateTextbookDictReq {
            textbook_id: 1,
            type_code: "unit".to_string(),
            item_value: "two".to_string(),
            sort_order: 1,
        },
    )
    .unwrap();
    let listed = dict_list(
        &dicts,
        TextbookDictListReq { textbook_id: 1, type_code: "unit".to_string() },
    )
    .unwrap();
    assert_eq!(listed.len(), 2);
    assert_eq!(listed[0].item_value, "one");
    assert_eq!(listed[1].item_value, "two");
    assert_eq!(dict_delete(&mut dicts, 1).unwrap(), true);
    assert_eq!(dict_delete(&mut dicts, 1).unwrap(), false);
}

#[test]
fn image_names_are_validated() {
    assert!(validate_file_type("photo.png").is_ok());
    assert!(validate_file_type("photo.JPG").is_ok());
    assert!(validate_file_type("photo.JpEg").is_ok());
    assert!(validate_file_type("plain").is_ok());
    assert_eq!(validate_file_type("run.exe").unwrap_err(), StoreError::Conflict);
    assert_eq!(validate_file_type("a.pngx").unwrap_err(), StoreError::Conflict);
}

#[test]
fn image_urls_and_content_types() {
    let req = UploadImageReq {
        textbook_key: "pep_math".to_string(),
        catalog_key: "c_1".to_string(),
        id: None,
    };
    assert_eq!(
        get_read_image_url(&req, "abcdef0123"),
        "/api/file/read/pep_math/c_1/abcdef0123"
    );
    assert_eq!(get_content_type("a.png"), "image/png");
    assert_eq!(get_content_type("a.jpeg"), "image/jpeg");
    assert_eq!(get_content_type("archive.tar.gz"), "application/octet-stream");
    assert_eq!(get_content_type("noext"), "application/octet-stream");
}

#[test]
fn guidance_assembles_by_keys() {
    let subjects = vec![
        Subject { label: "Math".to_string(), key: "math".to_string(), order: 1, children: vec![] },
        Subject { label: "Art".to_string(), key: "art".to_string(), order: 2, children: vec![] },
    ];
    let publishers = vec![(
        "math".to_string(),
        vec![Publisher {
            label: "PEP".to_string(),
            key: "math_pep".to_string(),
            order: 1,
            children: vec![],
        }],
    )];
    let stages = vec![(
        "math_pep".to_string(),
        vec![Stage {
            label: "Senior".to_string(),
            key: "math_pep_senior".to_string(),
            order: 1,
            textbook_list: vec![],
            knowledge_list: vec![],
        }],
    )];
    let textbooks = vec![(
        "math_pep_senior".to_string(),
        vec![CfgTextbook { label: "Volume One".to_string(), key: "v1".to_string(), order: 1 }],
    )];
    let knowledge = vec![(
        "math_pep_senior".to_string(),
        vec![Knowledge { label: "Algebra".to_string(), key: "alg".to_string(), order: 1 }],
    )];

    let tree = get_guidance(subjects, &publishers, &stages, &textbooks, &knowledge).unwrap();
    assert_eq!(tree.len(), 2);
    assert_eq!(tree[0].children.len(), 1);
    let pep = &tree[0].children[0];
    assert_eq!(pep.label, "PEP");
    assert_eq!(pep.children.len(), 1);
    let senior = &pep.children[0];
    assert_eq!(senior.textbook_list.len(), 1);
    assert_eq!(senior.textbook_list[0].label, "Volume One");
    assert_eq!(senior.knowledge_list.len(), 1);
    assert_eq!(senior.knowledge_list[0].key, "alg");
    // A subject nobody filed publishers for stays bare.
    assert!(tree[1].children.is_empty());
}

#[test]
fn error_messages_are_stable() {
    assert_eq!(StoreError::NotFound.message(), "record not found");
    assert_eq!(StoreError::Conflict.message(), "conflicting label, parent or move");
    assert_eq!(StoreError::Blocked.message(), "node is still referenced");
    assert_eq!(StoreError::StoreFailure.message(), "store operation failed");
}
