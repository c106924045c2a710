//! Text helpers, digests, question uploads and per-fragment edits.

use tiku::digest::{digest_prefix, get_label_key, u64_to_string};
use tiku::edit::{
    edit_question_type, edit_rate, edit_select, edit_tags, edit_title, EditQuestionTypeReq,
    EditRateReq, EditSelectReq, EditTagsReq, EditTitleReq,
};
use tiku::errors::StoreError;
use tiku::index::{
    append_write_index, get_question_index, get_question_index_max_id, question_full_id,
    QuestionIndex,
};
use tiku::question::{
    get_question_info, get_question_list, related_source_id, upload_question, QuestionInfoReq,
    QuestionListReq, QuestionUploadReq,
};
use tiku::text::{get_first_part, has_content, take_first_n_parts, underline_to_slash};

#[test]
fn underline_to_slash_opens_keys() {
    assert_eq!(underline_to_slash("pep_chinese_senior_1"), "pep/chinese/senior/1");
    assert_eq!(underline_to_slash("plain"), "plain");
    assert_eq!(underline_to_slash(""), "");
}

#[test]
fn get_first_part_cuts_at_first_underscore() {
    assert_eq!(get_first_part("pep_chinese").unwrap(), "pep");
    assert_eq!(get_first_part("plain").unwrap(), "plain");
    assert_eq!(get_first_part("").unwrap(), "");
    assert_eq!(get_first_part("_x").unwrap(), "");
}

#[test]
fn take_first_n_parts_joins_or_rejects() {
    assert_eq!(
        take_first_n_parts("pep_chinese_senior_1", '_', '/', 3).unwrap(),
        "pep/chinese/senior"
    );
    assert_eq!(take_first_n_parts("a_b", '_', '-', 2).unwrap(), "a-b");
    assert_eq!(
        take_first_n_parts("a_b", '_', '/', 3).unwrap_err(),
        StoreError::Conflict
    );
    assert_eq!(take_first_n_parts("a_b", '_', '/', 0).unwrap(), "");
}

#[test]
fn has_content_ignores_whitespace() {
    assert!(!has_content(""));
    assert!(!has_content(" \t\n"));
    assert!(has_content(" x "));
}

#[test]
fn decimal_rendering() {
    assert_eq!(u64_to_string(0), "0");
    assert_eq!(u64_to_string(7), "7");
    assert_eq!(u64_to_string(90210), "90210");
    assert_eq!(question_full_id(12, "abcde"), "12_abcde");
}

#[test]
fn digests_are_real_digests() {
    // The digest of the empty string is well known; a pass-through
    // would keep the input instead.
    assert_eq!(digest_prefix("", 10), "d41d8cd98f");
    assert_eq!(digest_prefix("hello", 5), "5d414");
    let root_key = get_label_key(None, "math");
    let child_key = get_label_key(Some(3), "math");
    assert_eq!(root_key.len(), 10);
    assert_eq!(child_key.len(), 10);
    assert_ne!(root_key, child_key);
}

fn entry(id: u64, left: &str) -> QuestionIndex {
    QuestionIndex {
        id,
        left: left.to_string(),
        question_type: "choice".to_string(),
        tags: None,
        rate_val: None,
        image_names: None,
        show_image_val: None,
        show_select_val: None,
        create_time: None,
        update_time: None,
        author: None,
    }
}

#[test]
fn max_id_over_index() {
    assert_eq!(get_question_index_max_id(&vec![]), 0);
    assert_eq!(
        get_question_index_max_id(&vec![entry(3, "a"), entry(9, "b"), entry(2, "c")]),
        9
    );
}

#[test]
fn append_and_find_index_entries() {
    let mut list = vec![entry(1, "aaaaa")];
    let id = append_write_index(&mut list, entry(2, "bbbbb")).unwrap();
    assert_eq!(id, "2_bbbbb");
    assert_eq!(list.len(), 2);
    let found = get_question_index("2_bbbbb", list).unwrap();
    assert_eq!(found.id, 2);
    let missing = get_question_index("3_ccccc", vec![entry(1, "aaaaa")]).unwrap_err();
    assert_eq!(missing, StoreError::NotFound);
}

fn upload_req(title: &str) -> QuestionUploadReq {
    QuestionUploadReq {
        textbook_key: "pep_math".to_string(),
        catalog_key: "c_1".to_string(),
        source_id: None,
        question_type: "choice".to_string(),
        tags: Some(vec!["t1".to_string()]),
        rate_val: Some("3".to_string()),
        title_val: title.to_string(),
        mention_val: None,
        image_names: None,
        show_image_val: None,
        a_val: Some("A".to_string()),
        b_val: Some("B".to_string()),
        c_val: None,
        d_val: None,
        e_val: None,
        show_select_val: None,
        answer_val: Some("A".to_string()),
        knowledge_val: None,
        analyze_val: None,
        process_val: None,
        remark_val: None,
    }
}

#[test]
fn upload_question_numbers_and_addresses() {
    let mut list: Vec<QuestionIndex> = Vec::new();
    let resp = upload_question(&upload_req("hello"), &mut list).unwrap();
    // Number 1, addressed by the title digest's first five characters.
    assert_eq!(resp.id, "1_5d414");
    assert_eq!(list.len(), 1);
    assert_eq!(list[0].question_type, "choice");
    assert!(list[0].create_time.is_some());
    assert_eq!(list[0].create_time, list[0].update_time);

    // A second title gets the next number.
    let resp = upload_question(&upload_req("world"), &mut list).unwrap();
    assert!(resp.id.starts_with("2_"));

    // The same title again is rejected and the index is unchanged.
    let before = list.len();
    let err = upload_question(&upload_req("hello"), &mut list).unwrap_err();
    assert_eq!(err, StoreError::Conflict);
    assert_eq!(list.len(), before);

    // A blank title is rejected.
    let err = upload_question(&upload_req("  \t"), &mut list).unwrap_err();
    assert_eq!(err, StoreError::Conflict);
}

#[test]
fn edit_fragments_in_index() {
    let mut list = vec![entry(1, "aaaaa"), entry(2, "bbbbb")];
    edit_question_type(
        &mut list,
        EditQuestionTypeReq {
            textbook_key: "tb".to_string(),
            catalog_key: "c".to_string(),
            id: "2_bbbbb".to_string(),
            question_type: "blank".to_string(),
        },
    )
    .unwrap();
    assert_eq!(list[1].question_type, "blank");
    assert_eq!(list[0].question_type, "choice");

    edit_tags(
        &mut list,
        EditTagsReq {
            textbook_key: "tb".to_string(),
            catalog_key: "c".to_string(),
            id: "1_aaaaa".to_string(),
            tags: vec!["hard".to_string()],
        },
    )
    .unwrap();
    assert_eq!(list[0].tags.as_ref().unwrap(), &vec!["hard".to_string()]);

    edit_rate(
        &mut list,
        EditRateReq {
            textbook_key: "tb".to_string(),
            catalog_key: "c".to_string(),
            id: "1_aaaaa".to_string(),
            rate: "4".to_string(),
        },
    )
    .unwrap();
    assert_eq!(list[0].rate_val.as_deref(), Some("4"));

    edit_select(
        &mut list,
        EditSelectReq {
            textbook_key: "tb".to_string(),
            catalog_key: "c".to_string(),
            id: "1_aaaaa".to_string(),
            select: "two-column".to_string(),
        },
    )
    .unwrap();
    assert_eq!(list[0].show_select_val.as_deref(), Some("two-column"));

    // An identifier nobody carries edits nothing.
    let before_types: Vec<String> = list.iter().map(|e| e.question_type.clone()).collect();
    edit_question_type(
        &mut list,
        EditQuestionTypeReq {
            textbook_key: "tb".to_string(),
            catalog_key: "c".to_string(),
            id: "9_zzzzz".to_string(),
            question_type: "essay".to_string(),
        },
    )
    .unwrap();
    let after_types: Vec<String> = list.iter().map(|e| e.question_type.clone()).collect();
    assert_eq!(before_types, after_types);
}

#[test]
fn edit_title_names_the_file() {
    let (path, content) = edit_title(
        "/meta",
        EditTitleReq {
            textbook_key: "pep_math".to_string(),
            catalog_key: "c_1".to_string(),
            id: "1_5d414".to_string(),
            title: "T".to_string(),
        },
    );
    assert_eq!(path, "/meta/pep/math/c/1/1_5d414/title.md");
    assert_eq!(content, "T");
}

#[test]
fn question_info_skeleton() {
    let list = vec![entry(1, "aaaaa")];
    let resp = get_question_info(
        QuestionInfoReq {
            textbook_key: "tb_x".to_string(),
            catalog_key: "c_y".to_string(),
            id: "1_aaaaa".to_string(),
            ext: None,
        },
        list,
    )
    .unwrap();
    assert_eq!(resp.id, "1_aaaaa");
    assert_eq!(resp.question_type, "choice");
    assert_eq!(resp.title_val, "");
    assert!(resp.answer_val.is_none());

    let err = get_question_info(
        QuestionInfoReq {
            textbook_key: "tb_x".to_string(),
            catalog_key: "c_y".to_string(),
            id: "2_zzzzz".to_string(),
            ext: None,
        },
        vec![entry(1, "aaaaa")],
    )
    .unwrap_err();
    assert_eq!(err, StoreError::NotFound);
}

#[test]
fn question_list_pages() {
    let list = vec![entry(1, "a"), entry(2, "b"), entry(3, "c"), entry(4, "d"), entry(5, "e")];
    let req = QuestionListReq {
        textbook_key: "tb".to_string(),
        catalog_key: "c".to_string(),
        page_no: 2,
        page_size: 2,
    };
    let (resp, page) = get_question_list(&req, list).unwrap();
    assert_eq!(resp.total, 5);
    assert_eq!(resp.page_no, 2);
    assert_eq!(page.len(), 2);
    assert_eq!(page[0].id, 3);
    assert_eq!(page[1].id, 4);

    // The last page is cut to what is there; a page beyond the end is empty.
    let req = QuestionListReq {
        textbook_key: "tb".to_string(),
        catalog_key: "c".to_string(),
        page_no: 3,
        page_size: 2,
    };
    let (_, page) = get_question_list(&req, vec![entry(1, "a"), entry(2, "b"), entry(3, "c"), entry(4, "d"), entry(5, "e")]).unwrap();
    assert_eq!(page.len(), 1);
    assert_eq!(page[0].id, 5);
    let req = QuestionListReq {
        textbook_key: "tb".to_string(),
        catalog_key: "c".to_string(),
        page_no: 9,
        page_size: 2,
    };
    let (_, page) = get_question_list(&req, vec![entry(1, "a")]).unwrap();
    assert_eq!(page.len(), 0);
}

#[test]
fn markdown_plan_lists_present_fragments() {
    let plan = tiku::question::markdown_write_plan("/meta", "1_5d414", &upload_req("hello"));
    // Title, options A and B, and the answer are present; nothing else.
    assert_eq!(plan.len(), 4);
    assert_eq!(plan[0].0, "/meta/pep/math/c/1/1_5d414/title.md");
    assert_eq!(plan[0].1, "hello");
    assert_eq!(plan[1].0, "/meta/pep/math/c/1/1_5d414/a.md");
    assert_eq!(plan[2].0, "/meta/pep/math/c/1/1_5d414/b.md");
    assert_eq!(plan[3].0, "/meta/pep/math/c/1/1_5d414/answer.md");
    assert_eq!(plan[3].1, "A");
}

#[test]
fn fragment_names() {
    assert_eq!(tiku::question::ext_file_name("title"), Some("title.md"));
    assert_eq!(tiku::question::ext_file_name("answer"), Some("answer.md"));
    assert_eq!(tiku::question::ext_file_name("e"), Some("e.md"));
    assert_eq!(tiku::question::ext_file_name("bogus"), None);
}

#[test]
fn variant_associations() {
    let mut sim: Vec<(String, Vec<String>)> = Vec::new();
    related_source_id(&mut sim, "1_aaaaa", "2_bbbbb").unwrap();
    assert_eq!(sim.len(), 1);
    assert_eq!(sim[0].0, "1_aaaaa");
    assert_eq!(sim[0].1, vec!["2_bbbbb".to_string()]);
    related_source_id(&mut sim, "1_aaaaa", "3_ccccc").unwrap();
    assert_eq!(sim[0].1, vec!["2_bbbbb".to_string(), "3_ccccc".to_string()]);
    // A blank source records nothing.
    related_source_id(&mut sim, "  ", "4_ddddd").unwrap();
    assert_eq!(sim.len(), 1);
    assert_eq!(sim[0].1.len(), 2);
}
