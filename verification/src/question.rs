//! The question service: uploading a question into a section's index,
//! reading a stored question back, paging through a section, and keeping
//! the variant-question associations. File contents are read and written
//! by the caller; this module owns every decision in between.

use vstd::prelude::*;

use crate::digest::{digest_prefix, md5_hex_of};
use crate::errors::StoreError;
use crate::index::{
    get_question_index_max_id, index_views, opt_text, opt_texts, spec_full_id, spec_max_id,
    texts_of, QIndexV, QuestionIndex,
};
use crate::paths::QUESTION_INDEX_LENGTH;
use crate::text::has_content;
use crate::time::get_beijing_time_info;

verus! {

/// Fields of a question-upload request.
pub struct QuestionUploadReq {
    /// Key of the textbook the question belongs to.
    pub textbook_key: String,
    /// Key of the catalog section.
    pub catalog_key: String,
    /// Question this one is a variant of, if any.
    pub source_id: Option<String>,
    /// Kind of the question.
    pub question_type: String,
    /// Free-form tags.
    pub tags: Option<Vec<String>>,
    /// Difficulty rating.
    pub rate_val: Option<String>,
    /// Title of the question.
    pub title_val: String,
    /// Supplement to the title.
    pub mention_val: Option<String>,
    /// Names of attached images.
    pub image_names: Option<Vec<String>>,
    /// Where images are shown.
    pub show_image_val: Option<String>,
    /// Option A.
    pub a_val: Option<String>,
    /// Option B.
    pub b_val: Option<String>,
    /// Option C.
    pub c_val: Option<String>,
    /// Option D.
    pub d_val: Option<String>,
    /// Option E.
    pub e_val: Option<String>,
    /// How selection options are laid out.
    pub show_select_val: Option<String>,
    /// Reference answer.
    pub answer_val: Option<String>,
    /// Knowledge notes.
    pub knowledge_val: Option<String>,
    /// Analysis.
    pub analyze_val: Option<String>,
    /// Worked solution.
    pub process_val: Option<String>,
    /// Remarks.
    pub remark_val: Option<String>,
}

/// What a successful upload returns.
#[derive(Debug)]
pub struct QuestionUploadResp {
    /// Composite identifier of the stored question.
    pub id: String,
}

/// A stored question is addressed by section keys and its composite
/// identifier; `ext` names the fragments to read, all of them when absent.
pub struct QuestionInfoReq {
    /// Key of the textbook the question belongs to.
    pub textbook_key: String,
    /// Key of the catalog section.
    pub catalog_key: String,
    /// Composite identifier of the question.
    pub id: String,
    /// The fragments to read; absent means every fragment.
    pub ext: Option<Vec<String>>,
}

/// One stored question, as read back.
#[derive(Debug)]
pub struct QuestionInfoResp {
    /// Composite identifier of the question.
    pub id: String,
    /// Key of the textbook the question belongs to.
    pub textbook_key: String,
    /// Key of the catalog section.
    pub catalog_key: String,
    /// Kind of the question.
    pub question_type: String,
    /// Free-form tags.
    pub tags: Option<Vec<String>>,
    /// Difficulty rating.
    pub rate_val: Option<String>,
    /// Title of the question.
    pub title_val: String,
    /// Supplement to the title.
    pub mention_val: Option<String>,
    /// Names of attached images.
    pub image_names: Option<Vec<String>>,
    /// Where images are shown.
    pub show_image_val: Option<String>,
    /// Option A.
    pub a_val: Option<String>,
    /// Option B.
    pub b_val: Option<String>,
    /// Option C.
    pub c_val: Option<String>,
    /// Option D.
    pub d_val: Option<String>,
    /// Option E.
    pub e_val: Option<String>,
    /// How selection options are laid out.
    pub show_select_val: Option<String>,
    /// Reference answer.
    pub answer_val: Option<String>,
    /// Knowledge notes.
    pub knowledge_val: Option<String>,
    /// Analysis.
    pub analyze_val: Option<String>,
    /// Worked solution.
    pub process_val: Option<String>,
    /// Remarks.
    pub remark_val: Option<String>,
}

/// One page of a section's questions.
pub struct QuestionListReq {
    /// Key of the textbook the question belongs to.
    pub textbook_key: String,
    /// Key of the catalog section.
    pub catalog_key: String,
    /// 1-based page number.
    pub page_no: usize,
    /// Entries per page.
    pub page_size: usize,
}

/// A page of questions, with the section's total.
pub struct QuestionListResp {
    /// 1-based page number.
    pub page_no: usize,
    /// Entries per page.
    pub page_size: usize,
    /// How many questions the section holds in all.
    pub total: usize,
    /// The page's questions; filled in by the caller from the stored
    /// fragments.
    pub data: Vec<QuestionInfoResp>,
}

/// The upload is admissible: the title is not blank, its digest prefix is
/// new to the section, and identifiers are not exhausted.
pub open spec fn spec_upload_ok(s: Seq<QIndexV>, title: Seq<char>) -> bool {
    &&& exists|i: int| 0 <= i < title.len() && !crate::text::is_space_char(#[trigger] title[i])
    &&& !(exists|i: int|
        0 <= i < s.len() && (#[trigger] s[i]).left == md5_hex_of(title).subrange(
            0,
            QUESTION_INDEX_LENGTH as int,
        ))
    &&& spec_max_id(s) < u64::MAX as int
}

/// Store a new question in the section's index: the next free number, the
/// title's digest prefix as its address, and the request's fragments. A
/// blank title or a title already stored is rejected and the index is left
/// unchanged; persisting the grown index and the fragment files is the
/// caller's step.
pub fn upload_question(
    req: &QuestionUploadReq,
    question_index_list: &mut Vec<QuestionIndex>,
) -> (r: Result<QuestionUploadResp, StoreError>)
    ensures
        match r {
            Result::Ok(resp) => {
                &&& spec_upload_ok(index_views(old(question_index_list)@), req.title_val@)
                &&& final(question_index_list)@.len() == old(question_index_list)@.len() + 1
                &&& {
                    let entry = index_views(final(question_index_list)@).last();
                    &&& index_views(final(question_index_list)@) == index_views(
                        old(question_index_list)@,
                    ).push(entry)
                    &&& entry.id == spec_max_id(index_views(old(question_index_list)@)) + 1
                    &&& entry.left == md5_hex_of(req.title_val@).subrange(
                        0,
                        QUESTION_INDEX_LENGTH as int,
                    )
                    &&& entry.question_type == req.question_type@
                    &&& entry.tags == opt_texts(&req.tags)
                    &&& entry.rate_val == opt_text(req.rate_val)
                    &&& entry.image_names == opt_texts(&req.image_names)
                    &&& entry.show_image_val == opt_text(req.show_image_val)
                    &&& entry.show_select_val == opt_text(req.show_select_val)
                    &&& entry.create_time is Some
                    &&& entry.update_time == entry.create_time
                    &&& entry.author is None
                    &&& resp.id@ == spec_full_id(entry.id as nat, entry.left)
                }
            },
            Result::Err(e) => {
                &&& final(question_index_list)@ == old(question_index_list)@
                &&& !spec_upload_ok(index_views(old(question_index_list)@), req.title_val@)
                &&& e == if !(exists|i: int|
                    0 <= i < req.title_val@.len() && !crate::text::is_space_char(
                        #[trigger] req.title_val@[i],
                    )) {
                    StoreError::Conflict
                } else if exists|i: int|
                    0 <= i < index_views(old(question_index_list)@).len() && (#[trigger] index_views(
                        old(question_index_list)@,
                    )[i]).left == md5_hex_of(req.title_val@).subrange(
                        0,
                        QUESTION_INDEX_LENGTH as int,
                    ) {
                    StoreError::Conflict
                } else {
                    StoreError::StoreFailure
                }
            },
        },
{
    let ghost s = index_views(question_index_list@);
    if !has_content(req.title_val.as_str()) {
        return Result::Err(StoreError::Conflict);
    }
    let max_id = get_question_index_max_id(question_index_list);
    let question_left = digest_prefix(req.title_val.as_str(), QUESTION_INDEX_LENGTH);
    let n = question_index_list.len();
    for i in 0..n
        invariant
            n == question_index_list@.len(),
            s == index_views(question_index_list@),
            s == index_views(old(question_index_list)@),
            question_left@ == md5_hex_of(req.title_val@).subrange(0, QUESTION_INDEX_LENGTH as int),
            forall|j: int| 0 <= j < i ==> (#[trigger] s[j]).left != question_left@,
    {
        if question_index_list[i].left == question_left {
            proof {
                assert(s[i as int].left == question_left@);
            }
            return Result::Err(StoreError::Conflict);
        }
    }
    if max_id == u64::MAX {
        return Result::Err(StoreError::StoreFailure);
    }
    let next_max_id = max_id + 1;
    let (now_seconds, _now_millis, _formatted) = get_beijing_time_info();
    let question_index = QuestionIndex {
        id: next_max_id,
        left: question_left,
        question_type: req.question_type.clone(),
        tags: crate::index::clone_opt_texts(&req.tags),
        rate_val: clone_opt(&req.rate_val),
        image_names: crate::index::clone_opt_texts(&req.image_names),
        show_image_val: clone_opt(&req.show_image_val),
        show_select_val: clone_opt(&req.show_select_val),
        create_time: Option::Some(now_seconds),
        update_time: Option::Some(now_seconds),
        author: Option::None,
    };
    let id = match crate::index::append_write_index(question_index_list, question_index) {
        Result::Ok(id) => id,
        Result::Err(e) => {
            proof {
                assert(false);
            }
            return Result::Err(e);
        },
    };
    Result::Ok(QuestionUploadResp { id })
}

/// Copy an optional string.
fn clone_opt(v: &Option<String>) -> (r: Option<String>)
    ensures
        opt_text(r) == opt_text(*v),
{
    match v {
        Option::None => Option::None,
        Option::Some(x) => Option::Some(x.clone()),
    }
}

/// One planned file write, when the fragment is present.
pub open spec fn spec_fragment_write(
    meta: Seq<char>,
    tb: Seq<char>,
    cat: Seq<char>,
    id: Seq<char>,
    name: Seq<char>,
    content: Option<Seq<char>>,
) -> Seq<(Seq<char>, Seq<char>)> {
    match content {
        Option::None => Seq::empty(),
        Option::Some(c) => seq![(crate::paths::spec_question_file(meta, tb, cat, id, name), c)],
    }
}

/// The files one stored question is written out as: its title, then each
/// present fragment, each under the question's own directory.
pub open spec fn spec_markdown_plan(
    meta: Seq<char>,
    id: Seq<char>,
    req: QuestionUploadReq,
) -> Seq<(Seq<char>, Seq<char>)> {
    let tb = req.textbook_key@;
    let cat = req.catalog_key@;
    seq![
        (
            crate::paths::spec_question_file(meta, tb, cat, id, crate::paths::QUESTION_TITLE_NAME@),
            req.title_val@,
        ),
    ] + spec_fragment_write(meta, tb, cat, id, crate::paths::QUESTION_MENTION_NAME@, opt_text(req.mention_val))
        + spec_fragment_write(meta, tb, cat, id, crate::paths::QUESTION_A_NAME@, opt_text(req.a_val))
        + spec_fragment_write(meta, tb, cat, id, crate::paths::QUESTION_B_NAME@, opt_text(req.b_val))
        + spec_fragment_write(meta, tb, cat, id, crate::paths::QUESTION_C_NAME@, opt_text(req.c_val))
        + spec_fragment_write(meta, tb, cat, id, crate::paths::QUESTION_D_NAME@, opt_text(req.d_val))
        + spec_fragment_write(meta, tb, cat, id, crate::paths::QUESTION_E_NAME@, opt_text(req.e_val))
        + spec_fragment_write(meta, tb, cat, id, crate::paths::QUESTION_ANSWER_NAME@, opt_text(req.answer_val))
        + spec_fragment_write(meta, tb, cat, id, crate::paths::QUESTION_KNOWLEDGE_NAME@, opt_text(req.knowledge_val))
        + spec_fragment_write(meta, tb, cat, id, crate::paths::QUESTION_ANALYZE_NAME@, opt_text(req.analyze_val))
        + spec_fragment_write(meta, tb, cat, id, crate::paths::QUESTION_PROCESS_NAME@, opt_text(req.process_val))
        + spec_fragment_write(meta, tb, cat, id, crate::paths::QUESTION_REMARK_NAME@, opt_text(req.remark_val))
}

/// The values of a list of planned writes.
pub open spec fn plan_views(v: Seq<(String, String)>) -> Seq<(Seq<char>, Seq<char>)> {
    Seq::new(v.len(), |i: int| (v[i].0@, v[i].1@))
}

/// Plan the files of one stored question: the title always, then each
/// present fragment, as `(path, content)` pairs for the caller to write.
pub fn markdown_write_plan(meta_path: &str, id: &str, req: &QuestionUploadReq) -> (r: Vec<
    (String, String),
>)
    ensures
        plan_views(r@) == spec_markdown_plan(meta_path@, id@, *req),
{
    let tb = req.textbook_key.as_str();
    let cat = req.catalog_key.as_str();
    let mut out: Vec<(String, String)> = Vec::new();
    let title_path = crate::paths::question_file_path(
        meta_path,
        tb,
        cat,
        id,
        crate::paths::QUESTION_TITLE_NAME,
    );
    out.push((title_path, req.title_val.clone()));
    push_fragment(&mut out, meta_path, tb, cat, id, crate::paths::QUESTION_MENTION_NAME, &req.mention_val);
    push_fragment(&mut out, meta_path, tb, cat, id, crate::paths::QUESTION_A_NAME, &req.a_val);
    push_fragment(&mut out, meta_path, tb, cat, id, crate::paths::QUESTION_B_NAME, &req.b_val);
    push_fragment(&mut out, meta_path, tb, cat, id, crate::paths::QUESTION_C_NAME, &req.c_val);
    push_fragment(&mut out, meta_path, tb, cat, id, crate::paths::QUESTION_D_NAME, &req.d_val);
    push_fragment(&mut out, meta_path, tb, cat, id, crate::paths::QUESTION_E_NAME, &req.e_val);
    push_fragment(&mut out, meta_path, tb, cat, id, crate::paths::QUESTION_ANSWER_NAME, &req.answer_val);
    push_fragment(&mut out, meta_path, tb, cat, id, crate::paths::QUESTION_KNOWLEDGE_NAME, &req.knowledge_val);
    push_fragment(&mut out, meta_path, tb, cat, id, crate::paths::QUESTION_ANALYZE_NAME, &req.analyze_val);
    push_fragment(&mut out, meta_path, tb, cat, id, crate::paths::QUESTION_PROCESS_NAME, &req.process_val);
    push_fragment(&mut out, meta_path, tb, cat, id, crate::paths::QUESTION_REMARK_NAME, &req.remark_val);
    proof {
        assert(plan_views(out@) =~= spec_markdown_plan(meta_path@, id@, *req));
    }
    out
}

/// Append one planned fragment write, when the fragment is present.
fn push_fragment(
    out: &mut Vec<(String, String)>,
    meta_path: &str,
    tb: &str,
    cat: &str,
    id: &str,
    name: &'static str,
    content: &Option<String>,
)
    ensures
        plan_views(final(out)@) == plan_views(old(out)@) + spec_fragment_write(
            meta_path@,
            tb@,
            cat@,
            id@,
            name@,
            opt_text(*content),
        ),
{
    let ghost prev = plan_views(out@);
    match content {
        Option::Some(c) => {
            let path = crate::paths::question_file_path(meta_path, tb, cat, id, name);
            out.push((path, c.clone()));
            proof {
                assert(plan_views(out@) =~= prev + spec_fragment_write(
                    meta_path@,
                    tb@,
                    cat@,
                    id@,
                    name@,
                    opt_text(*content),
                ));
            }
        },
        Option::None => {
            proof {
                assert(plan_views(out@) =~= prev + spec_fragment_write(
                    meta_path@,
                    tb@,
                    cat@,
                    id@,
                    name@,
                    opt_text(*content),
                ));
            }
        },
    }
}

/// The variant-question associations of one section: each source question
/// mapped to the questions derived from it.
pub open spec fn sim_views(rows: Seq<(String, Vec<String>)>) -> Seq<(Seq<char>, Seq<Seq<char>>)> {
    Seq::new(rows.len(), |i: int| (rows[i].0@, texts_of(rows[i].1@)))
}

/// Record that `target_id` was derived from `source_id`: the target is
/// appended to the source's entry, or a fresh entry is made. A blank
/// source is accepted and records nothing.
pub fn related_source_id(
    similar_index: &mut Vec<(String, Vec<String>)>,
    source_id: &str,
    target_id: &str,
) -> (r: Result<bool, StoreError>)
    ensures
        r == Result::<bool, StoreError>::Ok(true),
        !(exists|i: int|
            0 <= i < source_id@.len() && !crate::text::is_space_char(#[trigger] source_id@[i]))
            ==> final(similar_index)@ == old(similar_index)@,
        (exists|i: int|
            0 <= i < source_id@.len() && !crate::text::is_space_char(#[trigger] source_id@[i]))
            ==> {
            let s = sim_views(old(similar_index)@);
            let t = sim_views(final(similar_index)@);
            if exists|i: int| 0 <= i < s.len() && (#[trigger] s[i]).0 == source_id@ {
                exists|i: int|
                    {
                        &&& 0 <= i < s.len()
                        &&& (#[trigger] s[i]).0 == source_id@
                        &&& (forall|j: int| 0 <= j < i ==> (#[trigger] s[j]).0 != source_id@)
                        &&& t == s.update(i, (source_id@, s[i].1.push(target_id@)))
                    }
            } else {
                t == s.push((source_id@, seq![target_id@]))
            }
        },
{
    let ghost s = sim_views(similar_index@);
    if !has_content(source_id) {
        return Result::Ok(true);
    }
    let wanted: String = source_id.to_owned();
    let n = similar_index.len();
    for i in 0..n
        invariant
            n == similar_index@.len(),
            s == sim_views(similar_index@),
            s == sim_views(old(similar_index)@),
            wanted@ == source_id@,
            exists|k: int|
                0 <= k < source_id@.len() && !crate::text::is_space_char(#[trigger] source_id@[k]),
            forall|j: int| 0 <= j < i ==> (#[trigger] s[j]).0 != source_id@,
    {
        if similar_index[i].0 == wanted {
            proof {
                assert(s[i as int].0 == source_id@);
            }
            let (key, mut list) = similar_index.remove(i);
            let ghost listv = texts_of(list@);
            list.push(target_id.to_owned());
            proof {
                assert(texts_of(list@) =~= listv.push(target_id@));
            }
            similar_index.insert(i, (key, list));
            proof {
                assert(sim_views(similar_index@) =~= s.update(
                    i as int,
                    (source_id@, s[i as int].1.push(target_id@)),
                ));
            }
            return Result::Ok(true);
        }
    }
    let mut fresh: Vec<String> = Vec::new();
    fresh.push(target_id.to_owned());
    proof {
        assert(texts_of(fresh@) =~= seq![target_id@]);
    }
    similar_index.push((wanted, fresh));
    proof {
        assert(sim_views(similar_index@) =~= s.push((source_id@, seq![target_id@])));
    }
    Result::Ok(true)
}

/// The stored file a fragment name denotes, if it denotes one.
pub open spec fn spec_ext_file_name(ext: Seq<char>) -> Option<Seq<char>> {
    if ext == "title"@ {
        Option::Some(crate::paths::QUESTION_TITLE_NAME@)
    } else if ext == "mention"@ {
        Option::Some(crate::paths::QUESTION_MENTION_NAME@)
    } else if ext == "a"@ {
        Option::Some(crate::paths::QUESTION_A_NAME@)
    } else if ext == "b"@ {
        Option::Some(crate::paths::QUESTION_B_NAME@)
    } else if ext == "c"@ {
        Option::Some(crate::paths::QUESTION_C_NAME@)
    } else if ext == "d"@ {
        Option::Some(crate::paths::QUESTION_D_NAME@)
    } else if ext == "e"@ {
        Option::Some(crate::paths::QUESTION_E_NAME@)
    } else if ext == "answer"@ {
        Option::Some(crate::paths::QUESTION_ANSWER_NAME@)
    } else if ext == "knowledge"@ {
        Option::Some(crate::paths::QUESTION_KNOWLEDGE_NAME@)
    } else if ext == "analyze"@ {
        Option::Some(crate::paths::QUESTION_ANALYZE_NAME@)
    } else if ext == "process"@ {
        Option::Some(crate::paths::QUESTION_PROCESS_NAME@)
    } else if ext == "remark"@ {
        Option::Some(crate::paths::QUESTION_REMARK_NAME@)
    } else {
        Option::None
    }
}

/// The stored file a fragment name denotes; unknown names denote none and
/// are skipped by the readers.
pub fn ext_file_name(ext: &str) -> (r: Option<&'static str>)
    ensures
        match r {
            Option::Some(name) => spec_ext_file_name(ext@) == Option::Some(name@),
            Option::None => spec_ext_file_name(ext@) is None,
        },
{
    let e: String = ext.to_owned();
    if e == "title".to_owned() {
        Option::Some(crate::paths::QUESTION_TITLE_NAME)
    } else if e == "mention".to_owned() {
        Option::Some(crate::paths::QUESTION_MENTION_NAME)
    } else if e == "a".to_owned() {
        Option::Some(crate::paths::QUESTION_A_NAME)
    } else if e == "b".to_owned() {
        Option::Some(crate::paths::QUESTION_B_NAME)
    } else if e == "c".to_owned() {
        Option::Some(crate::paths::QUESTION_C_NAME)
    } else if e == "d".to_owned() {
        Option::Some(crate::paths::QUESTION_D_NAME)
    } else if e == "e".to_owned() {
        Option::Some(crate::paths::QUESTION_E_NAME)
    } else if e == "answer".to_owned() {
        Option::Some(crate::paths::QUESTION_ANSWER_NAME)
    } else if e == "knowledge".to_owned() {
        Option::Some(crate::paths::QUESTION_KNOWLEDGE_NAME)
    } else if e == "analyze".to_owned() {
        Option::Some(crate::paths::QUESTION_ANALYZE_NAME)
    } else if e == "process".to_owned() {
        Option::Some(crate::paths::QUESTION_PROCESS_NAME)
    } else if e == "remark".to_owned() {
        Option::Some(crate::paths::QUESTION_REMARK_NAME)
    } else {
        Option::None
    }
}

/// The skeleton of a stored question's details: everything the index
/// knows, with the fragment contents still to be filled in by the caller.
pub fn get_question_info(
    req: QuestionInfoReq,
    question_index_list: Vec<QuestionIndex>,
) -> (r: Result<QuestionInfoResp, StoreError>)
    ensures
        match r {
            Result::Ok(resp) => {
                exists|i: int|
                    {
                        let entry = #[trigger] index_views(question_index_list@)[i];
                        &&& 0 <= i < question_index_list@.len()
                        &&& spec_full_id(entry.id as nat, entry.left) == req.id@
                        &&& resp.id@ == req.id@
                        &&& resp.textbook_key@ == req.textbook_key@
                        &&& resp.catalog_key@ == req.catalog_key@
                        &&& resp.question_type@ == entry.question_type
                        &&& opt_texts(&resp.tags) == entry.tags
                        &&& opt_text(resp.rate_val) == entry.rate_val
                        &&& opt_texts(&resp.image_names) == entry.image_names
                        &&& opt_text(resp.show_image_val) == entry.show_image_val
                        &&& opt_text(resp.show_select_val) == entry.show_select_val
                        &&& resp.title_val@ == Seq::<char>::empty()
                        &&& resp.mention_val is None
                        &&& resp.a_val is None
                        &&& resp.b_val is None
                        &&& resp.c_val is None
                        &&& resp.d_val is None
                        &&& resp.e_val is None
                        &&& resp.answer_val is None
                        &&& resp.knowledge_val is None
                        &&& resp.analyze_val is None
                        &&& resp.process_val is None
                        &&& resp.remark_val is None
                    }
            },
            Result::Err(e) => {
                &&& e == StoreError::NotFound
                &&& forall|j: int|
                    0 <= j < question_index_list@.len() ==> spec_full_id(
                        (#[trigger] index_views(question_index_list@)[j]).id as nat,
                        index_views(question_index_list@)[j].left,
                    ) != req.id@
            },
        },
{
    let ghost s = index_views(question_index_list@);
    let entry = match crate::index::get_question_index(req.id.as_str(), question_index_list) {
        Result::Ok(entry) => entry,
        Result::Err(e) => {
            return Result::Err(e);
        },
    };
    Result::Ok(
        QuestionInfoResp {
            id: req.id,
            textbook_key: req.textbook_key,
            catalog_key: req.catalog_key,
            question_type: entry.question_type,
            tags: entry.tags,
            rate_val: entry.rate_val,
            title_val: String::new(),
            mention_val: Option::None,
            image_names: entry.image_names,
            show_image_val: entry.show_image_val,
            a_val: Option::None,
            b_val: Option::None,
            c_val: Option::None,
            d_val: Option::None,
            e_val: Option::None,
            show_select_val: entry.show_select_val,
            answer_val: Option::None,
            knowledge_val: Option::None,
            analyze_val: Option::None,
            process_val: Option::None,
            remark_val: Option::None,
        },
    )
}

/// One page of a section's index: the listing skeleton and the entries
/// whose fragments the caller reads next. The page is cut as positions
/// `(page_no - 1) * page_size` up to `page_no * page_size`, clamped to the
/// section's total.
pub fn get_question_list(
    req: &QuestionListReq,
    question_index_list: Vec<QuestionIndex>,
) -> (r: Result<(QuestionListResp, Vec<QuestionIndex>), StoreError>)
    requires
        req.page_no >= 1,
        req.page_no * req.page_size <= usize::MAX,
    ensures
        match r {
            Result::Ok((resp, page)) => {
                let s = index_views(question_index_list@);
                let start = (req.page_no - 1) * req.page_size;
                let stop = if req.page_no * req.page_size <= s.len() {
                    (req.page_no * req.page_size) as int
                } else {
                    s.len() as int
                };
                &&& resp.page_no == req.page_no
                &&& resp.page_size == req.page_size
                &&& resp.total == question_index_list@.len()
                &&& resp.data@.len() == 0
                &&& index_views(page@) == if start <= stop {
                    s.subrange(start as int, stop)
                } else {
                    Seq::<QIndexV>::empty()
                }
            },
            Result::Err(_) => false,
        },
{
    let ghost s = index_views(question_index_list@);
    let total = question_index_list.len();
    proof {
        assert((req.page_no - 1) * req.page_size <= req.page_no * req.page_size)
            by (nonlinear_arith)
            requires
                req.page_no >= 1,
        ;
    }
    let start_index = (req.page_no - 1) * req.page_size;
    let end_index = req.page_no * req.page_size;
    let stop = if end_index <= total {
        end_index
    } else {
        total
    };
    let mut page: Vec<QuestionIndex> = Vec::new();
    if start_index <= stop {
        let mut i = start_index;
        while i < stop
            invariant
                start_index <= i <= stop <= total,
                total == question_index_list@.len(),
                s == index_views(question_index_list@),
                index_views(page@) == s.subrange(start_index as int, i as int),
            decreases stop - i,
        {
            let ghost prev = index_views(page@);
            page.push(question_index_list[i].duplicate());
            proof {
                assert(index_views(page@) =~= prev.push(s[i as int]));
                assert(index_views(page@) =~= s.subrange(start_index as int, i + 1));
            }
            i = i + 1;
        }
    }
    proof {
        if start_index <= stop {
        } else {
            assert(index_views(page@) =~= Seq::<QIndexV>::empty());
        }
    }
    let resp = QuestionListResp {
        page_no: req.page_no,
        page_size: req.page_size,
        total,
        data: Vec::new(),
    };
    Result::Ok((resp, page))
}

} // verus!
