//! Editing one stored question, one fragment at a time.
//!
//! Four fragments (kind, tags, rating, option layout) live in the
//! section's question index: those edits rewrite the matching index entry
//! and the caller persists the grown index. Every other fragment is a
//! file of its own: those edits compute the file's path and content, and
//! the caller writes it.

use vstd::prelude::*;

use crate::errors::StoreError;
use crate::index::{index_views, spec_full_id, texts_of, QIndexV, QuestionIndex};
use crate::paths::{
    question_file_path, spec_question_file, QUESTION_ANALYZE_NAME, QUESTION_ANSWER_NAME,
    QUESTION_A_NAME, QUESTION_B_NAME, QUESTION_C_NAME, QUESTION_D_NAME, QUESTION_E_NAME,
    QUESTION_KNOWLEDGE_NAME, QUESTION_MENTION_NAME, QUESTION_PROCESS_NAME, QUESTION_REMARK_NAME,
    QUESTION_TITLE_NAME,
};

verus! {

/// Request to change a question's kind.
pub struct EditQuestionTypeReq {
    /// Key of the textbook the question belongs to.
    pub textbook_key: String,
    /// Key of the catalog section.
    pub catalog_key: String,
    /// Composite identifier of the question.
    pub id: String,
    /// The new kind.
    pub question_type: String,
}

/// Request to change a question's tags.
pub struct EditTagsReq {
    /// Key of the textbook the question belongs to.
    pub textbook_key: String,
    /// Key of the catalog section.
    pub catalog_key: String,
    /// Composite identifier of the question.
    pub id: String,
    /// The new tags.
    pub tags: Vec<String>,
}

/// Request to change a question's rating.
pub struct EditRateReq {
    /// Key of the textbook the question belongs to.
    pub textbook_key: String,
    /// Key of the catalog section.
    pub catalog_key: String,
    /// Composite identifier of the question.
    pub id: String,
    /// The new rating.
    pub rate: String,
}

/// Request to change how a question's options are shown.
pub struct EditSelectReq {
    /// Key of the textbook the question belongs to.
    pub textbook_key: String,
    /// Key of the catalog section.
    pub catalog_key: String,
    /// Composite identifier of the question.
    pub id: String,
    /// The new option layout.
    pub select: String,
}

/// Request to rewrite a question's title.
pub struct EditTitleReq {
    /// Key of the textbook the question belongs to.
    pub textbook_key: String,
    /// Key of the catalog section.
    pub catalog_key: String,
    /// Composite identifier of the question.
    pub id: String,
    /// The new title.
    pub title: String,
}

/// Request to rewrite a question's supplement.
pub struct EditMentionReq {
    /// Key of the textbook the question belongs to.
    pub textbook_key: String,
    /// Key of the catalog section.
    pub catalog_key: String,
    /// Composite identifier of the question.
    pub id: String,
    /// The new supplement.
    pub mention: String,
}

/// Request to rewrite option A.
pub struct EditAReq {
    /// Key of the textbook the question belongs to.
    pub textbook_key: String,
    /// Key of the catalog section.
    pub catalog_key: String,
    /// Composite identifier of the question.
    pub id: String,
    /// The new option text.
    pub a: String,
}

/// Request to rewrite option B.
pub struct EditBReq {
    /// Key of the textbook the question belongs to.
    pub textbook_key: String,
    /// Key of the catalog section.
    pub catalog_key: String,
    /// Composite identifier of the question.
    pub id: String,
    /// The new option text.
    pub b: String,
}

/// Request to rewrite option C.
pub struct EditCReq {
    /// Key of the textbook the question belongs to.
    pub textbook_key: String,
    /// Key of the catalog section.
    pub catalog_key: String,
    /// Composite identifier of the question.
    pub id: String,
    /// The new option text.
    pub c: String,
}

/// Request to rewrite option D.
pub struct EditDReq {
    /// Key of the textbook the question belongs to.
    pub textbook_key: String,
    /// Key of the catalog section.
    pub catalog_key: String,
    /// Composite identifier of the question.
    pub id: String,
    /// The new option text.
    pub d: String,
}

/// Request to rewrite option E.
pub struct EditEReq {
    /// Key of the textbook the question belongs to.
    pub textbook_key: String,
    /// Key of the catalog section.
    pub catalog_key: String,
    /// Composite identifier of the question.
    pub id: String,
    /// The new option text.
    pub e: String,
}

/// Request to rewrite a question's answer.
pub struct EditAnswerReq {
    /// Key of the textbook the question belongs to.
    pub textbook_key: String,
    /// Key of the catalog section.
    pub catalog_key: String,
    /// Composite identifier of the question.
    pub id: String,
    /// The new answer.
    pub answer: String,
}

/// Request to rewrite a question's knowledge notes.
pub struct EditKnowledgeReq {
    /// Key of the textbook the question belongs to.
    pub textbook_key: String,
    /// Key of the catalog section.
    pub catalog_key: String,
    /// Composite identifier of the question.
    pub id: String,
    /// The new knowledge notes.
    pub knowledge: String,
}

/// Request to rewrite a question's analysis.
pub struct EditAnalyzeReq {
    /// Key of the textbook the question belongs to.
    pub textbook_key: String,
    /// Key of the catalog section.
    pub catalog_key: String,
    /// Composite identifier of the question.
    pub id: String,
    /// The new analysis.
    pub analyze: String,
}

/// Request to rewrite a question's worked solution.
pub struct EditProcessReq {
    /// Key of the textbook the question belongs to.
    pub textbook_key: String,
    /// Key of the catalog section.
    pub catalog_key: String,
    /// Composite identifier of the question.
    pub id: String,
    /// The new solution.
    pub process: String,
}

/// Request to rewrite a question's remarks.
pub struct EditRemarkReq {
    /// Key of the textbook the question belongs to.
    pub textbook_key: String,
    /// Key of the catalog section.
    pub catalog_key: String,
    /// Composite identifier of the question.
    pub id: String,
    /// The new remarks.
    pub remark: String,
}

/// Index of the first entry stored under the composite identifier; the
/// length when none is.
pub open spec fn first_match(s: Seq<QIndexV>, id: Seq<char>) -> int
    decreases s.len(),
{
    if s.len() == 0 {
        0
    } else if spec_full_id(s[0].id as nat, s[0].left) == id {
        0
    } else {
        1 + first_match(s.drop_first(), id)
    }
}

/// The first match is where the scan that found it stopped.
proof fn lemma_first_match_at(s: Seq<QIndexV>, id: Seq<char>, i: int)
    requires
        0 <= i <= s.len(),
        forall|j: int|
            0 <= j < i ==> spec_full_id((#[trigger] s[j]).id as nat, s[j].left) != id,
        i < s.len() ==> spec_full_id(s[i].id as nat, s[i].left) == id,
    ensures
        first_match(s, id) == i,
    decreases i,
{
    if s.len() == 0 {
    } else if i == 0 {
    } else {
        assert(spec_full_id(s[0].id as nat, s[0].left) != id);
        lemma_first_match_at(s.drop_first(), id, i - 1);
        assert(forall|j: int|
            0 <= j < i - 1 ==> s.drop_first()[j] == s[j + 1]);
    }
}

/// The index with the kind of the matching entry replaced; an index
/// without a match is left as it is.
pub open spec fn spec_set_question_type(s: Seq<QIndexV>, id: Seq<char>, v: Seq<char>) -> Seq<
    QIndexV,
> {
    let k = first_match(s, id);
    if k < s.len() {
        s.update(k, QIndexV { question_type: v, ..s[k] })
    } else {
        s
    }
}

/// The index with the tags of the matching entry replaced.
pub open spec fn spec_set_tags(s: Seq<QIndexV>, id: Seq<char>, v: Seq<Seq<char>>) -> Seq<QIndexV> {
    let k = first_match(s, id);
    if k < s.len() {
        s.update(k, QIndexV { tags: Option::Some(v), ..s[k] })
    } else {
        s
    }
}

/// The index with the rating of the matching entry replaced.
pub open spec fn spec_set_rate(s: Seq<QIndexV>, id: Seq<char>, v: Seq<char>) -> Seq<QIndexV> {
    let k = first_match(s, id);
    if k < s.len() {
        s.update(k, QIndexV { rate_val: Option::Some(v), ..s[k] })
    } else {
        s
    }
}

/// The index with the option layout of the matching entry replaced.
pub open spec fn spec_set_select(s: Seq<QIndexV>, id: Seq<char>, v: Seq<char>) -> Seq<QIndexV> {
    let k = first_match(s, id);
    if k < s.len() {
        s.update(k, QIndexV { show_select_val: Option::Some(v), ..s[k] })
    } else {
        s
    }
}

/// Change the kind of one stored question in the index; the caller
/// persists the index afterwards.
pub fn edit_question_type(question_index_list: &mut Vec<QuestionIndex>, req: EditQuestionTypeReq) -> (r: Result<
    bool,
    StoreError,
>)
    ensures
        r == Result::<bool, StoreError>::Ok(true),
        index_views(final(question_index_list)@) == spec_set_question_type(
            index_views(old(question_index_list)@),
            req.id@,
            req.question_type@,
        ),
{
    let ghost s = index_views(question_index_list@);
    let n = question_index_list.len();
    for i in 0..n
        invariant
            n == question_index_list@.len(),
            s == index_views(question_index_list@),
            s == index_views(old(question_index_list)@),
            forall|j: int|
                0 <= j < i ==> spec_full_id((#[trigger] s[j]).id as nat, s[j].left) != req.id@,
    {
        let entry = &question_index_list[i];
        let candidate = crate::index::question_full_id(entry.id, entry.left.as_str());
        if candidate == req.id {
            proof {
                assert(s[i as int] == question_index_list@[i as int]@);
                lemma_first_match_at(s, req.id@, i as int);
            }
            let base = question_index_list[i].duplicate();
            let ghost basev = base@;
            let row = QuestionIndex { question_type: req.question_type, ..base };
            proof {
                assert(row@ == QIndexV { question_type: req.question_type@, ..basev });
            }
            question_index_list.set(i, row);
            proof {
                assert(index_views(question_index_list@) =~= spec_set_question_type(s, req.id@, req.question_type@));
            }
            return Result::Ok(true);
        }
    }
    proof {
        lemma_first_match_at(s, req.id@, n as int);
    }
    Result::Ok(true)
}

/// Change the tags of one stored question in the index; the caller
/// persists the index afterwards.
pub fn edit_tags(question_index_list: &mut Vec<QuestionIndex>, req: EditTagsReq) -> (r: Result<
    bool,
    StoreError,
>)
    ensures
        r == Result::<bool, StoreError>::Ok(true),
        index_views(final(question_index_list)@) == spec_set_tags(
            index_views(old(question_index_list)@),
            req.id@,
            texts_of(req.tags@),
        ),
{
    let ghost s = index_views(question_index_list@);
    let n = question_index_list.len();
    for i in 0..n
        invariant
            n == question_index_list@.len(),
            s == index_views(question_index_list@),
            s == index_views(old(question_index_list)@),
            forall|j: int|
                0 <= j < i ==> spec_full_id((#[trigger] s[j]).id as nat, s[j].left) != req.id@,
    {
        let entry = &question_index_list[i];
        let candidate = crate::index::question_full_id(entry.id, entry.left.as_str());
        if candidate == req.id {
            proof {
                assert(s[i as int] == question_index_list@[i as int]@);
                lemma_first_match_at(s, req.id@, i as int);
            }
            let base = question_index_list[i].duplicate();
            let ghost basev = base@;
            let row = QuestionIndex { tags: Option::Some(req.tags), ..base };
            proof {
                assert(row@ == QIndexV { tags: Option::Some(texts_of(req.tags@)), ..basev });
            }
            question_index_list.set(i, row);
            proof {
                assert(index_views(question_index_list@) =~= spec_set_tags(s, req.id@, texts_of(req.tags@)));
            }
            return Result::Ok(true);
        }
    }
    proof {
        lemma_first_match_at(s, req.id@, n as int);
    }
    Result::Ok(true)
}

/// Change the rating of one stored question in the index; the caller
/// persists the index afterwards.
pub fn edit_rate(question_index_list: &mut Vec<QuestionIndex>, req: EditRateReq) -> (r: Result<
    bool,
    StoreError,
>)
    ensures
        r == Result::<bool, StoreError>::Ok(true),
        index_views(final(question_index_list)@) == spec_set_rate(
            index_views(old(question_index_list)@),
            req.id@,
            req.rate@,
        ),
{
    let ghost s = index_views(question_index_list@);
    let n = question_index_list.len();
    for i in 0..n
        invariant
            n == question_index_list@.len(),
            s == index_views(question_index_list@),
            s == index_views(old(question_index_list)@),
            forall|j: int|
                0 <= j < i ==> spec_full_id((#[trigger] s[j]).id as nat, s[j].left) != req.id@,
    {
        let entry = &question_index_list[i];
        let candidate = crate::index::question_full_id(entry.id, entry.left.as_str());
        if candidate == req.id {
            proof {
                assert(s[i as int] == question_index_list@[i as int]@);
                lemma_first_match_at(s, req.id@, i as int);
            }
            let base = question_index_list[i].duplicate();
            let ghost basev = base@;
            let row = QuestionIndex { rate_val: Option::Some(req.rate), ..base };
            proof {
                assert(row@ == QIndexV { rate_val: Option::Some(req.rate@), ..basev });
            }
            question_index_list.set(i, row);
            proof {
                assert(index_views(question_index_list@) =~= spec_set_rate(s, req.id@, req.rate@));
            }
            return Result::Ok(true);
        }
    }
    proof {
        lemma_first_match_at(s, req.id@, n as int);
    }
    Result::Ok(true)
}

/// Change the option layout of one stored question in the index; the
/// caller persists the index afterwards.
pub fn edit_select(question_index_list: &mut Vec<QuestionIndex>, req: EditSelectReq) -> (r: Result<
    bool,
    StoreError,
>)
    ensures
        r == Result::<bool, StoreError>::Ok(true),
        index_views(final(question_index_list)@) == spec_set_select(
            index_views(old(question_index_list)@),
            req.id@,
            req.select@,
        ),
{
    let ghost s = index_views(question_index_list@);
    let n = question_index_list.len();
    for i in 0..n
        invariant
            n == question_index_list@.len(),
            s == index_views(question_index_list@),
            s == index_views(old(question_index_list)@),
            forall|j: int|
                0 <= j < i ==> spec_full_id((#[trigger] s[j]).id as nat, s[j].left) != req.id@,
    {
        let entry = &question_index_list[i];
        let candidate = crate::index::question_full_id(entry.id, entry.left.as_str());
        if candidate == req.id {
            proof {
                assert(s[i as int] == question_index_list@[i as int]@);
                lemma_first_match_at(s, req.id@, i as int);
            }
            let base = question_index_list[i].duplicate();
            let ghost basev = base@;
            let row = QuestionIndex { show_select_val: Option::Some(req.select), ..base };
            proof {
                assert(row@ == QIndexV { show_select_val: Option::Some(req.select@), ..basev });
            }
            question_index_list.set(i, row);
            proof {
                assert(index_views(question_index_list@) =~= spec_set_select(s, req.id@, req.select@));
            }
            return Result::Ok(true);
        }
    }
    proof {
        lemma_first_match_at(s, req.id@, n as int);
    }
    Result::Ok(true)
}

/// Path and content of the title file to rewrite.
pub fn edit_title(meta_path: &str, req: EditTitleReq) -> (r: (String, String))
    ensures
        r.0@ == spec_question_file(
            meta_path@,
            req.textbook_key@,
            req.catalog_key@,
            req.id@,
            QUESTION_TITLE_NAME@,
        ),
        r.1@ == req.title@,
{
    let path = question_file_path(
        meta_path,
        req.textbook_key.as_str(),
        req.catalog_key.as_str(),
        req.id.as_str(),
        QUESTION_TITLE_NAME,
    );
    (path, req.title)
}

/// Path and content of the supplement file to rewrite.
pub fn edit_mention(meta_path: &str, req: EditMentionReq) -> (r: (String, String))
    ensures
        r.0@ == spec_question_file(
            meta_path@,
            req.textbook_key@,
            req.catalog_key@,
            req.id@,
            QUESTION_MENTION_NAME@,
        ),
        r.1@ == req.mention@,
{
    let path = question_file_path(
        meta_path,
        req.textbook_key.as_str(),
        req.catalog_key.as_str(),
        req.id.as_str(),
        QUESTION_MENTION_NAME,
    );
    (path, req.mention)
}

/// Path and content of the option-A file to rewrite.
pub fn edit_a(meta_path: &str, req: EditAReq) -> (r: (String, String))
    ensures
        r.0@ == spec_question_file(
            meta_path@,
            req.textbook_key@,
            req.catalog_key@,
            req.id@,
            QUESTION_A_NAME@,
        ),
        r.1@ == req.a@,
{
    let path = question_file_path(
        meta_path,
        req.textbook_key.as_str(),
        req.catalog_key.as_str(),
        req.id.as_str(),
        QUESTION_A_NAME,
    );
    (path, req.a)
}

/// Path and content of the option-B file to rewrite.
pub fn edit_b(meta_path: &str, req: EditBReq) -> (r: (String, String))
    ensures
        r.0@ == spec_question_file(
            meta_path@,
            req.textbook_key@,
            req.catalog_key@,
            req.id@,
            QUESTION_B_NAME@,
        ),
        r.1@ == req.b@,
{
    let path = question_file_path(
        meta_path,
        req.textbook_key.as_str(),
        req.catalog_key.as_str(),
        req.id.as_str(),
        QUESTION_B_NAME,
    );
    (path, req.b)
}

/// Path and content of the option-C file to rewrite.
pub fn edit_c(meta_path: &str, req: EditCReq) -> (r: (String, String))
    ensures
        r.0@ == spec_question_file(
            meta_path@,
            req.textbook_key@,
            req.catalog_key@,
            req.id@,
            QUESTION_C_NAME@,
        ),
        r.1@ == req.c@,
{
    let path = question_file_path(
        meta_path,
        req.textbook_key.as_str(),
        req.catalog_key.as_str(),
        req.id.as_str(),
        QUESTION_C_NAME,
    );
    (path, req.c)
}

/// Path and content of the option-D file to rewrite.
pub fn edit_d(meta_path: &str, req: EditDReq) -> (r: (String, String))
    ensures
        r.0@ == spec_question_file(
            meta_path@,
            req.textbook_key@,
            req.catalog_key@,
            req.id@,
            QUESTION_D_NAME@,
        ),
        r.1@ == req.d@,
{
    let path = question_file_path(
        meta_path,
        req.textbook_key.as_str(),
        req.catalog_key.as_str(),
        req.id.as_str(),
        QUESTION_D_NAME,
    );
    (path, req.d)
}

/// Path and content of the option-E file to rewrite.
pub fn edit_e(meta_path: &str, req: EditEReq) -> (r: (String, String))
    ensures
        r.0@ == spec_question_file(
            meta_path@,
            req.textbook_key@,
            req.catalog_key@,
            req.id@,
            QUESTION_E_NAME@,
        ),
        r.1@ == req.e@,
{
    let path = question_file_path(
        meta_path,
        req.textbook_key.as_str(),
        req.catalog_key.as_str(),
        req.id.as_str(),
        QUESTION_E_NAME,
    );
    (path, req.e)
}

/// Path and content of the answer file to rewrite.
pub fn edit_answer(meta_path: &str, req: EditAnswerReq) -> (r: (String, String))
    ensures
        r.0@ == spec_question_file(
            meta_path@,
            req.textbook_key@,
            req.catalog_key@,
            req.id@,
            QUESTION_ANSWER_NAME@,
        ),
        r.1@ == req.answer@,
{
    let path = question_file_path(
        meta_path,
        req.textbook_key.as_str(),
        req.catalog_key.as_str(),
        req.id.as_str(),
        QUESTION_ANSWER_NAME,
    );
    (path, req.answer)
}

/// Path and content of the knowledge file to rewrite.
pub fn edit_knowledge(meta_path: &str, req: EditKnowledgeReq) -> (r: (String, String))
    ensures
        r.0@ == spec_question_file(
            meta_path@,
            req.textbook_key@,
            req.catalog_key@,
            req.id@,
            QUESTION_KNOWLEDGE_NAME@,
        ),
        r.1@ == req.knowledge@,
{
    let path = question_file_path(
        meta_path,
        req.textbook_key.as_str(),
        req.catalog_key.as_str(),
        req.id.as_str(),
        QUESTION_KNOWLEDGE_NAME,
    );
    (path, req.knowledge)
}

/// Path and content of the analysis file to rewrite.
pub fn edit_analyze(meta_path: &str, req: EditAnalyzeReq) -> (r: (String, String))
    ensures
        r.0@ == spec_question_file(
            meta_path@,
            req.textbook_key@,
            req.catalog_key@,
            req.id@,
            QUESTION_ANALYZE_NAME@,
        ),
        r.1@ == req.analyze@,
{
    let path = question_file_path(
        meta_path,
        req.textbook_key.as_str(),
        req.catalog_key.as_str(),
        req.id.as_str(),
        QUESTION_ANALYZE_NAME,
    );
    (path, req.analyze)
}

/// Path and content of the worked-solution file to rewrite.
pub fn edit_process(meta_path: &str, req: EditProcessReq) -> (r: (String, String))
    ensures
        r.0@ == spec_question_file(
            meta_path@,
            req.textbook_key@,
            req.catalog_key@,
            req.id@,
            QUESTION_PROCESS_NAME@,
        ),
        r.1@ == req.process@,
{
    let path = question_file_path(
        meta_path,
        req.textbook_key.as_str(),
        req.catalog_key.as_str(),
        req.id.as_str(),
        QUESTION_PROCESS_NAME,
    );
    (path, req.process)
}

/// Path and content of the remarks file to rewrite.
pub fn edit_remark(meta_path: &str, req: EditRemarkReq) -> (r: (String, String))
    ensures
        r.0@ == spec_question_file(
            meta_path@,
            req.textbook_key@,
            req.catalog_key@,
            req.id@,
            QUESTION_REMARK_NAME@,
        ),
        r.1@ == req.remark@,
{
    let path = question_file_path(
        meta_path,
        req.textbook_key.as_str(),
        req.catalog_key.as_str(),
        req.id.as_str(),
        QUESTION_REMARK_NAME,
    );
    (path, req.remark)
}

} // verus!
