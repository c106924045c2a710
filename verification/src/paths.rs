//! Where the flat-file metadata lives: section directories derived from
//! textbook and catalog keys, and the files of one stored question.

use vstd::prelude::*;

use crate::text::{replace_char, underline_to_slash};

verus! {

/// File name of a section's question index.
pub const QUESTION_INDEX_NAME: &'static str = "index.json";

/// File name of a section's variant-question index.
pub const QUESTION_SIMILAR_INDEX_NAME: &'static str = "similar.json";

/// Directory name for a section's images.
pub const IMAGE_NAME: &'static str = "images";

/// File name of a question's title.
pub const QUESTION_TITLE_NAME: &'static str = "title.md";

/// File name of a question's supplement.
pub const QUESTION_MENTION_NAME: &'static str = "mention.md";

/// File name of option A.
pub const QUESTION_A_NAME: &'static str = "a.md";

/// File name of option B.
pub const QUESTION_B_NAME: &'static str = "b.md";

/// File name of option C.
pub const QUESTION_C_NAME: &'static str = "c.md";

/// File name of option D.
pub const QUESTION_D_NAME: &'static str = "d.md";

/// File name of option E.
pub const QUESTION_E_NAME: &'static str = "e.md";

/// File name of a question's answer.
pub const QUESTION_ANSWER_NAME: &'static str = "answer.md";

/// File name of a question's knowledge notes.
pub const QUESTION_KNOWLEDGE_NAME: &'static str = "knowledge.md";

/// File name of a question's analysis.
pub const QUESTION_ANALYZE_NAME: &'static str = "analyze.md";

/// File name of a question's worked solution.
pub const QUESTION_PROCESS_NAME: &'static str = "process.md";

/// File name of a question's remarks.
pub const QUESTION_REMARK_NAME: &'static str = "remark.md";

/// Length of the digest prefix that names a stored question.
pub const QUESTION_INDEX_LENGTH: usize = 5;

/// Directory of one section: the metadata root, then the textbook key and
/// the catalog key with their underscores opened into path separators.
pub open spec fn spec_section_dir(meta: Seq<char>, tb: Seq<char>, cat: Seq<char>) -> Seq<char> {
    meta + seq!['/'] + replace_char(tb, '_', '/') + seq!['/'] + replace_char(cat, '_', '/')
}

/// One file directly under a section directory.
pub open spec fn spec_section_file(
    meta: Seq<char>,
    tb: Seq<char>,
    cat: Seq<char>,
    name: Seq<char>,
) -> Seq<char> {
    spec_section_dir(meta, tb, cat) + seq!['/'] + name
}

/// One file of a stored question, under the question's own directory.
pub open spec fn spec_question_file(
    meta: Seq<char>,
    tb: Seq<char>,
    cat: Seq<char>,
    id: Seq<char>,
    name: Seq<char>,
) -> Seq<char> {
    spec_section_dir(meta, tb, cat) + seq!['/'] + id + seq!['/'] + name
}

/// Build a section's directory path.
pub fn section_dir(meta_path: &str, textbook_key: &str, catalog_key: &str) -> (r: String)
    ensures
        r@ == spec_section_dir(meta_path@, textbook_key@, catalog_key@),
{
    let mut out: String = meta_path.to_owned();
    out.append("/");
    let tb = underline_to_slash(textbook_key);
    out.append(tb.as_str());
    out.append("/");
    let cat = underline_to_slash(catalog_key);
    out.append(cat.as_str());
    proof {
        reveal_strlit("/");
        assert(out@ =~= spec_section_dir(meta_path@, textbook_key@, catalog_key@));
    }
    out
}

/// Build the path of one file directly under a section directory.
pub fn section_file_path(
    meta_path: &str,
    textbook_key: &str,
    catalog_key: &str,
    name: &str,
) -> (r: String)
    ensures
        r@ == spec_section_file(meta_path@, textbook_key@, catalog_key@, name@),
{
    let mut out = section_dir(meta_path, textbook_key, catalog_key);
    out.append("/");
    out.append(name);
    proof {
        reveal_strlit("/");
        assert(out@ =~= spec_section_file(meta_path@, textbook_key@, catalog_key@, name@));
    }
    out
}

/// Build the path of one file of a stored question.
pub fn question_file_path(
    meta_path: &str,
    textbook_key: &str,
    catalog_key: &str,
    id: &str,
    name: &str,
) -> (r: String)
    ensures
        r@ == spec_question_file(meta_path@, textbook_key@, catalog_key@, id@, name@),
{
    let mut out = section_dir(meta_path, textbook_key, catalog_key);
    out.append("/");
    out.append(id);
    out.append("/");
    out.append(name);
    proof {
        reveal_strlit("/");
        assert(out@ =~= spec_question_file(meta_path@, textbook_key@, catalog_key@, id@, name@));
    }
    out
}

} // verus!
