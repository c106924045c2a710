//! The per-section question index: the flat list of stored questions that
//! every question operation starts from. Reading and writing the file
//! itself happens outside; this module owns the entries and their keys.

use vstd::prelude::*;

use crate::digest::{dec_of, u64_to_string};
use crate::errors::StoreError;

verus! {

/// One entry of the question index.
#[derive(Debug)]
pub struct QuestionIndex {
    /// Numeric identifier, unique within one index.
    pub id: u64,
    /// Short digest prefix of the title; the stored question lives under
    /// `id_left`.
    pub left: String,
    /// Kind of the question.
    pub question_type: String,
    /// Free-form tags.
    pub tags: Option<Vec<String>>,
    /// Difficulty rating.
    pub rate_val: Option<String>,
    /// Names of attached images.
    pub image_names: Option<Vec<String>>,
    /// Where images are shown.
    pub show_image_val: Option<String>,
    /// How selection options are laid out.
    pub show_select_val: Option<String>,
    /// Creation time, seconds since the epoch.
    pub create_time: Option<i64>,
    /// Last update time, seconds since the epoch.
    pub update_time: Option<i64>,
    /// Author of the question.
    pub author: Option<String>,
}

/// Mathematical value of one index entry.
pub ghost struct QIndexV {
    pub id: int,
    pub left: Seq<char>,
    pub question_type: Seq<char>,
    pub tags: Option<Seq<Seq<char>>>,
    pub rate_val: Option<Seq<char>>,
    pub image_names: Option<Seq<Seq<char>>>,
    pub show_image_val: Option<Seq<char>>,
    pub show_select_val: Option<Seq<char>>,
    pub create_time: Option<int>,
    pub update_time: Option<int>,
    pub author: Option<Seq<char>>,
}

/// The values of a list of strings.
pub open spec fn texts_of(v: Seq<String>) -> Seq<Seq<char>> {
    Seq::new(v.len(), |i: int| v[i]@)
}

/// The value of an optional string.
pub open spec fn opt_text(v: Option<String>) -> Option<Seq<char>> {
    match v {
        Option::None => Option::None,
        Option::Some(x) => Option::Some(x@),
    }
}

/// The values of an optional list of strings.
pub open spec fn opt_texts(v: &Option<Vec<String>>) -> Option<Seq<Seq<char>>> {
    match v {
        Option::None => Option::None,
        Option::Some(x) => Option::Some(texts_of(x@)),
    }
}

/// The value of an optional time.
pub open spec fn opt_time(v: Option<i64>) -> Option<int> {
    match v {
        Option::None => Option::None,
        Option::Some(x) => Option::Some(x as int),
    }
}

impl View for QuestionIndex {
    type V = QIndexV;

    open spec fn view(&self) -> QIndexV {
        QIndexV {
            id: self.id as int,
            left: self.left@,
            question_type: self.question_type@,
            tags: opt_texts(&self.tags),
            rate_val: opt_text(self.rate_val),
            image_names: opt_texts(&self.image_names),
            show_image_val: opt_text(self.show_image_val),
            show_select_val: opt_text(self.show_select_val),
            create_time: opt_time(self.create_time),
            update_time: opt_time(self.update_time),
            author: opt_text(self.author),
        }
    }
}

/// Copy an optional list of strings.
pub fn clone_opt_texts(v: &Option<Vec<String>>) -> (r: Option<Vec<String>>)
    ensures
        opt_texts(&r) == opt_texts(v),
{
    match v {
        Option::None => Option::None,
        Option::Some(xs) => {
            let mut out: Vec<String> = Vec::new();
            let n = xs.len();
            for i in 0..n
                invariant
                    n == xs@.len(),
                    out@.len() == i,
                    forall|j: int| 0 <= j < i ==> #[trigger] out@[j]@ == xs@[j]@,
            {
                out.push(xs[i].clone());
            }
            proof {
                assert(texts_of(out@) =~= texts_of(xs@));
            }
            Option::Some(out)
        },
    }
}

impl QuestionIndex {
    /// A fresh entry holding the same values.
    pub fn duplicate(&self) -> (r: QuestionIndex)
        ensures
            r@ == self@,
    {
        QuestionIndex {
            id: self.id,
            left: self.left.clone(),
            question_type: self.question_type.clone(),
            tags: clone_opt_texts(&self.tags),
            rate_val: match &self.rate_val {
                Option::None => Option::None,
                Option::Some(x) => Option::Some(x.clone()),
            },
            image_names: clone_opt_texts(&self.image_names),
            show_image_val: match &self.show_image_val {
                Option::None => Option::None,
                Option::Some(x) => Option::Some(x.clone()),
            },
            show_select_val: match &self.show_select_val {
                Option::None => Option::None,
                Option::Some(x) => Option::Some(x.clone()),
            },
            create_time: self.create_time,
            update_time: self.update_time,
            author: match &self.author {
                Option::None => Option::None,
                Option::Some(x) => Option::Some(x.clone()),
            },
        }
    }
}

/// The views of a list of index entries.
pub open spec fn index_views(rows: Seq<QuestionIndex>) -> Seq<QIndexV> {
    Seq::new(rows.len(), |i: int| rows[i]@)
}

/// The composite identifier a stored question is addressed by: its
/// number, an underscore and its digest prefix.
pub open spec fn spec_full_id(id: nat, left: Seq<char>) -> Seq<char> {
    dec_of(id) + seq!['_'] + left
}

/// Render the composite identifier of an entry.
pub fn question_full_id(id: u64, left: &str) -> (r: String)
    ensures
        r@ == spec_full_id(id as nat, left@),
{
    let mut out = u64_to_string(id);
    out.append("_");
    out.append(left);
    proof {
        reveal_strlit("_");
        assert(out@ =~= spec_full_id(id as nat, left@));
    }
    out
}

/// The largest identifier an index holds; zero for an empty index.
pub open spec fn spec_max_id(s: Seq<QIndexV>) -> int
    decreases s.len(),
{
    if s.len() == 0 {
        0
    } else if s.last().id > spec_max_id(s.drop_last()) {
        s.last().id
    } else {
        spec_max_id(s.drop_last())
    }
}

/// The largest identifier among the stored entries; zero when there are
/// none.
pub fn get_question_index_max_id(index_list: &Vec<QuestionIndex>) -> (r: u64)
    ensures
        r as int == spec_max_id(index_views(index_list@)),
{
    let ghost s = index_views(index_list@);
    let mut max_id: u64 = 0;
    let n = index_list.len();
    for i in 0..n
        invariant
            n == index_list@.len(),
            s == index_views(index_list@),
            max_id as int == spec_max_id(s.take(i as int)),
    {
        proof {
            assert(s.take(i + 1).drop_last() =~= s.take(i as int));
            assert(s.take(i + 1).last() == s[i as int]);
        }
        if index_list[i].id > max_id {
            max_id = index_list[i].id;
        }
    }
    proof {
        assert(s.take(n as int) =~= s);
    }
    max_id
}

/// Append one entry to the index and hand back the composite identifier
/// under which its files are stored; persisting the grown index is the
/// caller's step.
pub fn append_write_index(
    question_index_list: &mut Vec<QuestionIndex>,
    question_index: QuestionIndex,
) -> (r: Result<String, StoreError>)
    ensures
        final(question_index_list)@.len() == old(question_index_list)@.len() + 1,
        index_views(final(question_index_list)@) == index_views(old(question_index_list)@).push(
            question_index@,
        ),
        match r {
            Result::Ok(id) => id@ == spec_full_id(question_index.id as nat, question_index@.left),
            Result::Err(_) => false,
        },
{
    let id = question_full_id(question_index.id, question_index.left.as_str());
    let ghost prev = index_views(question_index_list@);
    question_index_list.push(question_index);
    proof {
        assert(index_views(question_index_list@) =~= prev.push(question_index@));
    }
    Result::Ok(id)
}

/// The index entry stored under a composite identifier: the first whose
/// rendered identifier matches.
pub fn get_question_index(id: &str, question_index_list: Vec<QuestionIndex>) -> (r: Result<
    QuestionIndex,
    StoreError,
>)
    ensures
        match r {
            Result::Ok(entry) => exists|i: int|
                {
                    &&& 0 <= i < question_index_list@.len()
                    &&& entry@ == #[trigger] index_views(question_index_list@)[i]
                    &&& spec_full_id(entry@.id as nat, entry@.left) == id@
                    &&& forall|j: int|
                        0 <= j < i ==> spec_full_id(
                            (#[trigger] index_views(question_index_list@)[j]).id as nat,
                            index_views(question_index_list@)[j].left,
                        ) != id@
                },
            Result::Err(e) => {
                &&& e == StoreError::NotFound
                &&& forall|j: int|
                    0 <= j < question_index_list@.len() ==> spec_full_id(
                        (#[trigger] index_views(question_index_list@)[j]).id as nat,
                        index_views(question_index_list@)[j].left,
                    ) != id@
            },
        },
{
    let ghost s = index_views(question_index_list@);
    let wanted: String = id.to_owned();
    let n = question_index_list.len();
    for i in 0..n
        invariant
            n == question_index_list@.len(),
            s == index_views(question_index_list@),
            wanted@ == id@,
            forall|j: int|
                0 <= j < i ==> spec_full_id((#[trigger] s[j]).id as nat, s[j].left) != id@,
    {
        let entry = &question_index_list[i];
        let candidate = question_full_id(entry.id, entry.left.as_str());
        if candidate == wanted {
            proof {
                assert(s[i as int] == question_index_list@[i as int]@);
            }
            return Result::Ok(question_index_list[i].duplicate());
        }
    }
    Result::Err(StoreError::NotFound)
}

} // verus!
