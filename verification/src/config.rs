//! The static configuration catalog: subjects, publishers, stages,
//! textbooks, knowledge sets, catalogs, question types and tags, and the
//! guidance tree assembled from them. Reading the underlying files is the
//! caller's step; the assembly is verified here.

use vstd::prelude::*;

use crate::errors::StoreError;

verus! {

/// One subject, with its publishers nested once assembled.
pub struct Subject {
    /// Display name.
    pub label: String,
    /// Stable key.
    pub key: String,
    /// Ordering.
    pub order: i8,
    /// The subject's publishers, filled by the guidance assembly.
    pub children: Vec<Publisher>,
}

/// One publisher, with its stages nested once assembled.
pub struct Publisher {
    /// Display name.
    pub label: String,
    /// Stable key.
    pub key: String,
    /// Ordering.
    pub order: i8,
    /// The publisher's stages, filled by the guidance assembly.
    pub children: Vec<Stage>,
}

/// One stage, with its textbooks and knowledge sets nested once assembled.
pub struct Stage {
    /// Display name.
    pub label: String,
    /// Stable key.
    pub key: String,
    /// Ordering.
    pub order: i8,
    /// The stage's textbooks, filled by the guidance assembly.
    pub textbook_list: Vec<Textbook>,
    /// The stage's knowledge sets, filled by the guidance assembly.
    pub knowledge_list: Vec<Knowledge>,
}

/// One textbook of the static catalog.
pub struct Textbook {
    /// Display name.
    pub label: String,
    /// Stable key.
    pub key: String,
    /// Ordering.
    pub order: i8,
}

/// One knowledge set of the static catalog.
pub struct Knowledge {
    /// Display name.
    pub label: String,
    /// Stable key.
    pub key: String,
    /// Ordering.
    pub order: i8,
}

/// One entry of a knowledge taxonomy, nested.
pub struct KnowledgeInfo {
    /// Display name.
    pub label: String,
    /// Stable key.
    pub key: String,
    /// Ordering.
    pub order: i8,
    /// Nested entries, when present.
    pub children: Option<Vec<KnowledgeInfo>>,
}

/// One entry of a book's table of contents, nested.
pub struct Catalog {
    /// Display name.
    pub label: String,
    /// Stable key.
    pub key: String,
    /// Ordering.
    pub order: i8,
    /// Nested entries, when present.
    pub children: Option<Vec<Catalog>>,
}

/// One question type of the static catalog.
pub struct QuestionType {
    /// Display name.
    pub label: String,
    /// Stable key.
    pub key: String,
    /// Ordering.
    pub order: i8,
}

/// One question tag of the static catalog.
pub struct Tag {
    /// Display name.
    pub label: String,
    /// Stable key.
    pub key: String,
    /// Ordering.
    pub order: i8,
}

/// Mathematical value of a catalog textbook.
pub ghost struct CfgTextbookV {
    pub label: Seq<char>,
    pub key: Seq<char>,
    pub order: int,
}

/// Mathematical value of a knowledge set.
pub ghost struct KnowledgeV {
    pub label: Seq<char>,
    pub key: Seq<char>,
    pub order: int,
}

/// Mathematical value of a stage.
pub ghost struct StageV {
    pub label: Seq<char>,
    pub key: Seq<char>,
    pub order: int,
    pub textbook_list: Seq<CfgTextbookV>,
    pub knowledge_list: Seq<KnowledgeV>,
}

/// Mathematical value of a publisher.
pub ghost struct PublisherV {
    pub label: Seq<char>,
    pub key: Seq<char>,
    pub order: int,
    pub children: Seq<StageV>,
}

/// Mathematical value of a subject.
pub ghost struct SubjectV {
    pub label: Seq<char>,
    pub key: Seq<char>,
    pub order: int,
    pub children: Seq<PublisherV>,
}

impl View for Textbook {
    type V = CfgTextbookV;

    open spec fn view(&self) -> CfgTextbookV {
        CfgTextbookV { label: self.label@, key: self.key@, order: self.order as int }
    }
}

impl View for Knowledge {
    type V = KnowledgeV;

    open spec fn view(&self) -> KnowledgeV {
        KnowledgeV { label: self.label@, key: self.key@, order: self.order as int }
    }
}

impl View for Stage {
    type V = StageV;

    open spec fn view(&self) -> StageV {
        StageV {
            label: self.label@,
            key: self.key@,
            order: self.order as int,
            textbook_list: Seq::new(self.textbook_list@.len(), |i: int| self.textbook_list@[i]@),
            knowledge_list: Seq::new(self.knowledge_list@.len(), |i: int| self.knowledge_list@[i]@),
        }
    }
}

impl View for Publisher {
    type V = PublisherV;

    open spec fn view(&self) -> PublisherV {
        PublisherV {
            label: self.label@,
            key: self.key@,
            order: self.order as int,
            children: Seq::new(self.children@.len(), |i: int| self.children@[i]@),
        }
    }
}

impl View for Subject {
    type V = SubjectV;

    open spec fn view(&self) -> SubjectV {
        SubjectV {
            label: self.label@,
            key: self.key@,
            order: self.order as int,
            children: Seq::new(self.children@.len(), |i: int| self.children@[i]@),
        }
    }
}

/// The views of a list of stages.
pub open spec fn stage_views(v: Seq<Stage>) -> Seq<StageV> {
    Seq::new(v.len(), |i: int| v[i]@)
}

/// The views of a list of publishers.
pub open spec fn publisher_views(v: Seq<Publisher>) -> Seq<PublisherV> {
    Seq::new(v.len(), |i: int| v[i]@)
}

/// The views of a list of subjects.
pub open spec fn subject_views(v: Seq<Subject>) -> Seq<SubjectV> {
    Seq::new(v.len(), |i: int| v[i]@)
}

/// The views of a keyed table of textbook lists.
pub open spec fn textbook_table(v: Seq<(String, Vec<Textbook>)>) -> Seq<
    (Seq<char>, Seq<CfgTextbookV>),
> {
    Seq::new(v.len(), |i: int| (v[i].0@, Seq::new(v[i].1@.len(), |j: int| v[i].1@[j]@)))
}

/// The views of a keyed table of knowledge lists.
pub open spec fn knowledge_table(v: Seq<(String, Vec<Knowledge>)>) -> Seq<
    (Seq<char>, Seq<KnowledgeV>),
> {
    Seq::new(v.len(), |i: int| (v[i].0@, Seq::new(v[i].1@.len(), |j: int| v[i].1@[j]@)))
}

/// The views of a keyed table of stage lists.
pub open spec fn stage_table(v: Seq<(String, Vec<Stage>)>) -> Seq<(Seq<char>, Seq<StageV>)> {
    Seq::new(v.len(), |i: int| (v[i].0@, stage_views(v[i].1@)))
}

/// The views of a keyed table of publisher lists.
pub open spec fn publisher_table(v: Seq<(String, Vec<Publisher>)>) -> Seq<
    (Seq<char>, Seq<PublisherV>),
> {
    Seq::new(v.len(), |i: int| (v[i].0@, publisher_views(v[i].1@)))
}

/// First value filed under a key; empty when the key is absent.
pub open spec fn table_get<T>(m: Seq<(Seq<char>, Seq<T>)>, key: Seq<char>) -> Seq<T>
    decreases m.len(),
{
    if m.len() == 0 {
        Seq::empty()
    } else if m[0].0 == key {
        m[0].1
    } else {
        table_get(m.drop_first(), key)
    }
}

/// A stage as the guidance assembly fills it.
pub open spec fn spec_guidance_stage(
    st: StageV,
    textbooks: Seq<(Seq<char>, Seq<CfgTextbookV>)>,
    knowledge: Seq<(Seq<char>, Seq<KnowledgeV>)>,
) -> StageV {
    StageV {
        textbook_list: table_get(textbooks, st.key),
        knowledge_list: table_get(knowledge, st.key),
        ..st
    }
}

/// A publisher as the guidance assembly fills it.
pub open spec fn spec_guidance_publisher(
    p: PublisherV,
    stages: Seq<(Seq<char>, Seq<StageV>)>,
    textbooks: Seq<(Seq<char>, Seq<CfgTextbookV>)>,
    knowledge: Seq<(Seq<char>, Seq<KnowledgeV>)>,
) -> PublisherV {
    let sts = table_get(stages, p.key);
    PublisherV {
        children: Seq::new(
            sts.len(),
            |i: int| spec_guidance_stage(sts[i], textbooks, knowledge),
        ),
        ..p
    }
}

/// A subject as the guidance assembly fills it.
pub open spec fn spec_guidance_subject(
    s: SubjectV,
    publishers: Seq<(Seq<char>, Seq<PublisherV>)>,
    stages: Seq<(Seq<char>, Seq<StageV>)>,
    textbooks: Seq<(Seq<char>, Seq<CfgTextbookV>)>,
    knowledge: Seq<(Seq<char>, Seq<KnowledgeV>)>,
) -> SubjectV {
    let ps = table_get(publishers, s.key);
    SubjectV {
        children: Seq::new(
            ps.len(),
            |i: int| spec_guidance_publisher(ps[i], stages, textbooks, knowledge),
        ),
        ..s
    }
}

/// Look up the textbooks filed under a key.
fn lookup_textbooks(table: &Vec<(String, Vec<Textbook>)>, key: &str) -> (r: Vec<Textbook>)
    ensures
        Seq::new(r@.len(), |j: int| r@[j]@) == table_get(textbook_table(table@), key@),
    decreases table@.len(),
{
    let ghost m = textbook_table(table@);
    let n = table.len();
    for i in 0..n
        invariant
            n == table@.len(),
            m == textbook_table(table@),
            forall|j: int| 0 <= j < i ==> (#[trigger] m[j]).0 != key@,
    {
        let wanted: String = key.to_owned();
        if table[i].0 == wanted {
            let src = &table[i].1;
            let mut out: Vec<Textbook> = Vec::new();
            let cnt = src.len();
            for j in 0..cnt
                invariant
                    cnt == src@.len(),
                    out@.len() == j,
                    forall|x: int| 0 <= x < j ==> #[trigger] out@[x]@ == src@[x]@,
            {
                let t = &src[j];
                out.push(Textbook { label: t.label.clone(), key: t.key.clone(), order: t.order });
            }
            proof {
                lemma_table_get_at::<CfgTextbookV>(m, key@, i as int);
                assert(Seq::new(out@.len(), |j: int| out@[j]@) =~= m[i as int].1);
            }
            return out;
        }
    }
    proof {
        lemma_table_get_missing::<CfgTextbookV>(m, key@);
    }
    Vec::new()
}

/// Look up the knowledge sets filed under a key.
fn lookup_knowledge(table: &Vec<(String, Vec<Knowledge>)>, key: &str) -> (r: Vec<Knowledge>)
    ensures
        Seq::new(r@.len(), |j: int| r@[j]@) == table_get(knowledge_table(table@), key@),
{
    let ghost m = knowledge_table(table@);
    let n = table.len();
    for i in 0..n
        invariant
            n == table@.len(),
            m == knowledge_table(table@),
            forall|j: int| 0 <= j < i ==> (#[trigger] m[j]).0 != key@,
    {
        let wanted: String = key.to_owned();
        if table[i].0 == wanted {
            let src = &table[i].1;
            let mut out: Vec<Knowledge> = Vec::new();
            let cnt = src.len();
            for j in 0..cnt
                invariant
                    cnt == src@.len(),
                    out@.len() == j,
                    forall|x: int| 0 <= x < j ==> #[trigger] out@[x]@ == src@[x]@,
            {
                let t = &src[j];
                out.push(Knowledge { label: t.label.clone(), key: t.key.clone(), order: t.order });
            }
            proof {
                lemma_table_get_at::<KnowledgeV>(m, key@, i as int);
                assert(Seq::new(out@.len(), |j: int| out@[j]@) =~= m[i as int].1);
            }
            return out;
        }
    }
    proof {
        lemma_table_get_missing::<KnowledgeV>(m, key@);
    }
    Vec::new()
}

/// The first matching key determines the looked-up value.
proof fn lemma_table_get_at<T>(m: Seq<(Seq<char>, Seq<T>)>, key: Seq<char>, i: int)
    requires
        0 <= i < m.len(),
        m[i].0 == key,
        forall|j: int| 0 <= j < i ==> (#[trigger] m[j]).0 != key,
    ensures
        table_get(m, key) == m[i].1,
    decreases i,
{
    if i == 0 {
    } else {
        lemma_table_get_at(m.drop_first(), key, i - 1);
        assert(forall|j: int| 0 <= j < i - 1 ==> m.drop_first()[j] == m[j + 1]);
    }
}

/// A key filed nowhere looks up the empty value.
proof fn lemma_table_get_missing<T>(m: Seq<(Seq<char>, Seq<T>)>, key: Seq<char>)
    requires
        forall|j: int| 0 <= j < m.len() ==> (#[trigger] m[j]).0 != key,
    ensures
        table_get(m, key) == Seq::<T>::empty(),
    decreases m.len(),
{
    if m.len() > 0 {
        lemma_table_get_missing(m.drop_first(), key);
    }
}

/// Assemble the guidance tree: each subject's publishers, each
/// publisher's stages, and each stage's textbooks and knowledge sets,
/// every level looked up by its parent's key.
pub fn get_guidance(
    subjects: Vec<Subject>,
    publishers: &Vec<(String, Vec<Publisher>)>,
    stages: &Vec<(String, Vec<Stage>)>,
    textbooks: &Vec<(String, Vec<Textbook>)>,
    knowledge: &Vec<(String, Vec<Knowledge>)>,
) -> (r: Result<Vec<Subject>, StoreError>)
    ensures
        match r {
            Result::Ok(v) => {
                &&& v@.len() == subjects@.len()
                &&& forall|i: int|
                    0 <= i < v@.len() ==> #[trigger] v@[i]@ == spec_guidance_subject(
                        subjects@[i]@,
                        publisher_table(publishers@),
                        stage_table(stages@),
                        textbook_table(textbooks@),
                        knowledge_table(knowledge@),
                    )
            },
            Result::Err(_) => false,
        },
{
    let ghost pubm = publisher_table(publishers@);
    let ghost stm = stage_table(stages@);
    let ghost tbm = textbook_table(textbooks@);
    let ghost knm = knowledge_table(knowledge@);
    let mut out: Vec<Subject> = Vec::new();
    let mut rest = subjects;
    let ghost subs0 = subject_views(rest@);
    let total = rest.len();
    for done in 0..total
        invariant
            total == subs0.len(),
            rest@.len() + done == total,
            pubm == publisher_table(publishers@),
            stm == stage_table(stages@),
            tbm == textbook_table(textbooks@),
            knm == knowledge_table(knowledge@),
            out@.len() == done,
            forall|j: int| 0 <= j < rest@.len() ==> #[trigger] rest@[j]@ == subs0[j + done],
            forall|i: int|
                0 <= i < done ==> #[trigger] out@[i]@ == spec_guidance_subject(
                    subs0[i],
                    pubm,
                    stm,
                    tbm,
                    knm,
                ),
        decreases total - done,
    {
        let ghost rest_before = rest@;
        let subject = rest.remove(0);
        proof {
            assert(subject@ == subs0[done as int]);
            assert(forall|j: int|
                0 <= j < rest@.len() ==> #[trigger] rest@[j] == rest_before[j + 1]);
        }
        let pubs = lookup_publishers_filled(
            publishers,
            subject.key.as_str(),
            stages,
            textbooks,
            knowledge,
        );
        let filled = Subject {
            label: subject.label,
            key: subject.key,
            order: subject.order,
            children: pubs,
        };
        proof {
            assert(filled@.children =~= spec_guidance_subject(
                subs0[done as int],
                pubm,
                stm,
                tbm,
                knm,
            ).children);
            assert(filled@ == spec_guidance_subject(subs0[done as int], pubm, stm, tbm, knm));
        }
        out.push(filled);
    }
    Result::Ok(out)
}

/// The publishers filed under a subject's key, each filled with its
/// stages, textbooks and knowledge sets.
fn lookup_publishers_filled(
    publishers: &Vec<(String, Vec<Publisher>)>,
    key: &str,
    stages: &Vec<(String, Vec<Stage>)>,
    textbooks: &Vec<(String, Vec<Textbook>)>,
    knowledge: &Vec<(String, Vec<Knowledge>)>,
) -> (r: Vec<Publisher>)
    ensures
        publisher_views(r@) == Seq::new(
            table_get(publisher_table(publishers@), key@).len(),
            |i: int|
                spec_guidance_publisher(
                    table_get(publisher_table(publishers@), key@)[i],
                    stage_table(stages@),
                    textbook_table(textbooks@),
                    knowledge_table(knowledge@),
                ),
        ),
{
    let ghost pubm = publisher_table(publishers@);
    let ghost want = table_get(pubm, key@);
    let n = publishers.len();
    for i in 0..n
        invariant
            n == publishers@.len(),
            pubm == publisher_table(publishers@),
            want == table_get(pubm, key@),
            forall|j: int| 0 <= j < i ==> (#[trigger] pubm[j]).0 != key@,
    {
        let wanted: String = key.to_owned();
        if publishers[i].0 == wanted {
            proof {
                lemma_table_get_at::<PublisherV>(pubm, key@, i as int);
            }
            let src = &publishers[i].1;
            let mut out: Vec<Publisher> = Vec::new();
            let cnt = src.len();
            for j in 0..cnt
                invariant
                    cnt == src@.len(),
                    want == publisher_views(src@),
                    out@.len() == j,
                    pubm == publisher_table(publishers@),
                    stage_table(stages@) == stage_table(stages@),
                    forall|x: int|
                        0 <= x < j ==> #[trigger] out@[x]@ == spec_guidance_publisher(
                            want[x],
                            stage_table(stages@),
                            textbook_table(textbooks@),
                            knowledge_table(knowledge@),
                        ),
            {
                let p = &src[j];
                let sts = lookup_stages_filled(stages, p.key.as_str(), textbooks, knowledge);
                let filled = Publisher {
                    label: p.label.clone(),
                    key: p.key.clone(),
                    order: p.order,
                    children: sts,
                };
                proof {
                    assert(want[j as int] == src@[j as int]@);
                    assert(filled@ == spec_guidance_publisher(
                        want[j as int],
                        stage_table(stages@),
                        textbook_table(textbooks@),
                        knowledge_table(knowledge@),
                    ));
                }
                out.push(filled);
            }
            proof {
                assert(publisher_views(out@) =~= Seq::new(
                    want.len(),
                    |x: int|
                        spec_guidance_publisher(
                            want[x],
                            stage_table(stages@),
                            textbook_table(textbooks@),
                            knowledge_table(knowledge@),
                        ),
                ));
            }
            return out;
        }
    }
    proof {
        lemma_table_get_missing::<PublisherV>(pubm, key@);
        assert(publisher_views(Seq::<Publisher>::empty()) =~= Seq::<PublisherV>::empty());
        assert(Seq::new(
            table_get(pubm, key@).len(),
            |i: int|
                spec_guidance_publisher(
                    table_get(pubm, key@)[i],
                    stage_table(stages@),
                    textbook_table(textbooks@),
                    knowledge_table(knowledge@),
                ),
        ) =~= Seq::<PublisherV>::empty());
    }
    Vec::new()
}

/// The stages filed under a publisher's key, each filled with its
/// textbooks and knowledge sets.
fn lookup_stages_filled(
    stages: &Vec<(String, Vec<Stage>)>,
    key: &str,
    textbooks: &Vec<(String, Vec<Textbook>)>,
    knowledge: &Vec<(String, Vec<Knowledge>)>,
) -> (r: Vec<Stage>)
    ensures
        stage_views(r@) == Seq::new(
            table_get(stage_table(stages@), key@).len(),
            |i: int|
                spec_guidance_stage(
                    table_get(stage_table(stages@), key@)[i],
                    textbook_table(textbooks@),
                    knowledge_table(knowledge@),
                ),
        ),
{
    let ghost stm = stage_table(stages@);
    let ghost want = table_get(stm, key@);
    let n = stages.len();
    for i in 0..n
        invariant
            n == stages@.len(),
            stm == stage_table(stages@),
            want == table_get(stm, key@),
            forall|j: int| 0 <= j < i ==> (#[trigger] stm[j]).0 != key@,
    {
        let wanted: String = key.to_owned();
        if stages[i].0 == wanted {
            proof {
                lemma_table_get_at::<StageV>(stm, key@, i as int);
            }
            let src = &stages[i].1;
            let mut out: Vec<Stage> = Vec::new();
            let cnt = src.len();
            for j in 0..cnt
                invariant
                    cnt == src@.len(),
                    want == stage_views(src@),
                    out@.len() == j,
                    forall|x: int|
                        0 <= x < j ==> #[trigger] out@[x]@ == spec_guidance_stage(
                            want[x],
                            textbook_table(textbooks@),
                            knowledge_table(knowledge@),
                        ),
            {
                let st = &src[j];
                let tbs = lookup_textbooks(textbooks, st.key.as_str());
                let kns = lookup_knowledge(knowledge, st.key.as_str());
                let filled = Stage {
                    label: st.label.clone(),
                    key: st.key.clone(),
                    order: st.order,
                    textbook_list: tbs,
                    knowledge_list: kns,
                };
                proof {
                    assert(want[j as int] == src@[j as int]@);
                    assert(filled@.textbook_list =~= table_get(
                        textbook_table(textbooks@),
                        want[j as int].key,
                    ));
                    assert(filled@.knowledge_list =~= table_get(
                        knowledge_table(knowledge@),
                        want[j as int].key,
                    ));
                    assert(filled@ == spec_guidance_stage(
                        want[j as int],
                        textbook_table(textbooks@),
                        knowledge_table(knowledge@),
                    ));
                }
                out.push(filled);
            }
            proof {
                assert(stage_views(out@) =~= Seq::new(
                    want.len(),
                    |x: int|
                        spec_guidance_stage(
                            want[x],
                            textbook_table(textbooks@),
                            knowledge_table(knowledge@),
                        ),
                ));
            }
            return out;
        }
    }
    proof {
        lemma_table_get_missing::<StageV>(stm, key@);
        assert(stage_views(Seq::<Stage>::empty()) =~= Seq::<StageV>::empty());
        assert(Seq::new(
            table_get(stm, key@).len(),
            |i: int|
                spec_guidance_stage(
                    table_get(stm, key@)[i],
                    textbook_table(textbooks@),
                    knowledge_table(knowledge@),
                ),
        ) =~= Seq::<StageV>::empty());
    }
    Vec::new()
}

} // verus!
