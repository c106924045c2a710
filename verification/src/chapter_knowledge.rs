//! Binding chapters to knowledge topics: the service over the bridge
//! registry. Each node may be bound at most once, and a binding with live
//! question categories cannot be removed.

use vstd::prelude::*;

use crate::bridge::{
    bridge_touches, chapter_in, has_bridge_for, knowledge_in, BridgeStore, ChapterKnowledge,
};
use crate::category::{has_category_for, CategoryStore};
use crate::errors::StoreError;
use crate::resp::{flat_resp, resp_view, TextbookResp};
use crate::store::{selected_by, NodeStore};

verus! {

/// Fields of a binding-creation request.
pub struct CreateChapterKnowledgeReq {
    /// The chapter endpoint.
    pub chapter_id: i32,
    /// The knowledge-topic endpoint.
    pub knowledge_id: i32,
}

/// Public projection of one binding.
#[derive(Clone, Copy, PartialEq, Eq, Structural, Debug)]
pub struct ChapterKnowledgeResp {
    /// Identifier of the binding, when known.
    pub id: Option<i32>,
    /// The chapter endpoint.
    pub chapter_id: i32,
    /// The knowledge-topic endpoint.
    pub knowledge_id: i32,
}

/// A batch of node identifiers to resolve through their bindings.
pub struct ChapterKnowledgeIdsReq {
    /// The identifiers to look up.
    pub ids: Vec<i32>,
}

/// Fields of a binding-removal request.
pub struct RemoveChapterKnowledgeReq {
    /// The node whose binding is to be removed.
    pub id: i32,
}

/// The public projection of one stored binding.
pub fn to_resp(row: ChapterKnowledge) -> (r: ChapterKnowledgeResp)
    ensures
        r.id == Option::Some(row.id),
        r.chapter_id == row.chapter_id,
        r.knowledge_id == row.knowledge_id,
{
    ChapterKnowledgeResp {
        id: Option::Some(row.id),
        chapter_id: row.chapter_id,
        knowledge_id: row.knowledge_id,
    }
}

/// Reject a binding whose exact pair is already stored.
pub fn check_unique(bridges: &BridgeStore, req: &CreateChapterKnowledgeReq) -> (r: Result<
    (),
    StoreError,
>)
    ensures
        match r {
            Result::Ok(_) => !(exists|i: int|
                0 <= i < bridges@.len() && bridges@[i].chapter_id == req.chapter_id
                    && bridges@[i].knowledge_id == req.knowledge_id),
            Result::Err(e) => e == StoreError::Conflict && exists|i: int|
                0 <= i < bridges@.len() && bridges@[i].chapter_id == req.chapter_id
                    && bridges@[i].knowledge_id == req.knowledge_id,
        },
{
    if bridges.find_unique(req.chapter_id, req.knowledge_id).is_some() {
        Result::Err(StoreError::Conflict)
    } else {
        Result::Ok(())
    }
}

/// The binding a node takes part in.
pub fn info_by_chapter_or_knowledge(bridges: &BridgeStore, id: i32) -> (r: Result<
    ChapterKnowledgeResp,
    StoreError,
>)
    ensures
        match r {
            Result::Ok(resp) => has_bridge_for(bridges@, id as int) && exists|i: int|
                0 <= i < bridges@.len() && bridge_touches(#[trigger] bridges@[i], id as int)
                    && resp.id == Option::Some(bridges@[i].id) && resp.chapter_id
                    == bridges@[i].chapter_id && resp.knowledge_id == bridges@[i].knowledge_id,
            Result::Err(e) => !has_bridge_for(bridges@, id as int) && e == StoreError::NotFound,
        },
{
    match bridges.find_by_chapter_or_knowledge_id(id) {
        Option::Some(b) => {
            proof {
                let i = choose|i: int| 0 <= i < bridges@.len() && bridges@[i] == b;
                assert(bridge_touches(bridges@[i], id as int));
            }
            Result::Ok(to_resp(b))
        },
        Option::None => Result::Err(StoreError::NotFound),
    }
}

/// Bind a chapter to a knowledge topic. The exact pair must be new and
/// neither endpoint may be bound already; any bound endpoint is a
/// conflict, and only exhausted identifiers are a store failure.
pub fn add(bridges: &mut BridgeStore, req: CreateChapterKnowledgeReq) -> (r: Result<
    ChapterKnowledgeResp,
    StoreError,
>)
    requires
        old(bridges).wf(),
    ensures
        final(bridges).wf(),
        match r {
            Result::Ok(resp) => {
                &&& !has_bridge_for(old(bridges)@, req.chapter_id as int)
                &&& !has_bridge_for(old(bridges)@, req.knowledge_id as int)
                &&& final(bridges)@ == old(bridges)@.push(final(bridges)@.last())
                &&& final(bridges)@.last().id as int == old(bridges).spec_next_id()
                &&& final(bridges)@.last().chapter_id == req.chapter_id
                &&& final(bridges)@.last().knowledge_id == req.knowledge_id
                &&& resp.id == Option::Some(final(bridges)@.last().id)
                &&& resp.chapter_id == req.chapter_id
                &&& resp.knowledge_id == req.knowledge_id
            },
            Result::Err(e) => {
                &&& final(bridges)@ == old(bridges)@
                &&& if has_bridge_for(old(bridges)@, req.chapter_id as int) || has_bridge_for(
                    old(bridges)@,
                    req.knowledge_id as int,
                ) {
                    e == StoreError::Conflict
                } else {
                    e == StoreError::StoreFailure && old(bridges).spec_next_id()
                        == i32::MAX as int
                }
            },
        },
{
    match check_unique(bridges, &req) {
        Result::Ok(_) => {},
        Result::Err(e) => {
            proof {
                let i = choose|i: int|
                    0 <= i < bridges@.len() && bridges@[i].chapter_id == req.chapter_id
                        && bridges@[i].knowledge_id == req.knowledge_id;
                assert(bridge_touches(bridges@[i], req.chapter_id as int));
            }
            return Result::Err(e);
        },
    }
    match bridges.insert(req.chapter_id, req.knowledge_id) {
        Result::Ok(b) => {
            proof {
                assert(bridges@.last() == b);
            }
            Result::Ok(to_resp(b))
        },
        Result::Err(e) => Result::Err(e),
    }
}

/// The knowledge endpoints bound to each listed chapter.
pub open spec fn spec_knowledge_ids(bs: Seq<ChapterKnowledge>) -> Seq<i32> {
    Seq::new(bs.len(), |i: int| bs[i].knowledge_id)
}

/// The chapter endpoints bound to each listed knowledge topic.
pub open spec fn spec_chapter_ids(bs: Seq<ChapterKnowledge>) -> Seq<i32> {
    Seq::new(bs.len(), |i: int| bs[i].chapter_id)
}

/// Details of the knowledge topics bound to the listed chapters.
pub fn get_by_chapter(
    store: &NodeStore,
    bridges: &BridgeStore,
    req: ChapterKnowledgeIdsReq,
) -> (r: Result<Vec<TextbookResp>, StoreError>)
    requires
        store.wf(),
    ensures
        match r {
            Result::Ok(v) => {
                if req.ids@.len() == 0 {
                    v@.len() == 0
                } else {
                    {
                        let picked = store@.filter(
                            selected_by(
                                spec_knowledge_ids(bridges@.filter(chapter_in(req.ids@))),
                            ),
                        );
                        &&& v@.len() == picked.len()
                        &&& forall|i: int, d: nat|
                            0 <= i < v@.len() ==> #[trigger] resp_view(v@[i], d) == flat_resp(
                                picked[i],
                            )
                    }
                }
            },
            Result::Err(_) => false,
        },
{
    if req.ids.len() == 0 {
        return Result::Ok(Vec::new());
    }
    let rows = bridges.find_by_chapter_ids(&req.ids);
    let mut knowledge_ids: Vec<i32> = Vec::new();
    let n = rows.len();
    for i in 0..n
        invariant
            n == rows.len(),
            knowledge_ids@.len() == i,
            forall|j: int| 0 <= j < i ==> #[trigger] knowledge_ids@[j] == rows@[j].knowledge_id,
    {
        knowledge_ids.push(rows[i].knowledge_id);
    }
    proof {
        assert(knowledge_ids@ =~= spec_knowledge_ids(rows@));
    }
    crate::textbook::info_list_by_ids(store, &knowledge_ids)
}

/// Details of the chapters bound to the listed knowledge topics.
pub fn get_by_knowledge(
    store: &NodeStore,
    bridges: &BridgeStore,
    req: ChapterKnowledgeIdsReq,
) -> (r: Result<Vec<TextbookResp>, StoreError>)
    requires
        store.wf(),
    ensures
        match r {
            Result::Ok(v) => {
                if req.ids@.len() == 0 {
                    v@.len() == 0
                } else {
                    {
                        let picked = store@.filter(
                            selected_by(
                                spec_chapter_ids(bridges@.filter(knowledge_in(req.ids@))),
                            ),
                        );
                        &&& v@.len() == picked.len()
                        &&& forall|i: int, d: nat|
                            0 <= i < v@.len() ==> #[trigger] resp_view(v@[i], d) == flat_resp(
                                picked[i],
                            )
                    }
                }
            },
            Result::Err(_) => false,
        },
{
    if req.ids.len() == 0 {
        return Result::Ok(Vec::new());
    }
    let rows = bridges.find_by_knowledge_ids(&req.ids);
    let mut chapter_ids: Vec<i32> = Vec::new();
    let n = rows.len();
    for i in 0..n
        invariant
            n == rows.len(),
            chapter_ids@.len() == i,
            forall|j: int| 0 <= j < i ==> #[trigger] chapter_ids@[j] == rows@[j].chapter_id,
    {
        chapter_ids.push(rows[i].chapter_id);
    }
    proof {
        assert(chapter_ids@ =~= spec_chapter_ids(rows@));
    }
    crate::textbook::info_list_by_ids(store, &chapter_ids)
}

/// Unbind a node. The binding must carry no live question categories;
/// removal with live categories is blocked, and an unbound node reports
/// that nothing was removed.
pub fn remove(
    bridges: &mut BridgeStore,
    cates: &CategoryStore,
    req: RemoveChapterKnowledgeReq,
) -> (r: Result<bool, StoreError>)
    requires
        old(bridges).wf(),
    ensures
        final(bridges).wf(),
        match r {
            Result::Ok(done) => {
                &&& final(bridges)@ == old(bridges)@.filter(
                    crate::bridge::untouched_by(req.id as int),
                )
                &&& done == has_bridge_for(old(bridges)@, req.id as int)
                &&& req.id > 0
                &&& (forall|i: int|
                    0 <= i < old(bridges)@.len() && bridge_touches(
                        #[trigger] old(bridges)@[i],
                        req.id as int,
                    ) ==> !has_category_for(cates@, old(bridges)@[i].id as int))
            },
            Result::Err(e) => {
                &&& final(bridges)@ == old(bridges)@
                &&& if req.id <= 0 {
                    e == StoreError::NotFound
                } else {
                    e == StoreError::Blocked && exists|i: int|
                        0 <= i < old(bridges)@.len() && bridge_touches(
                            #[trigger] old(bridges)@[i],
                            req.id as int,
                        ) && has_category_for(cates@, old(bridges)@[i].id as int)
                }
            },
        },
{
    let ghost bs = bridges@;
    if req.id <= 0 {
        return Result::Err(StoreError::NotFound);
    }
    match bridges.find_by_chapter_or_knowledge_id(req.id) {
        Option::Some(b) => {
            let live = cates.find_all_by_related_id(b.id);
            if live.len() > 0 {
                proof {
                    let i = choose|i: int| 0 <= i < bs.len() && bs[i] == b;
                    assert(bridge_touches(bs[i], req.id as int));
                    assert(has_category_for(cates@, bs[i].id as int)) by {
                        lemma_filter_nonempty_witness(
                            cates@,
                            crate::category::related_to(b.id as int),
                        );
                    }
                }
                return Result::Err(StoreError::Blocked);
            }
            let count = bridges.delete_by_chapter_or_knowledge_id(req.id);
            proof {
                let i0 = choose|i: int| 0 <= i < bs.len() && bs[i] == b;
                assert(!crate::bridge::untouched_by(req.id as int)(bs[i0]));
                lemma_filter_drops(bs, crate::bridge::untouched_by(req.id as int), i0);
                assert(count > 0);
                let ghost the_cates = cates@.filter(crate::category::related_to(b.id as int));
                assert forall|i: int|
                    0 <= i < bs.len() && bridge_touches(#[trigger] bs[i], req.id as int) implies
                    !has_category_for(cates@, bs[i].id as int) by {
                    let j = choose|j: int| 0 <= j < bs.len() && bs[j] == b;
                    assert(bs[i] == bs[j]);
                    if has_category_for(cates@, bs[i].id as int) {
                        let k = choose|k: int|
                            0 <= k < cates@.len() && cates@[k].related_id == bs[i].id as int;
                        assert(crate::category::related_to(b.id as int)(cates@[k]));
                        cates@.lemma_filter_contains(
                            crate::category::related_to(b.id as int),
                            k,
                        );
                        assert(the_cates.len() > 0);
                        assert(crate::category::cate_views(live@).len() == 0);
                        assert(false);
                    }
                }
                assert(has_bridge_for(bs, req.id as int));
            }
            Result::Ok(count > 0)
        },
        Option::None => {
            proof {
                assert forall|i: int|
                    0 <= i < bs.len() && bridge_touches(#[trigger] bs[i], req.id as int) implies
                    !has_category_for(cates@, bs[i].id as int) by {
                    assert(has_bridge_for(bs, req.id as int));
                }
                assert(bridges@ =~= bs.filter(crate::bridge::untouched_by(req.id as int))) by {
                    broadcast use vstd::seq_lib::group_filter_ensures;

                    assert forall|i: int| 0 <= i < bs.len() implies crate::bridge::untouched_by(
                        req.id as int,
                    )(bs[i]) by {
                        assert(!bridge_touches(bs[i], req.id as int));
                    }
                    lemma_filter_all(bs, crate::bridge::untouched_by(req.id as int));
                }
            }
            Result::Ok(false)
        },
    }
}

/// Filtering drops at least the elements that fail the predicate.
proof fn lemma_filter_drops(
    s: Seq<ChapterKnowledge>,
    pred: spec_fn(ChapterKnowledge) -> bool,
    i: int,
)
    requires
        0 <= i < s.len(),
        !pred(s[i]),
    ensures
        s.filter(pred).len() < s.len(),
    decreases s.len(),
{
    reveal(Seq::filter);
    broadcast use vstd::seq_lib::group_filter_ensures;

    assert(s =~= s.drop_last().push(s.last()));
    s.drop_last().lemma_filter_len_push(pred, s.last());
    if i == s.len() - 1 {
        s.drop_last().lemma_filter_len(pred);
    } else {
        lemma_filter_drops(s.drop_last(), pred, i);
    }
}

/// A nonempty filtered sequence has a witness in its source.
proof fn lemma_filter_nonempty_witness(
    s: Seq<crate::category::CateV>,
    pred: spec_fn(crate::category::CateV) -> bool,
)
    requires
        s.filter(pred).len() > 0,
    ensures
        exists|k: int| 0 <= k < s.len() && pred(#[trigger] s[k]),
    decreases s.len(),
{
    reveal(Seq::filter);
    if s.len() > 0 {
        if pred(s.last()) {
            assert(pred(s[s.len() - 1]));
        } else {
            lemma_filter_nonempty_witness(s.drop_last(), pred);
            let k = choose|k: int| 0 <= k < s.drop_last().len() && pred(s.drop_last()[k]);
            assert(pred(s[k]));
        }
    }
}

/// Filtering with a predicate every element satisfies returns the whole
/// sequence.
proof fn lemma_filter_all(s: Seq<ChapterKnowledge>, pred: spec_fn(ChapterKnowledge) -> bool)
    requires
        forall|i: int| 0 <= i < s.len() ==> pred(#[trigger] s[i]),
    ensures
        s.filter(pred) == s,
    decreases s.len(),
{
    reveal(Seq::filter);
    if s.len() > 0 {
        lemma_filter_all(s.drop_last(), pred);
        assert(s.filter(pred) =~= s);
    }
}

} // verus!
