//! The public projection of a node: what list and info operations return.
//!
//! A [`TextbookResp`] nests its children directly; a node without eligible
//! children carries an absent children field rather than an empty list.
//! Its ghost counterpart [`RespV`] is read off by [`resp_view`], which is
//! indexed by a depth budget because the nesting is bounded by the depth
//! of the listing that produced it.

use vstd::prelude::*;

use crate::node::NodeV;

verus! {

/// Public projection of one node, with its children nested below it.
#[derive(PartialEq, Debug)]
pub struct TextbookResp {
    /// Identifier of the node.
    pub id: i32,
    /// Structural role along the hierarchy.
    pub path_type: String,
    /// Parent node; absent for a root.
    pub parent_id: Option<i32>,
    /// Human-readable name.
    pub label: String,
    /// Stable content-addressed identifier.
    pub key: String,
    /// Sibling ordering key.
    pub sort_order: i32,
    /// 1-based distance from the root, when known.
    pub path_depth: Option<i32>,
    /// Nested children; absent when the node has none in view.
    pub children: Option<Vec<TextbookResp>>,
}

/// Mathematical value of a response node.
pub ghost struct RespV {
    pub id: int,
    pub path_type: Seq<char>,
    pub parent_id: Option<int>,
    pub label: Seq<char>,
    pub key: Seq<char>,
    pub sort_order: int,
    pub path_depth: Option<int>,
    pub children: Option<Seq<RespV>>,
}

/// The value of a response, read to a nesting budget of `depth` levels;
/// a budget at least the height of the response captures it exactly.
pub open spec fn resp_view(r: TextbookResp, depth: nat) -> RespV
    decreases depth, 0nat,
{
    RespV {
        id: r.id as int,
        path_type: r.path_type@,
        parent_id: match r.parent_id {
            Option::None => Option::None,
            Option::Some(p) => Option::Some(p as int),
        },
        label: r.label@,
        key: r.key@,
        sort_order: r.sort_order as int,
        path_depth: match r.path_depth {
            Option::None => Option::None,
            Option::Some(d) => Option::Some(d as int),
        },
        children: match r.children {
            Option::None => Option::None,
            Option::Some(cs) => if depth == 0 {
                Option::Some(Seq::empty())
            } else {
                Option::Some(resp_views(cs@, (depth - 1) as nat))
            },
        },
    }
}

/// The values of a list of responses, read to a nesting budget.
pub open spec fn resp_views(cs: Seq<TextbookResp>, depth: nat) -> Seq<RespV>
    decreases depth, cs.len() + 1,
{
    if cs.len() == 0 {
        Seq::empty()
    } else {
        seq![resp_view(cs[0], depth)] + resp_views(cs.drop_first(), depth)
    }
}

/// A list of responses has one value per response.
pub proof fn lemma_resp_views_len(cs: Seq<TextbookResp>, depth: nat)
    ensures
        resp_views(cs, depth).len() == cs.len(),
    decreases cs.len(),
{
    if cs.len() > 0 {
        lemma_resp_views_len(cs.drop_first(), depth);
    }
}

/// Reading values commutes with appending one response.
pub proof fn lemma_resp_views_push(cs: Seq<TextbookResp>, x: TextbookResp, depth: nat)
    ensures
        resp_views(cs.push(x), depth) == resp_views(cs, depth).push(resp_view(x, depth)),
    decreases cs.len(),
{
    if cs.len() == 0 {
        reveal_with_fuel(resp_views, 2);
        assert(cs.push(x)[0] == x);
        assert(cs.push(x).drop_first() =~= Seq::<TextbookResp>::empty());
        assert(resp_views(cs.push(x), depth) =~= resp_views(cs, depth).push(
            resp_view(x, depth),
        ));
    } else {
        lemma_resp_views_push(cs.drop_first(), x, depth);
        assert(cs.push(x).drop_first() =~= cs.drop_first().push(x));
        assert(cs.push(x)[0] == cs[0]);
        assert(resp_views(cs.push(x), depth) =~= resp_views(cs, depth).push(
            resp_view(x, depth),
        ));
    }
}

/// The response of one node with the given nested children.
pub open spec fn resp_of(n: NodeV, children: Seq<RespV>) -> RespV {
    RespV {
        id: n.id,
        path_type: n.path_type,
        parent_id: n.parent_id,
        label: n.label,
        key: n.key,
        sort_order: n.sort_order,
        path_depth: Option::Some(n.depth),
        children: if children.len() == 0 {
            Option::None
        } else {
            Option::Some(children)
        },
    }
}

/// The flat response of one node: no children in view.
pub open spec fn flat_resp(n: NodeV) -> RespV {
    resp_of(n, Seq::empty())
}

} // verus!
