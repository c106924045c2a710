//! The node record of the content forest and its mathematical model.
//!
//! A stored node is a [`Textbook`] row; its ghost counterpart is [`NodeV`].
//! The forest structure is specified over sequences of [`NodeV`]: ancestry
//! is defined by walking `parent_id` upward ([`anc`], [`reaches`]), and
//! [`wf`] states the maintained invariants — unique identifiers, depth
//! consistent with the parent chain, and labels unique among siblings.

use vstd::prelude::*;

verus! {

/// Depths are kept far below `i32::MAX` so that depth arithmetic in the
/// reparent cascade can never overflow; a real hierarchy is a handful of
/// levels deep.
pub const DEPTH_LIMIT: i32 = 1000000000;

/// One node of the content forest.
pub struct Textbook {
    /// Unique identifier, assigned by the store on creation.
    pub id: i32,
    /// Structural role along the hierarchy (subject, textbook, chapter, ...).
    pub path_type: String,
    /// Parent node; absent for a root.
    pub parent_id: Option<i32>,
    /// Human-readable name, unique among siblings.
    pub label: String,
    /// Stable content-addressed identifier derived from parent and label.
    pub key: String,
    /// 1-based distance from the root of this node's tree.
    pub path_depth: i32,
    /// Sibling ordering key; carries no uniqueness constraint.
    pub sort_order: i32,
}

/// Mathematical value of one stored node.
pub ghost struct NodeV {
    pub id: int,
    pub path_type: Seq<char>,
    pub parent_id: Option<int>,
    pub label: Seq<char>,
    pub key: Seq<char>,
    pub depth: int,
    pub sort_order: int,
}

impl View for Textbook {
    type V = NodeV;

    open spec fn view(&self) -> NodeV {
        NodeV {
            id: self.id as int,
            path_type: self.path_type@,
            parent_id: match self.parent_id {
                Option::None => Option::None,
                Option::Some(p) => Option::Some(p as int),
            },
            label: self.label@,
            key: self.key@,
            depth: self.path_depth as int,
            sort_order: self.sort_order as int,
        }
    }
}

impl Textbook {
    /// A fresh row holding the same values.
    pub fn duplicate(&self) -> (r: Textbook)
        ensures
            r@ == self@,
    {
        Textbook {
            id: self.id,
            path_type: self.path_type.clone(),
            parent_id: self.parent_id,
            label: self.label.clone(),
            key: self.key.clone(),
            path_depth: self.path_depth,
            sort_order: self.sort_order,
        }
    }
}

/// Some stored node carries this identifier.
pub open spec fn has_node(s: Seq<NodeV>, id: int) -> bool {
    exists|i: int| 0 <= i < s.len() && s[i].id == id
}

/// The stored node with this identifier (meaningful when the identifiers
/// of `s` are unique and `has_node(s, id)` holds).
pub open spec fn node_of(s: Seq<NodeV>, id: int) -> NodeV {
    s[choose|i: int| 0 <= i < s.len() && s[i].id == id]
}

/// The `k`-th ancestor of `id`, following `parent_id` upward; `None` once
/// the walk leaves the store or passes a root.
pub open spec fn anc(s: Seq<NodeV>, id: int, k: nat) -> Option<int>
    decreases k,
{
    if k == 0 {
        Option::Some(id)
    } else if !has_node(s, id) {
        Option::None
    } else {
        match node_of(s, id).parent_id {
            Option::None => Option::None,
            Option::Some(p) => anc(s, p, (k - 1) as nat),
        }
    }
}

/// `a` is a strict ancestor of `id`: the upward walk from `id` meets `a`
/// after at least one step. Equivalently, `id` lies in the subtree below `a`.
pub open spec fn reaches(s: Seq<NodeV>, id: int, a: int) -> bool {
    exists|k: nat| k >= 1 && anc(s, id, k) == Option::Some(a)
}

/// No two stored nodes share an identifier.
pub open spec fn ids_unique(s: Seq<NodeV>) -> bool {
    forall|i: int, j: int|
        0 <= i < s.len() && 0 <= j < s.len() && i != j ==> s[i].id != s[j].id
}

/// Every identifier is positive and below the next one to be assigned.
pub open spec fn ids_below(s: Seq<NodeV>, next_id: int) -> bool {
    forall|i: int| 0 <= i < s.len() ==> 0 < #[trigger] s[i].id < next_id
}

/// Depth is consistent with the parent chain: roots have depth 1, every
/// other node sits one level below its parent, and the parent is stored.
pub open spec fn depth_consistent(s: Seq<NodeV>) -> bool {
    forall|i: int|
        0 <= i < s.len() ==> match #[trigger] s[i].parent_id {
            Option::None => s[i].depth == 1,
            Option::Some(p) => has_node(s, p) && s[i].depth == node_of(s, p).depth + 1,
        }
}

/// Every depth stays within the store's hard limit.
pub open spec fn depth_bounded(s: Seq<NodeV>) -> bool {
    forall|i: int| 0 <= i < s.len() ==> 1 <= #[trigger] s[i].depth <= DEPTH_LIMIT as int
}

/// At most one node exists for each `(parent_id, label)` pair.
pub open spec fn siblings_unique(s: Seq<NodeV>) -> bool {
    forall|i: int, j: int|
        0 <= i < s.len() && 0 <= j < s.len() && i != j ==> !(s[i].parent_id
            == s[j].parent_id && s[i].label == s[j].label)
}

/// The maintained invariant of the node store.
pub open spec fn wf(s: Seq<NodeV>, next_id: int) -> bool {
    &&& ids_unique(s)
    &&& ids_below(s, next_id)
    &&& 1 <= next_id <= i32::MAX as int
    &&& depth_consistent(s)
    &&& depth_bounded(s)
    &&& siblings_unique(s)
}

/// Under unique identifiers, the node found at an index is the node of
/// its identifier.
pub proof fn lemma_node_at_index(s: Seq<NodeV>, i: int)
    requires
        ids_unique(s),
        0 <= i < s.len(),
    ensures
        has_node(s, s[i].id),
        node_of(s, s[i].id) == s[i],
{
    assert(has_node(s, s[i].id));
    let j = choose|j: int| 0 <= j < s.len() && s[j].id == s[i].id;
    assert(j == i);
}

/// Walking one parent edge extends the upward walk by one step.
pub proof fn lemma_anc_step(s: Seq<NodeV>, id: int, p: int, k: nat)
    requires
        has_node(s, id),
        node_of(s, id).parent_id == Option::Some(p),
    ensures
        anc(s, id, k + 1) == anc(s, p, k),
{
}

/// Under a consistent store, the `k`-th ancestor of a stored node is
/// stored and sits exactly `k` levels above it.
pub proof fn lemma_anc_depth(s: Seq<NodeV>, id: int, k: nat, a: int)
    requires
        ids_unique(s),
        depth_consistent(s),
        has_node(s, id),
        anc(s, id, k) == Option::Some(a),
    ensures
        has_node(s, a),
        node_of(s, a).depth == node_of(s, id).depth - k,
    decreases k,
{
    if k == 0 {
    } else {
        let n = node_of(s, id);
        let i = choose|i: int| 0 <= i < s.len() && s[i].id == id;
        assert(s[i] == n) by {
            lemma_node_at_index(s, i);
        }
        match n.parent_id {
            Option::None => {
                assert(anc(s, id, k) is None);
            },
            Option::Some(p) => {
                assert(anc(s, p, (k - 1) as nat) == Option::Some(a));
                assert(has_node(s, p) && node_of(s, p).depth == n.depth - 1);
                lemma_anc_depth(s, p, (k - 1) as nat, a);
            },
        }
    }
}

/// The upward walk composes: continuing for `m` steps from the `j`-th
/// ancestor gives the `j + m`-th ancestor.
pub proof fn lemma_anc_add(s: Seq<NodeV>, id: int, j: nat, m: nat, mid: int)
    requires
        anc(s, id, j) == Option::Some(mid),
    ensures
        anc(s, id, (j + m) as nat) == anc(s, mid, m),
    decreases j,
{
    if j == 0 {
    } else {
        match node_of(s, id).parent_id {
            Option::None => {
                assert(anc(s, id, j) is None);
            },
            Option::Some(p) => {
                lemma_anc_add(s, p, (j - 1) as nat, m, mid);
            },
        }
    }
}

/// The index of the stored node carrying an identifier.
pub open spec fn idx_of(s: Seq<NodeV>, id: int) -> int {
    choose|i: int| 0 <= i < s.len() && s[i].id == id
}

/// No stored node is its own strict ancestor: following `parent_id`
/// upward never returns to the node it started from.
pub proof fn lemma_no_cycle(s: Seq<NodeV>, id: int)
    requires
        ids_unique(s),
        depth_consistent(s),
        has_node(s, id),
    ensures
        !reaches(s, id, id),
{
    if reaches(s, id, id) {
        let k = choose|k: nat| k >= 1 && anc(s, id, k) == Option::Some(id);
        lemma_anc_depth(s, id, k, id);
    }
}

/// A node whose parent edge exists reaches everything its parent reaches,
/// and reaches the parent itself.
pub proof fn lemma_child_reaches(s: Seq<NodeV>, c: int, p: int, a: int)
    requires
        has_node(s, c),
        node_of(s, c).parent_id == Option::Some(p),
    ensures
        p == a ==> reaches(s, c, a),
        reaches(s, p, a) ==> reaches(s, c, a),
{
    if p == a {
        assert(anc(s, p, 0nat) == Option::Some(p));
        assert(anc(s, c, 1nat) == Option::Some(p));
    }
    if reaches(s, p, a) {
        let k = choose|k: nat| k >= 1 && anc(s, p, k) == Option::Some(a);
        assert(anc(s, c, (k + 1) as nat) == Option::Some(a));
    }
}

/// A strict descendant of `t` has a stored parent, and that parent is `t`
/// itself or again a strict descendant of `t`.
pub proof fn lemma_parent_of_descendant(s: Seq<NodeV>, d: int, t: int)
    requires
        ids_unique(s),
        depth_consistent(s),
        has_node(s, d),
        reaches(s, d, t),
    ensures
        node_of(s, d).parent_id is Some,
        match node_of(s, d).parent_id {
            Option::Some(p) => p == t || (has_node(s, p) && reaches(s, p, t)),
            Option::None => false,
        },
{
    let k = choose|k: nat| k >= 1 && anc(s, d, k) == Option::Some(t);
    match node_of(s, d).parent_id {
        Option::None => {
            assert(anc(s, d, k) is None);
        },
        Option::Some(p) => {
            let i = choose|i: int| 0 <= i < s.len() && s[i].id == d;
            lemma_node_at_index(s, i);
            assert(has_node(s, p));
            if k == 1 {
                assert(anc(s, d, 1nat) == Option::Some(p));
            } else {
                assert(anc(s, d, k) == anc(s, p, (k - 1) as nat));
                assert(reaches(s, p, t));
            }
        },
    }
}

/// Removing a node that has no children preserves the store invariant:
/// nobody's parent pointer can dangle and no depth changes.
#[verifier::rlimit(50)]
pub proof fn lemma_remove_leaf_wf(s: Seq<NodeV>, next_id: int, i: int)
    requires
        wf(s, next_id),
        0 <= i < s.len(),
        forall|j: int| 0 <= j < s.len() ==> #[trigger] s[j].parent_id != Option::Some(s[i].id),
    ensures
        wf(s.remove(i), next_id),
{
    let t = s.remove(i);
    assert forall|a: int| 0 <= a < t.len() implies #[trigger] t[a] == (if a < i {
        s[a]
    } else {
        s[a + 1]
    }) by {}
    assert(ids_unique(t) && siblings_unique(t)) by {
        assert forall|a: int, b: int|
            0 <= a < t.len() && 0 <= b < t.len() && a != b implies t[a].id != t[b].id && !(
        t[a].parent_id == t[b].parent_id && t[a].label == t[b].label) by {
            let x: int = if a < i {
                a
            } else {
                a + 1
            };
            let y: int = if b < i {
                b
            } else {
                b + 1
            };
            assert(t[a] == s[x] && t[b] == s[y] && x != y);
        }
    }
    assert(ids_below(t, next_id) && depth_bounded(t)) by {
        assert forall|a: int|
            0 <= a < t.len() implies 0 < #[trigger] t[a].id < next_id && 1 <= t[a].depth
            <= DEPTH_LIMIT as int by {
            let x: int = if a < i {
                a
            } else {
                a + 1
            };
            assert(t[a] == s[x]);
        }
    }
    assert forall|a: int| 0 <= a < t.len() implies match #[trigger] t[a].parent_id {
        Option::None => t[a].depth == 1,
        Option::Some(p) => has_node(t, p) && t[a].depth == node_of(t, p).depth + 1,
    } by {
        let x: int = if a < i {
            a
        } else {
            a + 1
        };
        assert(t[a] == s[x]);
        match s[x].parent_id {
            Option::None => {},
            Option::Some(p) => {
                assert(p != s[i].id);
                let k = choose|k: int| 0 <= k < s.len() && s[k].id == p;
                assert(k != i);
                let k2: int = if k < i {
                    k
                } else {
                    k - 1
                };
                assert(t[k2] == s[k]);
                assert(has_node(t, p));
                lemma_node_at_index(s, k);
                lemma_node_at_index(t, k2);
                assert(node_of(t, p) == s[k]);
            },
        }
    }
}

} // verus!
