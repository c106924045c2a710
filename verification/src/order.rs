//! Ordering of listed rows: depth-bounded and subtree listings hand their
//! rows out sorted by depth and then by the sibling ordering key.

use vstd::prelude::*;

use crate::node::{NodeV, Textbook};
use crate::store::views_of;

verus! {

/// `a` may stand before `b` in a listing: lower depth first, then lower
/// sibling ordering key.
pub open spec fn level_le(a: NodeV, b: NodeV) -> bool {
    a.depth < b.depth || (a.depth == b.depth && a.sort_order <= b.sort_order)
}

/// `x` placed before the first element it may stand before.
pub open spec fn spec_insert_sorted(s: Seq<NodeV>, x: NodeV) -> Seq<NodeV>
    decreases s.len(),
{
    if s.len() == 0 {
        seq![x]
    } else if level_le(x, s[0]) {
        seq![x] + s
    } else {
        seq![s[0]] + spec_insert_sorted(s.drop_first(), x)
    }
}

/// The rows in listing order: each element inserted in turn.
pub open spec fn spec_level_sort(s: Seq<NodeV>) -> Seq<NodeV>
    decreases s.len(),
{
    if s.len() == 0 {
        Seq::empty()
    } else {
        spec_insert_sorted(spec_level_sort(s.drop_last()), s.last())
    }
}

/// Inserting at the first position whose element `x` may precede yields
/// the same sequence as [`spec_insert_sorted`].
proof fn lemma_insert_at(s: Seq<NodeV>, x: NodeV, idx: int)
    requires
        0 <= idx <= s.len(),
        forall|j: int| 0 <= j < idx ==> !level_le(x, #[trigger] s[j]),
        idx < s.len() ==> level_le(x, s[idx]),
    ensures
        spec_insert_sorted(s, x) =~= s.take(idx) + seq![x] + s.skip(idx),
    decreases idx,
{
    if s.len() == 0 {
    } else if idx == 0 {
    } else {
        lemma_insert_at(s.drop_first(), x, idx - 1);
        assert(s.drop_first().take(idx - 1) =~= s.take(idx).drop_first());
        assert(s.drop_first().skip(idx - 1) =~= s.skip(idx));
        assert(seq![s[0]] + (s.drop_first().take(idx - 1) + seq![x] + s.drop_first().skip(idx - 1))
            =~= s.take(idx) + seq![x] + s.skip(idx));
    }
}

/// Insert a row at its listing position.
fn insert_sorted(out: &mut Vec<Textbook>, row: Textbook)
    ensures
        views_of(final(out)@) == spec_insert_sorted(views_of(old(out)@), row@),
{
    let ghost s = views_of(out@);
    let n = out.len();
    let mut idx: usize = 0;
    while idx < n && !comes_before(&row, &out[idx])
        invariant
            n == out.len(),
            s == views_of(out@),
            idx <= n,
            forall|j: int| 0 <= j < idx ==> !level_le(row@, #[trigger] s[j]),
        decreases n - idx,
    {
        idx = idx + 1;
    }
    proof {
        lemma_insert_at(s, row@, idx as int);
    }
    out.insert(idx, row);
    proof {
        assert(views_of(out@) =~= s.take(idx as int) + seq![row@] + s.skip(idx as int));
    }
}

/// Sort rows into listing order.
pub fn sort_rows(rows: Vec<Textbook>) -> (r: Vec<Textbook>)
    ensures
        views_of(r@) == spec_level_sort(views_of(rows@)),
{
    let mut out: Vec<Textbook> = Vec::new();
    let n = rows.len();
    proof {
        assert(views_of(out@) =~= Seq::<NodeV>::empty());
        assert(views_of(rows@).take(0) =~= Seq::<NodeV>::empty());
        lemma_sort_take_zero();
    }
    for i in 0..n
        invariant
            n == rows.len(),
            views_of(out@) == spec_level_sort(views_of(rows@).take(i as int)),
        decreases n - i,
    {
        proof {
            views_of(rows@).lemma_take_succ_push(i as int);
            lemma_sort_push(views_of(rows@).take(i as int), views_of(rows@)[i as int]);
        }
        insert_sorted(&mut out, rows[i].duplicate());
    }
    proof {
        assert(views_of(rows@).take(n as int) =~= views_of(rows@));
    }
    out
}

/// Sorting an empty sequence yields the empty sequence.
proof fn lemma_sort_take_zero()
    ensures
        spec_level_sort(Seq::<NodeV>::empty()) == Seq::<NodeV>::empty(),
{
}

/// Sorting after appending one element inserts that element into the
/// sorted rest.
proof fn lemma_sort_push(s: Seq<NodeV>, x: NodeV)
    ensures
        spec_level_sort(s.push(x)) == spec_insert_sorted(spec_level_sort(s), x),
{
    assert(s.push(x).drop_last() =~= s);
    assert(s.push(x).last() == x);
}

/// Whether `a` stands before `b` in listing order.
fn comes_before(a: &Textbook, b: &Textbook) -> (r: bool)
    ensures
        r == level_le(a@, b@),
{
    a.path_depth < b.path_depth || (a.path_depth == b.path_depth && a.sort_order <= b.sort_order)
}

} // verus!
