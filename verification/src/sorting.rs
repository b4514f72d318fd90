//! Ordering the aggregate: newest first, undated items last.

use vstd::multiset::Multiset;
use vstd::prelude::*;

use crate::item::FeedItem;

verus! {

broadcast use vstd::seq_lib::group_to_multiset_ensures;

/// Sort key: the publish time, with absent times below every present one.
pub open spec fn rank(it: FeedItem) -> int {
    match it.published {
        Some(n) => n as int,
        None => -1,
    }
}

/// Newest first; items without a publish time at the end.
pub open spec fn sorted_by_published_desc(s: Seq<FeedItem>) -> bool {
    forall|i: int, j: int|
        0 <= i < j < s.len() ==> rank(#[trigger] s[i]) >= rank(#[trigger] s[j])
}

fn published_ge(a: &FeedItem, b: &FeedItem) -> (r: bool)
    ensures
        r == (rank(*a) >= rank(*b)),
{
    match (a.published, b.published) {
        (Some(x), Some(y)) => x >= y,
        (Some(_), None) => true,
        (None, Some(_)) => false,
        (None, None) => true,
    }
}

/// Sorts the aggregate by publish time, newest first, undated items last.
/// The result holds exactly the input's items.
pub fn sort_items_by_published_desc(items: Vec<FeedItem>) -> (r: Vec<FeedItem>)
    ensures
        sorted_by_published_desc(r@),
        r@.to_multiset() == items@.to_multiset(),
{
    let mut rest = items;
    let mut out: Vec<FeedItem> = Vec::new();
    let ghost all = rest@.to_multiset();
    while rest.len() > 0
        invariant
            sorted_by_published_desc(out@),
            out@.to_multiset().add(rest@.to_multiset()) =~= all,
            forall|i: int, j: int|
                0 <= i < out@.len() && 0 <= j < rest@.len() ==> rank(#[trigger] out@[i]) >= rank(
                    #[trigger] rest@[j],
                ),
        decreases rest.len(),
    {
        let ghost rest0 = rest@;
        let ghost out0 = out@;
        let mut m: usize = 0;
        let mut k: usize = 1;
        while k < rest.len()
            invariant
                rest@ == rest0,
                rest@.len() > 0,
                m < k <= rest@.len(),
                forall|j: int| 0 <= j < k ==> rank(rest@[m as int]) >= rank(#[trigger] rest@[j]),
            decreases rest.len() - k,
        {
            if published_ge(&rest[k], &rest[m]) {
                m = k;
            }
            k += 1;
        }
        let it = rest.remove(m);
        out.push(it);
        proof {
            assert(rest@.to_multiset() =~= rest0.to_multiset().remove(rest0[m as int]));
            assert(out@.to_multiset() =~= out0.to_multiset().insert(rest0[m as int]));
            assert(out@.to_multiset().add(rest@.to_multiset()) =~= all);
            assert forall|i: int, j: int|
                0 <= i < j < out@.len() implies rank(#[trigger] out@[i]) >= rank(
                #[trigger] out@[j],
            ) by {
                if j < out0.len() {
                    assert(out@[i] == out0[i]);
                    assert(out@[j] == out0[j]);
                } else {
                    assert(out@[j] == rest0[m as int]);
                    assert(out@[i] == out0[i]);
                }
            }
            assert forall|i: int, j: int|
                0 <= i < out@.len() && 0 <= j < rest@.len() implies rank(#[trigger] out@[i])
                >= rank(#[trigger] rest@[j]) by {
                if j < m {
                    assert(rest@[j] == rest0[j]);
                } else {
                    assert(rest@[j] == rest0[j + 1]);
                }
                if i < out0.len() {
                    assert(out@[i] == out0[i]);
                } else {
                    assert(out@[i] == rest0[m as int]);
                }
            }
        }
    }
    proof {
        assert(rest@.to_multiset() =~= Multiset::<FeedItem>::empty());
        assert(out@.to_multiset() =~= all);
    }
    out
}

} // verus!
