//! Ranking: measurements put in order from the slowest to the fastest.

use crate::measure::Product;
use crate::figures::slowest_first;
use vstd::prelude::*;

verus! {

/// `after` holds the items of `before`, each exactly once: the item at `i`
/// of `after` is the one that stood at `from[i]` in `before`.
pub open spec fn carried(before: Seq<Product>, after: Seq<Product>, from: Seq<int>) -> bool {
    &&& from.len() == after.len()
    &&& before.len() == after.len()
    &&& forall|i: int|
        0 <= i < after.len() ==> 0 <= #[trigger] from[i] < before.len() && after[i]
            == before[from[i]]
    &&& forall|i: int, j: int|
        0 <= i < j < after.len() ==> #[trigger] from[i] != #[trigger] from[j]
}

/// Items with the same time stand in `after` in the order they came from.
pub open spec fn in_turn(after: Seq<Product>, from: Seq<int>) -> bool {
    forall|i: int, j: int|
        0 <= i < j < after.len() && after[i].time == after[j].time ==> #[trigger] from[i]
            < #[trigger] from[j]
}

/// `after` is `before` in another order, in which measurements that took
/// equally long have kept their order.
pub open spec fn stable_rearrangement(before: Seq<Product>, after: Seq<Product>) -> bool {
    exists|from: Seq<int>| carried(before, after, from) && in_turn(after, from)
}

/// `after` is the ranking of `before`: the same measurements, the slowest
/// first, ties in their first order.
pub open spec fn ranking(before: Seq<Product>, after: Seq<Product>) -> bool {
    slowest_first(after) && stable_rearrangement(before, after)
}

/// `sort_by_key` of std on the vector, with the time in `std::cmp::Reverse`
/// as the key. std documents the sort as stable and as ordering by the key;
/// `Reverse` turns the order of the times round. So the vector holds the
/// same measurements afterwards, no slower one after a faster one, and
/// equal times in the order they had.
#[verifier::external_body]
fn sort_slowest_first(products: &mut Vec<Product>)
    ensures
        ranking(old(products)@, final(products)@),
{
    products.sort_by_key(|product| std::cmp::Reverse(product.time));
}

/// Ranks the measurements from the slowest to the fastest.
pub fn rank(products: Vec<Product>) -> (ranked: Vec<Product>)
    ensures
        ranking(products@, ranked@),
{
    let mut ranked: Vec<Product> = products;
    sort_slowest_first(&mut ranked);
    ranked
}

} // verus!
