//! The data-parallel steps of the harness, done by rayon: each function here
//! hands a slice or a range out to rayon's worker threads and gathers the
//! answers. What rayon does is taken on trust and stated over the contract
//! of the function that the caller passes in.

use rayon::iter::{IntoParallelIterator, IntoParallelRefIterator, ParallelIterator};
use vstd::prelude::*;

verus! {

/// The items at which `mask` holds, in their order.
pub open spec fn kept(items: Seq<usize>, mask: Seq<bool>) -> Seq<usize>
    decreases items.len(),
{
    if items.len() == 0 || mask.len() != items.len() {
        Seq::empty()
    } else if mask.last() {
        kept(items.drop_last(), mask.drop_last()).push(items.last())
    } else {
        kept(items.drop_last(), mask.drop_last())
    }
}

/// `mask` holds an answer that `keep` may give for each of the items.
pub open spec fn answers<F: Fn(&usize) -> bool>(items: Seq<usize>, keep: F, mask: Seq<bool>)
    -> bool {
    &&& mask.len() == items.len()
    &&& forall|i: int| 0 <= i < items.len() ==> call_ensures(keep, (&items[i],), #[trigger] mask[i])
}

/// `out` holds, in their order, the items for which `keep` answered yes.
pub open spec fn filtered_by<F: Fn(&usize) -> bool>(items: Seq<usize>, keep: F, out: Seq<usize>)
    -> bool {
    exists|mask: Seq<bool>| answers(items, keep, mask) && out == kept(items, mask)
}

/// rayon's `par_iter`, `filter`, `copied` and `collect` on a slice. `filter`
/// calls `keep` once on every item and lets those through for which it
/// returns true; `collect` into a `Vec` puts what comes through in the order
/// of the slice.
#[verifier::external_body]
pub(crate) fn par_filter<F: Fn(&usize) -> bool + Sync + Send>(items: &[usize], keep: F) -> (out: Vec<
    usize,
>)
    requires
        forall|i: int| 0 <= i < items.len() ==> call_requires(keep, (&#[trigger] items[i],)),
    ensures
        filtered_by(items@, keep, out@),
{
    items.par_iter().filter(|item| keep(*item)).copied().collect()
}

/// The parts one after the other.
pub open spec fn joined(parts: Seq<Vec<usize>>) -> Seq<usize>
    decreases parts.len(),
{
    if parts.len() == 0 {
        Seq::empty()
    } else {
        joined(parts.drop_last()) + parts.last()@
    }
}

/// `parts` holds something that `expand` may return for each of the items.
pub open spec fn expansions<F: Fn(&usize) -> Vec<usize>>(
    items: Seq<usize>,
    expand: F,
    parts: Seq<Vec<usize>>,
) -> bool {
    &&& parts.len() == items.len()
    &&& forall|i: int|
        0 <= i < items.len() ==> call_ensures(expand, (&items[i],), #[trigger] parts[i])
}

/// `out` holds, one after the other, what `expand` returned for each item.
pub open spec fn flat_mapped_by<F: Fn(&usize) -> Vec<usize>>(
    items: Seq<usize>,
    expand: F,
    out: Seq<usize>,
) -> bool {
    exists|parts: Seq<Vec<usize>>| expansions(items, expand, parts) && out == joined(parts)
}

/// rayon's `par_iter`, `flat_map_iter` and `collect` on a slice.
/// `flat_map_iter` calls `expand` once on every item and yields what each
/// call returned, item after item; `collect` into a `Vec` keeps the order of
/// the slice.
#[verifier::external_body]
pub(crate) fn par_flat_map<F: Fn(&usize) -> Vec<usize> + Sync + Send>(items: &[usize], expand: F) -> (out:
    Vec<usize>)
    requires
        forall|i: int| 0 <= i < items.len() ==> call_requires(expand, (&#[trigger] items[i],)),
    ensures
        flat_mapped_by(items@, expand, out@),
{
    items.par_iter().flat_map_iter(expand).collect()
}

/// `found` is an item for which `wanted` answered yes; when there is none,
/// `wanted` answered no for every item.
pub open spec fn found_by<F: Fn(&usize) -> bool>(items: Seq<usize>, wanted: F, found: Option<usize>)
    -> bool {
    match found {
        Some(item) => exists|i: int|
            0 <= i < items.len() && #[trigger] items[i] == item && call_ensures(
                wanted,
                (&items[i],),
                true,
            ),
        None => forall|i: int|
            0 <= i < items.len() ==> call_ensures(wanted, (&#[trigger] items[i],), false),
    }
}

/// rayon's `par_iter` and `find_any` on a slice. `find_any` returns some
/// item for which `wanted` returned true, not always the first one, and
/// `None` only after `wanted` has returned false for every item.
#[verifier::external_body]
pub(crate) fn par_find_any<F: Fn(&usize) -> bool + Sync + Send>(items: &[usize], wanted: F) -> (found:
    Option<usize>)
    requires
        forall|i: int| 0 <= i < items.len() ==> call_requires(wanted, (&#[trigger] items[i],)),
    ensures
        found_by(items@, wanted, found),
{
    items.par_iter().find_any(|item| wanted(*item)).copied()
}

/// `out` holds, at each place, what `f` returned for the item at that place.
pub open spec fn mapped_by<T, U, F: Fn(&T) -> U>(items: Seq<T>, f: F, out: Seq<U>) -> bool {
    &&& out.len() == items.len()
    &&& forall|i: int| 0 <= i < items.len() ==> call_ensures(f, (&items[i],), #[trigger] out[i])
}

/// rayon's `par_iter`, `map` and `collect` on a slice. `map` calls `f` once
/// on every item; `collect` into a `Vec` puts the results in the order of
/// the slice.
#[verifier::external_body]
pub(crate) fn par_map<T: Sync, U: Send, F: Fn(&T) -> U + Sync + Send>(items: &[T], f: F) -> (out: Vec<U>)
    requires
        forall|i: int| 0 <= i < items.len() ==> call_requires(f, (&#[trigger] items[i],)),
    ensures
        mapped_by(items@, f, out@),
{
    items.par_iter().map(f).collect()
}

/// `out` holds, at each place below `count`, what `f` returned for the
/// number of that place.
pub open spec fn tabulated_by<F: Fn(u16) -> usize>(count: u16, f: F, out: Seq<usize>) -> bool {
    &&& out.len() == count
    &&& forall|i: u16| 0 <= i < count ==> call_ensures(f, (i,), #[trigger] out[i as int])
}

/// rayon's `into_par_iter`, `map` and `collect` on the range from 0 up to
/// `count`. `map` calls `f` once on every number of the range; `collect`
/// into a `Vec` puts the results in the order of the range.
#[verifier::external_body]
pub(crate) fn par_tabulate<F: Fn(u16) -> usize + Sync + Send>(count: u16, f: F) -> (out: Vec<usize>)
    requires
        forall|i: u16| 0 <= i < count ==> call_requires(f, (i,)),
    ensures
        tabulated_by(count, f, out@),
{
    (0..count).into_par_iter().map(f).collect()
}

/// A mask that agrees with a predicate keeps what the predicate keeps.
pub proof fn kept_is_filter(items: Seq<usize>, mask: Seq<bool>, pred: spec_fn(usize) -> bool)
    requires
        mask.len() == items.len(),
        forall|i: int| 0 <= i < items.len() ==> #[trigger] mask[i] == pred(items[i]),
    ensures
        kept(items, mask) == items.filter(pred),
    decreases items.len(),
{
    reveal(Seq::filter);
    if items.len() > 0 {
        kept_is_filter(items.drop_last(), mask.drop_last(), pred);
    }
}

/// The items that meet `pred`, picked out in parallel by a function that
/// decides as `pred` does.
pub(crate) fn select<F: Fn(&usize) -> bool + Sync + Send>(
    items: &[usize],
    keep: F,
    Ghost(pred): Ghost<spec_fn(usize) -> bool>,
) -> (out: Vec<usize>)
    requires
        forall|x: &usize| call_requires(keep, (x,)),
        forall|x: &usize, b: bool| call_ensures(keep, (x,), b) ==> b == pred(*x),
    ensures
        out@ == items@.filter(pred),
{
    let out = par_filter(items, keep);
    proof {
        let mask = choose|mask: Seq<bool>| answers(items@, keep, mask) && out@ == kept(items@, mask);
        assert forall|i: int| 0 <= i < items.len() implies #[trigger] mask[i] == pred(
            items@[i],
        ) by {
            assert(call_ensures(keep, (&items@[i],), mask[i]));
        }
        kept_is_filter(items@, mask, pred);
    }
    out
}

} // verus!
