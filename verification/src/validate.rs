//! The check that the strategies agree.

use crate::measure::Product;
use crate::strategy::hash_set_of;
use std::collections::HashSet;
use vstd::prelude::*;
use vstd::string::*;

verus! {

/// How two results are held against one another.
#[derive(Clone, Copy, Debug, PartialEq, Eq, Structural)]
pub enum Comparison {
    /// As sets: neither the order of the elements counts nor how often one
    /// is emitted.
    AsSets,
    /// Element by element.
    Exactly,
}

/// Two results are the same under the comparison.
pub open spec fn alike(mode: Comparison, first: Seq<usize>, second: Seq<usize>) -> bool {
    match mode {
        Comparison::AsSets => first.to_set() == second.to_set(),
        Comparison::Exactly => first == second,
    }
}

/// Any two of the measurements hold the same result under the comparison.
pub open spec fn agree(mode: Comparison, measurements: Seq<Product>) -> bool {
    forall|i: int, j: int|
        0 <= i < measurements.len() && 0 <= j < measurements.len() ==> alike(
            mode,
            (#[trigger] measurements[i]).result@,
            (#[trigger] measurements[j]).result@,
        )
}

/// Whether every one of `items` is in `set`.
fn all_within(items: &[usize], set: &HashSet<usize>) -> (all: bool)
    ensures
        all == forall|i: int| 0 <= i < items.len() ==> set@.contains(#[trigger] items[i]),
{
    broadcast use vstd::std_specs::hash::group_hash_axioms;

    let mut i: usize = 0;
    while i < items.len()
        invariant
            i <= items.len(),
            forall|k: int| 0 <= k < i ==> set@.contains(#[trigger] items[k]),
        decreases items.len() - i,
    {
        if !set.contains(&items[i]) {
            return false;
        }
        i += 1;
    }
    true
}

/// Whether two results hold the same elements.
pub fn same_set(first: &[usize], second: &[usize]) -> (same: bool)
    ensures
        same == (first@.to_set() == second@.to_set()),
{
    let in_first = hash_set_of(first);
    let in_second = hash_set_of(second);
    let same: bool = all_within(first, &in_second) && all_within(second, &in_first);
    proof {
        if same {
            assert forall|x: usize| first@.contains(x) <==> second@.contains(x) by {
                if first@.contains(x) {
                    let k = choose|k: int| 0 <= k < first@.len() && first@[k] == x;
                    assert(in_second@.contains(first@[k]));
                }
                if second@.contains(x) {
                    let k = choose|k: int| 0 <= k < second@.len() && second@[k] == x;
                    assert(in_first@.contains(second@[k]));
                }
            }
            assert(first@.to_set() =~= second@.to_set());
        } else {
            if !(forall|i: int| 0 <= i < first@.len() ==> in_second@.contains(#[trigger] first@[i])) {
                let k = choose|k: int| 0 <= k < first@.len() && !in_second@.contains(first@[k]);
                assert(first@.contains(first@[k]));
                assert(first@.to_set().contains(first@[k]));
            } else {
                let k = choose|k: int| 0 <= k < second@.len() && !in_first@.contains(second@[k]);
                assert(second@.contains(second@[k]));
                assert(second@.to_set().contains(second@[k]));
            }
        }
    }
    same
}

/// Whether two results hold the same elements at the same places.
pub fn same_sequence(first: &[usize], second: &[usize]) -> (same: bool)
    ensures
        same == (first@ == second@),
{
    if first.len() != second.len() {
        return false;
    }
    let mut i: usize = 0;
    while i < first.len()
        invariant
            i <= first.len(),
            first.len() == second.len(),
            forall|k: int| 0 <= k < i ==> first[k] == second[k],
        decreases first.len() - i,
    {
        if first[i] != second[i] {
            return false;
        }
        i += 1;
    }
    assert(first@ =~= second@);
    true
}

/// Whether all the measurements hold the same result under the comparison.
/// Each one is held against the one before it.
pub fn all_equal_by(mode: Comparison, measurements: &[Product]) -> (equal: bool)
    ensures
        equal == agree(mode, measurements@),
{
    let mut i: usize = 1;
    while i < measurements.len()
        invariant
            1 <= i,
            forall|k: int|
                0 <= k < i && k < measurements.len() ==> alike(
                    mode,
                    measurements[0].result@,
                    (#[trigger] measurements[k]).result@,
                ),
        decreases measurements.len() - i,
    {
        let before: &[usize] = measurements[i - 1].result.as_slice();
        let this: &[usize] = measurements[i].result.as_slice();
        let same: bool = match mode {
            Comparison::AsSets => same_set(before, this),
            Comparison::Exactly => same_sequence(before, this),
        };
        if !same {
            assert(!alike(mode, measurements[i - 1].result@, measurements[i as int].result@));
            return false;
        }
        i += 1;
    }
    true
}

/// Whether all the measurements hold the same elements. The results are
/// held against one another as sets, so that a strategy that emits an
/// element once for each pairing agrees with one that emits it once.
pub fn all_equal(measurements: &[Product]) -> (equal: bool)
    ensures
        equal == agree(Comparison::AsSets, measurements@),
{
    all_equal_by(Comparison::AsSets, measurements)
}

/// The line that closes a session: whether all the strategies agreed. A
/// disagreement is reported, it does not end the session.
pub fn verdict_line(equal: bool) -> (line: String)
    ensures
        line@ == "all values are equal: "@ + if equal {
            "true"@
        } else {
            "false"@
        },
{
    let mut line: String = "all values are equal: ".to_owned();
    if equal {
        line.append("true");
    } else {
        line.append("false");
    }
    line
}

} // verus!
