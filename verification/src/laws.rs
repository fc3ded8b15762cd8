//! What holds of every strategy, on all inputs.

use crate::measure::{jobs_of, session, successes, ClockError, Product};
use crate::rank::{carried, in_turn, ranking};
use crate::strategy::{
    common_elements, matches_of, members, pairings, roles, same_as, within, Strategy,
};
use crate::validate::{agree, alike, Comparison};
use vstd::prelude::*;

verus! {

/// An element occurs in a lengthened sequence if it occurs in the sequence
/// or is the element added.
proof fn push_contains(s: Seq<usize>, y: usize, x: usize)
    ensures
        s.push(y).contains(x) <==> s.contains(x) || x == y,
{
    if s.contains(x) {
        let k = choose|k: int| 0 <= k < s.len() && s[k] == x;
        assert(s.push(y)[k] == x);
    }
    if s.push(y).contains(x) {
        let k = choose|k: int| 0 <= k < s.push(y).len() && s.push(y)[k] == x;
        if k < s.len() {
            assert(s[k] == x);
        }
    }
    assert(s.push(y)[s.len() as int] == y);
}

/// An element occurs in two sequences put together if it occurs in one.
proof fn add_contains(a: Seq<usize>, b: Seq<usize>, x: usize)
    ensures
        (a + b).contains(x) <==> a.contains(x) || b.contains(x),
{
    if a.contains(x) {
        let k = choose|k: int| 0 <= k < a.len() && a[k] == x;
        assert((a + b)[k] == x);
    }
    if b.contains(x) {
        let k = choose|k: int| 0 <= k < b.len() && b[k] == x;
        assert((a + b)[a.len() + k] == x);
    }
    if (a + b).contains(x) {
        let k = choose|k: int| 0 <= k < (a + b).len() && (a + b)[k] == x;
        if k < a.len() {
            assert(a[k] == x);
        } else {
            assert(b[k - a.len()] == x);
        }
    }
}

/// What is left by a filter is what was there and meets the test.
pub proof fn filter_contains(s: Seq<usize>, test: spec_fn(usize) -> bool, x: usize)
    ensures
        s.filter(test).contains(x) <==> s.contains(x) && test(x),
    decreases s.len(),
{
    reveal(Seq::filter);
    if s.len() > 0 {
        let rest = s.drop_last();
        filter_contains(rest, test, x);
        assert(s =~= rest.push(s.last()));
        push_contains(rest, s.last(), x);
        if test(s.last()) {
            push_contains(rest.filter(test), s.last(), x);
        }
    }
}

/// The nested scan emits a value if and only if it occurs on both sides.
pub proof fn pairings_contains(big: Seq<usize>, small: Seq<usize>, x: usize)
    ensures
        pairings(big, small).contains(x) <==> big.contains(x) && small.contains(x),
    decreases big.len(),
{
    if big.len() > 0 {
        let rest = big.drop_last();
        pairings_contains(rest, small, x);
        assert(big =~= rest.push(big.last()));
        push_contains(rest, big.last(), x);
        add_contains(pairings(rest, small), matches_of(small, big.last()), x);
        filter_contains(small, same_as(big.last()), x);
    }
}

/// Whatever the strategy, the elements that it emits are, as a set, the
/// elements that occur in both collections.
pub proof fn emits_the_intersection(strategy: Strategy, big: Seq<usize>, small: Seq<usize>)
    ensures
        strategy.emitted(big, small).to_set() == common_elements(big, small),
{
    let out = strategy.emitted(big, small);
    assert forall|x: usize| out.contains(x) <==> big.contains(x) && small.contains(x) by {
        if strategy == Strategy::Squared {
            pairings_contains(big, small, x);
        } else {
            filter_contains(big, within(small), x);
        }
    }
    assert(out.to_set() =~= common_elements(big, small));
}

/// A strategy that is run again on the same inputs emits the same elements:
/// two results that both are what the strategy emits for `big` and `small`
/// are the same sequence, and so the same set.
pub proof fn rerun_emits_the_same(
    strategy: Strategy,
    big: Seq<usize>,
    small: Seq<usize>,
    first: Seq<usize>,
    second: Seq<usize>,
)
    requires
        first == strategy.emitted(big, small),
        second == strategy.emitted(big, small),
    ensures
        first == second,
        first.to_set() == second.to_set(),
{
}

/// A sequence whose set is empty is empty.
proof fn empty_set_empty_seq(s: Seq<usize>)
    requires
        s.to_set() == Set::<usize>::empty(),
    ensures
        s == Seq::<usize>::empty(),
{
    if s.len() > 0 {
        assert(s.contains(s[0]));
        assert(s.to_set().contains(s[0]));
    }
    assert(s =~= Seq::<usize>::empty());
}

/// If either collection is empty, every strategy emits nothing.
pub proof fn empty_input_empty_result(strategy: Strategy, big: Seq<usize>, small: Seq<usize>)
    requires
        big.len() == 0 || small.len() == 0,
    ensures
        strategy.emitted(big, small) == Seq::<usize>::empty(),
{
    emits_the_intersection(strategy, big, small);
    assert(common_elements(big, small) =~= Set::<usize>::empty());
    empty_set_empty_seq(strategy.emitted(big, small));
}

/// If the collections share no element, every strategy emits nothing.
pub proof fn disjoint_inputs_empty_result(strategy: Strategy, big: Seq<usize>, small: Seq<usize>)
    requires
        forall|x: usize| !(big.contains(x) && small.contains(x)),
    ensures
        strategy.emitted(big, small) == Seq::<usize>::empty(),
{
    emits_the_intersection(strategy, big, small);
    assert(common_elements(big, small) =~= Set::<usize>::empty());
    empty_set_empty_seq(strategy.emitted(big, small));
}

/// If every element of `inner` occurs in `outer`, every strategy emits, as
/// a set, the elements of `inner`, whichever of the two it walks. If
/// `inner` holds no element twice, it is the smaller collection of the two.
pub proof fn contained_input_is_the_result(
    strategy: Strategy,
    inner: Seq<usize>,
    outer: Seq<usize>,
)
    requires
        forall|x: usize| inner.contains(x) ==> outer.contains(x),
    ensures
        strategy.emitted(inner, outer).to_set() == inner.to_set(),
        strategy.emitted(outer, inner).to_set() == inner.to_set(),
        inner.no_duplicates() ==> inner.len() <= outer.len(),
{
    emits_the_intersection(strategy, inner, outer);
    emits_the_intersection(strategy, outer, inner);
    assert(common_elements(inner, outer) =~= inner.to_set());
    assert(common_elements(outer, inner) =~= inner.to_set());
    if inner.no_duplicates() {
        inner.unique_seq_to_set();
        outer.lemma_cardinality_of_set();
        vstd::seq_lib::seq_to_set_is_finite(outer);
        assert(inner.to_set().subset_of(outer.to_set()));
        vstd::set_lib::lemma_len_subset(inner.to_set(), outer.to_set());
    }
}

/// How often `x` stands in `s`.
pub open spec fn count_of(s: Seq<usize>, x: usize) -> nat {
    matches_of(s, x).len()
}

/// Among elements that all equal `y`, `x` stands as often as there are
/// elements if it is `y`, and not at all if it is not.
proof fn count_among_matches(small: Seq<usize>, y: usize, x: usize)
    ensures
        count_of(matches_of(small, y), x) == if x == y {
            count_of(small, y)
        } else {
            0
        },
    decreases small.len(),
{
    reveal(Seq::filter);
    if small.len() > 0 {
        count_among_matches(small.drop_last(), y, x);
        if small.last() == y {
            let fewer = matches_of(small.drop_last(), y);
            assert(fewer.push(y).drop_last() =~= fewer);
        }
    }
}

/// The count in two sequences put together is the sum of the counts.
proof fn count_of_add(a: Seq<usize>, b: Seq<usize>, x: usize)
    ensures
        count_of(a + b, x) == count_of(a, x) + count_of(b, x),
{
    Seq::filter_distributes_over_add(a, b, same_as(x));
}

/// The nested scan emits one element for each pairing: a value that stands
/// `m` times in `big` and `n` times in `small` is emitted `m * n` times.
pub proof fn squared_emits_every_pairing(big: Seq<usize>, small: Seq<usize>, x: usize)
    ensures
        count_of(Strategy::Squared.emitted(big, small), x) == count_of(big, x) * count_of(
            small,
            x,
        ),
    decreases big.len(),
{
    reveal(Seq::filter);
    if big.len() == 0 {
        assert(count_of(big, x) * count_of(small, x) == 0) by (nonlinear_arith)
            requires
                count_of(big, x) == 0,
        ;
    } else {
        let rest = big.drop_last();
        squared_emits_every_pairing(rest, small, x);
        count_of_add(pairings(rest, small), matches_of(small, big.last()), x);
        count_among_matches(small, big.last(), x);
        let m = count_of(rest, x);
        let n = count_of(small, x);
        if big.last() == x {
            assert(matches_of(rest, x).push(x).drop_last() =~= matches_of(rest, x));
            assert(count_of(big, x) == m + 1);
            assert((m + 1) * n == m * n + n) by (nonlinear_arith);
        } else {
            assert(count_of(big, x) == m);
        }
    }
}

/// The other strategies look a value up and do not count it: a value that
/// occurs in `small` is emitted as often as it stands in `big`, whatever
/// the number of times it stands in `small`; one that does not occur there
/// is not emitted.
pub proof fn lookup_emits_once_per_place(
    strategy: Strategy,
    big: Seq<usize>,
    small: Seq<usize>,
    x: usize,
)
    requires
        strategy != Strategy::Squared,
    ensures
        count_of(strategy.emitted(big, small), x) == if small.contains(x) {
            count_of(big, x)
        } else {
            0
        },
    decreases big.len(),
{
    reveal(Seq::filter);
    if big.len() > 0 {
        let rest = big.drop_last();
        lookup_emits_once_per_place(strategy, rest, small, x);
        assert(strategy.emitted(rest, small) == members(rest, small));
        if small.contains(big.last()) {
            let fewer = members(rest, small);
            assert(fewer.push(big.last()).drop_last() =~= fewer);
            if big.last() == x {
                assert(matches_of(rest, x).push(x).drop_last() =~= matches_of(rest, x));
                assert(matches_of(fewer, x).push(x).drop_last() =~= matches_of(fewer, x));
            }
        } else {
            if big.last() == x {
                assert(matches_of(rest, x).push(x).drop_last() =~= matches_of(rest, x));
            }
        }
    }
}

/// Every product among the successes is one of the outcomes.
proof fn success_is_an_outcome(outcomes: Seq<Result<Product, ClockError>>, i: int) -> (k: int)
    requires
        0 <= i < successes(outcomes).len(),
    ensures
        0 <= k < outcomes.len(),
        outcomes[k] == Ok::<Product, ClockError>(successes(outcomes)[i]),
    decreases outcomes.len(),
{
    let rest = outcomes.drop_last();
    match outcomes.last() {
        Ok(product) => {
            if i == successes(rest).len() {
                outcomes.len() - 1
            } else {
                success_is_an_outcome(rest, i)
            }
        },
        Err(_) => success_is_an_outcome(rest, i),
    }
}

/// The measurements that a session completes always agree as sets: each
/// strategy, in either order of the two collections, emits the elements
/// that occur in both.
pub proof fn session_agrees(
    strategies: Seq<Strategy>,
    a: Seq<usize>,
    b: Seq<usize>,
    outcomes: Seq<Result<Product, ClockError>>,
)
    requires
        session(strategies, a, b, outcomes),
    ensures
        agree(Comparison::AsSets, successes(outcomes)),
        forall|i: int|
            0 <= i < successes(outcomes).len() ==> (#[trigger] successes(
                outcomes,
            )[i]).result@.to_set() == common_elements(a, b),
{
    let done = successes(outcomes);
    let (big, small) = roles(a, b);
    assert forall|i: int| 0 <= i < done.len() implies (#[trigger] done[i]).result@.to_set()
        == common_elements(a, b) by {
        let k = success_is_an_outcome(outcomes, i);
        let job = jobs_of(strategies)[k];
        emits_the_intersection(job.strategy, big, small);
        emits_the_intersection(job.strategy, small, big);
        assert(common_elements(big, small) =~= common_elements(a, b));
        assert(common_elements(small, big) =~= common_elements(a, b));
    }
}

/// Ranking does not touch the agreement: measurements that agree still
/// agree once they are ranked.
pub proof fn ranking_keeps_agreement(mode: Comparison, before: Seq<Product>, after: Seq<Product>)
    requires
        ranking(before, after),
        agree(mode, before),
    ensures
        agree(mode, after),
{
    let from = choose|from: Seq<int>| carried(before, after, from) && in_turn(after, from);
    assert forall|i: int, j: int| 0 <= i < after.len() && 0 <= j < after.len() implies alike(
        mode,
        (#[trigger] after[i]).result@,
        (#[trigger] after[j]).result@,
    ) by {
        assert(after[i] == before[from[i]]);
        assert(after[j] == before[from[j]]);
    }
}

} // verus!
