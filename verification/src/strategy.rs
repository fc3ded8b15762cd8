//! The intersection strategies. Each one walks the first collection, `big`,
//! and emits those of its elements that also occur in the second, `small`;
//! they differ in how they look an element up in `small`.

use crate::laws::emits_the_intersection;
use crate::parallel::{expansions, joined, par_find_any, par_flat_map, select};
use std::collections::{BTreeSet, HashSet};
use vstd::prelude::*;
use vstd::slice::slice_to_vec;

verus! {

/// The elements that occur in both collections.
pub open spec fn common_elements(a: Seq<usize>, b: Seq<usize>) -> Set<usize> {
    Set::new(|x: usize| a.contains(x) && b.contains(x))
}

/// The test for occurring in `small`.
pub open spec fn within(small: Seq<usize>) -> spec_fn(usize) -> bool {
    |x: usize| small.contains(x)
}

/// The elements of `big` that occur in `small`, each as often and in the
/// order in which it stands in `big`.
pub open spec fn members(big: Seq<usize>, small: Seq<usize>) -> Seq<usize> {
    big.filter(within(small))
}

/// The test for being equal to `x`.
pub open spec fn same_as(x: usize) -> spec_fn(usize) -> bool {
    |y: usize| y == x
}

/// The elements of `small` that are equal to `x`: one for each place at
/// which `x` stands in `small`.
pub open spec fn matches_of(small: Seq<usize>, x: usize) -> Seq<usize> {
    small.filter(same_as(x))
}

/// One element for every pair of a place in `big` and a place in `small`
/// that hold the same value: the pairs of the first element of `big` come
/// first, those of its last element last.
pub open spec fn pairings(big: Seq<usize>, small: Seq<usize>) -> Seq<usize>
    decreases big.len(),
{
    if big.len() == 0 {
        Seq::empty()
    } else {
        pairings(big.drop_last(), small) + matches_of(small, big.last())
    }
}

/// No element is followed by a smaller one.
pub open spec fn ascending(items: Seq<usize>) -> bool {
    forall|i: int, j: int| 0 <= i <= j < items.len() ==> items[i] <= items[j]
}

/// Scans the whole of `small` and emits an element for each place at which
/// `x` stands.
pub fn scan(small: &[usize], x: usize) -> (out: Vec<usize>)
    ensures
        out@ == matches_of(small@, x),
{
    let mut out: Vec<usize> = Vec::new();
    let mut j: usize = 0;
    proof {
        reveal(Seq::filter);
    }
    while j < small.len()
        invariant
            j <= small.len(),
            out@ == matches_of(small@.take(j as int), x),
        decreases small.len() - j,
    {
        proof {
            reveal(Seq::filter);
            assert(small@.take(j + 1).drop_last() =~= small@.take(j as int));
        }
        if small[j] == x {
            out.push(small[j]);
        }
        j += 1;
    }
    proof {
        assert(small@.take(j as int) =~= small@);
    }
    out
}

/// Parts that are the matches of each element, joined, are the pairings.
proof fn joined_matches(big: Seq<usize>, small: Seq<usize>, parts: Seq<Vec<usize>>)
    requires
        parts.len() == big.len(),
        forall|i: int| 0 <= i < big.len() ==> (#[trigger] parts[i])@ == matches_of(small, big[i]),
    ensures
        joined(parts) == pairings(big, small),
    decreases big.len(),
{
    if big.len() > 0 {
        joined_matches(big.drop_last(), small, parts.drop_last());
    }
}

/// The nested scan: for every element of `big` the whole of `small` is
/// scanned, and every match is emitted.
pub fn squared(big: &[usize], small: &[usize]) -> (out: Vec<usize>)
    ensures
        out@ == pairings(big@, small@),
{
    let expand = |x: &usize| -> (part: Vec<usize>)
        ensures
            part@ == matches_of(small@, *x),
        { scan(small, *x) };
    let out = par_flat_map(big, expand);
    proof {
        let parts = choose|parts: Seq<Vec<usize>>|
            expansions(big@, expand, parts) && out@ == joined(parts);
        joined_matches(big@, small@, parts);
    }
    out
}

/// Whether `x` occurs in `small`, by a search that stops at a match.
pub fn occurs(small: &[usize], x: usize) -> (found: bool)
    ensures
        found == small@.contains(x),
{
    let wanted = |y: &usize| -> (same: bool)
        ensures
            same == (*y == x),
        { *y == x };
    let found = par_find_any(small, wanted);
    proof {
        if found is None {
            assert forall|i: int| 0 <= i < small@.len() implies small@[i] != x by {
                assert(call_ensures(wanted, (&small@[i],), false));
            }
        }
    }
    found.is_some()
}

/// The nested scan that leaves `small` at the first match: an element of
/// `big` is emitted once if it occurs in `small`.
pub fn squared_break(big: &[usize], small: &[usize]) -> (out: Vec<usize>)
    ensures
        out@ == members(big@, small@),
{
    let keep = |x: &usize| -> (found: bool)
        ensures
            found == small@.contains(*x),
        { occurs(small, *x) };
    select(big, keep, Ghost(within(small@)))
}

/// Adding an element to a sequence adds it to its set.
proof fn to_set_of_push(s: Seq<usize>, x: usize)
    ensures
        s.push(x).to_set() == s.to_set().insert(x),
{
    assert forall|y: usize| s.push(x).to_set().contains(y) <==> s.to_set().insert(x).contains(
        y,
    ) by {
        if s.contains(y) {
            let k = choose|k: int| 0 <= k < s.len() && s[k] == y;
            assert(s.push(x)[k] == y);
        }
        if s.push(x).contains(y) {
            let k = choose|k: int| 0 <= k < s.push(x).len() && s.push(x)[k] == y;
            if k < s.len() {
                assert(s[k] == y);
            }
        }
        assert(s.push(x)[s.len() as int] == x);
    }
    assert(s.push(x).to_set() =~= s.to_set().insert(x));
}

/// The ordered set of the elements of `small`.
pub fn tree_of(small: &[usize]) -> (tree: BTreeSet<usize>)
    ensures
        tree@ == small@.to_set(),
{
    broadcast use vstd::std_specs::btree::group_btree_axioms;

    let mut tree: BTreeSet<usize> = BTreeSet::new();
    let mut i: usize = 0;
    assert(small@.take(0).to_set() =~= Set::<usize>::empty());
    while i < small.len()
        invariant
            i <= small.len(),
            tree@ == small@.take(i as int).to_set(),
        decreases small.len() - i,
    {
        tree.insert(small[i]);
        proof {
            to_set_of_push(small@.take(i as int), small@[i as int]);
            assert(small@.take(i + 1) =~= small@.take(i as int).push(small@[i as int]));
        }
        i += 1;
    }
    proof {
        assert(small@.take(i as int) =~= small@);
    }
    tree
}

/// Membership in an ordered set of the elements of `small`.
pub fn btree(big: &[usize], small: &[usize]) -> (out: Vec<usize>)
    ensures
        out@ == members(big@, small@),
{
    let tree = tree_of(small);
    let keep = |x: &usize| -> (found: bool)
        ensures
            found == small@.contains(*x),
        {
            broadcast use vstd::std_specs::btree::group_btree_axioms;

            tree.contains(x)
        };
    select(big, keep, Ghost(within(small@)))
}

/// `sort` of std on a vector of integers: afterwards the vector holds the
/// same elements, each as often as before, in ascending order.
#[verifier::external_body]
fn sort_ascending(items: &mut Vec<usize>)
    ensures
        ascending(final(items)@),
        final(items)@.to_multiset() == old(items)@.to_multiset(),
{
    items.sort();
}

/// What `binary_search` of std promises for a slice in ascending order:
/// the place of an element equal to `wanted`; or, when there is none, the
/// place at which `wanted` could be put in and leave the slice ascending.
pub open spec fn searched(items: Seq<usize>, wanted: usize, found: Result<usize, usize>) -> bool {
    match found {
        Ok(at) => at < items.len() && items[at as int] == wanted,
        Err(at) => {
            &&& at <= items.len()
            &&& forall|i: int| 0 <= i < at ==> items[i] < wanted
            &&& forall|i: int| at <= i < items.len() ==> items[i] > wanted
        },
    }
}

/// `binary_search` of std on a slice of integers. std leaves the result
/// open for a slice that is not in ascending order, so nothing is said of
/// it there.
#[verifier::external_body]
fn search(items: &[usize], wanted: usize) -> (found: Result<usize, usize>)
    ensures
        ascending(items@) ==> searched(items@, wanted, found),
{
    items.binary_search(&wanted)
}

/// Sequences that hold the same elements equally often hold the same
/// elements.
proof fn same_elements(a: Seq<usize>, b: Seq<usize>, x: usize)
    requires
        a.to_multiset() == b.to_multiset(),
    ensures
        a.contains(x) == b.contains(x),
{
    vstd::seq_lib::to_multiset_contains(a, x);
    vstd::seq_lib::to_multiset_contains(b, x);
}

/// A copy of `small` in ascending order.
pub fn sorted_copy(small: &[usize]) -> (sorted: Vec<usize>)
    ensures
        ascending(sorted@),
        sorted@.to_multiset() == small@.to_multiset(),
{
    let mut sorted: Vec<usize> = slice_to_vec(small);
    sort_ascending(&mut sorted);
    sorted
}

/// Whether `wanted` occurs in a sequence that is in ascending order, by
/// binary search.
pub fn occurs_sorted(sorted: &[usize], wanted: usize) -> (found: bool)
    requires
        ascending(sorted@),
    ensures
        found == sorted@.contains(wanted),
{
    let found = search(sorted, wanted);
    proof {
        if let Ok(at) = found {
            assert(sorted@[at as int] == wanted);
        }
    }
    found.is_ok()
}

/// Binary search in a sorted copy of `small`.
pub fn binary(big: &[usize], small: &[usize]) -> (out: Vec<usize>)
    ensures
        out@ == members(big@, small@),
{
    let sorted = sorted_copy(small);
    let keep = |x: &usize| -> (found: bool)
        ensures
            found == small@.contains(*x),
        {
            proof {
                same_elements(sorted@, small@, *x);
            }
            occurs_sorted(sorted.as_slice(), *x)
        };
    select(big, keep, Ghost(within(small@)))
}

/// The hash set of the elements of `small`.
pub fn hash_set_of(small: &[usize]) -> (set: HashSet<usize>)
    ensures
        set@ == small@.to_set(),
{
    broadcast use vstd::std_specs::hash::group_hash_axioms;

    let mut set: HashSet<usize> = HashSet::new();
    let mut i: usize = 0;
    assert(small@.take(0).to_set() =~= Set::<usize>::empty());
    while i < small.len()
        invariant
            i <= small.len(),
            set@ == small@.take(i as int).to_set(),
        decreases small.len() - i,
    {
        set.insert(small[i]);
        proof {
            to_set_of_push(small@.take(i as int), small@[i as int]);
            assert(small@.take(i + 1) =~= small@.take(i as int).push(small@[i as int]));
        }
        i += 1;
    }
    proof {
        assert(small@.take(i as int) =~= small@);
    }
    set
}

/// Membership in a hash set of the elements of `small`.
pub fn hash(big: &[usize], small: &[usize]) -> (out: Vec<usize>)
    ensures
        out@ == members(big@, small@),
{
    let set = hash_set_of(small);
    let keep = |x: &usize| -> (found: bool)
        ensures
            found == small@.contains(*x),
        {
            broadcast use vstd::std_specs::hash::group_hash_axioms;

            set.contains(x)
        };
    select(big, keep, Ghost(within(small@)))
}

/// The strategies of the harness.
#[derive(Clone, Copy, Debug, PartialEq, Eq, Structural)]
pub enum Strategy {
    /// The nested scan.
    Squared,
    /// The nested scan that stops at the first match.
    SquaredBreak,
    /// Membership in an ordered set.
    BTree,
    /// Binary search in a sorted copy.
    Binary,
    /// Membership in a hash set.
    Hash,
}

impl Strategy {
    /// The name under which the strategy is reported.
    pub open spec fn label(self) -> Seq<char> {
        match self {
            Strategy::Squared => "Squared"@,
            Strategy::SquaredBreak => "SquaredBreak"@,
            Strategy::BTree => "BTree"@,
            Strategy::Binary => "Binary"@,
            Strategy::Hash => "Hash"@,
        }
    }

    /// What the strategy emits for `big` and `small`: the nested scan emits
    /// an element for every matching pair, the others emit each element of
    /// `big` that occurs in `small`.
    pub open spec fn emitted(self, big: Seq<usize>, small: Seq<usize>) -> Seq<usize> {
        match self {
            Strategy::Squared => pairings(big, small),
            _ => members(big, small),
        }
    }

    /// The name of the strategy as a string.
    pub fn name(self) -> (name: String)
        ensures
            name@ == self.label(),
    {
        match self {
            Strategy::Squared => "Squared".to_owned(),
            Strategy::SquaredBreak => "SquaredBreak".to_owned(),
            Strategy::BTree => "BTree".to_owned(),
            Strategy::Binary => "Binary".to_owned(),
            Strategy::Hash => "Hash".to_owned(),
        }
    }

    /// Intersects with the roles as the caller has given them: `big` is
    /// walked, `small` is searched.
    pub fn intersect(self, big: &[usize], small: &[usize]) -> (out: Vec<usize>)
        ensures
            out@ == self.emitted(big@, small@),
            out@.to_set() == common_elements(big@, small@),
    {
        proof {
            emits_the_intersection(self, big@, small@);
        }
        match self {
            Strategy::Squared => squared(big, small),
            Strategy::SquaredBreak => squared_break(big, small),
            Strategy::BTree => btree(big, small),
            Strategy::Binary => binary(big, small),
            Strategy::Hash => hash(big, small),
        }
    }

    /// Intersects two collections whose roles the caller has not given: the
    /// longer one is walked, the other one searched.
    pub fn intersect_any(self, a: &[usize], b: &[usize]) -> (out: Vec<usize>)
        ensures
            out@ == self.emitted(roles(a@, b@).0, roles(a@, b@).1),
            out@.to_set() == common_elements(a@, b@),
    {
        let (big, small) = designate(a, b);
        let out = self.intersect(big, small);
        assert(common_elements(big@, small@) =~= common_elements(a@, b@));
        out
    }
}

/// All the strategies, in the order in which they are run.
pub fn strategies() -> (all: Vec<Strategy>)
    ensures
        all@ == seq![
            Strategy::Squared,
            Strategy::SquaredBreak,
            Strategy::BTree,
            Strategy::Binary,
            Strategy::Hash,
        ],
{
    let mut all: Vec<Strategy> = Vec::new();
    all.push(Strategy::Squared);
    all.push(Strategy::SquaredBreak);
    all.push(Strategy::BTree);
    all.push(Strategy::Binary);
    all.push(Strategy::Hash);
    all
}

/// The two collections as big and small: the longer one is the big one,
/// and of two that are equally long the second.
pub open spec fn roles(a: Seq<usize>, b: Seq<usize>) -> (Seq<usize>, Seq<usize>) {
    if a.len() > b.len() {
        (a, b)
    } else {
        (b, a)
    }
}

/// Tells the big collection from the small one.
pub fn designate<'a>(a: &'a [usize], b: &'a [usize]) -> (pair: (&'a [usize], &'a [usize]))
    ensures
        (pair.0@, pair.1@) == roles(a@, b@),
{
    if a.len() > b.len() {
        (a, b)
    } else {
        (b, a)
    }
}

} // verus!
