use intersect_bench::strategy::{
    binary, btree, designate, hash, hash_set_of, occurs, occurs_sorted, scan, sorted_copy,
    squared, squared_break, strategies, tree_of, Strategy,
};
use std::collections::BTreeSet;

fn as_set(items: &[usize]) -> BTreeSet<usize> {
    items.iter().copied().collect()
}

#[test]
fn every_strategy_yields_the_shared_elements() {
    let a = vec![1, 2, 3, 4];
    let b = vec![3, 4, 5, 6];
    let expected: BTreeSet<usize> = as_set(&[3, 4]);
    for strategy in strategies() {
        assert_eq!(as_set(&strategy.intersect(&a, &b)), expected);
        assert_eq!(as_set(&strategy.intersect(&b, &a)), expected);
        assert_eq!(as_set(&strategy.intersect_any(&a, &b)), expected);
    }
}

#[test]
fn every_strategy_yields_nothing_for_an_empty_input() {
    let a: Vec<usize> = vec![];
    let b = vec![1, 2, 3];
    for strategy in strategies() {
        assert_eq!(strategy.intersect(&a, &b), Vec::<usize>::new());
        assert_eq!(strategy.intersect(&b, &a), Vec::<usize>::new());
        assert_eq!(strategy.intersect(&a, &a), Vec::<usize>::new());
        assert_eq!(strategy.intersect_any(&a, &b), Vec::<usize>::new());
    }
}

#[test]
fn every_strategy_yields_nothing_for_disjoint_inputs() {
    let a = vec![1, 3, 5, 7, 7];
    let b = vec![2, 4, 6];
    for strategy in strategies() {
        assert_eq!(strategy.intersect(&a, &b), Vec::<usize>::new());
        assert_eq!(strategy.intersect(&b, &a), Vec::<usize>::new());
    }
}

#[test]
fn a_contained_input_is_the_result() {
    let inner = vec![9, 2, 7];
    let outer = vec![1, 2, 3, 7, 8, 9];
    for strategy in strategies() {
        assert_eq!(as_set(&strategy.intersect(&outer, &inner)), as_set(&inner));
        assert_eq!(as_set(&strategy.intersect(&inner, &outer)), as_set(&inner));
    }
}

#[test]
fn a_strategy_run_again_yields_the_same() {
    let a = vec![4, 8, 15, 16, 23, 42, 8];
    let b = vec![8, 42, 99, 4, 4];
    for strategy in strategies() {
        let first = strategy.intersect(&a, &b);
        let second = strategy.intersect(&a, &b);
        assert_eq!(first, second);
    }
}

#[test]
fn squared_emits_one_element_for_each_pairing() {
    assert_eq!(Strategy::Squared.intersect(&[2, 2], &[2]), vec![2, 2]);
    assert_eq!(Strategy::Squared.intersect(&[2], &[2, 2]), vec![2, 2]);
    assert_eq!(Strategy::Squared.intersect(&[2, 2], &[2, 2]), vec![2, 2, 2, 2]);
    assert_eq!(squared(&[1, 2, 1], &[1, 1, 2]), vec![1, 1, 2, 1, 1]);
}

#[test]
fn lookup_strategies_emit_once_whatever_the_small_side_repeats() {
    for strategy in strategies() {
        if strategy != Strategy::Squared {
            assert_eq!(strategy.intersect(&[2], &[2, 2]), vec![2]);
        }
    }
}

#[test]
fn lookup_strategies_emit_every_place_of_the_big_side() {
    for strategy in strategies() {
        if strategy != Strategy::Squared {
            assert_eq!(strategy.intersect(&[2, 2], &[2]), vec![2, 2]);
        }
    }
}

#[test]
fn lookup_strategies_keep_the_order_of_the_big_side() {
    let big = vec![5, 1, 4, 1, 9, 5];
    let small = vec![1, 5, 5, 7];
    let expected = vec![5, 1, 1, 5];
    assert_eq!(squared_break(&big, &small), expected);
    assert_eq!(btree(&big, &small), expected);
    assert_eq!(binary(&big, &small), expected);
    assert_eq!(hash(&big, &small), expected);
}

#[test]
fn strategies_work_on_the_largest_values() {
    let big = vec![usize::MAX, 0, usize::MAX - 1];
    let small = vec![0, usize::MAX];
    for strategy in strategies() {
        assert_eq!(strategy.intersect(&big, &small), vec![usize::MAX, 0]);
    }
}

#[test]
fn strategies_agree_on_many_elements() {
    let big: Vec<usize> = (0..5000).map(|i| (i * 7919) % 1013).collect();
    let small: Vec<usize> = (0..300).map(|i| (i * 31) % 2000).collect();
    let expected: Vec<usize> = big.iter().copied().filter(|x| small.contains(x)).collect();
    assert_eq!(squared_break(&big, &small), expected);
    assert_eq!(btree(&big, &small), expected);
    assert_eq!(binary(&big, &small), expected);
    assert_eq!(hash(&big, &small), expected);
    let pairs: Vec<usize> = big
        .iter()
        .flat_map(|x| small.iter().copied().filter(move |y| y == x))
        .collect();
    assert_eq!(squared(&big, &small), pairs);
}

#[test]
fn scan_emits_every_match() {
    assert_eq!(scan(&[3, 1, 3, 3, 2], 3), vec![3, 3, 3]);
    assert_eq!(scan(&[3, 1, 3, 3, 2], 4), Vec::<usize>::new());
    assert_eq!(scan(&[], 4), Vec::<usize>::new());
}

#[test]
fn occurs_tells_whether_a_value_is_there() {
    assert!(occurs(&[3, 1, 2], 2));
    assert!(occurs(&[3, 1, 2], 3));
    assert!(!occurs(&[3, 1, 2], 4));
    assert!(!occurs(&[], 4));
}

#[test]
fn sorted_copy_is_in_ascending_order() {
    assert_eq!(sorted_copy(&[3, 1, 2, 1]), vec![1, 1, 2, 3]);
    assert_eq!(sorted_copy(&[]), Vec::<usize>::new());
}

#[test]
fn occurs_sorted_finds_what_is_there() {
    let sorted = vec![1, 3, 3, 8, 20];
    assert!(occurs_sorted(&sorted, 1));
    assert!(occurs_sorted(&sorted, 3));
    assert!(occurs_sorted(&sorted, 20));
    assert!(!occurs_sorted(&sorted, 0));
    assert!(!occurs_sorted(&sorted, 4));
    assert!(!occurs_sorted(&sorted, 21));
    assert!(!occurs_sorted(&[], 1));
}

#[test]
fn sets_hold_each_element_once() {
    let tree = tree_of(&[4, 2, 4, 9]);
    assert_eq!(tree.into_iter().collect::<Vec<usize>>(), vec![2, 4, 9]);
    let set = hash_set_of(&[4, 2, 4, 9]);
    assert_eq!(set.len(), 3);
    assert!(set.contains(&4) && set.contains(&2) && set.contains(&9));
}

#[test]
fn the_longer_collection_is_the_big_one() {
    let a = vec![1, 2, 3];
    let b = vec![4, 5];
    assert_eq!(designate(&a, &b), (&a[..], &b[..]));
    assert_eq!(designate(&b, &a), (&a[..], &b[..]));
}

#[test]
fn of_two_equally_long_collections_the_second_is_the_big_one() {
    let a = vec![1, 2];
    let b = vec![4, 5];
    assert_eq!(designate(&a, &b), (&b[..], &a[..]));
}

#[test]
fn intersect_any_walks_the_longer_collection() {
    let short = vec![2, 2];
    let long = vec![2, 3, 4];
    assert_eq!(Strategy::Hash.intersect_any(&short, &long), vec![2]);
    assert_eq!(Strategy::Hash.intersect_any(&long, &short), vec![2]);
    assert_eq!(Strategy::Hash.intersect(&short, &long), vec![2, 2]);
}

#[test]
fn strategies_are_named() {
    let names: Vec<String> = strategies().into_iter().map(|s| s.name()).collect();
    assert_eq!(names, vec!["Squared", "SquaredBreak", "BTree", "Binary", "Hash"]);
}
