use intersect_bench::generate::{collection_from, collection_of, generate, generate_with};
use intersect_bench::measure::{completed, conclude, jobs, run, test_method, ClockError, Product};
use intersect_bench::strategy::{strategies, Strategy};
use intersect_bench::report::report;
use intersect_bench::validate::{
    all_equal, all_equal_by, same_sequence, same_set, verdict_line, Comparison,
};
use rand::rngs::StdRng;
use rand::{Rng, SeedableRng};

fn product(name: &str, time: u128, result: Vec<usize>) -> Product {
    Product::new(name.to_string(), time, result)
}

#[test]
fn a_product_holds_what_it_was_made_of() {
    let p = Product::new("Hash".to_string(), 1234, vec![3, 4]);
    assert_eq!(p.name, "Hash");
    assert_eq!(p.time, 1234);
    assert_eq!(p.result, vec![3, 4]);
}

#[test]
fn a_measurement_with_a_time_is_a_product() {
    let outcome = conclude("BTree".to_string(), Some(77), vec![1]);
    let p = outcome.expect("a product");
    assert_eq!(p.name, "BTree");
    assert_eq!(p.time, 77);
    assert_eq!(p.result, vec![1]);
}

#[test]
fn a_measurement_without_a_time_is_a_clock_error() {
    let outcome = conclude("BTree switched order".to_string(), None, vec![1]);
    match outcome {
        Ok(_) => panic!("no time was given"),
        Err(error) => assert_eq!(error.name, "BTree switched order"),
    }
}

#[test]
fn test_method_names_the_measurement_and_keeps_the_result() {
    let big = vec![1, 2, 3, 4];
    let small = vec![3, 4, 5, 6];
    match test_method(Strategy::Binary, &big, &small, " switched order") {
        Ok(p) => {
            assert_eq!(p.name, "Binary switched order");
            assert_eq!(p.result, vec![3, 4]);
        }
        Err(error) => assert_eq!(error.name, "Binary switched order"),
    }
    match test_method(Strategy::Squared, &big, &small, "") {
        Ok(p) => {
            assert_eq!(p.name, "Squared");
            assert_eq!(p.result, vec![3, 4]);
        }
        Err(error) => assert_eq!(error.name, "Squared"),
    }
}

#[test]
fn a_session_has_two_jobs_for_each_strategy() {
    let list = jobs(&[Strategy::Hash, Strategy::Squared]);
    assert_eq!(list.len(), 4);
    assert_eq!((list[0].strategy, list[0].switched), (Strategy::Hash, false));
    assert_eq!((list[1].strategy, list[1].switched), (Strategy::Hash, true));
    assert_eq!((list[2].strategy, list[2].switched), (Strategy::Squared, false));
    assert_eq!((list[3].strategy, list[3].switched), (Strategy::Squared, true));
    assert_eq!(jobs(&[]).len(), 0);
}

#[test]
fn run_measures_every_strategy_in_both_orders() {
    let a = vec![2, 2];
    let b = vec![2, 3, 4];
    let outcomes = run(&strategies(), &a, &b);
    assert_eq!(outcomes.len(), 10);
    let names = [
        "Squared",
        "Squared switched order",
        "SquaredBreak",
        "SquaredBreak switched order",
        "BTree",
        "BTree switched order",
        "Binary",
        "Binary switched order",
        "Hash",
        "Hash switched order",
    ];
    for (k, outcome) in outcomes.iter().enumerate() {
        match outcome {
            Ok(p) => {
                assert_eq!(p.name, names[k]);
                // `b` is the longer one: it is walked first, and `a` once switched.
                let expected: Vec<usize> = if k >= 2 && k % 2 == 0 { vec![2] } else { vec![2, 2] };
                assert_eq!(p.result, expected);
            }
            Err(error) => assert_eq!(error.name, names[k]),
        }
    }
}

#[test]
fn run_without_strategies_measures_nothing() {
    assert_eq!(run(&[], &[1, 2], &[2]).len(), 0);
}

#[test]
fn completed_parts_products_from_clock_errors() {
    let outcomes = vec![
        Ok(product("A", 1, vec![1])),
        Err(ClockError { name: "B".to_string() }),
        Ok(product("C", 3, vec![])),
        Err(ClockError { name: "D".to_string() }),
    ];
    let (products, errors) = completed(outcomes);
    let names: Vec<&str> = products.iter().map(|p| p.name.as_str()).collect();
    assert_eq!(names, vec!["A", "C"]);
    let aborted: Vec<&str> = errors.iter().map(|e| e.name.as_str()).collect();
    assert_eq!(aborted, vec!["B", "D"]);
    let (none, nothing) = completed(vec![]);
    assert!(none.is_empty() && nothing.is_empty());
}

#[test]
fn generated_collections_are_no_longer_than_a_16_bit_count() {
    for _ in 0..4 {
        assert!(generate().len() <= 65535);
    }
}

#[test]
fn measurements_of_every_strategy_agree() {
    let a = vec![1, 2, 3, 4, 4];
    let b = vec![3, 4, 4, 5, 6];
    let (products, _) = completed(run(&strategies(), &a, &b));
    assert!(all_equal(&products));
}

#[test]
fn a_spurious_element_breaks_the_agreement() {
    let measurements = vec![
        product("Squared", 30, vec![3, 4]),
        product("BTree", 20, vec![3, 4]),
        product("Hash", 10, vec![3, 4, 99]),
    ];
    assert!(!all_equal(&measurements));
    let spoilt_in_the_middle = vec![
        product("Squared", 30, vec![3, 4]),
        product("BTree", 20, vec![3, 4, 99]),
        product("Hash", 10, vec![3, 4]),
    ];
    assert!(!all_equal(&spoilt_in_the_middle));
}

#[test]
fn a_missing_element_breaks_the_agreement() {
    let measurements = vec![product("Squared", 30, vec![3, 4]), product("BTree", 20, vec![3])];
    assert!(!all_equal(&measurements));
}

#[test]
fn repeats_and_order_do_not_break_the_agreement_of_sets() {
    let measurements = vec![
        product("Squared", 30, vec![2, 2, 3]),
        product("BTree", 20, vec![3, 2]),
        product("Hash", 10, vec![2, 3, 3, 3]),
    ];
    assert!(all_equal(&measurements));
    assert!(all_equal_by(Comparison::AsSets, &measurements));
    assert!(!all_equal_by(Comparison::Exactly, &measurements));
}

#[test]
fn equal_sequences_agree_exactly() {
    let measurements = vec![product("A", 3, vec![2, 3]), product("B", 2, vec![2, 3])];
    assert!(all_equal_by(Comparison::Exactly, &measurements));
}

#[test]
fn fewer_than_two_measurements_agree() {
    assert!(all_equal(&[]));
    assert!(all_equal(&[product("A", 1, vec![1, 2])]));
    assert!(all_equal_by(Comparison::Exactly, &[]));
}

#[test]
fn same_set_looks_at_the_elements_only() {
    assert!(same_set(&[1, 2, 2], &[2, 1]));
    assert!(same_set(&[], &[]));
    assert!(!same_set(&[1, 2], &[1]));
    assert!(!same_set(&[1], &[1, 2]));
    assert!(!same_set(&[], &[0]));
}

#[test]
fn same_sequence_looks_at_every_place() {
    assert!(same_sequence(&[1, 2, 2], &[1, 2, 2]));
    assert!(!same_sequence(&[1, 2, 2], &[2, 1, 2]));
    assert!(!same_sequence(&[1, 2], &[1, 2, 2]));
    assert!(same_sequence(&[], &[]));
}

#[test]
fn a_seeded_source_gives_the_same_collection_again() {
    let first = generate_with(&mut StdRng::seed_from_u64(2024));
    let second = generate_with(&mut StdRng::seed_from_u64(2024));
    assert!(first.len() <= 65535);
    assert_eq!(first, second);
}

#[test]
fn a_source_is_drawn_from_in_order() {
    let collection = generate_with(&mut StdRng::seed_from_u64(7));
    let mut source = StdRng::seed_from_u64(7);
    let length: u16 = source.gen();
    assert_eq!(collection.len(), length as usize);
    for element in &collection {
        let expected: usize = source.gen();
        assert_eq!(*element, expected);
    }
}

#[test]
fn two_collections_from_one_source_are_drawn_one_after_the_other() {
    let mut source = StdRng::seed_from_u64(99);
    let a = generate_with(&mut source);
    let b = generate_with(&mut source);
    let mut again = StdRng::seed_from_u64(99);
    assert_eq!(generate_with(&mut again), a);
    assert_eq!(generate_with(&mut again), b);
}

#[test]
fn ranked_measurements_still_agree() {
    let a = vec![7, 1, 7, 3];
    let b = vec![3, 7, 8];
    let (products, _) = completed(run(&strategies(), &a, &b));
    assert!(all_equal(&products));
    let ranked = report(products).expect("a report").ranked;
    assert!(all_equal(&ranked));
}

#[test]
fn the_verdict_is_a_line_of_its_own() {
    assert_eq!(verdict_line(true), "all values are equal: true");
    assert_eq!(verdict_line(false), "all values are equal: false");
}

#[test]
fn a_collection_of_a_given_length_is_that_long() {
    assert_eq!(collection_of(0), Vec::<usize>::new());
    assert_eq!(collection_of(1).len(), 1);
    assert_eq!(collection_of(1000).len(), 1000);
    assert_eq!(collection_of(65535).len(), 65535);
}

#[test]
fn a_collection_from_a_source_holds_what_the_source_gives() {
    let collection = collection_from(&mut StdRng::seed_from_u64(11), 5);
    let mut source = StdRng::seed_from_u64(11);
    let expected: Vec<usize> = (0..5).map(|_| source.gen()).collect();
    assert_eq!(collection, expected);
    assert_eq!(collection_from(&mut source, 0), Vec::<usize>::new());
}
