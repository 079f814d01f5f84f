use fallible::aggregate::{filter_successes, sum};
use fallible::walkthrough::{build_vec, collecting_into_result, convenient_methods, sum_and_product};

#[test]
fn convenient_methods_reaches_the_three_values() {
    assert_eq!(convenient_methods(), (11, true, 30));
}

#[test]
fn collecting_into_result_gives_first_failure_then_all_payloads() {
    let (mixed, clean) = collecting_into_result();
    assert_eq!(mixed, Err("other err!"));
    assert_eq!(clean, Ok(vec![2, 4, 8]));
}

#[test]
fn build_vec_starts_with_a_failure() {
    assert_eq!(build_vec(), vec![Err("error"), Ok(2), Ok(3)]);
}

#[test]
fn build_vec_sums_to_five_once_filtered() {
    assert_eq!(sum(build_vec()), Err("error"));
    assert_eq!(sum(filter_successes(build_vec())), Ok(5));
}

#[test]
fn sum_and_product_gives_the_three_outcomes() {
    let (unfiltered, filtered, multiplied) = sum_and_product();
    assert_eq!(unfiltered, Err("error!"));
    assert_eq!(filtered, Ok(5));
    assert_eq!(multiplied, Ok(42));
}
