use fallible::aggregate::{collect_all, filter_successes, product, sum};

#[test]
fn collect_all_returns_the_first_failure() {
    let v: Vec<Result<i32, &str>> = vec![Ok(2), Err("x"), Ok(4), Err("y"), Ok(8)];
    assert_eq!(collect_all(v), Err("x"));
}

#[test]
fn collect_all_returns_all_payloads_in_order() {
    let v: Vec<Result<i32, &str>> = vec![Ok(2), Ok(4), Ok(8)];
    assert_eq!(collect_all(v), Ok(vec![2, 4, 8]));
}

#[test]
fn collect_all_of_nothing_is_an_empty_success() {
    let v: Vec<Result<i32, &str>> = Vec::new();
    assert_eq!(collect_all(v), Ok(Vec::new()));
}

#[test]
fn collect_all_reports_a_failure_in_last_position() {
    let v: Vec<Result<String, i32>> = vec![Ok(String::from("a")), Ok(String::from("b")), Err(7)];
    assert_eq!(collect_all(v), Err(7));
}

#[test]
fn collect_all_agrees_with_the_standard_collect() {
    let cases: Vec<Vec<Result<i32, &str>>> = vec![
        vec![],
        vec![Ok(1)],
        vec![Err("only")],
        vec![Ok(1), Ok(2), Err("late")],
        vec![Err("early"), Ok(1), Err("late")],
        vec![Ok(5), Ok(6), Ok(7), Ok(8)],
    ];
    for case in cases {
        let expected: Result<Vec<i32>, &str> = case.clone().into_iter().collect();
        assert_eq!(collect_all(case), expected);
    }
}

#[test]
fn sum_returns_the_first_failure() {
    let v: Vec<Result<i32, &str>> = vec![Err("e1"), Ok(1), Ok(2), Ok(3), Err("e2")];
    assert_eq!(sum(v), Err("e1"));
}

#[test]
fn sum_ignores_what_follows_a_failure() {
    let v: Vec<Result<i32, &str>> = vec![Ok(1), Err("middle"), Ok(i32::MAX), Ok(i32::MAX)];
    assert_eq!(sum(v), Err("middle"));
}

#[test]
fn sum_after_filtering_differs_from_sum_unfiltered() {
    let unfiltered: Vec<Result<i32, &str>> = vec![Err("error"), Ok(2), Ok(3)];
    assert_eq!(sum(unfiltered), Err("error"));
    let filtered: Vec<Result<i32, &str>> = filter_successes(vec![Err("error"), Ok(2), Ok(3)]);
    assert_eq!(sum(filtered), Ok(5));
}

#[test]
fn sum_of_nothing_is_zero() {
    let v: Vec<Result<i32, &str>> = Vec::new();
    assert_eq!(sum(v), Ok(0));
}

#[test]
fn sum_adds_negative_and_positive_payloads() {
    let v: Vec<Result<i32, &str>> = vec![Ok(-7), Ok(10), Ok(-3), Ok(100)];
    assert_eq!(sum(v), Ok(100));
}

#[test]
fn sum_reaches_the_largest_value() {
    let v: Vec<Result<i32, &str>> = vec![Ok(i32::MAX - 1), Ok(1)];
    assert_eq!(sum(v), Ok(i32::MAX));
}

#[test]
fn product_multiplies_the_payloads() {
    let v: Vec<Result<i32, &str>> = vec![Ok(1), Ok(2), Ok(21)];
    assert_eq!(product(v), Ok(42));
}

#[test]
fn product_of_nothing_is_one() {
    let v: Vec<Result<i32, &str>> = Vec::new();
    assert_eq!(product(v), Ok(1));
}

#[test]
fn product_returns_the_first_failure() {
    let v: Vec<Result<i32, &str>> = vec![Ok(3), Err("first"), Ok(5), Err("second")];
    assert_eq!(product(v), Err("first"));
}

#[test]
fn product_with_a_zero_and_a_negative_factor() {
    let zero: Vec<Result<i32, &str>> = vec![Ok(9), Ok(0), Ok(4)];
    assert_eq!(product(zero), Ok(0));
    let negative: Vec<Result<i32, &str>> = vec![Ok(-2), Ok(3), Ok(-5)];
    assert_eq!(product(negative), Ok(30));
}

#[test]
fn product_after_filtering_multiplies_the_successes() {
    let filtered: Vec<Result<i32, &str>> = filter_successes(vec![Err("error"), Ok(2), Ok(3)]);
    assert_eq!(product(filtered), Ok(6));
}

#[test]
fn filter_successes_keeps_the_successes_in_order() {
    let v: Vec<Result<i32, &str>> = vec![Ok(1), Err("a"), Ok(2), Err("b"), Err("c"), Ok(3)];
    assert_eq!(filter_successes(v), vec![Ok(1), Ok(2), Ok(3)]);
}

#[test]
fn filter_successes_of_failures_only_is_empty() {
    let v: Vec<Result<i32, &str>> = vec![Err("a"), Err("b")];
    assert_eq!(filter_successes(v), Vec::new());
}
