//! Worked examples of the combinators and of aggregation, on fixed values.
//!
//! Each example states what it computes as a postcondition, so the outcome is
//! proved once rather than checked on every run.

use crate::aggregate::{
    all_success, collect_all, filter_successes, fits_i32, lemma_collected_failure,
    lemma_first_failure_wins, lemma_product_push, lemma_total_push, payloads, product, product_of,
    sum, total,
};
use crate::combinators::{and_then, is_failure, is_success, or_else, unwrap};
use vstd::prelude::*;

verus! {

/// Walks one success and one failure through the queries and combinators and
/// returns the three values reached on the way: the mapped success, the
/// outcome of the step chained after it, and the recovered failure.
pub fn convenient_methods() -> (shown: (i32, bool, i32))
    ensures
        shown == (11i32, true, 30i32),
{
    let good_result: Result<i32, i32> = Ok(10);
    let bad_result: Result<i32, i32> = Err(10);

    let good_is_ok = is_success(&good_result) && !is_failure(&good_result);
    let bad_is_err = is_failure(&bad_result) && !is_success(&bad_result);
    assert(good_is_ok && bad_is_err);

    let good_result: Result<i32, i32> = crate::combinators::map(
        good_result,
        |i: i32| -> (j: i32)
            requires
                i < i32::MAX,
            ensures
                j == i + 1
            { i + 1 },
    );
    let bad_result: Result<i32, i32> = crate::combinators::map(
        bad_result,
        |i: i32| -> (j: i32)
            requires
                i > i32::MIN,
            ensures
                j == i - 1
            { i - 1 },
    );
    assert(bad_result == Err::<i32, i32>(10));
    let mapped = unwrap(good_result);

    let good_result: Result<bool, i32> = and_then(
        good_result,
        |i: i32| -> (r: Result<bool, i32>)
            ensures
                r == Ok::<bool, i32>(i == 11)
            { Ok(i == 11) },
    );
    let chained = unwrap(good_result);

    let bad_result: Result<i32, i32> = or_else(
        bad_result,
        |i: i32| -> (r: Result<i32, i32>)
            requires
                i <= i32::MAX - 20,
            ensures
                r == Ok::<i32, i32>((i + 20) as i32)
            { Ok(i + 20) },
    );
    let recovered = unwrap(bad_result);

    (mapped, chained, recovered)
}

/// Collects a sequence with two failures in it, then one with none, and
/// returns both outcomes: the earlier of the two failures, and all the
/// payloads in order.
pub fn collecting_into_result() -> (out: (Result<Vec<i32>, &'static str>, Result<Vec<i32>, &'static str>))
    ensures
        out.0 == Err::<Vec<i32>, &'static str>("other err!"),
        out.1 is Ok,
        out.1->Ok_0@ == seq![2i32, 4i32, 8i32],
{
    let mut v: Vec<Result<i32, &'static str>> = Vec::new();
    v.push(Ok(2));
    v.push(Err("other err!"));
    v.push(Ok(4));
    v.push(Err("err!"));
    v.push(Ok(8));
    proof {
        lemma_collected_failure(v@, 1);
    }
    let mixed = collect_all(v);

    let mut v: Vec<Result<i32, &'static str>> = Vec::new();
    v.push(Ok(2));
    v.push(Ok(4));
    v.push(Ok(8));
    proof {
        assert(all_success(v@));
        assert(payloads(v@) =~= seq![2i32, 4i32, 8i32]);
    }
    let clean = collect_all(v);

    (mixed, clean)
}

/// A short sequence that starts with a failure.
pub fn build_vec() -> (v: Vec<Result<i32, &'static str>>)
    ensures
        v@ == seq![
            Err::<i32, &'static str>("error"),
            Ok::<i32, &'static str>(2),
            Ok::<i32, &'static str>(3),
        ],
{
    let mut v: Vec<Result<i32, &'static str>> = Vec::new();
    v.push(Err("error"));
    v.push(Ok(2));
    v.push(Ok(3));
    v
}

/// Sums a sequence that starts and ends with a failure, sums what is left of
/// another after its failures are filtered out, and multiplies a sequence of
/// successes. Returns the three outcomes in that order.
pub fn sum_and_product() -> (out: (
    Result<i32, &'static str>,
    Result<i32, &'static str>,
    Result<i32, &'static str>,
))
    ensures
        out.0 == Err::<i32, &'static str>("error!"),
        out.1 == Ok::<i32, &'static str>(5),
        out.2 == Ok::<i32, &'static str>(42),
{
    let mut v: Vec<Result<i32, &'static str>> = Vec::new();
    v.push(Err("error!"));
    v.push(Ok(1));
    v.push(Ok(2));
    v.push(Ok(3));
    v.push(Err("foo"));
    proof {
        let s = v@;
        lemma_first_failure_wins(s, 0);
        lemma_total_push(Seq::<i32>::empty(), 0);
        assert forall|k: int| 0 <= k <= s.len() && all_success(s.take(k)) implies fits_i32(
            #[trigger] total(payloads(s.take(k))),
        ) by {
            if k > 0 {
                assert(s.take(k)[0] is Err);
            }
            assert(payloads(s.take(k)) =~= Seq::<i32>::empty());
        }
    }
    let unfiltered = sum(v);

    let v = filter_successes(build_vec());
    proof {
        let whole = seq![
            Err::<i32, &'static str>("error"),
            Ok::<i32, &'static str>(2),
            Ok::<i32, &'static str>(3),
        ];
        let keep = |r: Result<i32, &'static str>| r is Ok;
        let none = Seq::<Result<i32, &'static str>>::empty();
        reveal(Seq::filter);
        assert(none.filter(keep) =~= none);
        none.lemma_filter_push(whole[0], keep);
        none.push(whole[0]).lemma_filter_push(whole[1], keep);
        none.push(whole[0]).push(whole[1]).lemma_filter_push(whole[2], keep);
        assert(whole =~= none.push(whole[0]).push(whole[1]).push(whole[2]));
        let s = v@;
        assert(s =~= seq![Ok::<i32, &'static str>(2), Ok::<i32, &'static str>(3)]);
        assert(all_success(s));
        let empty = Seq::<i32>::empty();
        lemma_total_push(empty, 2);
        lemma_total_push(empty.push(2), 3);
        assert(payloads(s) =~= empty.push(2).push(3));
        assert forall|k: int| 0 <= k <= s.len() && all_success(s.take(k)) implies fits_i32(
            #[trigger] total(payloads(s.take(k))),
        ) by {
            if k == 0 {
                assert(payloads(s.take(k)) =~= empty);
            } else if k == 1 {
                assert(payloads(s.take(k)) =~= empty.push(2));
            } else {
                assert(payloads(s.take(k)) =~= empty.push(2).push(3));
            }
        }
    }
    let filtered = sum(v);

    let mut v: Vec<Result<i32, &'static str>> = Vec::new();
    v.push(Ok(1));
    v.push(Ok(2));
    v.push(Ok(21));
    proof {
        let s = v@;
        assert(all_success(s));
        let empty = Seq::<i32>::empty();
        lemma_product_push(empty, 1);
        lemma_product_push(empty.push(1), 2);
        lemma_product_push(empty.push(1).push(2), 21);
        assert(payloads(s) =~= empty.push(1).push(2).push(21));
        assert forall|k: int| 0 <= k <= s.len() && all_success(s.take(k)) implies fits_i32(
            #[trigger] product_of(payloads(s.take(k))),
        ) by {
            if k == 0 {
                assert(payloads(s.take(k)) =~= empty);
            } else if k == 1 {
                assert(payloads(s.take(k)) =~= empty.push(1));
            } else if k == 2 {
                assert(payloads(s.take(k)) =~= empty.push(1).push(2));
            } else {
                assert(payloads(s.take(k)) =~= empty.push(1).push(2).push(21));
            }
        }
    }
    let multiplied = product(v);

    (unfiltered, filtered, multiplied)
}

} // verus!
