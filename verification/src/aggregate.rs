//! Aggregation over an ordered sequence of results.
//!
//! Every operation here scans in sequence order and stops at the first
//! failure: that failure is the answer, whatever comes after it.

use vstd::prelude::*;

verus! {

/// Every element of `s` is a success.
pub open spec fn all_success<T, E>(s: Seq<Result<T, E>>) -> bool {
    forall|i: int| 0 <= i < s.len() ==> (#[trigger] s[i]) is Ok
}

/// The element at `i` is a failure and everything before it is a success.
pub open spec fn first_failure_at<T, E>(s: Seq<Result<T, E>>, i: int) -> bool {
    &&& 0 <= i < s.len()
    &&& s[i] is Err
    &&& forall|j: int| 0 <= j < i ==> (#[trigger] s[j]) is Ok
}

/// The position of the first failure in `s`, where `s` has one.
pub open spec fn first_failure_index<T, E>(s: Seq<Result<T, E>>) -> int {
    choose|i: int| first_failure_at(s, i)
}

/// The success values of `s`, position by position.
pub open spec fn payloads<T, E>(s: Seq<Result<T, E>>) -> Seq<T> {
    Seq::new(s.len(), |i: int| s[i]->Ok_0)
}

/// What collecting `s` gives: all the payloads when every element is a
/// success, and otherwise the error of the first failure.
pub open spec fn collected<T, E>(s: Seq<Result<T, E>>) -> Result<Seq<T>, E> {
    if all_success(s) {
        Ok(payloads(s))
    } else {
        Err(s[first_failure_index(s)]->Err_0)
    }
}

/// At most one position holds the first failure.
pub proof fn lemma_first_failure_unique<T, E>(s: Seq<Result<T, E>>, i: int, j: int)
    requires
        first_failure_at(s, i),
        first_failure_at(s, j),
    ensures
        i == j,
{
    if i < j {
        assert(s[i] is Ok);
    } else if j < i {
        assert(s[j] is Ok);
    }
}

/// Below or at any failure there is a first failure.
proof fn lemma_least_failure<T, E>(s: Seq<Result<T, E>>, n: int) -> (i: int)
    requires
        0 <= n < s.len(),
        s[n] is Err,
    ensures
        first_failure_at(s, i),
        i <= n,
    decreases n,
{
    if forall|j: int| 0 <= j < n ==> (#[trigger] s[j]) is Ok {
        n
    } else {
        let j = choose|j: int| 0 <= j < n && !((#[trigger] s[j]) is Ok);
        lemma_least_failure(s, j)
    }
}

/// A sequence that is not all successes has a first failure, and
/// `first_failure_index` is its position.
pub proof fn lemma_first_failure_exists<T, E>(s: Seq<Result<T, E>>)
    requires
        !all_success(s),
    ensures
        first_failure_at(s, first_failure_index(s)),
{
    let n = choose|n: int| 0 <= n < s.len() && !((#[trigger] s[n]) is Ok);
    let i = lemma_least_failure(s, n);
}

/// A sequence of successes collects to its payloads, which are as many as
/// its elements.
pub proof fn lemma_collected_success<T, E>(s: Seq<Result<T, E>>)
    requires
        all_success(s),
    ensures
        collected(s) == Ok::<Seq<T>, E>(payloads(s)),
        payloads(s).len() == s.len(),
        forall|i: int| 0 <= i < s.len() ==> s[i] == Ok::<T, E>(#[trigger] payloads(s)[i]),
{
}

/// A sequence with its first failure at `i` collects to that failure's error.
pub proof fn lemma_collected_failure<T, E>(s: Seq<Result<T, E>>, i: int)
    requires
        first_failure_at(s, i),
    ensures
        !all_success(s),
        collected(s) == Err::<Seq<T>, E>(s[i]->Err_0),
{
    assert(s[i] is Err);
    lemma_first_failure_unique(s, i, first_failure_index(s));
}

/// Collects the payloads of `seq` in order if every element is a success;
/// otherwise returns the error of the first failure in sequence order.
pub fn collect_all<T, E>(seq: Vec<Result<T, E>>) -> (out: Result<Vec<T>, E>)
    ensures
        match out {
            Ok(v) => collected(seq@) == Ok::<Seq<T>, E>(v@),
            Err(e) => collected(seq@) == Err::<Seq<T>, E>(e),
        },
{
    let ghost s = seq@;
    let mut values: Vec<T> = Vec::new();
    for r in it: seq
        invariant
            it.seq() == s,
            values@ == payloads(s.take(it.index() as int)),
            all_success(s.take(it.index() as int)),
    {
        let ghost k = it.index() as int;
        match r {
            Ok(v) => {
                values.push(v);
                proof {
                    assert(s.take(k + 1) =~= s.take(k).push(s[k]));
                    assert(values@ =~= payloads(s.take(k + 1)));
                }
            },
            Err(e) => {
                proof {
                    assert forall|j: int| 0 <= j < k implies (#[trigger] s[j]) is Ok by {
                        assert(s.take(k)[j] is Ok);
                    }
                    lemma_collected_failure(s, k);
                }
                return Err(e);
            },
        }
    }
    proof {
        assert(s.take(s.len() as int) =~= s);
    }
    Ok(values)
}

/// The sum of the numbers in `s`, as a mathematical integer.
pub open spec fn total(s: Seq<i32>) -> int
    decreases s.len(),
{
    if s.len() == 0 {
        0
    } else {
        total(s.drop_last()) + s.last()
    }
}

/// The product of the numbers in `s`, as a mathematical integer.
pub open spec fn product_of(s: Seq<i32>) -> int
    decreases s.len(),
{
    if s.len() == 0 {
        1
    } else {
        product_of(s.drop_last()) * s.last()
    }
}

/// Whether `n` can be held in an `i32`.
pub open spec fn fits_i32(n: int) -> bool {
    i32::MIN <= n <= i32::MAX
}

/// Every running sum over the successes that precede the first failure can
/// be held in an `i32`.
pub open spec fn sums_fit<E>(s: Seq<Result<i32, E>>) -> bool {
    forall|k: int|
        0 <= k <= s.len() && all_success(s.take(k)) ==> fits_i32(
            #[trigger] total(payloads(s.take(k))),
        )
}

/// Every running product over the successes that precede the first failure
/// can be held in an `i32`.
pub open spec fn products_fit<E>(s: Seq<Result<i32, E>>) -> bool {
    forall|k: int|
        0 <= k <= s.len() && all_success(s.take(k)) ==> fits_i32(
            #[trigger] product_of(payloads(s.take(k))),
        )
}

/// What summing `s` gives: the sum of the payloads when every element is a
/// success, and otherwise the error of the first failure.
pub open spec fn summed<E>(s: Seq<Result<i32, E>>) -> Result<int, E> {
    match collected(s) {
        Ok(values) => Ok(total(values)),
        Err(e) => Err(e),
    }
}

/// What multiplying `s` gives: the product of the payloads when every
/// element is a success, and otherwise the error of the first failure.
pub open spec fn multiplied<E>(s: Seq<Result<i32, E>>) -> Result<int, E> {
    match collected(s) {
        Ok(values) => Ok(product_of(values)),
        Err(e) => Err(e),
    }
}

/// Taking one more element of `s` extends the payloads of the prefix by that
/// element's success value, and keeps the prefix all-success if the element
/// is a success.
pub proof fn lemma_payloads_step<T, E>(s: Seq<Result<T, E>>, k: int)
    requires
        0 <= k < s.len(),
    ensures
        payloads(s.take(k + 1)) == payloads(s.take(k)).push(s[k]->Ok_0),
        payloads(s.take(k + 1)).drop_last() == payloads(s.take(k)),
        all_success(s.take(k)) && s[k] is Ok ==> all_success(s.take(k + 1)),
{
    assert(payloads(s.take(k + 1)) =~= payloads(s.take(k)).push(s[k]->Ok_0));
    assert(payloads(s.take(k + 1)).drop_last() =~= payloads(s.take(k)));
    if all_success(s.take(k)) && s[k] is Ok {
        assert forall|i: int| 0 <= i < s.take(k + 1).len() implies (#[trigger] s.take(k + 1)[i]) is Ok by {
            if i < k {
                assert(s.take(k)[i] is Ok);
            }
        }
    }
}

/// Folding goes from left to right: the sum of a sequence extended by `x` is
/// the sum of the sequence plus `x`, and the sum of nothing is zero.
pub proof fn lemma_total_push(s: Seq<i32>, x: i32)
    ensures
        total(Seq::<i32>::empty()) == 0,
        total(s.push(x)) == total(s) + x,
{
    assert(s.push(x).drop_last() =~= s);
}

/// Folding goes from left to right: the product of a sequence extended by
/// `x` is the product of the sequence times `x`, and the product of nothing
/// is one.
pub proof fn lemma_product_push(s: Seq<i32>, x: i32)
    ensures
        product_of(Seq::<i32>::empty()) == 1,
        product_of(s.push(x)) == product_of(s) * x,
{
    assert(s.push(x).drop_last() =~= s);
}

/// A sequence whose first failure is at `i` sums and multiplies to that
/// failure's error, whatever follows position `i`.
pub proof fn lemma_first_failure_wins<E>(s: Seq<Result<i32, E>>, i: int)
    requires
        first_failure_at(s, i),
    ensures
        summed(s) == Err::<int, E>(s[i]->Err_0),
        multiplied(s) == Err::<int, E>(s[i]->Err_0),
{
    lemma_collected_failure(s, i);
}

/// Filtering before aggregating changes the outcome: what is left after the
/// failures are dropped always sums and multiplies to a success, while a
/// sequence that holds a failure never does.
pub proof fn lemma_filtering_hides_failures<E>(s: Seq<Result<i32, E>>)
    ensures
        all_success(s.filter(|r: Result<i32, E>| r is Ok)),
        summed(s.filter(|r: Result<i32, E>| r is Ok)) is Ok,
        multiplied(s.filter(|r: Result<i32, E>| r is Ok)) is Ok,
        !all_success(s) ==> summed(s) is Err && multiplied(s) is Err,
{
    let keep = |r: Result<i32, E>| r is Ok;
    let kept = s.filter(keep);
    assert forall|i: int| 0 <= i < kept.len() implies (#[trigger] kept[i]) is Ok by {
        s.lemma_filter_pred(keep, i);
    }
}

/// Adds up the payloads of `seq` from left to right, starting from zero. The
/// first failure met while scanning is the result, whatever follows it.
///
/// The running sums over the leading successes must fit in an `i32`.
pub fn sum<E>(seq: Vec<Result<i32, E>>) -> (out: Result<i32, E>)
    requires
        sums_fit(seq@),
    ensures
        match out {
            Ok(n) => summed(seq@) == Ok::<int, E>(n as int),
            Err(e) => summed(seq@) == Err::<int, E>(e),
        },
{
    let ghost s = seq@;
    let mut acc: i32 = 0;
    for r in it: seq
        invariant
            it.seq() == s,
            sums_fit(s),
            all_success(s.take(it.index() as int)),
            acc as int == total(payloads(s.take(it.index() as int))),
    {
        let ghost k = it.index() as int;
        match r {
            Ok(v) => {
                proof {
                    lemma_payloads_step(s, k);
                    assert(fits_i32(total(payloads(s.take(k + 1)))));
                }
                acc = acc + v;
            },
            Err(e) => {
                proof {
                    assert forall|j: int| 0 <= j < k implies (#[trigger] s[j]) is Ok by {
                        assert(s.take(k)[j] is Ok);
                    }
                    lemma_collected_failure(s, k);
                }
                return Err(e);
            },
        }
    }
    proof {
        assert(s.take(s.len() as int) =~= s);
    }
    Ok(acc)
}

/// Multiplies the payloads of `seq` from left to right, starting from one.
/// The first failure met while scanning is the result, whatever follows it.
///
/// The running products over the leading successes must fit in an `i32`.
pub fn product<E>(seq: Vec<Result<i32, E>>) -> (out: Result<i32, E>)
    requires
        products_fit(seq@),
    ensures
        match out {
            Ok(n) => multiplied(seq@) == Ok::<int, E>(n as int),
            Err(e) => multiplied(seq@) == Err::<int, E>(e),
        },
{
    let ghost s = seq@;
    let mut acc: i32 = 1;
    for r in it: seq
        invariant
            it.seq() == s,
            products_fit(s),
            all_success(s.take(it.index() as int)),
            acc as int == product_of(payloads(s.take(it.index() as int))),
    {
        let ghost k = it.index() as int;
        match r {
            Ok(v) => {
                proof {
                    lemma_payloads_step(s, k);
                    assert(fits_i32(product_of(payloads(s.take(k + 1)))));
                }
                acc = acc * v;
            },
            Err(e) => {
                proof {
                    assert forall|j: int| 0 <= j < k implies (#[trigger] s[j]) is Ok by {
                        assert(s.take(k)[j] is Ok);
                    }
                    lemma_collected_failure(s, k);
                }
                return Err(e);
            },
        }
    }
    proof {
        assert(s.take(s.len() as int) =~= s);
    }
    Ok(acc)
}

/// Keeps the successes of `seq`, in their order, and drops the failures.
pub fn filter_successes<T, E>(seq: Vec<Result<T, E>>) -> (out: Vec<Result<T, E>>)
    ensures
        out@ == seq@.filter(|r: Result<T, E>| r is Ok),
{
    let ghost s = seq@;
    let ghost keep = |r: Result<T, E>| r is Ok;
    let mut kept: Vec<Result<T, E>> = Vec::new();
    proof {
        reveal(Seq::filter);
        assert(s.take(0) =~= Seq::<Result<T, E>>::empty());
    }
    for r in it: seq
        invariant
            it.seq() == s,
            keep == (|r: Result<T, E>| r is Ok),
            kept@ == s.take(it.index() as int).filter(keep),
    {
        let ghost k = it.index() as int;
        proof {
            assert(s.take(k + 1) =~= s.take(k).push(s[k]));
            s.take(k).lemma_filter_push(s[k], keep);
        }
        if r.is_ok() {
            kept.push(r);
        }
    }
    proof {
        assert(s.take(s.len() as int) =~= s);
    }
    kept
}

} // verus!
