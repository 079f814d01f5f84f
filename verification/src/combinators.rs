//! Queries and combinators on a single `Result`.
//!
//! Each operation is written out by cases, so its contract is proved from the
//! two variants rather than taken on trust. A function argument is described
//! by what it requires and what it ensures: where a contract says
//! `f.ensures((v,), w)`, `w` is a value that `f` may return when called on `v`.

use std::ops::ControlFlow;
use vstd::prelude::*;

verus! {

/// Whether `r` is a success.
pub fn is_success<T, E>(r: &Result<T, E>) -> (b: bool)
    ensures
        b == (r is Ok),
{
    match r {
        Ok(_) => true,
        Err(_) => false,
    }
}

/// Whether `r` is a failure.
pub fn is_failure<T, E>(r: &Result<T, E>) -> (b: bool)
    ensures
        b == (r is Err),
{
    match r {
        Ok(_) => false,
        Err(_) => true,
    }
}

/// Applies `f` to the success value. A failure passes through with its error
/// untouched, and `f` is not called: nothing is asked of `f` in that case.
pub fn map<T, E, U, F: FnOnce(T) -> U>(r: Result<T, E>, f: F) -> (out: Result<U, E>)
    requires
        r is Ok ==> f.requires((r->Ok_0,)),
    ensures
        r is Ok ==> out is Ok && f.ensures((r->Ok_0,), out->Ok_0),
        r is Err ==> out == Err::<U, E>(r->Err_0),
{
    match r {
        Ok(v) => Ok(f(v)),
        Err(e) => Err(e),
    }
}

/// Applies `f` to the error value. A success passes through with its value
/// untouched, and `f` is not called.
pub fn map_error<T, E, G, F: FnOnce(E) -> G>(r: Result<T, E>, f: F) -> (out: Result<T, G>)
    requires
        r is Err ==> f.requires((r->Err_0,)),
    ensures
        r is Err ==> out is Err && f.ensures((r->Err_0,), out->Err_0),
        r is Ok ==> out == Ok::<T, G>(r->Ok_0),
{
    match r {
        Ok(v) => Ok(v),
        Err(e) => Err(f(e)),
    }
}

/// Continues a success with the fallible step `f` and returns what `f`
/// returns. A failure short-circuits: it is returned as it is and `f` is not
/// called, so nothing is asked of `f` in that case.
pub fn and_then<T, E, U, F: FnOnce(T) -> Result<U, E>>(r: Result<T, E>, f: F) -> (out: Result<U, E>)
    requires
        r is Ok ==> f.requires((r->Ok_0,)),
    ensures
        r is Ok ==> f.ensures((r->Ok_0,), out),
        r is Err ==> out == Err::<U, E>(r->Err_0),
{
    match r {
        Ok(v) => f(v),
        Err(e) => Err(e),
    }
}

/// Recovers from a failure with the fallible step `f` and returns what `f`
/// returns. A success is returned as it is and `f` is not called.
pub fn or_else<T, E, G, F: FnOnce(E) -> Result<T, G>>(r: Result<T, E>, f: F) -> (out: Result<T, G>)
    requires
        r is Err ==> f.requires((r->Err_0,)),
    ensures
        r is Err ==> f.ensures((r->Err_0,), out),
        r is Ok ==> out == Ok::<T, G>(r->Ok_0),
{
    match r {
        Ok(v) => Ok(v),
        Err(e) => f(e),
    }
}

/// Takes the success value out of `r`.
///
/// Calling this on a failure is a programming error, which the precondition
/// rules out for verified callers. Unverified callers that break it abort
/// with a panic; the failure is never turned into an ordinary return value.
pub fn unwrap<T, E>(r: Result<T, E>) -> (v: T)
    requires
        r is Ok,
    ensures
        v == r->Ok_0,
{
    match r {
        Ok(v) => v,
        Err(_) => vstd::pervasive::unreached(),
    }
}

/// Splits `r` for an early return. A success yields its payload, for use in
/// the code that follows (`Continue`). A failure is handed back still
/// wrapped, as the value that the enclosing function is to return at once
/// (`Break`); its error is not taken out and not changed.
pub fn propagate<T, E, U>(r: Result<T, E>) -> (step: ControlFlow<Result<U, E>, T>)
    ensures
        step == match r {
            Ok(v) => ControlFlow::<Result<U, E>, T>::Continue(v),
            Err(e) => ControlFlow::<Result<U, E>, T>::Break(Err(e)),
        },
{
    match r {
        Ok(v) => ControlFlow::Continue(v),
        Err(e) => ControlFlow::Break(Err(e)),
    }
}

/// A success is a success and not a failure; a failure is a failure and not a
/// success; and every result is exactly one of the two.
pub proof fn lemma_success_excludes_failure<T, E>(v: T, e: E, r: Result<T, E>)
    ensures
        Ok::<T, E>(v) is Ok,
        !(Ok::<T, E>(v) is Err),
        Err::<T, E>(e) is Err,
        !(Err::<T, E>(e) is Ok),
        (r is Ok) != (r is Err),
{
}

/// When `f` can only return `g(v)` on `v`, mapping a success `v` gives the
/// success `g(v)`: any `out` that `map` may return for it is `Ok(g(v))`.
pub proof fn lemma_map_success<T, E, U, F: FnOnce(T) -> U>(
    v: T,
    f: F,
    g: spec_fn(T) -> U,
    out: Result<U, E>,
)
    requires
        forall|w: U| f.ensures((v,), w) ==> w == g(v),
        out is Ok && f.ensures((v,), out->Ok_0),
    ensures
        out == Ok::<U, E>(g(v)),
{
}

} // verus!
