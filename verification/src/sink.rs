//! Writing through a fallible byte sink.
//!
//! The sink is whatever the caller supplies: a function that takes a chunk of
//! bytes and reports success or a failure reason. Nothing here touches a
//! file. A sequence of writes stops at the first failure and hands that
//! failure back unchanged.

use crate::combinators::propagate;
use crate::record::{lines, Info};
use std::ops::ControlFlow;
use vstd::prelude::*;
use vstd::utf8::encode_utf8;

verus! {

/// `r` is an outcome that the sink may report when handed `bytes`.
pub open spec fn may_report<E, W: Fn(&[u8]) -> Result<(), E>>(
    write: W,
    bytes: Seq<u8>,
    r: Result<(), E>,
) -> bool {
    exists|b: &[u8]| b@ == bytes && #[trigger] write.ensures((b,), r)
}

/// `out` is what writing `chunks` in order may give: success when the sink
/// accepted every chunk, and otherwise the failure that the sink reported for
/// one chunk after it had accepted all the chunks before it.
pub open spec fn written_in_order<E, W: Fn(&[u8]) -> Result<(), E>>(
    write: W,
    chunks: Seq<Seq<u8>>,
    out: Result<(), E>,
) -> bool {
    match out {
        Ok(_) => forall|i: int| 0 <= i < chunks.len() ==> may_report(write, #[trigger] chunks[i], Ok(())),
        Err(e) => exists|i: int|
            {
                &&& 0 <= i < chunks.len()
                &&& may_report(write, #[trigger] chunks[i], Err(e))
                &&& forall|j: int| 0 <= j < i ==> may_report(write, #[trigger] chunks[j], Ok(()))
            },
    }
}

/// The sink can be handed each of `chunks`.
pub open spec fn accepts<E, W: Fn(&[u8]) -> Result<(), E>>(write: W, chunks: Seq<Seq<u8>>) -> bool {
    forall|b: &[u8], i: int| 0 <= i < chunks.len() && b@ == #[trigger] chunks[i] ==> #[trigger] write.requires((b,))
}

/// The text of the one message that `propagate_error` writes.
pub open spec fn message() -> Seq<u8> {
    encode_utf8("some message"@)
}

/// Writes one fixed message to the sink and passes on a failure of that
/// write to the caller, with the check and the early return written out.
pub fn propagate_error<E, W: Fn(&[u8]) -> Result<(), E>>(write: W) -> (out: Result<(), E>)
    requires
        accepts(write, seq![message()]),
    ensures
        written_in_order(write, seq![message()], out),
{
    let text = "some message".as_bytes();
    assert(seq![message()][0] == text@);
    match propagate::<(), E, ()>(write(text)) {
        ControlFlow::Break(failure) => failure,
        ControlFlow::Continue(_) => Ok(()),
    }
}

/// Writes the three lines of `info` to the sink, in order, with `?` after
/// each write. The first write that fails ends the function with that
/// failure; the lines after it are not written.
pub fn question_mark_operator<E, W: Fn(&[u8]) -> Result<(), E>>(info: &Info, write: W) -> (out: Result<(), E>)
    requires
        accepts(write, lines(info)),
    ensures
        written_in_order(write, lines(info), out),
{
    let name = info.name_line();
    let age = info.age_line();
    let rating = info.rating_line();
    assert(lines(info)[0] == name@ && lines(info)[1] == age@ && lines(info)[2] == rating@);
    write(name.as_slice())?;
    write(age.as_slice())?;
    write(rating.as_slice())?;
    Ok(())
}

} // verus!
