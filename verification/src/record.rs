//! A small record and the lines of text that describe it.

use vstd::prelude::*;
use vstd::utf8::encode_utf8;

verus! {

/// A person's entry: a name and two numbers.
pub struct Info {
    pub name: String,
    pub age: i32,
    pub rating: i32,
}

/// The ASCII code of the decimal digit `d`.
pub open spec fn digit(d: int) -> u8 {
    (48 + d) as u8
}

/// The decimal digits of `n`, most significant first, as ASCII codes.
pub open spec fn digits(n: nat) -> Seq<u8>
    decreases n,
{
    if n < 10 {
        seq![digit(n as int)]
    } else {
        digits(n / 10).push(digit((n % 10) as int))
    }
}

/// The decimal text of `n`: a minus sign if `n` is negative, then the digits
/// of its magnitude.
pub open spec fn decimal(n: int) -> Seq<u8> {
    if n < 0 {
        seq![45u8] + digits((-n) as nat)
    } else {
        digits(n as nat)
    }
}

/// The line that carries the name.
pub open spec fn name_line(info: &Info) -> Seq<u8> {
    encode_utf8("name: "@) + encode_utf8(info.name@) + encode_utf8("\n"@)
}

/// The line that carries the age.
pub open spec fn age_line(info: &Info) -> Seq<u8> {
    encode_utf8("age: "@) + decimal(info.age as int) + encode_utf8("\n"@)
}

/// The line that carries the rating.
pub open spec fn rating_line(info: &Info) -> Seq<u8> {
    encode_utf8("rating: "@) + decimal(info.rating as int) + encode_utf8("\n"@)
}

/// The three lines of a record, in the order in which they are written.
pub open spec fn lines(info: &Info) -> Seq<Seq<u8>> {
    seq![name_line(info), age_line(info), rating_line(info)]
}

/// Appends the bytes of `src` to `dst`.
fn append_bytes(dst: &mut Vec<u8>, src: &[u8])
    ensures
        final(dst)@ == old(dst)@ + src@,
{
    let mut i: usize = 0;
    while i < src.len()
        invariant
            i <= src.len(),
            dst@ == old(dst)@ + src@.take(i as int),
        decreases src.len() - i,
    {
        dst.push(src[i]);
        i += 1;
        assert(src@.take(i as int) =~= src@.take(i - 1).push(src@[i - 1]));
    }
    assert(src@.take(src.len() as int) =~= src@);
}

/// Writes `n` in decimal.
pub fn decimal_bytes(n: i32) -> (out: Vec<u8>)
    ensures
        out@ == decimal(n as int),
{
    let negative = n < 0;
    let mut rest: u32 = if negative {
        (-(n as i64)) as u32
    } else {
        n as u32
    };
    let ghost magnitude = rest as nat;
    // The digits of the magnitude, least significant first.
    let mut low: Vec<u8> = Vec::new();
    while rest >= 10
        invariant
            digits(magnitude) == digits(rest as nat) + low@.reverse(),
        decreases rest,
    {
        let ghost before = low@;
        let d: u8 = (rest % 10) as u8;
        low.push(48 + d);
        proof {
            assert(low@.reverse() =~= seq![digit(d as int)] + before.reverse());
            assert(digits(rest as nat) == digits((rest / 10) as nat).push(digit(d as int)));
            assert(digits((rest / 10) as nat).push(digit(d as int)) + before.reverse()
                =~= digits((rest / 10) as nat) + low@.reverse());
        }
        rest = rest / 10;
    }
    let ghost before = low@;
    low.push(48 + rest as u8);
    proof {
        assert(low@.reverse() =~= seq![digit(rest as int)] + before.reverse());
        assert(digits(magnitude) =~= low@.reverse());
    }
    let mut out: Vec<u8> = Vec::new();
    if negative {
        out.push(45);
    }
    let ghost sign = out@;
    let mut i: usize = low.len();
    while i > 0
        invariant
            i <= low.len(),
            out@ == sign + low@.reverse().take(low.len() - i),
        decreases i,
    {
        i -= 1;
        out.push(low[i]);
        assert(low@.reverse().take(low.len() - i) =~= low@.reverse().take(low.len() - i - 1).push(
            low@[i as int],
        ));
    }
    assert(low@.reverse().take(low.len() as int) =~= low@.reverse());
    out
}

impl Info {
    /// The line that carries the name.
    pub fn name_line(&self) -> (out: Vec<u8>)
        ensures
            out@ == name_line(self),
    {
        let mut out: Vec<u8> = Vec::new();
        append_bytes(&mut out, "name: ".as_bytes());
        append_bytes(&mut out, self.name.as_str().as_bytes());
        append_bytes(&mut out, "\n".as_bytes());
        out
    }

    /// The line that carries the age.
    pub fn age_line(&self) -> (out: Vec<u8>)
        ensures
            out@ == age_line(self),
    {
        let mut out: Vec<u8> = Vec::new();
        append_bytes(&mut out, "age: ".as_bytes());
        append_bytes(&mut out, decimal_bytes(self.age).as_slice());
        append_bytes(&mut out, "\n".as_bytes());
        out
    }

    /// The line that carries the rating.
    pub fn rating_line(&self) -> (out: Vec<u8>)
        ensures
            out@ == rating_line(self),
    {
        let mut out: Vec<u8> = Vec::new();
        append_bytes(&mut out, "rating: ".as_bytes());
        append_bytes(&mut out, decimal_bytes(self.rating).as_slice());
        append_bytes(&mut out, "\n".as_bytes());
        out
    }
}

} // verus!
