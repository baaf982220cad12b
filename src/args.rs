//! Parsing of the command-line values the benchmark takes: a timeout in
//! seconds and a payload size in bytes.
use vstd::prelude::*;
use core::num::ParseIntError;

verus! {

#[verifier::external_type_specification]
#[verifier::external_body]
pub struct ExParseIntError(ParseIntError);

/// Whether `c` is an ASCII decimal digit.
pub open spec fn is_digit(c: char) -> bool {
    48 <= (c as u32) <= 57
}

/// The value of the decimal digits `s`.
pub open spec fn digits_value(s: Seq<char>) -> nat
    decreases s.len(),
{
    if s.len() == 0 {
        0
    } else {
        digits_value(s.drop_last()) * 10 + ((s.last() as u32) - 48) as nat
    }
}

/// The unsigned integer written in `s`: an optional `+`, then one or more
/// decimal digits, with a value that fits in a `u64`. Anything else has none.
pub open spec fn u64_of(s: Seq<char>) -> Option<u64> {
    let d = if s.len() > 0 && s[0] == '+' {
        s.drop_first()
    } else {
        s
    };
    if d.len() > 0 && (forall|i: int| 0 <= i < d.len() ==> is_digit(#[trigger] d[i]))
        && digits_value(d) <= u64::MAX {
        Some(digits_value(d) as u64)
    } else {
        None
    }
}

/// What `bytesize` reads from `s`: a number of bytes, or its message saying
/// why `s` is no size.
pub uninterp spec fn byte_size_of(s: Seq<char>) -> Result<u64, Seq<char>>;

/// Relies on `FromStr` for `u64`: an optional `+` followed by decimal digits
/// whose value fits; an error otherwise.
#[verifier::external_body]
fn parse_u64(s: &str) -> (r: Result<u64, ParseIntError>)
    ensures
        r is Ok <==> u64_of(s@) is Some,
        r is Ok ==> u64_of(s@) == Some(r->Ok_0),
{
    s.parse::<u64>()
}

/// Relies on `FromStr` for `bytesize::ByteSize` and `ByteSize::as_u64`: the
/// number of bytes a size such as `128K` or `1.5 MiB` stands for, or the
/// crate's error message; a plain unsigned integer is taken as that many
/// bytes.
#[verifier::external_body]
fn parse_byte_size(s: &str) -> (r: Result<u64, String>)
    ensures
        r is Ok <==> byte_size_of(s@) is Ok,
        r is Ok ==> r->Ok_0 == byte_size_of(s@)->Ok_0,
        r is Err ==> r->Err_0@ == byte_size_of(s@)->Err_0,
        u64_of(s@) is Some ==> r is Ok && r->Ok_0 == u64_of(s@)->0,
{
    s.parse::<bytesize::ByteSize>().map(|b| b.as_u64())
}

/// A timeout given in whole seconds.
pub fn parse_duration(arg: &str) -> (r: Result<u64, ParseIntError>)
    ensures
        r is Ok <==> u64_of(arg@) is Some,
        r matches Ok(v) ==> u64_of(arg@) == Some(v),
{
    parse_u64(arg)
}

/// A payload size in bytes, written plainly or with a unit (`128K`); on
/// failure, the message of the size parser.
pub fn parse_human_bytes(arg: &str) -> (r: Result<usize, String>)
    ensures
        r is Ok <==> byte_size_of(arg@) is Ok,
        r matches Ok(v) ==> byte_size_of(arg@) matches Ok(n) && v == n as usize,
        r matches Err(m) ==> byte_size_of(arg@) == Err::<u64, Seq<char>>(m@),
        u64_of(arg@) matches Some(n) ==> r == Ok::<usize, String>(n as usize),
{
    match parse_byte_size(arg) {
        Ok(n) => Ok(n as usize),
        Err(e) => Err(e),
    }
}

} // verus!
