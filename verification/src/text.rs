//! Bytes that stand for text.

use std::str::Utf8Error;

use vstd::prelude::*;
use vstd::utf8::{decode_utf8, valid_utf8};

use crate::error::Error;

verus! {

/// `std::str::Utf8Error`, the error of `from_utf8`; nothing is claimed of what it holds.
#[verifier::external_type_specification]
#[verifier::external_body]
pub struct ExUtf8Error(Utf8Error);

/// `std::str::from_utf8` succeeds exactly on valid UTF-8, and then gives the text that the bytes
/// encode.
pub assume_specification[ std::str::from_utf8 ](v: &[u8]) -> (r: Result<&str, Utf8Error>)
    ensures
        r is Ok <==> valid_utf8(v@),
        r matches Ok(s) ==> s@ == decode_utf8(v@),
;

/// The text that `String::from_utf8_lossy` makes of bytes.
pub uninterp spec fn lossy_text(bytes: Seq<u8>) -> Seq<char>;

/// `String::from_utf8_lossy` depends on the bytes alone, and gives the text that valid UTF-8
/// encodes. Left unsaid is where it puts replacement characters for bytes that are not valid.
#[verifier::external_body]
fn lossy(bytes: &[u8]) -> (r: String)
    ensures
        r@ == lossy_text(bytes@),
        valid_utf8(bytes@) ==> r@ == decode_utf8(bytes@),
{
    String::from_utf8_lossy(bytes).into_owned()
}

/// Whether `r` is the text that `bytes` encode, or the error for bytes that are not valid UTF-8.
pub open spec fn is_text_of(bytes: Seq<u8>, r: Result<&str, Error>) -> bool {
    match r {
        Ok(s) => valid_utf8(bytes) && s@ == decode_utf8(bytes),
        Err(e) => !valid_utf8(bytes) && e == Error::Utf8,
    }
}

/// Takes bytes as text.
pub fn text_of<'a>(bytes: &'a [u8]) -> (r: Result<&'a str, Error>)
    ensures
        is_text_of(bytes@, r),
{
    match std::str::from_utf8(bytes) {
        Ok(s) => Ok(s),
        Err(_) => Err(Error::Utf8),
    }
}

/// Takes bytes as text; what is not valid UTF-8 is replaced.
pub fn text_of_lossy(bytes: &[u8]) -> (r: String)
    ensures
        r@ == lossy_text(bytes@),
        valid_utf8(bytes@) ==> r@ == decode_utf8(bytes@),
{
    lossy(bytes)
}

/// Whether `r` is the text of what was emitted, or the error why nothing was.
pub open spec fn is_emitted_text(bytes: Result<Vec<u8>, Error>, r: Result<String, Error>) -> bool {
    match bytes {
        Ok(b) => r matches Ok(s) && s@ == lossy_text(b@) && (valid_utf8(b@) ==> s@ == decode_utf8(
            b@,
        )),
        Err(e) => r == Err::<String, Error>(e),
    }
}

/// Turns what was emitted into text.
pub fn emitted_text(bytes: Result<Vec<u8>, Error>) -> (r: Result<String, Error>)
    ensures
        is_emitted_text(bytes, r),
{
    match bytes {
        Ok(b) => Ok(text_of_lossy(b.as_slice())),
        Err(e) => Err(e),
    }
}

/// What is shown of something that was emitted: the text, or `failure` if there is none.
pub fn display_text(emitted: Result<String, Error>, failure: &'static str) -> (r: String)
    ensures
        r@ == match emitted {
            Ok(s) => s@,
            Err(_) => failure@,
        },
{
    match emitted {
        Ok(s) => s,
        Err(_) => String::from_str(failure),
    }
}

/// The decimal digit for a number below ten.
pub open spec fn digit_char(d: nat) -> char {
    ('0' as u32 + d) as char
}

/// The decimal notation of a number.
pub open spec fn decimal(n: nat) -> Seq<char>
    decreases n,
{
    if n < 10 {
        seq![digit_char(n)]
    } else {
        decimal(n / 10).push(digit_char(n % 10))
    }
}

/// The decimal digit for a number below ten, as a string.
fn digit_str(d: u32) -> (r: &'static str)
    requires
        d < 10,
    ensures
        r@ == seq![digit_char(d as nat)],
{
    proof {
        reveal_strlit("0");
        reveal_strlit("1");
        reveal_strlit("2");
        reveal_strlit("3");
        reveal_strlit("4");
        reveal_strlit("5");
        reveal_strlit("6");
        reveal_strlit("7");
        reveal_strlit("8");
        reveal_strlit("9");
    }
    let r = match d {
        0 => "0",
        1 => "1",
        2 => "2",
        3 => "3",
        4 => "4",
        5 => "5",
        6 => "6",
        7 => "7",
        8 => "8",
        _ => "9",
    };
    assert(r@ =~= seq![digit_char(d as nat)]);
    r
}

/// Writes a number in decimal notation at the end of `out`.
pub fn append_decimal(out: &mut String, n: u32)
    ensures
        final(out)@ == old(out)@ + decimal(n as nat),
    decreases n,
{
    if n < 10 {
        out.append(digit_str(n));
    } else {
        append_decimal(out, n / 10);
        out.append(digit_str(n % 10));
        assert(decimal(n as nat) =~= decimal(n as nat / 10) + seq![digit_char(n as nat % 10)]);
        assert(out@ =~= old(out)@ + decimal(n as nat));
    }
}

/// The decimal notation of a number denotes that number.
pub proof fn law_decimal_value(n: nat)
    ensures
        crate::path::digits_value(decimal(n)) == n,
    decreases n,
{
    reveal_with_fuel(crate::path::digits_value, 2);
    if n >= 10 {
        law_decimal_value(n / 10);
        assert(decimal(n).drop_last() =~= decimal(n / 10));
    } else {
        assert(decimal(n).drop_last() =~= Seq::<char>::empty());
    }
}

} // verus!
