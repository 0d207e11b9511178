//! Percent-encoding of query components.
use vstd::prelude::*;
use vstd::utf8::encode_utf8;

verus! {

/// Bytes that `urlencoding` leaves as they are: ASCII alphanumerics and `-_.~`.
pub open spec fn url_safe_byte(b: u8) -> bool {
    ||| (48 <= b && b <= 57)
    ||| (65 <= b && b <= 90)
    ||| (97 <= b && b <= 122)
    ||| b == 45
    ||| b == 46
    ||| b == 95
    ||| b == 126
}

/// Upper-case hexadecimal digit for `d < 16`.
pub open spec fn hex_upper(d: u8) -> char {
    if d < 10 {
        ((48 + d) as u8) as char
    } else {
        ((55 + d) as u8) as char
    }
}

/// Percent-encoding of one byte.
pub open spec fn url_encode_byte(b: u8) -> Seq<char> {
    if url_safe_byte(b) {
        seq![b as char]
    } else {
        seq!['%', hex_upper(b >> 4), hex_upper(b & 15)]
    }
}

/// Percent-encoding of a byte string, byte by byte.
pub open spec fn url_encode_bytes(bs: Seq<u8>) -> Seq<char>
    decreases bs.len(),
{
    if bs.len() == 0 {
        Seq::empty()
    } else {
        url_encode_bytes(bs.drop_last()) + url_encode_byte(bs.last())
    }
}

/// Percent-encoding of the UTF-8 encoding of `s`.
pub open spec fn url_encode(s: Seq<char>) -> Seq<char> {
    url_encode_bytes(encode_utf8(s))
}

/// `urlencoding::encode`: every byte of the UTF-8 encoding of `s` but the
/// ASCII alphanumerics and `-_.~` becomes `%` and two upper-case hex digits;
/// the contract states that mapping exactly.
#[verifier::external_body]
pub(crate) fn url_encode_str(s: &str) -> (r: String)
    ensures
        r@ == url_encode(s@),
{
    urlencoding::encode(s).into_owned()
}

} // verus!
