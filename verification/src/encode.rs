//! Percent-encoding of names and values for request paths and queries.
use vstd::prelude::*;
use vstd::string::*;
use vstd::utf8::*;
use crate::text::{upper_hex_char, upper_hex_digit};

verus! {

/// The bytes that are never encoded: ASCII letters and digits, `-`, `_`,
/// `.` and `~`.
pub open spec fn is_unreserved(b: u8) -> bool {
    ||| 0x30 <= b <= 0x39
    ||| 0x41 <= b <= 0x5a
    ||| 0x61 <= b <= 0x7a
    ||| b == 0x2d
    ||| b == 0x5f
    ||| b == 0x2e
    ||| b == 0x7e
}

/// Whether `b` is copied as it is; `/` is, where `safe_slash` says so.
pub open spec fn is_kept(b: u8, safe_slash: bool) -> bool {
    is_unreserved(b) || (safe_slash && b == 0x2f)
}

/// What one byte becomes: itself, or `%` and its two upper-case
/// hexadecimal digits.
pub open spec fn encode_byte(b: u8, safe_slash: bool) -> Seq<char> {
    if is_kept(b, safe_slash) {
        seq![b as char]
    } else {
        seq!['%', upper_hex_char(b as int / 16), upper_hex_char(b as int % 16)]
    }
}

/// The percent-encoding of a byte string.
pub open spec fn percent_encode(bytes: Seq<u8>, safe_slash: bool) -> Seq<char>
    decreases bytes.len(),
{
    if bytes.len() == 0 {
        Seq::empty()
    } else {
        percent_encode(bytes.drop_last(), safe_slash) + encode_byte(bytes.last(), safe_slash)
    }
}

/// The percent-encoding of the UTF-8 bytes of a string.
pub open spec fn url_encoded(s: Seq<char>, safe_slash: bool) -> Seq<char> {
    percent_encode(encode_utf8(s), safe_slash)
}

/// Appends the percent-encoding of `data` to `out`.
pub fn push_urlencoded(out: &mut String, data: &str, safe_slash: bool)
    ensures
        final(out)@ == old(out)@ + url_encoded(data@, safe_slash),
{
    let bytes = data.as_bytes();
    let mut i: usize = 0;
    while i < bytes.len()
        invariant
            i <= bytes.len(),
            bytes@ == encode_utf8(data@),
            out@ == old(out)@ + percent_encode(bytes@.take(i as int), safe_slash),
        decreases bytes.len() - i,
    {
        let b = bytes[i];
        let ghost before = out@;
        if (b >= 0x30 && b <= 0x39) || (b >= 0x41 && b <= 0x5a) || (b >= 0x61 && b <= 0x7a)
            || b == 0x2d || b == 0x5f || b == 0x2e || b == 0x7e || (safe_slash && b == 0x2f) {
            out.push(b as char);
            assert(out@ =~= before + encode_byte(b, safe_slash));
        } else {
            out.push('%');
            out.push(upper_hex_digit(b / 16));
            out.push(upper_hex_digit(b % 16));
            assert(out@ =~= before + encode_byte(b, safe_slash));
        }
        i += 1;
        proof {
            let t = bytes@.take(i as int);
            assert(t.drop_last() =~= bytes@.take(i - 1));
            assert(t.last() == b);
        }
    }
    assert(bytes@.take(bytes.len() as int) == bytes@);
}

/// Percent-encodes the UTF-8 bytes of `data`. Letters, digits, `-`, `_`,
/// `.` and `~` are kept, and `/` too where `safe_slash` is set; every other
/// byte becomes `%` and two upper-case hexadecimal digits.
pub fn urlencode(data: &str, safe_slash: bool) -> (out: String)
    ensures
        out@ == url_encoded(data@, safe_slash),
{
    let mut out = String::new();
    push_urlencoded(&mut out, data, safe_slash);
    out
}

} // verus!
