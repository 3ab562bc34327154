//! Text helpers shared by the rest of the crate: the order on byte strings,
//! hexadecimal and decimal rendering, and string building.
use vstd::prelude::*;
use vstd::string::*;
use vstd::utf8::*;

verus! {

/// `String::push` appends one character.
pub assume_specification[ String::push ](s: &mut String, c: char)
    ensures
        final(s)@ == old(s)@.push(c),
;

/// `a` and `b` agree on their first `k` bytes.
pub open spec fn common_prefix(a: Seq<u8>, b: Seq<u8>, k: int) -> bool {
    &&& 0 <= k <= a.len()
    &&& k <= b.len()
    &&& forall|j: int| 0 <= j < k ==> a[j] == b[j]
}

/// Lexical order on byte strings: `a` comes strictly before `b`.
pub open spec fn bytes_lt(a: Seq<u8>, b: Seq<u8>) -> bool {
    exists|k: int| #[trigger]
        common_prefix(a, b, k) && k < b.len() && (k == a.len() || a[k] < b[k])
}

/// Lexical order on strings, taken on their UTF-8 bytes.
pub open spec fn str_lt(a: Seq<char>, b: Seq<char>) -> bool {
    bytes_lt(encode_utf8(a), encode_utf8(b))
}

/// Outcome of comparing two byte strings.
#[derive(Clone, Copy, Debug, PartialEq, Eq, Structural)]
pub enum Rank {
    Before,
    Same,
    After,
}

pub proof fn lemma_bytes_lt_irreflexive(a: Seq<u8>)
    ensures
        !bytes_lt(a, a),
{
}

pub proof fn lemma_bytes_lt_transitive(a: Seq<u8>, b: Seq<u8>, c: Seq<u8>)
    requires
        bytes_lt(a, b),
        bytes_lt(b, c),
    ensures
        bytes_lt(a, c),
{
    let k1 = choose|k: int| #[trigger]
        common_prefix(a, b, k) && k < b.len() && (k == a.len() || a[k] < b[k]);
    let k2 = choose|k: int| #[trigger]
        common_prefix(b, c, k) && k < c.len() && (k == b.len() || b[k] < c[k]);
    let k = if k1 <= k2 { k1 } else { k2 };
    assert(common_prefix(a, c, k));
}

pub proof fn lemma_bytes_lt_asymmetric(a: Seq<u8>, b: Seq<u8>)
    requires
        bytes_lt(a, b),
    ensures
        !bytes_lt(b, a),
        a != b,
{
    if bytes_lt(b, a) {
        lemma_bytes_lt_transitive(a, b, a);
    }
    lemma_bytes_lt_irreflexive(a);
}

/// Strings with the same UTF-8 bytes are the same string.
pub proof fn lemma_utf8_injective(a: Seq<char>, b: Seq<char>)
    requires
        encode_utf8(a) == encode_utf8(b),
    ensures
        a == b,
{
    encode_utf8_decode_utf8(a);
    encode_utf8_decode_utf8(b);
}

pub proof fn lemma_str_lt_transitive(a: Seq<char>, b: Seq<char>, c: Seq<char>)
    requires
        str_lt(a, b),
        str_lt(b, c),
    ensures
        str_lt(a, c),
{
    lemma_bytes_lt_transitive(encode_utf8(a), encode_utf8(b), encode_utf8(c));
}

pub proof fn lemma_str_lt_asymmetric(a: Seq<char>, b: Seq<char>)
    requires
        str_lt(a, b),
    ensures
        !str_lt(b, a),
        a != b,
{
    lemma_bytes_lt_asymmetric(encode_utf8(a), encode_utf8(b));
}

/// Of two byte strings that agree up to `k` and are not the same, one
/// comes before the other.
proof fn lemma_first_difference(a: Seq<u8>, b: Seq<u8>, k: int)
    requires
        common_prefix(a, b, k),
        a != b,
    ensures
        bytes_lt(a, b) || bytes_lt(b, a),
    decreases a.len() - k,
{
    if k == a.len() {
        if k == b.len() {
            assert(a =~= b);
        } else {
            assert(common_prefix(a, b, k));
        }
    } else if k == b.len() {
        assert(common_prefix(b, a, k));
    } else if a[k] < b[k] {
        assert(common_prefix(a, b, k));
    } else if b[k] < a[k] {
        assert(common_prefix(b, a, k));
    } else {
        assert(common_prefix(a, b, k + 1));
        lemma_first_difference(a, b, k + 1);
    }
}

/// The lexical order on strings is a strict total order: of two strings
/// that are not the same exactly one comes before the other, no string
/// comes before itself, and the order is transitive. So "sorted by key"
/// names one order of any set of keys.
pub proof fn law_key_order(a: Seq<char>, b: Seq<char>, c: Seq<char>)
    ensures
        !str_lt(a, a),
        a != b ==> (str_lt(a, b) != str_lt(b, a)),
        str_lt(a, b) && str_lt(b, c) ==> str_lt(a, c),
{
    lemma_bytes_lt_irreflexive(encode_utf8(a));
    if a != b {
        if encode_utf8(a) == encode_utf8(b) {
            lemma_utf8_injective(a, b);
        }
        lemma_first_difference(encode_utf8(a), encode_utf8(b), 0);
        if str_lt(a, b) {
            lemma_str_lt_asymmetric(a, b);
        }
    }
    if str_lt(a, b) && str_lt(b, c) {
        lemma_str_lt_transitive(a, b, c);
    }
}

/// Compares two byte strings in lexical order.
pub fn compare_bytes(a: &[u8], b: &[u8]) -> (r: Rank)
    ensures
        r == Rank::Before <==> bytes_lt(a@, b@),
        r == Rank::Same <==> a@ == b@,
        r == Rank::After <==> bytes_lt(b@, a@),
{
    let mut i: usize = 0;
    while i < a.len() && i < b.len()
        invariant
            common_prefix(a@, b@, i as int),
        decreases a.len() - i,
    {
        if a[i] < b[i] {
            proof {
                assert(common_prefix(a@, b@, i as int));
                lemma_bytes_lt_asymmetric(a@, b@);
            }
            return Rank::Before;
        }
        if a[i] > b[i] {
            proof {
                assert(common_prefix(b@, a@, i as int));
                lemma_bytes_lt_asymmetric(b@, a@);
            }
            return Rank::After;
        }
        i += 1;
    }
    if i < b.len() {
        proof {
            assert(common_prefix(a@, b@, i as int));
            lemma_bytes_lt_asymmetric(a@, b@);
        }
        Rank::Before
    } else if i < a.len() {
        proof {
            assert(common_prefix(b@, a@, i as int));
            lemma_bytes_lt_asymmetric(b@, a@);
        }
        Rank::After
    } else {
        proof {
            assert(a@ =~= b@);
            lemma_bytes_lt_irreflexive(a@);
        }
        Rank::Same
    }
}

/// Compares two strings in lexical order of their UTF-8 bytes.
pub fn compare_str(a: &str, b: &str) -> (r: Rank)
    ensures
        r == Rank::Before <==> str_lt(a@, b@),
        r == Rank::Same <==> a@ == b@,
        r == Rank::After <==> str_lt(b@, a@),
{
    let r = compare_bytes(a.as_bytes(), b.as_bytes());
    proof {
        if a@ == b@ {
        } else if encode_utf8(a@) == encode_utf8(b@) {
            lemma_utf8_injective(a@, b@);
        }
    }
    r
}

/// Whether two strings hold the same characters.
pub fn str_eq(a: &str, b: &str) -> (r: bool)
    ensures
        r == (a@ == b@),
{
    match compare_str(a, b) {
        Rank::Same => true,
        _ => false,
    }
}

/// Appends the characters of `v` to `s`.
pub fn push_chars(s: &mut String, v: &Vec<char>)
    ensures
        final(s)@ == old(s)@ + v@,
{
    let mut i: usize = 0;
    while i < v.len()
        invariant
            i <= v.len(),
            s@ == old(s)@ + v@.take(i as int),
        decreases v.len() - i,
    {
        s.push(v[i]);
        i += 1;
        assert(v@.take(i as int) == v@.take(i - 1).push(v@[i - 1]));
    }
    assert(v@.take(v.len() as int) == v@);
}

/// The characters of a string, in a vector.
pub fn to_chars(s: &str) -> (v: Vec<char>)
    ensures
        v@ == s@,
{
    let mut v: Vec<char> = Vec::new();
    for c in it: s.chars()
        invariant
            it.seq() == s@,
            v@ == s@.take(it.index() as int),
    {
        v.push(c);
        assert(s@.take(it.index() + 1) == s@.take(it.index() as int).push(s@[it.index() as int]));
    }
    assert(s@.take(s@.len() as int) == s@);
    v
}

/// The string made of the characters of `v`.
pub fn from_chars(v: &Vec<char>) -> (s: String)
    ensures
        s@ == v@,
{
    let mut s = String::new();
    push_chars(&mut s, v);
    s
}

/// The character of the decimal digit `d`.
pub open spec fn digit_char(d: int) -> char
    recommends
        0 <= d < 10,
{
    ((48 + d) as u8) as char
}

/// The lower-case character of the hexadecimal digit `d`.
pub open spec fn hex_char(d: int) -> char
    recommends
        0 <= d < 16,
{
    if d < 10 {
        ((48 + d) as u8) as char
    } else {
        ((87 + d) as u8) as char
    }
}

/// The upper-case character of the hexadecimal digit `d`.
pub open spec fn upper_hex_char(d: int) -> char
    recommends
        0 <= d < 16,
{
    if d < 10 {
        ((48 + d) as u8) as char
    } else {
        ((55 + d) as u8) as char
    }
}

/// Lower-case hexadecimal rendering of a byte string, two characters a byte.
pub open spec fn hex(bytes: Seq<u8>) -> Seq<char> {
    Seq::new(
        2 * bytes.len(),
        |i: int|
            if i % 2 == 0 {
                hex_char(bytes[i / 2] as int / 16)
            } else {
                hex_char(bytes[i / 2] as int % 16)
            },
    )
}

/// A hexadecimal rendering holds digits and the letters `a` to `f` only.
pub proof fn lemma_hex_chars(bytes: Seq<u8>)
    ensures
        forall|i: int|
            0 <= i < hex(bytes).len() ==> ('0' <= #[trigger] hex(bytes)[i] <= '9') || ('a' <= hex(
                bytes,
            )[i] <= 'f'),
{
}

/// Decimal rendering of a natural number, without leading zeros.
pub open spec fn decimal(n: nat) -> Seq<char>
    decreases n,
{
    if n < 10 {
        seq![digit_char(n as int)]
    } else {
        decimal(n / 10).push(digit_char((n % 10) as int))
    }
}

/// Decimal rendering of `n` in exactly `width` digits, zero-padded on the
/// left; the digits above `width` are dropped.
pub open spec fn padded(n: nat, width: nat) -> Seq<char>
    decreases width,
{
    if width == 0 {
        Seq::empty()
    } else {
        padded(n / 10, (width - 1) as nat).push(digit_char((n % 10) as int))
    }
}

fn digit(d: u8) -> (c: char)
    requires
        d < 10,
    ensures
        c == digit_char(d as int),
{
    (48u8 + d) as char
}

fn hex_digit(d: u8) -> (c: char)
    requires
        d < 16,
    ensures
        c == hex_char(d as int),
{
    if d < 10 {
        (48u8 + d) as char
    } else {
        (87u8 + d) as char
    }
}

/// The upper-case hexadecimal digit `d` as a character.
pub fn upper_hex_digit(d: u8) -> (c: char)
    requires
        d < 16,
    ensures
        c == upper_hex_char(d as int),
{
    if d < 10 {
        (48u8 + d) as char
    } else {
        (55u8 + d) as char
    }
}

/// Renders a byte string in lower-case hexadecimal.
pub fn hex_lower(bytes: &[u8]) -> (s: String)
    ensures
        s@ == hex(bytes@),
{
    let mut s = String::new();
    let mut i: usize = 0;
    while i < bytes.len()
        invariant
            i <= bytes.len(),
            s@ == hex(bytes@.take(i as int)),
        decreases bytes.len() - i,
    {
        let b = bytes[i];
        s.push(hex_digit(b / 16));
        s.push(hex_digit(b % 16));
        i += 1;
        assert(s@ =~= hex(bytes@.take(i as int)));
    }
    assert(bytes@.take(bytes.len() as int) == bytes@);
    s
}

/// Appends the decimal rendering of `n` to `s`.
pub fn push_decimal(s: &mut String, n: u64)
    ensures
        final(s)@ == old(s)@ + decimal(n as nat),
    decreases n,
{
    if n >= 10 {
        push_decimal(s, n / 10);
    }
    s.push(digit((n % 10) as u8));
    assert(s@ =~= old(s)@ + decimal(n as nat));
}

/// Renders `n` in decimal.
pub fn decimal_string(n: u64) -> (s: String)
    ensures
        s@ == decimal(n as nat),
{
    let mut s = String::new();
    push_decimal(&mut s, n);
    s
}

/// Appends `n` in exactly `width` decimal digits, zero-padded.
pub fn push_padded(s: &mut String, n: u32, width: u8)
    ensures
        final(s)@ == old(s)@ + padded(n as nat, width as nat),
    decreases width,
{
    if width > 0 {
        push_padded(s, n / 10, width - 1);
        s.push(digit((n % 10) as u8));
        assert(s@ =~= old(s)@ + padded(n as nat, width as nat));
    }
}

} // verus!
