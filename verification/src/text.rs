//! Text helpers: UTF-8 decoding of wire bytes, string building, and the
//! decimal and hexadecimal renderings used in error messages.
use vstd::prelude::*;
use vstd::utf8::*;

verus! {

/// The characters of the decimal rendering of `n` (no sign, no leading zeros;
/// `0` renders as `"0"`).
pub open spec fn decimal_chars(n: nat) -> Seq<char>
    decreases n,
{
    if n < 10 {
        seq![digit_char(n)]
    } else {
        decimal_chars(n / 10).push(digit_char(n % 10))
    }
}

/// The ASCII digit for a value below ten.
pub open spec fn digit_char(d: nat) -> char {
    if d == 0 {
        '0'
    } else if d == 1 {
        '1'
    } else if d == 2 {
        '2'
    } else if d == 3 {
        '3'
    } else if d == 4 {
        '4'
    } else if d == 5 {
        '5'
    } else if d == 6 {
        '6'
    } else if d == 7 {
        '7'
    } else if d == 8 {
        '8'
    } else {
        '9'
    }
}

/// The upper-case hexadecimal digit for a value below sixteen.
pub open spec fn hex_char(d: nat) -> char {
    if d < 10 {
        digit_char(d)
    } else if d == 10 {
        'A'
    } else if d == 11 {
        'B'
    } else if d == 12 {
        'C'
    } else if d == 13 {
        'D'
    } else if d == 14 {
        'E'
    } else {
        'F'
    }
}

/// The list rendering of a byte sequence, one element per byte, as `[1, 2, 3]`
/// (the `{:?}` rendering of a byte vector).
pub open spec fn debug_bytes(b: Seq<u8>) -> Seq<char> {
    seq!['['] + debug_items(b, false) + seq![']']
}

/// The list rendering of a byte sequence in two-digit upper-case hexadecimal,
/// as `[0A, FF]` (the `{:02X?}` rendering of a byte vector).
pub open spec fn debug_hex_bytes(b: Seq<u8>) -> Seq<char> {
    seq!['['] + debug_items(b, true) + seq![']']
}

/// The items of a list rendering, separated by `", "`.
pub open spec fn debug_items(b: Seq<u8>, hex: bool) -> Seq<char>
    decreases b.len(),
{
    if b.len() == 0 {
        seq![]
    } else if b.len() == 1 {
        debug_item(b[0], hex)
    } else {
        debug_items(b.drop_last(), hex) + seq![',', ' '] + debug_item(b.last(), hex)
    }
}

/// One byte rendered in decimal, or in two upper-case hexadecimal digits.
pub open spec fn debug_item(x: u8, hex: bool) -> Seq<char> {
    if hex {
        seq![hex_char(x as nat / 16), hex_char(x as nat % 16)]
    } else {
        decimal_chars(x as nat)
    }
}

/// Decodes `bytes` as UTF-8 into an owned string.
///
/// Trusted: calls `std::str::from_utf8`, whose documentation states that it
/// fails exactly on byte sequences that are not valid UTF-8; on success the
/// string holds the decoded characters.
#[verifier::external_body]
pub(crate) fn utf8_to_string(bytes: &[u8]) -> (r: Option<String>)
    ensures
        r is Some <==> valid_utf8(bytes@),
        r matches Some(s) ==> s@ == decode_utf8(bytes@),
{
    match std::str::from_utf8(bytes) {
        Ok(s) => Some(s.to_string()),
        Err(_) => None,
    }
}

/// The characters that `String::from_utf8_lossy` produces for `bytes`.
pub uninterp spec fn utf8_lossy(bytes: Seq<u8>) -> Seq<char>;

/// Decodes `bytes` as UTF-8, replacing invalid sequences.
///
/// Trusted: calls `String::from_utf8_lossy`. Its result is named by
/// `utf8_lossy`; the documentation states that valid UTF-8 is decoded
/// unchanged, which the second clause says. How invalid sequences are
/// replaced is left unsaid.
#[verifier::external_body]
pub(crate) fn utf8_lossy_string(bytes: &[u8]) -> (r: String)
    ensures
        r@ == utf8_lossy(bytes@),
        valid_utf8(bytes@) ==> r@ == decode_utf8(bytes@),
{
    String::from_utf8_lossy(bytes).into_owned()
}

/// Appends one character to a string.
///
/// Trusted: calls `String::push`.
#[verifier::external_body]
pub(crate) fn push_char(s: &mut String, c: char)
    ensures
        final(s)@ == old(s)@.push(c),
{
    s.push(c)
}

/// Appends a string slice to a string.
///
/// Trusted: calls `String::push_str`.
#[verifier::external_body]
pub(crate) fn push_str(s: &mut String, t: &str)
    ensures
        final(s)@ == old(s)@ + t@,
{
    s.push_str(t)
}

/// Makes an owned copy of a string slice.
pub fn owned(t: &str) -> (r: String)
    ensures
        r@ == t@,
{
    let mut s = String::new();
    push_str(&mut s, t);
    s
}

fn digit(d: u64) -> (c: char)
    requires
        d < 10,
    ensures
        c == digit_char(d as nat),
{
    if d == 0 {
        '0'
    } else if d == 1 {
        '1'
    } else if d == 2 {
        '2'
    } else if d == 3 {
        '3'
    } else if d == 4 {
        '4'
    } else if d == 5 {
        '5'
    } else if d == 6 {
        '6'
    } else if d == 7 {
        '7'
    } else if d == 8 {
        '8'
    } else {
        '9'
    }
}

fn hex_digit(d: u8) -> (c: char)
    requires
        d < 16,
    ensures
        c == hex_char(d as nat),
{
    if d < 10 {
        digit(d as u64)
    } else if d == 10 {
        'A'
    } else if d == 11 {
        'B'
    } else if d == 12 {
        'C'
    } else if d == 13 {
        'D'
    } else if d == 14 {
        'E'
    } else {
        'F'
    }
}

/// Appends the decimal rendering of `n`.
pub fn push_decimal(s: &mut String, n: u64)
    ensures
        final(s)@ == old(s)@ + decimal_chars(n as nat),
    decreases n,
{
    if n < 10 {
        push_char(s, digit(n));
    } else {
        push_decimal(s, n / 10);
        push_char(s, digit(n % 10));
    }
}

/// The decimal rendering of `n`.
pub fn decimal_string(n: u64) -> (r: String)
    ensures
        r@ == decimal_chars(n as nat),
{
    let mut s = String::new();
    push_decimal(&mut s, n);
    s
}

/// Appends the list rendering of `b` (decimal or hexadecimal items).
pub fn push_debug_bytes(s: &mut String, b: &[u8], hex: bool)
    ensures
        final(s)@ == old(s)@ + seq!['['] + debug_items(b@, hex) + seq![']'],
{
    push_char(s, '[');
    let ghost start = s@;
    let mut i: usize = 0;
    while i < b.len()
        invariant
            i <= b@.len(),
            s@ == start + debug_items(b@.take(i as int), hex),
        decreases b@.len() - i,
    {
        if i > 0 {
            push_char(s, ',');
            push_char(s, ' ');
        }
        let x = b[i];
        if hex {
            push_char(s, hex_digit(x / 16));
            push_char(s, hex_digit(x % 16));
        } else {
            push_decimal(s, x as u64);
        }
        proof {
            let t = b@.take(i + 1);
            assert(t.drop_last() =~= b@.take(i as int));
            assert(t.last() == x);
        }
        i = i + 1;
    }
    assert(b@.take(i as int) =~= b@);
    push_char(s, ']');
}

} // verus!
