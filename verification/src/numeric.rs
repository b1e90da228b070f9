//! Decimal text of numbers as the servers send it: integer parsing with
//! range checks, and the grammar of floating-point literals.
use vstd::prelude::*;
use vstd::utf8::*;

use crate::table::signed_decimal;
use crate::text::{decimal_chars, digit_char};

verus! {

pub open spec fn is_digit(c: u8) -> bool {
    48 <= c <= 57
}

pub open spec fn all_digits(s: Seq<u8>) -> bool {
    forall|i: int| 0 <= i < s.len() ==> is_digit(#[trigger] s[i])
}

/// The value of a run of decimal digits.
pub open spec fn digits_value(s: Seq<u8>) -> nat
    decreases s.len(),
{
    if s.len() == 0 {
        0
    } else {
        digits_value(s.drop_last()) * 10 + (s.last() - 48) as nat
    }
}

/// Unsigned decimal text: an optional `+`, then one or more digits, with a
/// value of at most `max`.
pub open spec fn spec_parse_unsigned(s: Seq<u8>, max: nat) -> Option<nat> {
    let d = if s.len() > 0 && s[0] == 43 {
        s.drop_first()
    } else {
        s
    };
    if d.len() == 0 || !all_digits(d) || digits_value(d) > max {
        None
    } else {
        Some(digits_value(d))
    }
}

/// Signed 64-bit decimal text: an optional `+` or `-`, then one or more
/// digits, with a value in the range of `i64`.
pub open spec fn spec_parse_i64(s: Seq<u8>) -> Option<int> {
    if s.len() > 0 && s[0] == 45 {
        let d = s.drop_first();
        if d.len() == 0 || !all_digits(d) || digits_value(d) > 0x8000_0000_0000_0000 {
            None
        } else {
            Some(-(digits_value(d) as int))
        }
    } else {
        match spec_parse_unsigned(s, 0x7fff_ffff_ffff_ffff) {
            Some(v) => Some(v as int),
            None => None,
        }
    }
}

/// ASCII lower-casing of one byte.
pub open spec fn lower(c: u8) -> u8 {
    if 65 <= c <= 90 {
        (c + 32) as u8
    } else {
        c
    }
}

pub open spec fn lowercase(s: Seq<u8>) -> Seq<u8> {
    s.map_values(|c: u8| lower(c))
}

/// The first index at or after `i` holding `e` or `E`.
pub open spec fn exp_index(s: Seq<u8>, i: int) -> Option<int>
    decreases s.len() - i,
{
    if i < 0 || i >= s.len() {
        None
    } else if s[i] == 101 || s[i] == 69 {
        Some(i)
    } else {
        exp_index(s, i + 1)
    }
}

/// The first index at or after `i` holding `.`.
pub open spec fn dot_index(s: Seq<u8>, i: int) -> Option<int>
    decreases s.len() - i,
{
    if i < 0 || i >= s.len() {
        None
    } else if s[i] == 46 {
        Some(i)
    } else {
        dot_index(s, i + 1)
    }
}

/// `Digit+ | Digit+ '.' Digit* | Digit* '.' Digit+`
pub open spec fn is_mantissa(m: Seq<u8>) -> bool {
    match dot_index(m, 0) {
        None => m.len() > 0 && all_digits(m),
        Some(d) => all_digits(m.take(d)) && all_digits(m.skip(d + 1)) && (d > 0 || m.len() > d
            + 1),
    }
}

/// `Sign? Digit+`
pub open spec fn is_exponent(x: Seq<u8>) -> bool {
    let y = if x.len() > 0 && (x[0] == 43 || x[0] == 45) {
        x.drop_first()
    } else {
        x
    };
    y.len() > 0 && all_digits(y)
}

/// `Mantissa Exp?` where `Exp ::= ('e' | 'E') Sign? Digit+`
pub open spec fn is_number(b: Seq<u8>) -> bool {
    match exp_index(b, 0) {
        None => is_mantissa(b),
        Some(k) => is_mantissa(b.take(k)) && is_exponent(b.skip(k + 1)),
    }
}

/// The grammar that floating-point parsing accepts:
/// `Sign? ('inf' | 'infinity' | 'nan' | Number)`, letters in any case.
pub open spec fn is_float_text(s: Seq<u8>) -> bool {
    let b = if s.len() > 0 && (s[0] == 43 || s[0] == 45) {
        s.drop_first()
    } else {
        s
    };
    lowercase(b) == seq![105u8, 110, 102] || lowercase(b) == seq![
        105u8,
        110,
        102,
        105,
        110,
        105,
        116,
        121,
    ] || lowercase(b) == seq![110u8, 97, 110] || is_number(b)
}

/// The bytes of ASCII characters, one each.
pub open spec fn ascii_bytes(chars: Seq<char>) -> Seq<u8> {
    Seq::new(chars.len(), |i: int| chars[i] as u8)
}

proof fn lemma_digit_char(d: nat)
    requires
        d < 10,
    ensures
        digit_char(d) as u8 == 48 + d,
        '0' <= digit_char(d) <= '9',
{
    assert('0' as u8 == 48);
    assert('1' as u8 == 49);
    assert('2' as u8 == 50);
    assert('3' as u8 == 51);
    assert('4' as u8 == 52);
    assert('5' as u8 == 53);
    assert('6' as u8 == 54);
    assert('7' as u8 == 55);
    assert('8' as u8 == 56);
    assert('9' as u8 == 57);
}

/// The decimal rendering of `n` is ASCII digits whose value is `n`.
pub proof fn lemma_decimal_digits(n: nat)
    ensures
        decimal_chars(n).len() > 0,
        is_ascii_chars(decimal_chars(n)),
        encode_utf8(decimal_chars(n)) == ascii_bytes(decimal_chars(n)),
        all_digits(ascii_bytes(decimal_chars(n))),
        digits_value(ascii_bytes(decimal_chars(n))) == n,
    decreases n,
{
    let c = decimal_chars(n);
    if n < 10 {
        lemma_digit_char(n);
        assert(ascii_bytes(c).drop_last() =~= Seq::<u8>::empty());
        assert(ascii_bytes(c).last() == 48 + n);
        assert(digits_value(Seq::<u8>::empty()) == 0);
        assert(digits_value(ascii_bytes(c)) == digits_value(ascii_bytes(c).drop_last()) * 10 + (
        ascii_bytes(c).last() - 48) as nat);
    } else {
        lemma_decimal_digits(n / 10);
        lemma_digit_char(n % 10);
        let p = decimal_chars(n / 10);
        assert(c == p.push(digit_char(n % 10)));
        assert(ascii_bytes(c).drop_last() =~= ascii_bytes(p));
        assert(ascii_bytes(c).last() == 48 + n % 10);
        assert(digits_value(ascii_bytes(c)) == (n / 10) * 10 + n % 10);
        assert((n / 10) * 10 + n % 10 == n);
    }
    assert(is_ascii_chars(c)) by {
        if n >= 10 {
            assert forall|i: int| 0 <= i < c.len() implies '\0' <= #[trigger] c[i] <= '\u{7f}' by {
                if i < c.len() - 1 {
                    assert(c[i] == decimal_chars(n / 10)[i]);
                }
            }
        }
    }
    assert(all_digits(ascii_bytes(c))) by {
        if n >= 10 {
            assert forall|i: int| 0 <= i < ascii_bytes(c).len() implies is_digit(
                #[trigger] ascii_bytes(c)[i],
            ) by {
                if i < c.len() - 1 {
                    assert(ascii_bytes(c)[i] == ascii_bytes(decimal_chars(n / 10))[i]);
                }
            }
        }
    }
    is_ascii_chars_encode_utf8(c);
    assert(encode_utf8(c) =~= ascii_bytes(c));
}

/// Parsing the decimal rendering of a number within the bound gives the
/// number back.
pub proof fn law_parse_unsigned_of_decimal(n: nat, max: nat)
    requires
        n <= max,
    ensures
        valid_utf8(encode_utf8(decimal_chars(n))),
        spec_parse_unsigned(encode_utf8(decimal_chars(n)), max) == Some(n),
{
    lemma_decimal_digits(n);
    encode_utf8_valid_utf8(decimal_chars(n));
    let b = ascii_bytes(decimal_chars(n));
    assert(is_digit(b[0]));
}

/// Parsing the decimal rendering of any 64-bit signed integer (with a `-`
/// before a negative one) gives the integer back.
pub proof fn law_parse_i64_of_decimal(v: i64)
    ensures
        valid_utf8(encode_utf8(signed_decimal(v as int))),
        spec_parse_i64(encode_utf8(signed_decimal(v as int))) == Some(v as int),
{
    let t = signed_decimal(v as int);
    encode_utf8_valid_utf8(t);
    if v < 0 {
        let m = (-(v as int)) as nat;
        lemma_decimal_digits(m);
        let d = decimal_chars(m);
        assert(t == seq!['-'] + d);
        assert('-' as u8 == 45);
        assert(is_ascii_chars(t)) by {
            assert forall|i: int| 0 <= i < t.len() implies '\0' <= #[trigger] t[i] <= '\u{7f}' by {
                if i > 0 {
                    assert(t[i] == d[i - 1]);
                }
            }
        }
        is_ascii_chars_encode_utf8(t);
        let b = encode_utf8(t);
        assert(b =~= seq![45u8] + ascii_bytes(d));
        assert(b.drop_first() =~= ascii_bytes(d));
    } else {
        law_parse_unsigned_of_decimal(v as nat, 0x7fff_ffff_ffff_ffff);
        lemma_decimal_digits(v as nat);
        let b = ascii_bytes(decimal_chars(v as nat));
        assert(is_digit(b[0]));
    }
}

proof fn lemma_digits_value_grows(s: Seq<u8>, i: int)
    requires
        0 <= i <= s.len(),
        all_digits(s),
    ensures
        digits_value(s.take(i)) <= digits_value(s),
    decreases s.len() - i,
{
    if i < s.len() {
        lemma_digits_value_grows(s, i + 1);
        assert(s.take(i + 1).drop_last() =~= s.take(i));
    } else {
        assert(s.take(i) =~= s);
    }
}

/// The value of the digits `s[start..end]`, or `None` where a byte is not a
/// digit or the value exceeds `max`.
fn digits_upto(s: &[u8], start: usize, end: usize, max: u64) -> (r: Option<u64>)
    requires
        start <= end <= s@.len(),
    ensures
        r matches Some(v) ==> all_digits(s@.subrange(start as int, end as int)) && v
            == digits_value(s@.subrange(start as int, end as int)) && v <= max,
        r is None ==> !all_digits(s@.subrange(start as int, end as int)) || digits_value(
            s@.subrange(start as int, end as int),
        ) > max,
{
    let ghost d = s@.subrange(start as int, end as int);
    let mut acc: u64 = 0;
    let mut i = start;
    while i < end
        invariant
            start <= i <= end <= s@.len(),
            d == s@.subrange(start as int, end as int),
            all_digits(d.take(i - start)),
            acc == digits_value(d.take(i - start)),
            acc <= max,
        decreases end - i,
    {
        let c = s[i];
        let ghost t = d.take(i - start + 1);
        assert(t.drop_last() =~= d.take(i - start));
        if c < 48 || c > 57 {
            assert(!is_digit(d[i - start]));
            return None;
        }
        let next = acc as u128 * 10 + (c - 48) as u128;
        assert(t.last() == c);
        assert(next == digits_value(t));
        if next > max as u128 {
            proof {
                if all_digits(d) {
                    lemma_digits_value_grows(d, i - start + 1);
                }
            }
            return None;
        }
        acc = next as u64;
        i = i + 1;
    }
    assert(d.take(i - start) =~= d);
    Some(acc)
}

/// Parses unsigned decimal text with a maximum value.
pub fn parse_unsigned(s: &[u8], max: u64) -> (r: Option<u64>)
    ensures
        r matches Some(v) ==> spec_parse_unsigned(s@, max as nat) == Some(v as nat),
        r is None ==> spec_parse_unsigned(s@, max as nat) is None,
{
    let start: usize = if s.len() > 0 && s[0] == 43 {
        1
    } else {
        0
    };
    assert(s@.subrange(start as int, s@.len() as int) =~= (if s@.len() > 0 && s@[0] == 43 {
        s@.drop_first()
    } else {
        s@
    }));
    if start == s.len() {
        return None;
    }
    digits_upto(s, start, s.len(), max)
}

/// Parses signed 64-bit decimal text.
pub fn parse_i64(s: &[u8]) -> (r: Option<i64>)
    ensures
        r matches Some(v) ==> spec_parse_i64(s@) == Some(v as int),
        r is None ==> spec_parse_i64(s@) is None,
{
    if s.len() > 0 && s[0] == 45 {
        assert(s@.subrange(1, s@.len() as int) =~= s@.drop_first());
        if s.len() == 1 {
            return None;
        }
        match digits_upto(s, 1, s.len(), 0x8000_0000_0000_0000) {
            Some(v) => {
                if v == 0x8000_0000_0000_0000 {
                    Some(-0x8000_0000_0000_0000i64)
                } else {
                    Some(-(v as i64))
                }
            },
            None => None,
        }
    } else {
        match parse_unsigned(s, 0x7fff_ffff_ffff_ffff) {
            Some(v) => Some(v as i64),
            None => None,
        }
    }
}

fn all_digits_range(s: &[u8], start: usize, end: usize) -> (r: bool)
    requires
        start <= end <= s@.len(),
    ensures
        r == all_digits(s@.subrange(start as int, end as int)),
{
    let ghost d = s@.subrange(start as int, end as int);
    let mut i = start;
    while i < end
        invariant
            start <= i <= end <= s@.len(),
            d == s@.subrange(start as int, end as int),
            all_digits(d.take(i - start)),
        decreases end - i,
    {
        if s[i] < 48 || s[i] > 57 {
            assert(!is_digit(d[i - start]));
            return false;
        }
        assert forall|k: int| 0 <= k < i - start + 1 implies is_digit(
            #[trigger] d.take(i - start + 1)[k],
        ) by {
            if k < i - start {
                assert(d.take(i - start + 1)[k] == d.take(i - start)[k]);
            }
        }
        i = i + 1;
    }
    assert(d.take(i - start) =~= d);
    true
}

fn lower_byte(c: u8) -> (r: u8)
    ensures
        r == lower(c),
{
    if c >= 65 && c <= 90 {
        c + 32
    } else {
        c
    }
}

/// Whether `s[start..]` lower-cased equals `word`.
fn lowercase_equals(s: &[u8], start: usize, word: &[u8]) -> (r: bool)
    requires
        start <= s@.len(),
    ensures
        r == (lowercase(s@.skip(start as int)) == word@),
{
    let ghost b = s@.skip(start as int);
    if s.len() - start != word.len() {
        assert(lowercase(b).len() != word@.len());
        return false;
    }
    let n = s.len();
    let mut i: usize = 0;
    while i < word.len()
        invariant
            n == s@.len(),
            i <= word@.len(),
            word@.len() == s@.len() - start,
            b == s@.skip(start as int),
            forall|k: int| 0 <= k < i ==> lower(b[k]) == word@[k],
        decreases word@.len() - i,
    {
        if lower_byte(s[start + i]) != word[i] {
            assert(lowercase(b)[i as int] != word@[i as int]);
            return false;
        }
        i = i + 1;
    }
    assert(lowercase(b) =~= word@);
    true
}

fn find_dot(s: &[u8], start: usize, end: usize) -> (r: usize)
    requires
        start <= end <= s@.len(),
    ensures
        start <= r <= end,
        r == end ==> dot_index(s@.subrange(start as int, end as int), 0) is None,
        r < end ==> dot_index(s@.subrange(start as int, end as int), 0) == Some(r - start),
{
    let ghost m = s@.subrange(start as int, end as int);
    let mut i = start;
    while i < end
        invariant
            start <= i <= end <= s@.len(),
            m == s@.subrange(start as int, end as int),
            dot_index(m, 0) == dot_index(m, i - start),
        decreases end - i,
    {
        if s[i] == 46 {
            return i;
        }
        i = i + 1;
    }
    i
}

fn mantissa_ok(s: &[u8], start: usize, end: usize) -> (r: bool)
    requires
        start <= end <= s@.len(),
    ensures
        r == is_mantissa(s@.subrange(start as int, end as int)),
{
    let ghost m = s@.subrange(start as int, end as int);
    let d = find_dot(s, start, end);
    if d == end {
        end > start && all_digits_range(s, start, end)
    } else {
        assert(m.take(d - start) =~= s@.subrange(start as int, d as int));
        assert(m.skip(d - start + 1) =~= s@.subrange(d + 1, end as int));
        all_digits_range(s, start, d) && all_digits_range(s, d + 1, end) && (d > start || end
            > d + 1)
    }
}

fn exponent_ok(s: &[u8], start: usize) -> (r: bool)
    requires
        start <= s@.len(),
    ensures
        r == is_exponent(s@.skip(start as int)),
{
    let ghost x = s@.skip(start as int);
    let first = if start < s.len() && (s[start] == 43 || s[start] == 45) {
        start + 1
    } else {
        start
    };
    assert(s@.subrange(first as int, s@.len() as int) =~= (if x.len() > 0 && (x[0] == 43 || x[0]
        == 45) {
        x.drop_first()
    } else {
        x
    }));
    first < s.len() && all_digits_range(s, first, s.len())
}

/// Whether `s` is text that floating-point parsing accepts.
pub fn is_float_literal(s: &[u8]) -> (r: bool)
    ensures
        r == is_float_text(s@),
{
    let start: usize = if s.len() > 0 && (s[0] == 43 || s[0] == 45) {
        1
    } else {
        0
    };
    let ghost b = s@.skip(start as int);
    assert(b =~= (if s@.len() > 0 && (s@[0] == 43 || s@[0] == 45) {
        s@.drop_first()
    } else {
        s@
    }));
    let inf: [u8; 3] = [105, 110, 102];
    let infinity: [u8; 8] = [105, 110, 102, 105, 110, 105, 116, 121];
    let nan: [u8; 3] = [110, 97, 110];
    assert(inf@ =~= seq![105u8, 110, 102]);
    assert(infinity@ =~= seq![105u8, 110, 102, 105, 110, 105, 116, 121]);
    assert(nan@ =~= seq![110u8, 97, 110]);
    if lowercase_equals(s, start, &inf) || lowercase_equals(s, start, &infinity)
        || lowercase_equals(s, start, &nan) {
        return true;
    }
    // Locate the exponent marker.

    let mut k = start;
    while k < s.len() && s[k] != 101 && s[k] != 69
        invariant
            start <= k <= s@.len(),
            b == s@.skip(start as int),
            exp_index(b, 0) == exp_index(b, k - start),
        decreases s@.len() - k,
    {
        k = k + 1;
    }
    assert(s@.subrange(start as int, s@.len() as int) =~= b);
    if k == s.len() {
        mantissa_ok(s, start, s.len())
    } else {
        assert(exp_index(b, 0) == Some(k - start));
        assert(b.take(k - start) =~= s@.subrange(start as int, k as int));
        assert(b.skip(k - start + 1) =~= s@.skip(k + 1));
        mantissa_ok(s, start, k) && exponent_ok(s, k + 1)
    }
}

} // verus!
