//! Numbers as they arrive: text.
//!
//! Whole numbers are read into integers. A decimal reading is recognised and
//! kept as text: what a reading amounts to as a binary floating-point number
//! is left to whoever draws or animates with it.

use vstd::prelude::*;
use crate::text::chars_of;

verus! {

/// Whether `c` is one of `0` to `9`.
pub open spec fn is_digit(c: char) -> bool {
    '0' <= c && c <= '9'
}

/// The number that a digit stands for.
pub open spec fn digit_value(c: char) -> nat {
    (c as int - '0' as int) as nat
}

/// The number that a run of decimal digits stands for.
pub open spec fn digits_value(s: Seq<char>) -> nat
    decreases s.len(),
{
    if s.len() == 0 {
        0
    } else {
        digits_value(s.drop_last()) * 10 + digit_value(s.last())
    }
}

/// Whether `s` holds decimal digits only.
pub open spec fn all_digits(s: Seq<char>) -> bool {
    forall|i: int| 0 <= i < s.len() ==> is_digit(#[trigger] s[i])
}

/// The whole number up to `max` that `s` writes: an optional `+` followed by
/// one or more decimal digits.
pub open spec fn unsigned_number(s: Seq<char>, max: nat) -> Option<nat> {
    let digits = if s.len() > 0 && s[0] == '+' {
        s.skip(1)
    } else {
        s
    };
    if digits.len() > 0 && all_digits(digits) && digits_value(digits) <= max {
        Some(digits_value(digits))
    } else {
        None
    }
}

/// A run of digits is worth at least as much as each of its prefixes.
pub proof fn lemma_digits_value_grows(s: Seq<char>, k: int)
    requires
        0 <= k <= s.len(),
    ensures
        digits_value(s.take(k)) <= digits_value(s),
    decreases s.len(),
{
    if k == s.len() {
        assert(s.take(k) =~= s);
    } else {
        lemma_digits_value_grows(s.drop_last(), k);
        assert(s.drop_last().take(k) =~= s.take(k));
    }
}

/// Whether a character is a decimal digit.
pub fn char_is_digit(c: char) -> (r: bool)
    ensures
        r == is_digit(c),
{
    '0' <= c && c <= '9'
}

/// The number that a digit stands for.
pub fn digit_of(c: char) -> (d: u8)
    requires
        is_digit(c),
    ensures
        d == digit_value(c),
        d <= 9,
{
    if c == '0' {
        0
    } else if c == '1' {
        1
    } else if c == '2' {
        2
    } else if c == '3' {
        3
    } else if c == '4' {
        4
    } else if c == '5' {
        5
    } else if c == '6' {
        6
    } else if c == '7' {
        7
    } else if c == '8' {
        8
    } else {
        9
    }
}

/// Reads a whole number of at most `max` from `s`.
pub fn parse_unsigned(s: &str, max: u32) -> (r: Option<u32>)
    ensures
        match r {
            Some(v) => unsigned_number(s@, max as nat) == Some(v as nat),
            None => unsigned_number(s@, max as nat) is None,
        },
{
    let chars = chars_of(s);
    let n = chars.len();
    let start: usize = if n > 0 && chars[0] == '+' {
        1
    } else {
        0
    };
    let ghost digits = s@.skip(start as int);
    assert(s@.skip(0) =~= s@);
    if start >= n {
        return None;
    }
    let mut acc: u64 = 0;
    let mut i: usize = start;
    while i < n
        invariant
            chars@ == s@,
            n == chars.len(),
            start <= i <= n,
            digits == s@.skip(start as int),
            digits == (if s@.len() > 0 && s@[0] == '+' {
                s@.skip(1)
            } else {
                s@
            }),
            all_digits(digits.take(i - start)),
            acc == digits_value(digits.take(i - start)),
            acc <= max,
        decreases n - i,
    {
        let c = chars[i];
        proof {
            assert(digits[i - start] == c);
            assert(digits.take(i - start + 1).drop_last() =~= digits.take(i - start));
            assert(digits.take(i - start + 1).last() == c);
        }
        if !char_is_digit(c) {
            assert(!all_digits(digits));
            return None;
        }
        let d: u64 = digit_of(c) as u64;
        let next: u64 = acc * 10 + d;
        if next > max as u64 {
            proof {
                lemma_digits_value_grows(digits, i - start + 1);
            }
            return None;
        }
        proof {
            assert forall|k: int| 0 <= k < i - start + 1 implies is_digit(
                #[trigger] digits.take(i - start + 1)[k],
            ) by {
                if k < i - start {
                    assert(digits.take(i - start)[k] == digits[k]);
                }
            }
        }
        acc = next;
        i += 1;
    }
    assert(digits.take(n - start) =~= digits);
    Some(acc as u32)
}

/// Reads a whole number of at most 255.
pub fn parse_u8(s: &str) -> (r: Option<u8>)
    ensures
        match r {
            Some(v) => unsigned_number(s@, 255) == Some(v as nat),
            None => unsigned_number(s@, 255) is None,
        },
{
    match parse_unsigned(s, 255) {
        Some(v) => Some(v as u8),
        None => None,
    }
}

/// Reads a whole number of at most `u32::MAX`.
pub fn parse_u32(s: &str) -> (r: Option<u32>)
    ensures
        match r {
            Some(v) => unsigned_number(s@, u32::MAX as nat) == Some(v as nat),
            None => unsigned_number(s@, u32::MAX as nat) is None,
        },
{
    parse_unsigned(s, u32::MAX)
}

/// The whole number from `-2^31` to `2^31 - 1` that `s` writes: an optional
/// sign followed by one or more decimal digits.
pub open spec fn signed_number(s: Seq<char>) -> Option<int> {
    if s.len() > 0 && s[0] == '-' {
        let digits = s.skip(1);
        if digits.len() > 0 && all_digits(digits) && digits_value(digits) <= 0x8000_0000 {
            Some(-(digits_value(digits) as int))
        } else {
            None
        }
    } else {
        match unsigned_number(s, 0x7fff_ffff) {
            Some(v) => Some(v as int),
            None => None,
        }
    }
}

/// Reads a whole number that fits 32 bits with a sign.
pub fn parse_i32(s: &str) -> (r: Option<i32>)
    ensures
        match r {
            Some(v) => signed_number(s@) == Some(v as int),
            None => signed_number(s@) is None,
        },
{
    let chars = chars_of(s);
    if chars.len() > 0 && chars[0] == '-' {
        let n = chars.len();
        let rest = s.substring_char(1, n);
        assert(rest@ =~= s@.skip(1));
        if n == 1 {
            return None;
        }
        if chars[1] == '+' {
            assert(!is_digit(rest@[0]));
            return None;
        }
        proof {
            assert(rest@[0] == chars@[1]);
            assert(rest@.skip(0) =~= rest@);
        }
        match parse_unsigned(rest, 0x8000_0000) {
            Some(v) => {
                let wide: i64 = -(v as i64);
                Some(wide as i32)
            },
            None => None,
        }
    } else {
        match parse_unsigned(s, 0x7fff_ffff) {
            Some(v) => Some(v as i32),
            None => None,
        }
    }
}

/// The end of the run of digits that starts at `from`: the first position at
/// or after `from` that holds no digit.
pub open spec fn digits_end(s: Seq<char>, from: int) -> int
    decreases s.len() - from,
{
    if 0 <= from < s.len() && is_digit(s[from]) {
        digits_end(s, from + 1)
    } else {
        from
    }
}

/// Whether `c` is a sign.
pub open spec fn is_sign(c: char) -> bool {
    c == '+' || c == '-'
}

/// Whether position `p` starts an exponent that runs to the end of `s`: `e`
/// or `E`, an optional sign, and one or more digits.
pub open spec fn exponent_at(s: Seq<char>, p: int) -> bool {
    let q = if p + 1 < s.len() && is_sign(s[p + 1]) {
        p + 2
    } else {
        p + 1
    };
    &&& 0 <= p < s.len()
    &&& (s[p] == 'e' || s[p] == 'E')
    &&& q < s.len()
    &&& digits_end(s, q) == s.len()
}

/// Where the mantissa of a number that starts at `p` ends: after the digits,
/// and after a point and the digits behind it.
pub open spec fn mantissa_end(s: Seq<char>, p: int) -> int {
    let whole_end = digits_end(s, p);
    if 0 <= whole_end < s.len() && s[whole_end] == '.' {
        digits_end(s, whole_end + 1)
    } else {
        whole_end
    }
}

/// How many digits the mantissa that starts at `p` has.
pub open spec fn mantissa_digits(s: Seq<char>, p: int) -> int {
    let whole_end = digits_end(s, p);
    if 0 <= whole_end < s.len() && s[whole_end] == '.' {
        (whole_end - p) + (digits_end(s, whole_end + 1) - whole_end - 1)
    } else {
        whole_end - p
    }
}

/// Whether `s` from position `p` on is a number: digits with at most one
/// point among them, at least one digit, and an optional exponent.
pub open spec fn number_at(s: Seq<char>, p: int) -> bool {
    let end = mantissa_end(s, p);
    mantissa_digits(s, p) >= 1 && (end == s.len() || exponent_at(s, end))
}

/// Whether `s` from position `p` on spells a word letter by letter, each
/// letter in the case of `lower` or in that of `upper`.
pub open spec fn spells_at(s: Seq<char>, p: int, lower: Seq<char>, upper: Seq<char>) -> bool {
    &&& s.len() - p == lower.len()
    &&& forall|i: int|
        0 <= i < lower.len() ==> (#[trigger] s[p + i] == lower[i] || s[p + i] == upper[i])
}

/// Whether `s` from position `p` on names infinity or not-a-number: `inf`,
/// `infinity` or `nan` in any mix of cases.
pub open spec fn special_at(s: Seq<char>, p: int) -> bool {
    spells_at(s, p, seq!['i', 'n', 'f'], seq!['I', 'N', 'F']) || spells_at(
        s,
        p,
        seq!['n', 'a', 'n'],
        seq!['N', 'A', 'N'],
    ) || spells_at(
        s,
        p,
        seq!['i', 'n', 'f', 'i', 'n', 'i', 't', 'y'],
        seq!['I', 'N', 'F', 'I', 'N', 'I', 'T', 'Y'],
    )
}

/// Where the number starts: behind a leading sign, if there is one.
pub open spec fn sign_end(s: Seq<char>) -> int {
    if s.len() > 0 && is_sign(s[0]) {
        1
    } else {
        0
    }
}

/// Whether `s` is a decimal reading: an optional sign, then either a number
/// (`12`, `1.5`, `.5`, `7.`, `1e-3`) or one of `inf`, `infinity` and `nan` in
/// any mix of cases. Nothing may stand before or behind it.
pub open spec fn is_decimal(s: Seq<char>) -> bool {
    let p = sign_end(s);
    number_at(s, p) || special_at(s, p)
}

/// Whether `s` is a number all of whose mantissa digits are `0`.
pub open spec fn is_zero_decimal(s: Seq<char>) -> bool {
    let p = sign_end(s);
    &&& number_at(s, p)
    &&& forall|i: int| p <= i < mantissa_end(s, p) && is_digit(#[trigger] s[i]) ==> s[i] == '0'
}

/// What `digits_end` finds: digits up to it, none at it.
pub proof fn lemma_digits_end(s: Seq<char>, from: int)
    requires
        0 <= from <= s.len(),
    ensures
        from <= digits_end(s, from) <= s.len(),
        forall|i: int| from <= i < digits_end(s, from) ==> is_digit(#[trigger] s[i]),
        digits_end(s, from) < s.len() ==> !is_digit(s[digits_end(s, from)]),
    decreases s.len() - from,
{
    if from < s.len() && is_digit(s[from]) {
        lemma_digits_end(s, from + 1);
    }
}

/// A position with digits from `from` up to it and none at it is where the
/// run of digits ends.
pub proof fn lemma_digits_end_is(s: Seq<char>, from: int, end: int)
    requires
        0 <= from <= end <= s.len(),
        forall|i: int| from <= i < end ==> is_digit(#[trigger] s[i]),
        end < s.len() ==> !is_digit(s[end]),
    ensures
        digits_end(s, from) == end,
    decreases end - from,
{
    if from < end {
        lemma_digits_end_is(s, from + 1, end);
    }
}

/// The end of the run of digits of `chars` that starts at `from`; also tells
/// whether every digit of the run is `0`.
fn scan_digits(chars: &Vec<char>, from: usize) -> (r: (usize, bool))
    requires
        from <= chars@.len(),
    ensures
        r.0 == digits_end(chars@, from as int),
        from <= r.0 <= chars@.len(),
        r.1 == (forall|i: int| from <= i < r.0 ==> #[trigger] chars@[i] == '0'),
{
    let n = chars.len();
    let mut i: usize = from;
    let mut zeros = true;
    while i < n && char_is_digit(chars[i])
        invariant
            n == chars@.len(),
            from <= i <= n,
            forall|k: int| from <= k < i ==> is_digit(#[trigger] chars@[k]),
            zeros == (forall|k: int| from <= k < i ==> #[trigger] chars@[k] == '0'),
        decreases n - i,
    {
        if chars[i] != '0' {
            zeros = false;
        }
        i += 1;
    }
    proof {
        lemma_digits_end_is(chars@, from as int, i as int);
    }
    (i, zeros)
}

/// Whether `chars` from `p` on spell a word letter by letter, each letter in
/// the case of `lower` or in that of `upper`.
fn spells(chars: &Vec<char>, p: usize, lower: &Vec<char>, upper: &Vec<char>) -> (r: bool)
    requires
        p <= chars@.len(),
        lower@.len() == upper@.len(),
    ensures
        r == spells_at(chars@, p as int, lower@, upper@),
{
    let n = chars.len();
    let m = lower.len();
    if n - p != m {
        return false;
    }
    let mut i: usize = 0;
    while i < m
        invariant
            n == chars@.len(),
            m == lower@.len(),
            m == upper@.len(),
            n - p == m,
            i <= m,
            forall|k: int|
                0 <= k < i ==> (#[trigger] chars@[p + k] == lower@[k] || chars@[p + k]
                    == upper@[k]),
        decreases m - i,
    {
        let a = chars[p + i];
        if !(a == lower[i] || a == upper[i]) {
            assert(!(chars@[p + i] == lower@[i as int] || chars@[p + i] == upper@[i as int]));
            return false;
        }
        i += 1;
    }
    true
}

/// What is known of a text after it was scanned as a decimal reading.
pub struct Scan {
    /// The text is a decimal reading.
    pub decimal: bool,
    /// The text is a number whose mantissa digits are all `0`.
    pub zero: bool,
}

/// Scans a text as a decimal reading.
pub fn scan_decimal(s: &str) -> (r: Scan)
    ensures
        r.decimal == is_decimal(s@),
        r.zero == is_zero_decimal(s@),
{
    let chars = chars_of(s);
    let n = chars.len();
    let p: usize = if n > 0 && (chars[0] == '+' || chars[0] == '-') {
        1
    } else {
        0
    };
    let inf: Vec<char> = vec!['i', 'n', 'f'];
    let inf_upper: Vec<char> = vec!['I', 'N', 'F'];
    let nan: Vec<char> = vec!['n', 'a', 'n'];
    let nan_upper: Vec<char> = vec!['N', 'A', 'N'];
    let infinity: Vec<char> = vec!['i', 'n', 'f', 'i', 'n', 'i', 't', 'y'];
    let infinity_upper: Vec<char> = vec!['I', 'N', 'F', 'I', 'N', 'I', 'T', 'Y'];
    assert(inf@ =~= seq!['i', 'n', 'f']);
    assert(inf_upper@ =~= seq!['I', 'N', 'F']);
    assert(nan@ =~= seq!['n', 'a', 'n']);
    assert(nan_upper@ =~= seq!['N', 'A', 'N']);
    assert(infinity@ =~= seq!['i', 'n', 'f', 'i', 'n', 'i', 't', 'y']);
    assert(infinity_upper@ =~= seq!['I', 'N', 'F', 'I', 'N', 'I', 'T', 'Y']);
    let special = spells(&chars, p, &inf, &inf_upper) || spells(&chars, p, &nan, &nan_upper)
        || spells(&chars, p, &infinity, &infinity_upper);
    let (whole_end, whole_zeros) = scan_digits(&chars, p);
    let mut end = whole_end;
    let mut digits = whole_end - p;
    let mut zeros = whole_zeros;
    proof {
        lemma_digits_end(chars@, p as int);
    }
    if whole_end < n && chars[whole_end] == '.' {
        let (fraction_end, fraction_zeros) = scan_digits(&chars, whole_end + 1);
        proof {
            lemma_digits_end(chars@, whole_end + 1);
        }
        end = fraction_end;
        digits = digits + (fraction_end - whole_end - 1);
        zeros = whole_zeros && fraction_zeros;
    }
    assert(end == mantissa_end(chars@, p as int));
    assert(digits == mantissa_digits(chars@, p as int));
    assert(zeros == (forall|i: int|
        p <= i < end && is_digit(#[trigger] chars@[i]) ==> chars@[i] == '0')) by {
        if zeros {
            assert forall|i: int| p <= i < end && is_digit(#[trigger] chars@[i]) implies chars@[i]
                == '0' by {
                if i < whole_end {
                } else if i == whole_end {
                } else {
                }
            }
        }
    }
    let mut tail = end == n;
    if !tail && (chars[end] == 'e' || chars[end] == 'E') {
        let q: usize = if end + 1 < n && (chars[end + 1] == '+' || chars[end + 1] == '-') {
            end + 2
        } else {
            end + 1
        };
        if q < n {
            let (stop, _) = scan_digits(&chars, q);
            tail = stop == n;
        }
    }
    assert(tail == (end == n || exponent_at(chars@, end as int)));
    let number = digits >= 1 && tail;
    Scan { decimal: number || special, zero: number && zeros }
}

/// Whether a text is a decimal reading.
pub fn is_decimal_text(s: &str) -> (r: bool)
    ensures
        r == is_decimal(s@),
{
    scan_decimal(s).decimal
}

/// Whether a text is a number whose mantissa digits are all `0`.
pub fn is_zero_text(s: &str) -> (r: bool)
    ensures
        r == is_zero_decimal(s@),
{
    scan_decimal(s).zero
}

} // verus!
