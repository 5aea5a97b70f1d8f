//! Text primitives shared by the parsers and the routing tables.
//!
//! Every contract here is stated over the character sequence of a string.

use vstd::prelude::*;

verus! {

/// Position of the first occurrence of `c` in `s`, or `s.len()` when `c` does
/// not occur.
pub open spec fn first_index_of<T>(s: Seq<T>, c: T) -> int
    decreases s.len(),
{
    if s.len() == 0 || s[0] == c {
        0
    } else {
        1 + first_index_of(s.drop_first(), c)
    }
}

/// The pieces of `s` between occurrences of `sep`. A text without `sep` is a
/// single piece; `n` occurrences give `n + 1` pieces, some possibly empty.
pub open spec fn split_on(s: Seq<char>, sep: char) -> Seq<Seq<char>>
    decreases s.len(),
{
    let i = first_index_of(s, sep);
    if 0 <= i < s.len() {
        seq![s.take(i)] + split_on(s.skip(i + 1), sep)
    } else {
        seq![s]
    }
}

/// A split gives at least one piece.
pub proof fn lemma_split_on_not_empty(s: Seq<char>, sep: char)
    ensures
        split_on(s, sep).len() >= 1,
{
}

/// `first_index_of` is the least position holding `c`.
pub proof fn lemma_first_index_of<T>(s: Seq<T>, c: T)
    ensures
        0 <= first_index_of(s, c) <= s.len(),
        forall|j: int| 0 <= j < first_index_of(s, c) ==> s[j] != c,
        first_index_of(s, c) < s.len() ==> s[first_index_of(s, c)] == c,
    decreases s.len(),
{
    if s.len() == 0 || s[0] == c {
    } else {
        let t = s.drop_first();
        lemma_first_index_of(t, c);
        assert forall|j: int| 0 <= j < first_index_of(s, c) implies s[j] != c by {
            if j > 0 {
                assert(s[j] == t[j - 1]);
            }
        }
        if first_index_of(s, c) < s.len() {
            assert(s[first_index_of(s, c)] == t[first_index_of(t, c)]);
        }
    }
}

/// A position that holds `c`, or the end, with no `c` before it, is the first
/// index of `c`.
pub proof fn lemma_first_index_is<T>(s: Seq<T>, c: T, k: int)
    requires
        0 <= k <= s.len(),
        forall|j: int| 0 <= j < k ==> s[j] != c,
        k < s.len() ==> s[k] == c,
    ensures
        first_index_of(s, c) == k,
{
    lemma_first_index_of(s, c);
    let f = first_index_of(s, c);
    if f < k {
        assert(s[f] == c);
    } else if k < f {
        assert(s[k] == c);
    }
}

/// The first value that `f` gives among the positions `0..n`, in order.
pub open spec fn first_some<T>(n: nat, f: spec_fn(int) -> Option<T>) -> Option<T>
    decreases n,
{
    if n == 0 {
        None
    } else {
        match first_some((n - 1) as nat, f) {
            Some(x) => Some(x),
            None => f(n - 1),
        }
    }
}

/// Once a value is found among the first `m` positions, looking further finds
/// the same value.
pub proof fn lemma_first_some_stays<T>(m: nat, n: nat, f: spec_fn(int) -> Option<T>)
    requires
        m <= n,
        first_some(m, f) is Some,
    ensures
        first_some(n, f) == first_some(m, f),
    decreases n,
{
    if m < n {
        lemma_first_some_stays(m, (n - 1) as nat, f);
    }
}

/// Whether two string slices hold the same characters.
pub fn str_equal(a: &str, b: &str) -> (r: bool)
    ensures
        r == (a@ == b@),
{
    let x = String::from_str(a);
    let y = String::from_str(b);
    x == y
}

/// The characters of a string slice, in order.
pub fn chars_of(s: &str) -> (r: Vec<char>)
    ensures
        r@ == s@,
{
    let mut v: Vec<char> = Vec::new();
    for c in it: s.chars()
        invariant
            v@ == it.seq().take(it.index() as int),
            it.seq() == s@,
    {
        v.push(c);
    }
    v
}

/// `s` without every occurrence of `c`.
pub open spec fn without(s: Seq<char>, c: char) -> Seq<char>
    decreases s.len(),
{
    if s.len() == 0 {
        s
    } else if s.last() == c {
        without(s.drop_last(), c)
    } else {
        without(s.drop_last(), c).push(s.last())
    }
}

/// An owned copy of `s`.
pub fn owned(s: &str) -> (r: String)
    ensures
        r@ == s@,
{
    String::from_str(s)
}

/// `a` followed by `b`.
pub fn concatenate(a: &str, b: &str) -> (r: String)
    ensures
        r@ == a@ + b@,
{
    String::from_str(a).concat(b)
}

/// A copy of `s` with every occurrence of `c` taken out.
pub fn remove_char(s: &str, c: char) -> (r: String)
    ensures
        r@ == without(s@, c),
{
    let chars = chars_of(s);
    let n = chars.len();
    let mut out = String::new();
    let mut i: usize = 0;
    while i < n
        invariant
            chars@ == s@,
            n == chars.len(),
            i <= n,
            out@ == without(s@.take(i as int), c),
        decreases n - i,
    {
        proof {
            assert(s@.take(i + 1).drop_last() =~= s@.take(i as int));
            assert(s@.take(i + 1).last() == s@[i as int]);
        }
        if chars[i] != c {
            let piece = s.substring_char(i, i + 1);
            assert(piece@ =~= seq![s@[i as int]]);
            out.append(piece);
            assert(out@ =~= without(s@.take(i as int), c).push(s@[i as int]));
        }
        i += 1;
    }
    assert(s@.take(n as int) =~= s@);
    out
}

/// Whether `p` stands in `s` at position `i`.
pub open spec fn occurs_at(s: Seq<char>, i: int, p: Seq<char>) -> bool {
    0 <= i && i + p.len() <= s.len() && s.subrange(i, i + p.len()) == p
}

/// `s` without the occurrences of the non-empty pattern `p`, found from left
/// to right; an occurrence never starts inside an earlier one.
pub open spec fn remove_all(s: Seq<char>, p: Seq<char>) -> Seq<char>
    decreases s.len(),
{
    if p.len() == 0 || s.len() == 0 {
        s
    } else if occurs_at(s, 0, p) {
        remove_all(s.skip(p.len() as int), p)
    } else {
        seq![s[0]] + remove_all(s.skip(1), p)
    }
}

/// Whether `s` ends with `suffix`.
pub open spec fn has_suffix(s: Seq<char>, suffix: Seq<char>) -> bool {
    suffix.len() <= s.len() && s.skip(s.len() - suffix.len()) == suffix
}

/// Whether `pattern` stands in `chars` at position `i`.
pub fn matches_at(chars: &Vec<char>, i: usize, pattern: &Vec<char>) -> (r: bool)
    requires
        i <= chars@.len(),
    ensures
        r == occurs_at(chars@, i as int, pattern@),
{
    let n = chars.len();
    let m = pattern.len();
    if m > n - i {
        return false;
    }
    let mut k: usize = 0;
    while k < m
        invariant
            n == chars@.len(),
            m == pattern@.len(),
            i + m <= n,
            k <= m,
            forall|j: int| 0 <= j < k ==> chars@[i + j] == pattern@[j],
        decreases m - k,
    {
        if chars[i + k] != pattern[k] {
            assert(chars@.subrange(i as int, i + m)[k as int] != pattern@[k as int]);
            return false;
        }
        k += 1;
    }
    assert(chars@.subrange(i as int, i + m) =~= pattern@);
    true
}

/// Whether `s` ends with `suffix`.
pub fn ends_with(s: &str, suffix: &str) -> (r: bool)
    ensures
        r == has_suffix(s@, suffix@),
{
    let chars = chars_of(s);
    let pattern = chars_of(suffix);
    if pattern.len() > chars.len() {
        return false;
    }
    let at = chars.len() - pattern.len();
    proof {
        assert(chars@.subrange(at as int, at + pattern@.len()) =~= chars@.skip(at as int));
    }
    matches_at(&chars, at, &pattern)
}

/// A copy of `s` with every occurrence of the non-empty `pattern` taken out.
pub fn remove_pattern(s: &str, pattern: &str) -> (r: String)
    requires
        pattern@.len() > 0,
    ensures
        r@ == remove_all(s@, pattern@),
{
    let chars = chars_of(s);
    let pat = chars_of(pattern);
    let n = chars.len();
    let m = pat.len();
    let mut out = String::new();
    let mut i: usize = 0;
    proof {
        assert(s@.skip(0) =~= s@);
        assert(out@ + remove_all(s@, pattern@) =~= remove_all(s@, pattern@));
    }
    while i < n
        invariant
            chars@ == s@,
            pat@ == pattern@,
            n == chars.len(),
            m == pat.len(),
            m > 0,
            i <= n,
            out@ + remove_all(s@.skip(i as int), pattern@) == remove_all(s@, pattern@),
        decreases n - i,
    {
        let ghost rest = s@.skip(i as int);
        let found = matches_at(&chars, i, &pat);
        proof {
            if i + m <= n {
                assert(rest.subrange(0, m as int) =~= s@.subrange(i as int, i + m));
            }
            assert(found == occurs_at(rest, 0, pattern@));
        }
        if found {
            proof {
                assert(rest.skip(m as int) =~= s@.skip(i + m));
            }
            i += m;
        } else {
            let piece = s.substring_char(i, i + 1);
            proof {
                assert(piece@ =~= seq![rest[0]]);
                assert(rest.skip(1) =~= s@.skip(i + 1));
                assert((out@ + piece@) + remove_all(s@.skip(i + 1), pattern@) =~= out@ + (seq![
                    rest[0],
                ] + remove_all(rest.skip(1), pattern@)));
            }
            out.append(piece);
            i += 1;
        }
    }
    proof {
        assert(s@.skip(n as int) =~= Seq::<char>::empty());
        assert(out@ + Seq::<char>::empty() =~= out@);
    }
    out
}

/// Whether `c` is whitespace: one of the code points with the Unicode
/// property White_Space. These are the controls from tab to carriage
/// return, the space, next line, the no-break space, the Ogham space mark,
/// the spaces from en quad to hair space, the line and the paragraph
/// separator, the narrow no-break space, the medium mathematical space and
/// the ideographic space.
pub open spec fn is_whitespace(c: char) -> bool {
    ||| '\u{9}' <= c && c <= '\u{d}'
    ||| c == ' '
    ||| c == '\u{85}'
    ||| c == '\u{a0}'
    ||| c == '\u{1680}'
    ||| '\u{2000}' <= c && c <= '\u{200a}'
    ||| c == '\u{2028}'
    ||| c == '\u{2029}'
    ||| c == '\u{202f}'
    ||| c == '\u{205f}'
    ||| c == '\u{3000}'
}

/// `char::is_whitespace`: whether `c` has the Unicode property White_Space,
/// which is what `is_whitespace` lists.
#[verifier::external_body]
fn char_is_whitespace(c: char) -> (r: bool)
    ensures
        r == is_whitespace(c),
{
    c.is_whitespace()
}

/// `s` without the whitespace at its start.
pub open spec fn trim_start(s: Seq<char>) -> Seq<char>
    decreases s.len(),
{
    if s.len() > 0 && is_whitespace(s[0]) {
        trim_start(s.drop_first())
    } else {
        s
    }
}

/// `s` without the whitespace at its end.
pub open spec fn trim_end(s: Seq<char>) -> Seq<char>
    decreases s.len(),
{
    if s.len() > 0 && is_whitespace(s.last()) {
        trim_end(s.drop_last())
    } else {
        s
    }
}

/// `s` without the whitespace at its start and at its end.
pub open spec fn trimmed(s: Seq<char>) -> Seq<char> {
    trim_end(trim_start(s))
}

/// Whitespace up to `a`, and none at `a`: trimming the start leaves what
/// follows `a`.
pub proof fn lemma_trim_start(s: Seq<char>, a: int)
    requires
        0 <= a <= s.len(),
        forall|i: int| 0 <= i < a ==> is_whitespace(#[trigger] s[i]),
        a < s.len() ==> !is_whitespace(s[a]),
    ensures
        trim_start(s) == s.skip(a),
    decreases a,
{
    if a == 0 {
        assert(s.skip(0) =~= s);
    } else {
        let t = s.drop_first();
        assert forall|i: int| 0 <= i < a - 1 implies is_whitespace(#[trigger] t[i]) by {
            assert(t[i] == s[i + 1]);
        }
        lemma_trim_start(t, a - 1);
        assert(t.skip(a - 1) =~= s.skip(a));
    }
}

/// Whitespace from `b` on, and none before `b`: trimming the end leaves what
/// comes before `b`.
pub proof fn lemma_trim_end(s: Seq<char>, b: int)
    requires
        0 <= b <= s.len(),
        forall|i: int| b <= i < s.len() ==> is_whitespace(#[trigger] s[i]),
        b > 0 ==> !is_whitespace(s[b - 1]),
    ensures
        trim_end(s) == s.take(b),
    decreases s.len() - b,
{
    if b == s.len() {
        assert(s.take(b) =~= s);
    } else {
        let t = s.drop_last();
        lemma_trim_end(t, b);
        assert(t.take(b) =~= s.take(b));
    }
}

/// A copy of `s` without the whitespace at its start and at its end.
pub fn trim(s: &str) -> (r: String)
    ensures
        r@ == trimmed(s@),
{
    let chars = chars_of(s);
    let n = chars.len();
    let mut a: usize = 0;
    while a < n && char_is_whitespace(chars[a])
        invariant
            n == chars@.len(),
            a <= n,
            forall|i: int| 0 <= i < a ==> is_whitespace(#[trigger] chars@[i]),
        decreases n - a,
    {
        a += 1;
    }
    let mut b: usize = n;
    while b > a && char_is_whitespace(chars[b - 1])
        invariant
            n == chars@.len(),
            a <= b <= n,
            forall|i: int| b <= i < n ==> is_whitespace(#[trigger] chars@[i]),
        decreases b - a,
    {
        b -= 1;
    }
    proof {
        lemma_trim_start(s@, a as int);
        let t = s@.skip(a as int);
        assert forall|i: int| b - a <= i < t.len() implies is_whitespace(#[trigger] t[i]) by {
            assert(t[i] == chars@[a + i]);
        }
        if b > a {
            assert(t[b - a - 1] == chars@[b - 1]);
        }
        lemma_trim_end(t, b - a);
        assert(t.take(b - a) =~= s@.subrange(a as int, b as int));
    }
    substring(s, a, b)
}

/// An owned copy of the characters `from..to` of `s`.
pub fn substring(s: &str, from: usize, to: usize) -> (r: String)
    requires
        from <= to <= s@.len(),
    ensures
        r@ == s@.subrange(from as int, to as int),
{
    String::from_str(s.substring_char(from, to))
}

/// Splits `s` at every occurrence of `sep`.
pub fn split<'a>(s: &'a str, sep: char) -> (r: Vec<&'a str>)
    ensures
        r.deep_view() == split_on(s@, sep),
{
    let chars = chars_of(s);
    let n = chars.len();
    let mut pieces: Vec<&'a str> = Vec::new();
    let mut start: usize = 0;
    let mut i: usize = 0;
    proof {
        assert(s@.skip(0) =~= s@);
        assert(pieces.deep_view() + split_on(s@, sep) =~= split_on(s@, sep));
    }
    while i < n
        invariant
            chars@ == s@,
            n == chars.len(),
            start <= i <= n,
            forall|j: int| start <= j < i ==> chars@[j] != sep,
            split_on(s@, sep) == pieces.deep_view() + split_on(s@.skip(start as int), sep),
        decreases n - i,
    {
        if chars[i] == sep {
            let piece = s.substring_char(start, i);
            proof {
                let rest = s@.skip(start as int);
                assert forall|j: int| 0 <= j < i - start implies rest[j] != sep by {
                    assert(rest[j] == chars@[start + j]);
                }
                lemma_first_index_is(rest, sep, i - start);
                assert(rest.take(i - start) =~= s@.subrange(start as int, i as int));
                assert(rest.skip(i - start + 1) =~= s@.skip(i + 1));
                assert(pieces.deep_view().push(piece@) + split_on(s@.skip(i + 1), sep)
                    =~= pieces.deep_view() + (seq![piece@] + split_on(s@.skip(i + 1), sep)));
            }
            let ghost before = pieces.deep_view();
            pieces.push(piece);
            assert(pieces.deep_view() =~= before.push(piece@));
            start = i + 1;
        }
        i += 1;
    }
    let piece = s.substring_char(start, n);
    proof {
        let rest = s@.skip(start as int);
        assert forall|j: int| 0 <= j < n - start implies rest[j] != sep by {
            assert(rest[j] == chars@[start + j]);
        }
        lemma_first_index_is(rest, sep, n - start);
        assert(rest =~= s@.subrange(start as int, n as int));
    }
    let ghost before = pieces.deep_view();
    pieces.push(piece);
    assert(pieces.deep_view() =~= before.push(piece@));
    assert(before.push(piece@) =~= before + seq![piece@]);
    pieces
}

} // verus!
