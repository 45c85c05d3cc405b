//! Character-sequence utilities: the searching, trimming and line splitting
//! that the parsers and rules of this crate are built on, each stated over
//! `Seq<char>` and implemented over `Vec<char>`.

use vstd::prelude::*;

verus! {

// ============================================================================
// Specifications
// ============================================================================

/// Unicode `White_Space` characters (the set `char::is_whitespace` accepts).
pub open spec fn is_ws(c: char) -> bool {
    ||| ('\t' <= c && c <= '\r')
    ||| c == ' '
    ||| c == '\u{85}'
    ||| c == '\u{a0}'
    ||| c == '\u{1680}'
    ||| ('\u{2000}' <= c && c <= '\u{200a}')
    ||| c == '\u{2028}'
    ||| c == '\u{2029}'
    ||| c == '\u{202f}'
    ||| c == '\u{205f}'
    ||| c == '\u{3000}'
}

/// `needle` occurs in `s` at position `i`.
pub open spec fn occurs_at(s: Seq<char>, needle: Seq<char>, i: int) -> bool {
    &&& 0 <= i
    &&& i + needle.len() <= s.len()
    &&& s.subrange(i, i + needle.len()) == needle
}

/// First position at or after `start` where `needle` occurs.
pub open spec fn find_from(s: Seq<char>, needle: Seq<char>, start: int) -> Option<int>
    decreases s.len() + 1 - start,
{
    if start < 0 || start + needle.len() > s.len() {
        None
    } else if occurs_at(s, needle, start) {
        Some(start)
    } else {
        find_from(s, needle, start + 1)
    }
}

/// First position where `needle` occurs (what `str::find` gives, counted in chars).
pub open spec fn find(s: Seq<char>, needle: Seq<char>) -> Option<int> {
    find_from(s, needle, 0)
}

/// Last position at or before `i` where `needle` occurs.
pub open spec fn rfind_from(s: Seq<char>, needle: Seq<char>, i: int) -> Option<int>
    decreases i + 1,
{
    if i < 0 {
        None
    } else if occurs_at(s, needle, i) {
        Some(i)
    } else {
        rfind_from(s, needle, i - 1)
    }
}

/// Last position where `needle` occurs (what `str::rfind` gives, counted in chars).
pub open spec fn rfind(s: Seq<char>, needle: Seq<char>) -> Option<int> {
    rfind_from(s, needle, s.len() - needle.len())
}

/// `needle` occurs somewhere in `s`.
pub open spec fn contains(s: Seq<char>, needle: Seq<char>) -> bool {
    find(s, needle) is Some
}

pub open spec fn starts_with(s: Seq<char>, prefix: Seq<char>) -> bool {
    prefix.len() <= s.len() && s.subrange(0, prefix.len() as int) == prefix
}

pub open spec fn ends_with(s: Seq<char>, suffix: Seq<char>) -> bool {
    suffix.len() <= s.len() && s.subrange(s.len() - suffix.len(), s.len() as int) == suffix
}

/// Index of the first non-whitespace char at or after `i`.
pub open spec fn skip_ws(s: Seq<char>, i: int) -> int
    decreases s.len() - i,
{
    if 0 <= i < s.len() && is_ws(s[i]) {
        skip_ws(s, i + 1)
    } else {
        i
    }
}

/// Length of `s` once whitespace at the end of `s[..j]` is dropped.
pub open spec fn trim_end_len(s: Seq<char>, j: int) -> int
    decreases j,
{
    if 0 < j <= s.len() && is_ws(s[j - 1]) {
        trim_end_len(s, j - 1)
    } else {
        j
    }
}

/// `s` without its leading whitespace (`str::trim_start`).
pub open spec fn trim_start(s: Seq<char>) -> Seq<char> {
    s.subrange(skip_ws(s, 0), s.len() as int)
}

/// `s` without its trailing whitespace (`str::trim_end`).
pub open spec fn trim_end(s: Seq<char>) -> Seq<char> {
    s.subrange(0, trim_end_len(s, s.len() as int))
}

/// `s` without leading and trailing whitespace (`str::trim`).
pub open spec fn trim(s: Seq<char>) -> Seq<char> {
    trim_end(trim_start(s))
}

/// A line that a `\n` ends, as `str::lines` yields it: a trailing `'\r'`
/// (of a `\r\n` ending) is dropped.
pub open spec fn strip_cr(l: Seq<char>) -> Seq<char> {
    if l.len() > 0 && l.last() == '\r' {
        l.drop_last()
    } else {
        l
    }
}

/// The lines of `s`, as `str::lines` yields them: split at each `\n` or
/// `\r\n`; a last line with no `\n` after it is kept whole.
pub open spec fn lines(s: Seq<char>) -> Seq<Seq<char>>
    decreases s.len(),
{
    if s.len() == 0 {
        Seq::empty()
    } else {
        match find(s, seq!['\n']) {
            Some(i) => if 0 <= i < s.len() {
                seq![strip_cr(s.subrange(0, i))] + lines(s.subrange(i + 1, s.len() as int))
            } else {
                seq![s]
            },
            None => seq![s],
        }
    }
}

/// Every element of `parts`, each followed by nothing in between.
pub open spec fn concat_all(parts: Seq<Seq<char>>) -> Seq<char>
    decreases parts.len(),
{
    if parts.len() == 0 {
        Seq::empty()
    } else {
        concat_all(parts.drop_last()) + parts.last()
    }
}

// ============================================================================
// Lemmas
// ============================================================================

pub proof fn lemma_find_from_bounds(s: Seq<char>, needle: Seq<char>, start: int)
    requires
        0 <= start,
    ensures
        find_from(s, needle, start) matches Some(i) ==> start <= i && occurs_at(s, needle, i)
            && forall|j: int| start <= j < i ==> !occurs_at(s, needle, j),
        find_from(s, needle, start) is None ==> forall|j: int|
            start <= j ==> !#[trigger] occurs_at(s, needle, j),
    decreases s.len() + 1 - start,
{
    if start + needle.len() > s.len() {
    } else if occurs_at(s, needle, start) {
    } else {
        lemma_find_from_bounds(s, needle, start + 1);
    }
}

pub proof fn lemma_find_bounds(s: Seq<char>, needle: Seq<char>)
    ensures
        find(s, needle) matches Some(i) ==> 0 <= i && i + needle.len() <= s.len()
            && occurs_at(s, needle, i) && forall|j: int| 0 <= j < i ==> !occurs_at(s, needle, j),
        find(s, needle) is None ==> forall|j: int| !#[trigger] occurs_at(s, needle, j),
{
    lemma_find_from_bounds(s, needle, 0);
}

pub proof fn lemma_rfind_from_bounds(s: Seq<char>, needle: Seq<char>, i: int)
    ensures
        rfind_from(s, needle, i) matches Some(k) ==> 0 <= k <= i && occurs_at(s, needle, k),
    decreases i + 1,
{
    if i >= 0 && !occurs_at(s, needle, i) {
        lemma_rfind_from_bounds(s, needle, i - 1);
    }
}

pub proof fn lemma_skip_ws_bounds(s: Seq<char>, i: int)
    requires
        0 <= i <= s.len(),
    ensures
        i <= skip_ws(s, i) <= s.len(),
    decreases s.len() - i,
{
    if 0 <= i < s.len() && is_ws(s[i]) {
        lemma_skip_ws_bounds(s, i + 1);
    }
}

pub proof fn lemma_trim_end_len_bounds(s: Seq<char>, j: int)
    requires
        0 <= j <= s.len(),
    ensures
        0 <= trim_end_len(s, j) <= j,
    decreases j,
{
    if 0 < j <= s.len() && is_ws(s[j - 1]) {
        lemma_trim_end_len_bounds(s, j - 1);
    }
}

// ============================================================================
// Executable functions
// ============================================================================

/// Whether `c` is Unicode whitespace (`char::is_whitespace`).
pub fn is_whitespace(c: char) -> (r: bool)
    ensures
        r == is_ws(c),
{
    ('\t' <= c && c <= '\r') || c == ' ' || c == '\u{85}' || c == '\u{a0}' || c == '\u{1680}'
        || ('\u{2000}' <= c && c <= '\u{200a}') || c == '\u{2028}' || c == '\u{2029}' || c
        == '\u{202f}' || c == '\u{205f}' || c == '\u{3000}'
}

/// The characters of `s`.
pub fn chars_of(s: &str) -> (v: Vec<char>)
    ensures
        v@ == s@,
{
    let n = s.unicode_len();
    let mut v: Vec<char> = Vec::new();
    let mut i: usize = 0;
    while i < n
        invariant
            n == s@.len(),
            i <= n,
            v@ == s@.subrange(0, i as int),
        decreases n - i,
    {
        v.push(s.get_char(i));
        i = i + 1;
    }
    v
}

/// Appends one character to a `String` (`String::push`).
#[verifier::external_body]
pub(crate) fn push_char(s: &mut String, c: char)
    ensures
        final(s)@ == old(s)@.push(c),
{
    s.push(c);
}

/// The `String` made of the characters `cs`.
pub fn string_of(cs: &[char]) -> (s: String)
    ensures
        s@ == cs@,
{
    let mut s = String::new();
    let mut i: usize = 0;
    while i < cs.len()
        invariant
            i <= cs.len(),
            s@ == cs@.subrange(0, i as int),
        decreases cs.len() - i,
    {
        push_char(&mut s, cs[i]);
        i = i + 1;
    }
    s
}

/// `s[from..to]` as a new vector.
pub fn slice_chars(s: &[char], from: usize, to: usize) -> (v: Vec<char>)
    requires
        from <= to <= s.len(),
    ensures
        v@ == s@.subrange(from as int, to as int),
{
    let mut v: Vec<char> = Vec::new();
    let mut i = from;
    while i < to
        invariant
            from <= i <= to <= s.len(),
            v@ == s@.subrange(from as int, i as int),
        decreases to - i,
    {
        v.push(s[i]);
        i = i + 1;
    }
    v
}

/// Whether `needle` occurs in `s` at position `i`.
pub fn occurs_at_exec(s: &[char], needle: &[char], i: usize) -> (r: bool)
    ensures
        r == occurs_at(s@, needle@, i as int),
{
    if i > s.len() || needle.len() > s.len() - i {
        return false;
    }
    let mut k: usize = 0;
    while k < needle.len()
        invariant
            i + needle.len() <= s.len(),
            k <= needle.len(),
            forall|m: int| 0 <= m < k ==> s@[i + m] == needle@[m],
        decreases needle.len() - k,
    {
        if s[i + k] != needle[k] {
            assert(s@.subrange(i as int, i + needle.len())[k as int] != needle@[k as int]);
            return false;
        }
        k = k + 1;
    }
    assert(s@.subrange(i as int, i + needle.len()) =~= needle@);
    true
}

/// First position of `needle` in `s` (`str::find`).
pub fn find_chars(s: &[char], needle: &[char]) -> (r: Option<usize>)
    ensures
        r matches Some(i) ==> find(s@, needle@) == Some(i as int),
        r is None ==> find(s@, needle@) is None,
{
    if needle.len() > s.len() {
        return None;
    }
    let last = s.len() - needle.len();
    let mut i: usize = 0;
    loop
        invariant
            last + needle.len() == s.len(),
            i <= last,
            find(s@, needle@) == find_from(s@, needle@, i as int),
        decreases last - i,
    {
        if occurs_at_exec(s, needle, i) {
            return Some(i);
        }
        if i == last {
            assert(find_from(s@, needle@, i + 1) is None);
            return None;
        }
        i = i + 1;
    }
}

/// Last position of `needle` in `s` (`str::rfind`).
pub fn rfind_chars(s: &[char], needle: &[char]) -> (r: Option<usize>)
    ensures
        r matches Some(i) ==> rfind(s@, needle@) == Some(i as int),
        r is None ==> rfind(s@, needle@) is None,
{
    if needle.len() > s.len() {
        return None;
    }
    let mut i: usize = s.len() - needle.len();
    loop
        invariant
            i <= s.len() - needle.len(),
            rfind(s@, needle@) == rfind_from(s@, needle@, i as int),
        decreases i,
    {
        if occurs_at_exec(s, needle, i) {
            return Some(i);
        }
        if i == 0 {
            assert(rfind_from(s@, needle@, -1) is None);
            return None;
        }
        i = i - 1;
    }
}

/// Whether `needle` occurs in `s` (`str::contains`).
pub fn contains_chars(s: &[char], needle: &[char]) -> (r: bool)
    ensures
        r == contains(s@, needle@),
{
    find_chars(s, needle).is_some()
}

/// Whether `s` starts with `prefix` (`str::starts_with`).
pub fn starts_with_chars(s: &[char], prefix: &[char]) -> (r: bool)
    ensures
        r == starts_with(s@, prefix@),
{
    let r = occurs_at_exec(s, prefix, 0);
    assert(r == starts_with(s@, prefix@));
    r
}

/// Whether `s` ends with `suffix` (`str::ends_with`).
pub fn ends_with_chars(s: &[char], suffix: &[char]) -> (r: bool)
    ensures
        r == ends_with(s@, suffix@),
{
    if suffix.len() > s.len() {
        return false;
    }
    occurs_at_exec(s, suffix, s.len() - suffix.len())
}

/// Whether `a` and `b` hold the same characters.
pub fn chars_equal(a: &[char], b: &[char]) -> (r: bool)
    ensures
        r == (a@ == b@),
{
    if a.len() != b.len() {
        return false;
    }
    assert(a@.subrange(0, a@.len() as int) =~= a@);
    let r = occurs_at_exec(a, b, 0);
    r
}

/// Whether `s` starts with the character `c`.
pub fn starts_with_char(s: &[char], c: char) -> (r: bool)
    ensures
        r == (s@.len() > 0 && s@[0] == c),
{
    s.len() > 0 && s[0] == c
}

/// `s` without leading and trailing whitespace (`str::trim`).
pub fn trim_chars(s: &[char]) -> (v: Vec<char>)
    ensures
        v@ == trim(s@),
{
    let mut a: usize = 0;
    while a < s.len() && is_whitespace(s[a])
        invariant
            a <= s.len(),
            skip_ws(s@, 0) == skip_ws(s@, a as int),
        decreases s.len() - a,
    {
        a = a + 1;
    }
    let ghost t = s@.subrange(a as int, s@.len() as int);
    assert(t == trim_start(s@));
    let mut b: usize = s.len();
    while b > a && is_whitespace(s[b - 1])
        invariant
            a <= b <= s.len(),
            t == s@.subrange(a as int, s@.len() as int),
            trim_end_len(t, t.len() as int) == trim_end_len(t, b - a),
        decreases b,
    {
        assert(t[b - a - 1] == s@[b - 1]);
        b = b - 1;
    }
    let v = slice_chars(s, a, b);
    assert(v@ =~= t.subrange(0, b - a));
    v
}

/// `s` without leading whitespace (`str::trim_start`).
pub fn trim_start_chars(s: &[char]) -> (v: Vec<char>)
    ensures
        v@ == trim_start(s@),
{
    let mut a: usize = 0;
    while a < s.len() && is_whitespace(s[a])
        invariant
            a <= s.len(),
            skip_ws(s@, 0) == skip_ws(s@, a as int),
        decreases s.len() - a,
    {
        a = a + 1;
    }
    slice_chars(s, a, s.len())
}

/// The lines of `s` (`str::lines`).
pub fn lines_of(s: &[char]) -> (v: Vec<Vec<char>>)
    ensures
        v@.map_values(|l: Vec<char>| l@) == lines(s@),
{
    let mut out: Vec<Vec<char>> = Vec::new();
    let mut pos: usize = 0;
    assert(s@.subrange(0, s@.len() as int) =~= s@);
    assert(out@.map_values(|l: Vec<char>| l@) + lines(s@) =~= lines(s@));
    while pos < s.len()
        invariant
            pos <= s.len(),
            lines(s@) == out@.map_values(|l: Vec<char>| l@) + lines(
                s@.subrange(pos as int, s@.len() as int),
            ),
        decreases s.len() - pos,
    {
        let ghost rest = s@.subrange(pos as int, s@.len() as int);
        let mut e = pos;
        while e < s.len() && s[e] != '\n'
            invariant
                pos <= e <= s.len(),
                forall|k: int| pos <= k < e ==> s@[k] != '\n',
            decreases s.len() - e,
        {
            e = e + 1;
        }
        proof {
            let nl = seq!['\n'];
            lemma_find_bounds(rest, nl);
            assert forall|j: int| 0 <= j < e - pos implies !occurs_at(rest, nl, j) by {
                if occurs_at(rest, nl, j) {
                    assert(rest.subrange(j, j + 1)[0] == rest[j]);
                }
            }
            if e < s.len() {
                assert(rest.subrange(e - pos, e - pos + 1) =~= nl);
                assert(occurs_at(rest, nl, e - pos));
            } else {
                assert forall|j: int| #[trigger] occurs_at(rest, nl, j) implies false by {
                    if 0 <= j < e - pos {
                    } else {
                    }
                }
            }
        }
        let mut line_end = e;
        if e < s.len() && line_end > pos && s[line_end - 1] == '\r' {
            line_end = line_end - 1;
        }
        let line = slice_chars(s, pos, line_end);
        let ghost old_out = out@.map_values(|l: Vec<char>| l@);
        out.push(line);
        proof {
            let whole = s@.subrange(pos as int, e as int);
            assert(rest.subrange(0, e - pos) =~= whole);
            if e < s.len() {
                assert(line@ =~= strip_cr(whole));
            } else {
                assert(line@ =~= whole);
            }
            assert(out@.map_values(|l: Vec<char>| l@) =~= old_out.push(line@));
        }
        if e < s.len() {
            assert(rest.subrange(e - pos + 1, rest.len() as int) =~= s@.subrange(
                e + 1,
                s@.len() as int,
            ));
            pos = e + 1;
        } else {
            assert(rest.subrange(0, e - pos) =~= rest);
            assert(s@.subrange(s@.len() as int, s@.len() as int) =~= Seq::<char>::empty());
            pos = e;
        }
    }
    assert(s@.subrange(pos as int, s@.len() as int) =~= Seq::<char>::empty());
    assert(out@.map_values(|l: Vec<char>| l@) + Seq::<Seq<char>>::empty() =~= out@.map_values(
        |l: Vec<char>| l@,
    ));
    out
}


/// Pieces of `s` between occurrences of `c` (`str::split` with a char).
pub open spec fn split_on(s: Seq<char>, c: char) -> Seq<Seq<char>>
    decreases s.len(),
{
    match find(s, seq![c]) {
        Some(i) => if 0 <= i < s.len() {
            seq![s.subrange(0, i)] + split_on(s.subrange(i + 1, s.len() as int), c)
        } else {
            seq![s]
        },
        None => seq![s],
    }
}

/// Decimal digit.
pub open spec fn is_digit(c: char) -> bool {
    '0' <= c && c <= '9'
}

/// Value of a run of decimal digits.
pub open spec fn digits_value(s: Seq<char>) -> nat
    decreases s.len(),
{
    if s.len() == 0 {
        0
    } else {
        digits_value(s.drop_last()) * 10 + ((s.last() as nat) - ('0' as nat)) as nat
    }
}

pub open spec fn all_digits(s: Seq<char>) -> bool {
    forall|i: int| 0 <= i < s.len() ==> is_digit(#[trigger] s[i])
}

/// What `str::parse::<u32>` gives: an optional `+`, then one or more
/// decimal digits whose value fits in a `u32`.
pub open spec fn parse_u32(s: Seq<char>) -> Option<u32> {
    let d = if s.len() > 0 && s[0] == '+' { s.drop_first() } else { s };
    if d.len() > 0 && all_digits(d) && digits_value(d) <= u32::MAX {
        Some(digits_value(d) as u32)
    } else {
        None
    }
}

/// Decimal representation of `n` without leading zeros (`u32` formatting).
pub open spec fn decimal(n: nat) -> Seq<char>
    decreases n,
{
    if n < 10 {
        seq![digit_char(n)]
    } else {
        decimal(n / 10).push(digit_char(n % 10))
    }
}

pub open spec fn digit_char(d: nat) -> char {
    (('0' as nat) + d) as char
}

/// Strict lexicographic order on character sequences (the order of `str`).
pub open spec fn lex_lt(a: Seq<char>, b: Seq<char>) -> bool
    decreases a.len(),
{
    if a.len() == 0 {
        b.len() > 0
    } else if b.len() == 0 {
        false
    } else if a[0] != b[0] {
        a[0] < b[0]
    } else {
        lex_lt(a.drop_first(), b.drop_first())
    }
}

/// Non-strict lexicographic order.
pub open spec fn lex_le(a: Seq<char>, b: Seq<char>) -> bool {
    lex_lt(a, b) || a == b
}

/// Every element is strictly smaller than every later one.
pub open spec fn strictly_sorted(v: Seq<Seq<char>>) -> bool {
    forall|i: int, j: int| 0 <= i < j < v.len() ==> lex_lt(#[trigger] v[i], #[trigger] v[j])
}

/// Every element is at most every later one.
pub open spec fn sorted_le(v: Seq<Seq<char>>) -> bool {
    forall|i: int, j: int| 0 <= i < j < v.len() ==> lex_le(#[trigger] v[i], #[trigger] v[j])
}

// ----------------------------------------------------------------------------
// Lemmas on decimal numbers and on the lexicographic order
// ----------------------------------------------------------------------------

pub proof fn lemma_decimal_digits(n: nat)
    ensures
        decimal(n).len() > 0,
        all_digits(decimal(n)),
        digits_value(decimal(n)) == n,
        decimal(n)[0] != '+',
    decreases n,
{
    if n < 10 {
        assert(decimal(n) =~= seq![digit_char(n)]);
        assert(decimal(n).drop_last() =~= Seq::<char>::empty());
        assert((digit_char(n) as nat) == ('0' as nat) + n);
        assert(digits_value(decimal(n).drop_last()) == 0);
        assert(decimal(n).last() == digit_char(n));
    } else {
        lemma_decimal_digits(n / 10);
        assert((digit_char(n % 10) as nat) == ('0' as nat) + n % 10);
        assert(n == (n / 10) * 10 + n % 10);
        assert(decimal(n).last() == digit_char(n % 10));
        assert(decimal(n).drop_last() =~= decimal(n / 10));
        assert(digits_value(decimal(n)) == digits_value(decimal(n / 10)) * 10 + n % 10);
        let d = decimal(n);
        assert(d.drop_last() =~= decimal(n / 10));
        assert forall|i: int| 0 <= i < d.len() implies is_digit(#[trigger] d[i]) by {
            if i < d.len() - 1 {
                assert(d[i] == decimal(n / 10)[i]);
            }
        }
        assert(d[0] == decimal(n / 10)[0]);
    }
}

pub proof fn lemma_lex_lt_irreflexive(a: Seq<char>)
    ensures
        !lex_lt(a, a),
    decreases a.len(),
{
    if a.len() > 0 {
        lemma_lex_lt_irreflexive(a.drop_first());
    }
}

pub proof fn lemma_lex_lt_transitive(a: Seq<char>, b: Seq<char>, c: Seq<char>)
    requires
        lex_lt(a, b),
        lex_lt(b, c),
    ensures
        lex_lt(a, c),
    decreases a.len(),
{
    if a.len() > 0 && b.len() > 0 && c.len() > 0 {
        if a[0] == b[0] && b[0] == c[0] {
            lemma_lex_lt_transitive(a.drop_first(), b.drop_first(), c.drop_first());
        }
    }
}

pub proof fn lemma_lex_total(a: Seq<char>, b: Seq<char>)
    ensures
        lex_lt(a, b) || lex_lt(b, a) || a == b,
    decreases a.len(),
{
    if a.len() > 0 && b.len() > 0 {
        if a[0] == b[0] {
            lemma_lex_total(a.drop_first(), b.drop_first());
            if a.drop_first() == b.drop_first() {
                assert(a =~= seq![a[0]] + a.drop_first());
                assert(b =~= seq![b[0]] + b.drop_first());
            }
        }
    } else if a.len() == 0 && b.len() == 0 {
        assert(a =~= b);
    }
}

pub proof fn lemma_lex_lt_asymmetric(a: Seq<char>, b: Seq<char>)
    requires
        lex_lt(a, b),
    ensures
        !lex_lt(b, a),
        a != b,
{
    if lex_lt(b, a) {
        lemma_lex_lt_transitive(a, b, a);
        lemma_lex_lt_irreflexive(a);
    }
    if a == b {
        lemma_lex_lt_irreflexive(a);
    }
}

// ----------------------------------------------------------------------------
// Executable string helpers
// ----------------------------------------------------------------------------

/// An owned copy of `s`.
pub fn owned(s: &str) -> (r: String)
    ensures
        r@ == s@,
{
    String::from_str(s)
}

/// Whether two strings hold the same characters.
pub fn str_eq(a: &str, b: &str) -> (r: bool)
    ensures
        r == (a@ == b@),
{
    let ac = chars_of(a);
    let bc = chars_of(b);
    chars_equal(ac.as_slice(), bc.as_slice())
}

/// Whether `needle` occurs in `s`.
pub fn str_contains(s: &str, needle: &str) -> (r: bool)
    ensures
        r == contains(s@, needle@),
{
    let sc = chars_of(s);
    let nc = chars_of(needle);
    contains_chars(sc.as_slice(), nc.as_slice())
}

/// Whether `s` starts with `prefix`.
pub fn str_starts_with(s: &str, prefix: &str) -> (r: bool)
    ensures
        r == starts_with(s@, prefix@),
{
    let sc = chars_of(s);
    let pc = chars_of(prefix);
    starts_with_chars(sc.as_slice(), pc.as_slice())
}

/// Whether `s` ends with `suffix`.
pub fn str_ends_with(s: &str, suffix: &str) -> (r: bool)
    ensures
        r == ends_with(s@, suffix@),
{
    let sc = chars_of(s);
    let pc = chars_of(suffix);
    ends_with_chars(sc.as_slice(), pc.as_slice())
}

/// Whether `s` is one of `options`.
pub fn str_in(s: &str, options: &[&str]) -> (r: bool)
    ensures
        r == exists|i: int| 0 <= i < options@.len() && options@[i]@ == s@,
{
    let mut i: usize = 0;
    while i < options.len()
        invariant
            i <= options.len(),
            forall|k: int| 0 <= k < i ==> options@[k]@ != s@,
        decreases options.len() - i,
    {
        if str_eq(options[i], s) {
            return true;
        }
        i = i + 1;
    }
    false
}

/// Pieces of `s` between occurrences of `c`.
pub fn split_chars(s: &[char], c: char) -> (v: Vec<Vec<char>>)
    ensures
        v@.map_values(|p: Vec<char>| p@) == split_on(s@, c),
{
    let mut out: Vec<Vec<char>> = Vec::new();
    let mut pos: usize = 0;
    assert(s@.subrange(0, s@.len() as int) =~= s@);
    assert(out@.map_values(|p: Vec<char>| p@) + split_on(s@, c) =~= split_on(s@, c));
    loop
        invariant
            pos <= s.len(),
            split_on(s@, c) == out@.map_values(|p: Vec<char>| p@) + split_on(
                s@.subrange(pos as int, s@.len() as int),
                c,
            ),
        decreases s.len() - pos,
    {
        let ghost rest = s@.subrange(pos as int, s@.len() as int);
        let mut e = pos;
        while e < s.len() && s[e] != c
            invariant
                pos <= e <= s.len(),
                forall|k: int| pos <= k < e ==> s@[k] != c,
            decreases s.len() - e,
        {
            e = e + 1;
        }
        let piece = slice_chars(s, pos, e);
        proof {
            let cs = seq![c];
            lemma_find_bounds(rest, cs);
            assert forall|j: int| 0 <= j < e - pos implies !occurs_at(rest, cs, j) by {
                if occurs_at(rest, cs, j) {
                    assert(rest.subrange(j, j + 1)[0] == rest[j]);
                }
            }
            if e < s.len() {
                assert(rest.subrange(e - pos, e - pos + 1) =~= cs);
                assert(occurs_at(rest, cs, e - pos));
            } else {
                assert forall|j: int| #[trigger] occurs_at(rest, cs, j) implies false by {
                    if 0 <= j < e - pos {
                    } else {
                    }
                }
            }
            assert(rest.subrange(0, e - pos) =~= piece@);
        }
        let ghost old_out = out@.map_values(|p: Vec<char>| p@);
        out.push(piece);
        assert(out@.map_values(|p: Vec<char>| p@) =~= old_out.push(piece@));
        if e < s.len() {
            assert(rest.subrange(e - pos + 1, rest.len() as int) =~= s@.subrange(
                e + 1,
                s@.len() as int,
            ));
            pos = e + 1;
        } else {
            assert(rest =~= piece@);
            assert(old_out + split_on(rest, c) =~= out@.map_values(|p: Vec<char>| p@));
            return out;
        }
    }
}

/// Parses a `u32` the way `str::parse::<u32>` does.
pub fn parse_u32_chars(s: &[char]) -> (r: Option<u32>)
    ensures
        r == parse_u32(s@),
{
    let start: usize = if s.len() > 0 && s[0] == '+' {
        1
    } else {
        0
    };
    let ghost d = if s@.len() > 0 && s@[0] == '+' {
        s@.drop_first()
    } else {
        s@
    };
    assert(d =~= s@.subrange(start as int, s@.len() as int));
    assert(parse_u32(s@) == (if d.len() > 0 && all_digits(d) && digits_value(d) <= u32::MAX {
        Some(digits_value(d) as u32)
    } else {
        None::<u32>
    }));
    if start >= s.len() {
        return None;
    }
    let mut value: u64 = 0;
    let mut i = start;
    while i < s.len()
        invariant
            start <= i <= s.len(),
            d == s@.subrange(start as int, s@.len() as int),
            all_digits(s@.subrange(start as int, i as int)),
            value == digits_value(s@.subrange(start as int, i as int)),
            value <= u32::MAX,
            parse_u32(s@) == (if d.len() > 0 && all_digits(d) && digits_value(d) <= u32::MAX {
                Some(digits_value(d) as u32)
            } else {
                None::<u32>
            }),
        decreases s.len() - i,
    {
        let ch = s[i];
        if !('0' <= ch && ch <= '9') {
            assert(d[i - start] == ch);
            assert(!is_digit(d[i - start]));
            assert(!all_digits(d));
            return None;
        }
        let ghost prefix = s@.subrange(start as int, i + 1);
        assert(prefix.drop_last() =~= s@.subrange(start as int, i as int));
        let dv: u64 = (ch as u64) - ('0' as u64);
        let nv: u64 = value * 10 + dv;
        assert(digits_value(prefix) == nv);
        if nv > 4294967295u64 {
            proof {
                if all_digits(d) {
                    lemma_digits_value_prefix_bound(d, i + 1 - start);
                    assert(d.subrange(0, i + 1 - start) =~= prefix);
                    assert(digits_value(d) > u32::MAX);
                }
                assert(parse_u32(s@) is None);
            }
            return None;
        }
        value = nv;
        i = i + 1;
    }
    assert(s@.subrange(start as int, s@.len() as int) =~= d);
    Some(value as u32)
}

/// The value of a digit run is at least the value of any of its prefixes.
pub proof fn lemma_digits_value_prefix_bound(d: Seq<char>, k: int)
    requires
        0 <= k <= d.len(),
        all_digits(d),
    ensures
        digits_value(d.subrange(0, k)) <= digits_value(d),
    decreases d.len() - k,
{
    if k < d.len() {
        lemma_digits_value_prefix_bound(d, k + 1);
        let p = d.subrange(0, k + 1);
        assert(p.drop_last() =~= d.subrange(0, k));
        assert(is_digit(d[k]));
    } else {
        assert(d.subrange(0, k) =~= d);
    }
}

/// The decimal representation of `n` (`u32` formatting).
pub fn decimal_string(n: u32) -> (s: String)
    ensures
        s@ == decimal(n as nat),
    decreases n,
{
    if n < 10 {
        let mut s = String::new();
        push_char(&mut s, digit(n));
        assert(s@ =~= seq![digit_char(n as nat)]);
        s
    } else {
        let mut s = decimal_string(n / 10);
        push_char(&mut s, digit(n % 10));
        s
    }
}

/// The decimal digit character for `d < 10`.
pub fn digit(d: u32) -> (c: char)
    requires
        d < 10,
    ensures
        c == digit_char(d as nat),
{
    let chars = ['0', '1', '2', '3', '4', '5', '6', '7', '8', '9'];
    let c = chars[d as usize];
    assert(c == digit_char(d as nat)) by {
        assert(chars@[d as int] == c);
        if d == 0 {} else if d == 1 {} else if d == 2 {} else if d == 3 {} else if d == 4 {}
        else if d == 5 {} else if d == 6 {} else if d == 7 {} else if d == 8 {} else {}
    }
    c
}

/// Whether `a` sorts strictly before `b`.
pub fn lex_less(a: &[char], b: &[char]) -> (r: bool)
    ensures
        r == lex_lt(a@, b@),
{
    let mut i: usize = 0;
    assert(a@.subrange(0, a@.len() as int) =~= a@);
    assert(b@.subrange(0, b@.len() as int) =~= b@);
    while i < a.len() && i < b.len() && a[i] == b[i]
        invariant
            i <= a.len(),
            i <= b.len(),
            lex_lt(a@, b@) == lex_lt(a@.subrange(i as int, a@.len() as int), b@.subrange(
                i as int,
                b@.len() as int,
            )),
        decreases a.len() - i,
    {
        let ghost sa = a@.subrange(i as int, a@.len() as int);
        let ghost sb = b@.subrange(i as int, b@.len() as int);
        assert(sa.drop_first() =~= a@.subrange(i + 1, a@.len() as int));
        assert(sb.drop_first() =~= b@.subrange(i + 1, b@.len() as int));
        i = i + 1;
    }
    let ghost sa = a@.subrange(i as int, a@.len() as int);
    let ghost sb = b@.subrange(i as int, b@.len() as int);
    if i == a.len() {
        i < b.len()
    } else if i == b.len() {
        false
    } else {
        assert(sa[0] == a@[i as int] && sb[0] == b@[i as int]);
        a[i] < b[i]
    }
}


/// The character views of a sequence of string slices.
pub open spec fn strs_view(v: Seq<&str>) -> Seq<Seq<char>> {
    v.map_values(|s: &str| s@)
}

/// The character views of a sequence of strings.
pub open spec fn strings_view(v: Seq<String>) -> Seq<Seq<char>> {
    v.map_values(|s: String| s@)
}

pub proof fn lemma_lex_le_transitive(a: Seq<char>, b: Seq<char>, c: Seq<char>)
    requires
        lex_le(a, b),
        lex_le(b, c),
    ensures
        lex_le(a, c),
{
    if lex_lt(a, b) && lex_lt(b, c) {
        lemma_lex_lt_transitive(a, b, c);
    }
}

/// Whether `a` sorts strictly before `b`.
pub fn lex_less_str(a: &str, b: &str) -> (r: bool)
    ensures
        r == lex_lt(a@, b@),
{
    let ac = chars_of(a);
    let bc = chars_of(b);
    lex_less(ac.as_slice(), bc.as_slice())
}

/// Inserts `x` into the sorted vector `v`, keeping it sorted.
pub fn insert_sorted_str<'a>(v: &mut Vec<&'a str>, x: &'a str)
    requires
        sorted_le(strs_view(old(v)@)),
    ensures
        sorted_le(strs_view(final(v)@)),
        exists|k: int|
            0 <= k <= old(v)@.len() && strs_view(final(v)@) == strs_view(old(v)@).insert(k, x@),
{
    let mut k: usize = 0;
    while k < v.len() && lex_less_str(v[k], x)
        invariant
            k <= v@.len(),
            v@ == old(v)@,
            forall|i: int| 0 <= i < k ==> lex_lt(#[trigger] v@[i]@, x@),
        decreases v.len() - k,
    {
        k = k + 1;
    }
    let ghost w0 = v@;
    proof {
        if k < w0.len() {
            lemma_lex_total(w0[k as int]@, x@);
        }
    }
    v.insert(k, x);
    proof {
        let w = v@;
        assert(w == w0.insert(k as int, x));
        let sv = strs_view(w);
        let s0 = strs_view(w0);
        assert(sv =~= s0.insert(k as int, x@));
        assert forall|i: int, j: int| 0 <= i < j < sv.len() implies lex_le(
            #[trigger] sv[i],
            #[trigger] sv[j],
        ) by {
            assert(sv[i] == w[i]@ && sv[j] == w[j]@);
            if j < k {
                assert(s0[i] == w0[i]@ && s0[j] == w0[j]@);
            } else if j == k {
                assert(w[j] == x);
            } else if i == k {
                assert(w[j] == w0[j - 1]);
                if j - 1 > k {
                    assert(s0[k as int] == w0[k as int]@ && s0[j - 1] == w0[j - 1]@);
                    lemma_lex_le_transitive(x@, w0[k as int]@, w0[j - 1]@);
                }
            } else if i < k {
                assert(w[j] == w0[j - 1]);
                lemma_lex_total(w0[k as int]@, x@);
                assert(s0[k as int] == w0[k as int]@ && s0[j - 1] == w0[j - 1]@);
                if j - 1 > k {
                    lemma_lex_le_transitive(x@, w0[k as int]@, w0[j - 1]@);
                }
                lemma_lex_le_transitive(w0[i]@, x@, w0[j - 1]@);
            } else {
                assert(w[i] == w0[i - 1] && w[j] == w0[j - 1]);
                assert(s0[i - 1] == w0[i - 1]@ && s0[j - 1] == w0[j - 1]@);
            }
        }
    }
}

/// Inserts `x` into the strictly sorted vector `v` unless it is already there.
pub fn insert_sorted_unique(v: &mut Vec<String>, x: &String)
    requires
        strictly_sorted(strings_view(old(v)@)),
    ensures
        strictly_sorted(strings_view(final(v)@)),
        strings_view(final(v)@).to_set() == strings_view(old(v)@).to_set().insert(x@),
{
    let mut k: usize = 0;
    while k < v.len() && lex_less_str(v[k].as_str(), x.as_str())
        invariant
            k <= v@.len(),
            v@ == old(v)@,
            forall|i: int| 0 <= i < k ==> lex_lt(#[trigger] v@[i]@, x@),
        decreases v.len() - k,
    {
        k = k + 1;
    }
    let ghost w0 = v@;
    let ghost s0 = strings_view(w0);
    if k < v.len() && str_eq(v[k].as_str(), x.as_str()) {
        proof {
            assert(s0[k as int] == x@);
            assert(s0.to_set().insert(x@) =~= s0.to_set());
        }
        return;
    }
    proof {
        if k < w0.len() {
            lemma_lex_total(w0[k as int]@, x@);
            assert(lex_lt(x@, w0[k as int]@));
        }
    }
    v.insert(k, x.clone());
    proof {
        let w = v@;
        let sv = strings_view(w);
        assert(sv =~= s0.insert(k as int, x@));
        assert forall|i: int, j: int| 0 <= i < j < sv.len() implies lex_lt(
            #[trigger] sv[i],
            #[trigger] sv[j],
        ) by {
            if j < k {
                assert(sv[i] == s0[i] && sv[j] == s0[j]);
            } else if j == k {
                assert(sv[j] == x@ && sv[i] == s0[i]);
            } else if i == k {
                assert(sv[j] == s0[j - 1]);
                if j - 1 > k {
                    lemma_lex_lt_transitive(x@, s0[k as int], s0[j - 1]);
                }
            } else if i < k {
                assert(sv[j] == s0[j - 1] && sv[i] == s0[i]);
                if j - 1 > k {
                    lemma_lex_lt_transitive(x@, s0[k as int], s0[j - 1]);
                }
                lemma_lex_lt_transitive(s0[i], x@, s0[j - 1]);
            } else {
                assert(sv[i] == s0[i - 1] && sv[j] == s0[j - 1]);
            }
        }
        assert forall|e: Seq<char>| sv.to_set().contains(e) <==> s0.to_set().insert(x@).contains(e) by {
            if sv.contains(e) {
                let i = choose|i: int| 0 <= i < sv.len() && sv[i] == e;
                if i < k {
                    assert(s0[i] == e);
                } else if i > k {
                    assert(s0[i - 1] == e);
                }
            }
            if s0.contains(e) {
                let i = choose|i: int| 0 <= i < s0.len() && s0[i] == e;
                if i < k {
                    assert(sv[i] == e);
                } else {
                    assert(sv[i + 1] == e);
                }
            }
            if e == x@ {
                assert(sv[k as int] == e);
            }
        }
        assert(sv.to_set() =~= s0.to_set().insert(x@));
    }
}


/// Starting with a one-character sequence means having that first character.
pub proof fn lemma_starts_with_char(s: Seq<char>, c: char)
    ensures
        starts_with(s, seq![c]) == (s.len() > 0 && s[0] == c),
{
    if s.len() > 0 {
        assert(s.subrange(0, 1)[0] == s[0]);
        if s[0] == c {
            assert(s.subrange(0, 1) =~= seq![c]);
        }
    }
}

/// Ending with a one-character sequence means having that last character.
pub proof fn lemma_ends_with_char(s: Seq<char>, c: char)
    ensures
        ends_with(s, seq![c]) == (s.len() > 0 && s.last() == c),
{
    if s.len() > 0 {
        assert(s.subrange(s.len() - 1, s.len() as int)[0] == s.last());
        if s.last() == c {
            assert(s.subrange(s.len() - 1, s.len() as int) =~= seq![c]);
        }
    }
}

// ----------------------------------------------------------------------------
// Byte lengths and character classes
// ----------------------------------------------------------------------------

/// Number of bytes `c` takes in UTF-8 (`char::len_utf8`).
pub open spec fn utf8_len(c: char) -> nat {
    if (c as u32) < 0x80 {
        1
    } else if (c as u32) < 0x800 {
        2
    } else if (c as u32) < 0x10000 {
        3
    } else {
        4
    }
}

/// Number of bytes `s` takes in UTF-8 (`str::len`).
pub open spec fn byte_len(s: Seq<char>) -> nat
    decreases s.len(),
{
    if s.len() == 0 {
        0
    } else {
        byte_len(s.drop_last()) + utf8_len(s.last())
    }
}

/// First position at or after `i` holding one of the characters `cs`.
pub open spec fn find_any_from(s: Seq<char>, cs: Seq<char>, i: int) -> Option<int>
    decreases s.len() - i,
{
    if i < 0 || i >= s.len() {
        None
    } else if cs.contains(s[i]) {
        Some(i)
    } else {
        find_any_from(s, cs, i + 1)
    }
}

/// First position holding one of the characters `cs` (`str::find` with a
/// set of characters).
pub open spec fn find_any(s: Seq<char>, cs: Seq<char>) -> Option<int> {
    find_any_from(s, cs, 0)
}

pub proof fn lemma_find_any_from_bounds(s: Seq<char>, cs: Seq<char>, i: int)
    requires
        0 <= i,
    ensures
        find_any_from(s, cs, i) matches Some(k) ==> i <= k < s.len() && cs.contains(s[k])
            && forall|j: int| i <= j < k ==> !cs.contains(#[trigger] s[j]),
        find_any_from(s, cs, i) is None ==> forall|j: int|
            i <= j < s.len() ==> !cs.contains(#[trigger] s[j]),
    decreases s.len() - i,
{
    if i < s.len() && !cs.contains(s[i]) {
        lemma_find_any_from_bounds(s, cs, i + 1);
    }
}

/// Number of bytes of `s[..k]`.
pub fn byte_len_prefix(s: &[char], k: usize) -> (r: u128)
    requires
        k <= s.len(),
    ensures
        r == byte_len(s@.subrange(0, k as int)),
        r <= 4 * k,
{
    let mut r: u128 = 0;
    let mut i: usize = 0;
    while i < k
        invariant
            i <= k <= s.len(),
            r == byte_len(s@.subrange(0, i as int)),
            r <= 4 * i,
        decreases k - i,
    {
        let c = s[i];
        let w: u128 = if (c as u32) < 0x80 {
            1
        } else if (c as u32) < 0x800 {
            2
        } else if (c as u32) < 0x10000 {
            3
        } else {
            4
        };
        assert(s@.subrange(0, i + 1).drop_last() =~= s@.subrange(0, i as int));
        r = r + w;
        i = i + 1;
    }
    r
}

/// First position of `s` holding one of the characters `cs`.
pub fn find_any_chars(s: &[char], cs: &[char]) -> (r: Option<usize>)
    ensures
        r matches Some(k) ==> k < s@.len() && find_any(s@, cs@) == Some(k as int),
        r is None ==> find_any(s@, cs@) is None,
{
    let mut i: usize = 0;
    while i < s.len()
        invariant
            i <= s.len(),
            find_any(s@, cs@) == find_any_from(s@, cs@, i as int),
        decreases s.len() - i,
    {
        let mut j: usize = 0;
        let mut hit = false;
        while j < cs.len()
            invariant
                i < s.len(),
                j <= cs.len(),
                hit == (exists|m: int| 0 <= m < j && cs@[m] == s@[i as int]),
            decreases cs.len() - j,
        {
            if cs[j] == s[i] {
                hit = true;
            }
            j = j + 1;
        }
        if hit {
            return Some(i);
        }
        i = i + 1;
    }
    None
}

/// The decimal digits of `n` (`usize::to_string`).
pub fn decimal_usize(n: usize) -> (s: String)
    ensures
        s@ == decimal(n as nat),
    decreases n,
{
    if n < 10 {
        let mut s = String::new();
        push_char(&mut s, digit(n as u32));
        assert(s@ =~= seq![digit_char(n as nat)]);
        s
    } else {
        let mut s = decimal_usize(n / 10);
        push_char(&mut s, digit((n % 10) as u32));
        s
    }
}

/// The parts joined with `sep` between each two (`[String]::join`).
pub open spec fn join(parts: Seq<Seq<char>>, sep: Seq<char>) -> Seq<char>
    decreases parts.len(),
{
    if parts.len() == 0 {
        Seq::empty()
    } else if parts.len() == 1 {
        parts[0]
    } else {
        join(parts.drop_last(), sep) + sep + parts.last()
    }
}

/// The strings `parts` joined with `sep`.
pub fn join_strings(parts: &Vec<String>, sep: &str) -> (r: String)
    ensures
        r@ == join(crate::assoc::strs(parts@), sep@),
{
    let ghost pv = crate::assoc::strs(parts@);
    let mut out = String::new();
    let mut i: usize = 0;
    while i < parts.len()
        invariant
            i <= parts@.len(),
            pv == crate::assoc::strs(parts@),
            out@ == join(pv.subrange(0, i as int), sep@),
        decreases parts.len() - i,
    {
        assert(pv.subrange(0, i + 1).drop_last() =~= pv.subrange(0, i as int));
        if i > 0 {
            out.append(sep);
        }
        out.append(parts[i].as_str());
        i = i + 1;
    }
    assert(pv.subrange(0, pv.len() as int) =~= pv);
    out
}


/// `s` without every `suffix` at its end (`str::trim_end_matches`).
pub open spec fn trim_end_all(s: Seq<char>, suffix: Seq<char>) -> Seq<char>
    decreases s.len(),
{
    if suffix.len() > 0 && ends_with(s, suffix) {
        trim_end_all(s.subrange(0, s.len() - suffix.len()), suffix)
    } else {
        s
    }
}

/// `s` without every `suffix` at its end.
pub fn trim_end_all_str(s: &str, suffix: &str) -> (r: String)
    ensures
        r@ == trim_end_all(s@, suffix@),
{
    let mut cs = chars_of(s);
    let sf = chars_of(suffix);
    while sf.len() > 0 && ends_with_chars(cs.as_slice(), sf.as_slice())
        invariant
            sf@ == suffix@,
            trim_end_all(cs@, suffix@) == trim_end_all(s@, suffix@),
        decreases cs.len(),
    {
        cs = slice_chars(cs.as_slice(), 0, cs.len() - sf.len());
    }
    string_of(cs.as_slice())
}

/// The part of `s` before its first `c`, all of `s` when it holds none
/// (the first piece of `s.split(c)`).
pub open spec fn before_first(s: Seq<char>, c: char) -> Seq<char> {
    match find(s, seq![c]) {
        Some(k) => s.subrange(0, k),
        None => s,
    }
}

/// The part of `s` before its first `c`.
pub fn before_first_str(s: &str, c: char) -> (r: String)
    ensures
        r@ == before_first(s@, c),
{
    let cs = chars_of(s);
    let needle = [c];
    assert(needle@ =~= seq![c]);
    match find_chars(cs.as_slice(), &needle) {
        Some(k) => {
            proof {
                lemma_find_bounds(cs@, seq![c]);
            }
            let v = slice_chars(cs.as_slice(), 0, k);
            string_of(v.as_slice())
        },
        None => owned(s),
    }
}


/// `s` with every non-overlapping occurrence of `pat`, from the left,
/// replaced by `rep` (`str::replace`; an empty `pat` leaves `s` as it is).
pub open spec fn replace_all(s: Seq<char>, pat: Seq<char>, rep: Seq<char>) -> Seq<char>
    decreases s.len(),
{
    if pat.len() == 0 {
        s
    } else {
        match find(s, pat) {
            Some(k) => if 0 <= k && k + pat.len() <= s.len() {
                s.subrange(0, k) + rep + replace_all(s.subrange(k + pat.len(), s.len() as int), pat, rep)
            } else {
                s
            },
            None => s,
        }
    }
}

/// `s` with every occurrence of the non-empty `pat` replaced by `rep`.
pub fn replace_all_str(s: &str, pat: &str, rep: &str) -> (r: String)
    requires
        pat@.len() > 0,
    ensures
        r@ == replace_all(s@, pat@, rep@),
{
    let pc = chars_of(pat);
    let mut rest = chars_of(s);
    let mut out = String::new();
    while rest.len() > 0
        invariant
            pc@ == pat@,
            pat@.len() > 0,
            out@ + replace_all(rest@, pat@, rep@) == replace_all(s@, pat@, rep@),
        decreases rest.len(),
    {
        match find_chars(rest.as_slice(), pc.as_slice()) {
            Some(k) => {
                proof {
                    lemma_find_bounds(rest@, pat@);
                }
                let head = slice_chars(rest.as_slice(), 0, k);
                let hs = string_of(head.as_slice());
                let ghost r0 = rest@;
                let ghost o0 = out@;
                out.append(hs.as_str());
                out.append(rep);
                rest = slice_chars(rest.as_slice(), k + pc.len(), rest.len());
                assert(out@ + replace_all(rest@, pat@, rep@) =~= o0 + replace_all(r0, pat@, rep@));
            },
            None => {
                let rs = string_of(rest.as_slice());
                out.append(rs.as_str());
                return out;
            },
        }
    }
    assert(replace_all(rest@, pat@, rep@) == rest@);
    assert(out@ + rest@ =~= out@);
    out
}

} // verus!
