//! Character and string primitives shared by the moderation and matching code.
//!
//! Strings are handled as sequences of `char`s. Unicode classification and
//! case mapping come from the standard library and are named below; the
//! searching, splitting and rewriting built on them is verified here.

use vstd::prelude::*;

verus! {

// ---------------------------------------------------------------------------
// Names for the standard library's Unicode tables
// ---------------------------------------------------------------------------

/// Unicode `Alphabetic` property of a character.
pub uninterp spec fn unicode_alphabetic(c: char) -> bool;

/// Unicode `Uppercase` property of a character.
pub uninterp spec fn unicode_uppercase(c: char) -> bool;

/// `Alphabetic` or `Numeric` property of a character.
pub uninterp spec fn unicode_alphanumeric(c: char) -> bool;

/// Unicode `White_Space` property of a character.
pub uninterp spec fn unicode_whitespace(c: char) -> bool;

/// First character of the lowercase mapping of a character.
pub uninterp spec fn lower_first(c: char) -> char;

/// First character of the uppercase mapping of a character.
pub uninterp spec fn upper_first(c: char) -> char;

/// Lowercase mapping of a whole string.
pub uninterp spec fn lowercase(s: Seq<char>) -> Seq<char>;

// ---------------------------------------------------------------------------
// ASCII
// ---------------------------------------------------------------------------

/// Whether a character is ASCII.
pub open spec fn ascii(c: char) -> bool {
    (c as u32) < 128
}

/// Whether a string is all ASCII.
pub open spec fn all_ascii(s: Seq<char>) -> bool {
    forall|i: int| 0 <= i < s.len() ==> ascii(#[trigger] s[i])
}

/// An ASCII capital letter.
pub open spec fn ascii_upper_letter(c: char) -> bool {
    'A' <= c && c <= 'Z'
}

/// An ASCII small letter.
pub open spec fn ascii_lower_letter(c: char) -> bool {
    'a' <= c && c <= 'z'
}

/// An ASCII digit.
pub open spec fn ascii_digit(c: char) -> bool {
    '0' <= c && c <= '9'
}

/// The ASCII characters with the `White_Space` property: tab, line feed,
/// vertical tab, form feed, carriage return and space.
pub open spec fn ascii_white_space(c: char) -> bool {
    c == ' ' || ('\t' <= c && c <= '\r')
}

/// A capital ASCII letter made small; any other character as it is.
pub open spec fn ascii_lower(c: char) -> char {
    if ascii_upper_letter(c) { ((c as u32) + 32) as char } else { c }
}

/// A small ASCII letter made capital; any other character as it is.
pub open spec fn ascii_upper(c: char) -> char {
    if ascii_lower_letter(c) { ((c as u32) - 32) as char } else { c }
}

/// `char::is_alphabetic`: the result is the `Alphabetic` property of `c`;
/// among ASCII characters, the letters have it.
#[verifier::external_body]
pub(crate) fn is_alphabetic(c: char) -> (b: bool)
    ensures
        b == unicode_alphabetic(c),
        ascii(c) ==> (b <==> ascii_upper_letter(c) || ascii_lower_letter(c)),
{
    c.is_alphabetic()
}

/// `char::is_uppercase`: the result is the `Uppercase` property of `c`;
/// among ASCII characters, the capital letters have it.
#[verifier::external_body]
pub(crate) fn is_uppercase(c: char) -> (b: bool)
    ensures
        b == unicode_uppercase(c),
        ascii(c) ==> (b <==> ascii_upper_letter(c)),
{
    c.is_uppercase()
}

/// `char::is_alphanumeric`: the result is the `Alphabetic`-or-`Numeric`
/// property of `c`; among ASCII characters, the letters and digits have it.
#[verifier::external_body]
pub(crate) fn is_alphanumeric(c: char) -> (b: bool)
    ensures
        b == unicode_alphanumeric(c),
        ascii(c) ==> (b <==> ascii_upper_letter(c) || ascii_lower_letter(c) || ascii_digit(c)),
{
    c.is_alphanumeric()
}

/// `char::is_whitespace`: the result is the `White_Space` property of `c`;
/// among ASCII characters, tab through carriage return and space have it.
#[verifier::external_body]
pub(crate) fn is_whitespace(c: char) -> (b: bool)
    ensures
        b == unicode_whitespace(c),
        ascii(c) ==> (b <==> ascii_white_space(c)),
{
    c.is_whitespace()
}

/// `char::to_lowercase`, first character of the mapping (the mapping is
/// never empty); an ASCII character maps as `ascii_lower` says.
#[verifier::external_body]
pub(crate) fn char_lower_first(c: char) -> (r: char)
    ensures
        r == lower_first(c),
        ascii(c) ==> r == ascii_lower(c),
{
    c.to_lowercase().next().unwrap_or(c)
}

/// `char::to_uppercase`, first character of the mapping (the mapping is
/// never empty); an ASCII character maps as `ascii_upper` says.
#[verifier::external_body]
pub(crate) fn char_upper_first(c: char) -> (r: char)
    ensures
        r == upper_first(c),
        ascii(c) ==> r == ascii_upper(c),
{
    c.to_uppercase().next().unwrap_or(c)
}

/// `str::to_lowercase`: the result is the lowercase mapping of `s`; an
/// all-ASCII string has each capital letter made small.
#[verifier::external_body]
pub(crate) fn to_lowercase(s: &str) -> (r: String)
    ensures
        r@ == lowercase(s@),
        all_ascii(s@) ==> r@ == s@.map_values(|c: char| ascii_lower(c)),
{
    s.to_lowercase()
}

/// `String::push`: appends `c` at the end of `s`.
#[verifier::external_body]
pub(crate) fn push_char(s: &mut String, c: char)
    ensures
        final(s)@ == old(s)@.push(c),
{
    s.push(c)
}

// ---------------------------------------------------------------------------
// Conversions
// ---------------------------------------------------------------------------

/// The characters of `s`, in order.
pub fn chars_of(s: &str) -> (v: Vec<char>)
    ensures
        v@ == s@,
{
    let mut v: Vec<char> = Vec::new();
    for c in it: s.chars()
        invariant
            v@ == it.seq().take(it.index() as int),
            it.seq() == s@,
    {
        v.push(c);
    }
    v
}

/// The string made of the characters of `v`, in order.
pub fn string_from_chars(v: &[char]) -> (s: String)
    ensures
        s@ == v@,
{
    let mut s = String::new();
    let mut i: usize = 0;
    while i < v.len()
        invariant
            i <= v@.len(),
            s@ == v@.take(i as int),
        decreases v@.len() - i,
    {
        push_char(&mut s, v[i]);
        assert(v@.take(i as int).push(v@[i as int]) =~= v@.take(i + 1));
        i = i + 1;
    }
    assert(v@.take(v@.len() as int) =~= v@);
    s
}


/// An owned copy of `s`.
pub fn owned(s: &str) -> (r: String)
    ensures
        r@ == s@,
{
    let v = chars_of(s);
    string_from_chars(v.as_slice())
}

/// Whether two strings hold the same characters.
pub fn same_text(a: &str, b: &str) -> (r: bool)
    ensures
        r == (a@ == b@),
{
    let va = chars_of(a);
    let vb = chars_of(b);
    if va.len() != vb.len() {
        return false;
    }
    let mut i: usize = 0;
    while i < va.len()
        invariant
            i <= va@.len(),
            va@.len() == vb@.len(),
            va@ == a@,
            vb@ == b@,
            forall|j: int| 0 <= j < i ==> va@[j] == vb@[j],
        decreases va@.len() - i,
    {
        if va[i] != vb[i] {
            return false;
        }
        i = i + 1;
    }
    assert(va@ =~= vb@);
    true
}

// ---------------------------------------------------------------------------
// Decimal notation of integers
// ---------------------------------------------------------------------------

/// The digit character for `d` (0 to 9).
pub open spec fn digit_char(d: nat) -> char {
    if d == 0 { '0' } else if d == 1 { '1' } else if d == 2 { '2' } else if d == 3 { '3' }
    else if d == 4 { '4' } else if d == 5 { '5' } else if d == 6 { '6' } else if d == 7 { '7' }
    else if d == 8 { '8' } else { '9' }
}

/// Decimal digits of `n`, most significant first, without leading zeros.
pub open spec fn nat_digits(n: nat) -> Seq<char>
    decreases n,
{
    if n < 10 {
        seq![digit_char(n)]
    } else {
        nat_digits(n / 10).push(digit_char(n % 10))
    }
}

/// Decimal notation of `i`, with a leading `-` when negative.
pub open spec fn int_text(i: int) -> Seq<char> {
    if i < 0 {
        seq!['-'] + nat_digits((-i) as nat)
    } else {
        nat_digits(i as nat)
    }
}

fn digit(d: u64) -> (c: char)
    requires
        d < 10,
    ensures
        c == digit_char(d as nat),
{
    if d == 0 { '0' } else if d == 1 { '1' } else if d == 2 { '2' } else if d == 3 { '3' }
    else if d == 4 { '4' } else if d == 5 { '5' } else if d == 6 { '6' } else if d == 7 { '7' }
    else if d == 8 { '8' } else { '9' }
}

fn digits_of(n: u64) -> (v: Vec<char>)
    ensures
        v@ == nat_digits(n as nat),
    decreases n,
{
    if n < 10 {
        let mut v = Vec::new();
        v.push(digit(n));
        assert(v@ =~= seq![digit_char(n as nat)]);
        v
    } else {
        let mut v = digits_of(n / 10);
        v.push(digit(n % 10));
        v
    }
}

/// Decimal notation of an unsigned integer, as `Display` writes it.
pub fn nat_decimal(n: u64) -> (s: String)
    ensures
        s@ == nat_digits(n as nat),
{
    let v = digits_of(n);
    string_from_chars(v.as_slice())
}

/// Decimal notation of a signed integer, as `Display` writes it.
pub fn int_decimal(i: i64) -> (s: String)
    ensures
        s@ == int_text(i as int),
{
    if i < 0 {
        let m: u64 = (-(i as i128)) as u64;
        let d = digits_of(m);
        let mut v: Vec<char> = Vec::new();
        v.push('-');
        let mut k: usize = 0;
        while k < d.len()
            invariant
                k <= d@.len(),
                v@ == seq!['-'] + d@.take(k as int),
            decreases d@.len() - k,
        {
            v.push(d[k]);
            assert(d@.take(k + 1) =~= d@.take(k as int).push(d@[k as int]));
            k = k + 1;
        }
        assert(d@.take(d@.len() as int) =~= d@);
        string_from_chars(v.as_slice())
    } else {
        nat_decimal(i as u64)
    }
}

/// `a` followed by `b`.
pub fn concat(a: &str, b: &str) -> (s: String)
    ensures
        s@ == a@ + b@,
{
    let mut v = chars_of(a);
    let w = chars_of(b);
    let mut k: usize = 0;
    let ghost v0 = v@;
    while k < w.len()
        invariant
            k <= w@.len(),
            v@ == v0 + w@.take(k as int),
        decreases w@.len() - k,
    {
        v.push(w[k]);
        assert(w@.take(k + 1) =~= w@.take(k as int).push(w@[k as int]));
        k = k + 1;
    }
    assert(w@.take(w@.len() as int) =~= w@);
    string_from_chars(v.as_slice())
}

/// The characters of `v` from `a` up to `b`.
pub fn slice(v: &Vec<char>, a: usize, b: usize) -> (r: Vec<char>)
    requires
        a <= b <= v@.len(),
    ensures
        r@ == v@.subrange(a as int, b as int),
{
    let mut r: Vec<char> = Vec::new();
    let mut i: usize = a;
    while i < b
        invariant
            a <= i <= b,
            b <= v@.len(),
            r@ == v@.subrange(a as int, i as int),
        decreases b - i,
    {
        r.push(v[i]);
        assert(v@.subrange(a as int, i + 1) =~= v@.subrange(a as int, i as int).push(v@[i as int]));
        i = i + 1;
    }
    r
}

/// Whether `c` occurs in `v`.
pub fn contains_char(v: &[char], c: char) -> (b: bool)
    ensures
        b == v@.contains(c),
{
    let mut i: usize = 0;
    while i < v.len()
        invariant
            i <= v@.len(),
            forall|j: int| 0 <= j < i ==> v@[j] != c,
        decreases v@.len() - i,
    {
        if v[i] == c {
            assert(v@[i as int] == c);
            return true;
        }
        i = i + 1;
    }
    false
}

/// `a` followed by `b`.
pub fn join_chars(a: &[char], b: &[char]) -> (r: Vec<char>)
    ensures
        r@ == a@ + b@,
{
    let mut r: Vec<char> = Vec::new();
    let mut i: usize = 0;
    while i < a.len()
        invariant
            i <= a@.len(),
            r@ == a@.take(i as int),
        decreases a@.len() - i,
    {
        r.push(a[i]);
        assert(a@.take(i + 1) =~= a@.take(i as int).push(a@[i as int]));
        i = i + 1;
    }
    let mut j: usize = 0;
    assert(a@.take(a@.len() as int) =~= a@);
    while j < b.len()
        invariant
            j <= b@.len(),
            r@ == a@ + b@.take(j as int),
        decreases b@.len() - j,
    {
        r.push(b[j]);
        assert(b@.take(j + 1) =~= b@.take(j as int).push(b@[j as int]));
        j = j + 1;
    }
    assert(b@.take(b@.len() as int) =~= b@);
    r
}

/// The lowercase mapping of a character sequence.
pub fn lowercase_chars(v: &[char]) -> (r: Vec<char>)
    ensures
        r@ == lowercase(v@),
        all_ascii(v@) ==> r@ == v@.map_values(|c: char| ascii_lower(c)),
{
    let s = string_from_chars(v);
    let l = to_lowercase(s.as_str());
    chars_of(l.as_str())
}

// ---------------------------------------------------------------------------
// ASCII punctuation
// ---------------------------------------------------------------------------

/// ASCII punctuation as `char::is_ascii_punctuation` documents it.
pub open spec fn ascii_punctuation(c: char) -> bool {
    ('!' <= c && c <= '/') || (':' <= c && c <= '@') || ('[' <= c && c <= '`') || ('{' <= c
        && c <= '~')
}

/// Whether `c` is ASCII punctuation.
pub fn is_ascii_punctuation(c: char) -> (b: bool)
    ensures
        b == ascii_punctuation(c),
{
    ('!' <= c && c <= '/') || (':' <= c && c <= '@') || ('[' <= c && c <= '`') || ('{' <= c
        && c <= '~')
}

// ---------------------------------------------------------------------------
// Substring search
// ---------------------------------------------------------------------------

/// `p` occurs in `t` at position `i`.
pub open spec fn occurs_at(t: Seq<char>, p: Seq<char>, i: int) -> bool {
    0 <= i && i + p.len() <= t.len() && t.subrange(i, i + p.len()) == p
}

/// `p` occurs somewhere in `t`.
pub open spec fn seq_contains(t: Seq<char>, p: Seq<char>) -> bool {
    exists|i: int| occurs_at(t, p, i)
}

/// Whether `p` occurs in `t` at position `i`.
pub fn matches_at(t: &[char], p: &[char], i: usize) -> (b: bool)
    ensures
        b == occurs_at(t@, p@, i as int),
{
    if i > t.len() || p.len() > t.len() - i {
        return false;
    }
    let n = t.len();
    let mut j: usize = 0;
    while j < p.len()
        invariant
            n == t@.len(),
            i + p@.len() <= t@.len(),
            j <= p@.len(),
            forall|k: int| 0 <= k < j ==> t@[i + k] == p@[k],
        decreases p@.len() - j,
    {
        if t[i + j] != p[j] {
            assert(t@.subrange(i as int, i + p@.len())[j as int] != p@[j as int]);
            return false;
        }
        j = j + 1;
    }
    assert(t@.subrange(i as int, i + p@.len()) =~= p@);
    true
}

/// Whether `p` occurs in `t` (`str::contains` on characters).
pub fn contains(t: &[char], p: &[char]) -> (b: bool)
    ensures
        b == seq_contains(t@, p@),
{
    if p.len() > t.len() {
        assert forall|i: int| !occurs_at(t@, p@, i) by {}
        return false;
    }
    if p.len() == 0 {
        assert(t@.subrange(0, 0) =~= p@);
        assert(occurs_at(t@, p@, 0));
        return true;
    }
    let n = t.len();
    let last = n - p.len();
    let mut i: usize = 0;
    while i <= last
        invariant
            n == t@.len(),
            last == t@.len() - p@.len(),
            p@.len() > 0,
            i <= last + 1,
            forall|k: int| 0 <= k < i ==> !occurs_at(t@, p@, k),
        decreases last + 1 - i,
    {
        if matches_at(t, p, i) {
            return true;
        }
        i = i + 1;
    }
    assert forall|k: int| !occurs_at(t@, p@, k) by {
        if 0 <= k && k < i {
        }
    }
    false
}

/// Whether `t` begins with `p`.
pub open spec fn seq_starts_with(t: Seq<char>, p: Seq<char>) -> bool {
    p.len() <= t.len() && t.take(p.len() as int) == p
}

/// Whether `t` begins with `p` (`str::starts_with` on characters).
pub fn starts_with(t: &[char], p: &[char]) -> (b: bool)
    ensures
        b == seq_starts_with(t@, p@),
{
    let r = matches_at(t, p, 0);
    proof {
        if p@.len() <= t@.len() {
            assert(t@.take(p@.len() as int) =~= t@.subrange(0, p@.len() as int));
        }
    }
    r
}

/// Whether `t` ends with `p`.
pub open spec fn seq_ends_with(t: Seq<char>, p: Seq<char>) -> bool {
    p.len() <= t.len() && t.subrange(t.len() - p.len(), t.len() as int) == p
}

/// Whether `t` ends with `p` (`str::ends_with` on characters).
pub fn ends_with(t: &[char], p: &[char]) -> (b: bool)
    ensures
        b == seq_ends_with(t@, p@),
{
    if p.len() > t.len() {
        return false;
    }
    matches_at(t, p, t.len() - p.len())
}

// ---------------------------------------------------------------------------
// Replacement
// ---------------------------------------------------------------------------

/// `s` with every non-overlapping occurrence of `p`, scanned from the left,
/// replaced by `r` (`str::replace` for a non-empty pattern).
pub open spec fn replace_all(s: Seq<char>, p: Seq<char>, r: Seq<char>) -> Seq<char>
    recommends
        p.len() > 0,
    decreases s.len(),
{
    if p.len() == 0 || s.len() < p.len() {
        s
    } else if s.take(p.len() as int) == p {
        r + replace_all(s.skip(p.len() as int), p, r)
    } else {
        seq![s[0]] + replace_all(s.skip(1), p, r)
    }
}

/// Replace every occurrence of `p` in `s` by `r`.
pub fn replace(s: &[char], p: &[char], r: &[char]) -> (out: Vec<char>)
    requires
        p@.len() > 0,
    ensures
        out@ == replace_all(s@, p@, r@),
{
    let mut out: Vec<char> = Vec::new();
    let mut i: usize = 0;
    assert(s@.skip(0) =~= s@);
    assert(out@ + s@ =~= s@);
    while i < s.len()
        invariant
            p@.len() > 0,
            i <= s@.len(),
            out@ + replace_all(s@.skip(i as int), p@, r@) == replace_all(s@, p@, r@),
        decreases s@.len() - i,
    {
        let rest = Ghost(s@.skip(i as int));
        if matches_at(s, p, i) {
            proof {
                assert(rest@.take(p@.len() as int) =~= s@.subrange(i as int, i + p@.len()));
                assert(rest@.skip(p@.len() as int) =~= s@.skip(i + p@.len()));
            }
            let mut k: usize = 0;
            let ghost before = out@;
            while k < r.len()
                invariant
                    k <= r@.len(),
                    out@ == before + r@.take(k as int),
                decreases r@.len() - k,
            {
                out.push(r[k]);
                assert(r@.take(k as int).push(r@[k as int]) =~= r@.take(k + 1));
                assert((before + r@.take(k as int)).push(r@[k as int]) =~= before + r@.take(
                    k + 1,
                ));
                k = k + 1;
            }
            assert(r@.take(r@.len() as int) =~= r@);
            assert(out@ + replace_all(s@.skip(i + p@.len()), p@, r@) =~= before + (r@
                + replace_all(rest@.skip(p@.len() as int), p@, r@)));
            i = i + p.len();
        } else {
            proof {
                if rest@.len() >= p@.len() {
                    assert(rest@.take(p@.len() as int) =~= s@.subrange(i as int, i + p@.len()));
                }
                assert(rest@.skip(1) =~= s@.skip(i + 1));
                assert(rest@[0] == s@[i as int]);
            }
            let ghost before = out@;
            out.push(s[i]);
            assert(out@ + replace_all(s@.skip(i + 1), p@, r@) =~= before + (seq![s@[i as int]]
                + replace_all(rest@.skip(1), p@, r@)));
            i = i + 1;
        }
    }
    assert(s@.skip(i as int) =~= Seq::<char>::empty());
    assert(out@ + Seq::<char>::empty() =~= out@);
    out
}

// ---------------------------------------------------------------------------
// Splitting on whitespace
// ---------------------------------------------------------------------------

/// One step of splitting on whitespace: the words found so far and the word
/// being read.
pub open spec fn split_step(acc: (Seq<Seq<char>>, Seq<char>), c: char) -> (
    Seq<Seq<char>>,
    Seq<char>,
) {
    if unicode_whitespace(c) {
        if acc.1.len() > 0 {
            (acc.0.push(acc.1), Seq::empty())
        } else {
            acc
        }
    } else {
        (acc.0, acc.1.push(c))
    }
}

/// The state of splitting after reading `s`.
pub open spec fn split_state(s: Seq<char>) -> (Seq<Seq<char>>, Seq<char>)
    decreases s.len(),
{
    if s.len() == 0 {
        (Seq::empty(), Seq::empty())
    } else {
        split_step(split_state(s.drop_last()), s.last())
    }
}

/// The maximal runs of non-whitespace characters of `s`, in order
/// (`str::split_whitespace`).
pub open spec fn words(s: Seq<char>) -> Seq<Seq<char>> {
    let st = split_state(s);
    if st.1.len() > 0 {
        st.0.push(st.1)
    } else {
        st.0
    }
}

/// Split `s` into its whitespace-separated words.
pub fn split_whitespace(s: &[char]) -> (ws: Vec<Vec<char>>)
    ensures
        ws@.len() == words(s@).len(),
        forall|k: int| 0 <= k < ws@.len() ==> #[trigger] ws@[k]@ == words(s@)[k],
        forall|k: int| 0 <= k < s@.len() && ascii(#[trigger] s@[k]) ==> (unicode_whitespace(s@[k]) <==> ascii_white_space(s@[k])),
{
    let mut ws: Vec<Vec<char>> = Vec::new();
    let mut cur: Vec<char> = Vec::new();
    let mut i: usize = 0;
    while i < s.len()
        invariant
            i <= s@.len(),
            forall|k: int| 0 <= k < i && ascii(#[trigger] s@[k]) ==> (unicode_whitespace(s@[k]) <==> ascii_white_space(s@[k])),
            ws@.len() == split_state(s@.take(i as int)).0.len(),
            forall|k: int|
                0 <= k < ws@.len() ==> #[trigger] ws@[k]@ == split_state(s@.take(i as int)).0[k],
            cur@ == split_state(s@.take(i as int)).1,
        decreases s@.len() - i,
    {
        let c = s[i];
        assert(s@.take(i + 1).drop_last() =~= s@.take(i as int));
        assert(s@.take(i + 1).last() == c);
        if is_whitespace(c) {
            if cur.len() > 0 {
                let w = cur;
                ws.push(w);
                cur = Vec::new();
            }
        } else {
            cur.push(c);
        }
        i = i + 1;
    }
    assert(s@.take(s@.len() as int) =~= s@);
    if cur.len() > 0 {
        ws.push(cur);
    }
    ws
}

/// Whether `s` is empty or consists only of whitespace (`str::trim().is_empty()`).
pub open spec fn all_whitespace(s: Seq<char>) -> bool {
    forall|i: int| 0 <= i < s.len() ==> unicode_whitespace(#[trigger] s[i])
}

/// Whether every character of `s` is whitespace.
pub fn is_blank(s: &[char]) -> (b: bool)
    ensures
        b == all_whitespace(s@),
{
    let mut i: usize = 0;
    while i < s.len()
        invariant
            i <= s@.len(),
            forall|k: int| 0 <= k < i ==> unicode_whitespace(#[trigger] s@[k]),
        decreases s@.len() - i,
    {
        if !is_whitespace(s[i]) {
            return false;
        }
        i = i + 1;
    }
    true
}

// ---------------------------------------------------------------------------
// Unsigned decimal numbers
// ---------------------------------------------------------------------------

/// An ASCII decimal digit.
pub open spec fn is_ascii_digit(c: char) -> bool {
    '0' <= c && c <= '9'
}

/// The value of a string of decimal digits.
pub open spec fn digits_value(s: Seq<char>) -> int
    decreases s.len(),
{
    if s.len() == 0 { 0 } else { digits_value(s.drop_last()) * 10 + (s.last() as int - '0' as int) }
}

/// The digits of an unsigned number, without an optional leading `+`.
pub open spec fn unsigned_digits(s: Seq<char>) -> Seq<char> {
    if s.len() > 0 && s[0] == '+' { s.drop_first() } else { s }
}

/// What `str::parse` gives for an unsigned integer type whose largest value
/// is `max`: an optional `+`, then one ASCII digit or more, of a value that
/// fits; anything else is an error.
pub open spec fn parse_unsigned(s: Seq<char>, max: int) -> Option<int> {
    let d = unsigned_digits(s);
    if d.len() > 0 && (forall|i: int| 0 <= i < d.len() ==> is_ascii_digit(#[trigger] d[i])) && digits_value(d) <= max {
        Some(digits_value(d))
    } else {
        None
    }
}

/// Read an unsigned integer no greater than `max`; see `parse_unsigned`.
pub fn parse_uint(s: &str, max: u64) -> (r: Option<u64>)
    ensures
        match parse_unsigned(s@, max as int) {
            Some(v) => 0 <= v <= max && r == Some(v as u64),
            None => r is None,
        },
{
    let cs = chars_of(s);
    let start: usize = if cs.len() > 0 && cs[0] == '+' { 1 } else { 0 };
    let ghost d = unsigned_digits(s@);
    assert(d =~= cs@.subrange(start as int, cs@.len() as int));
    if start >= cs.len() {
        assert(d.len() == 0);
        return None;
    }
    let mut v: u64 = 0;
    let mut over = false;
    let mut i: usize = start;
    while i < cs.len()
        invariant
            start <= i <= cs@.len(),
            d == unsigned_digits(s@),
            d =~= cs@.subrange(start as int, cs@.len() as int),
            forall|k: int| 0 <= k < i - start ==> is_ascii_digit(#[trigger] d[k]),
            digits_value(d.take(i - start)) >= 0,
            over ==> digits_value(d.take(i - start)) > max,
            !over ==> v == digits_value(d.take(i - start)) && v <= max,
        decreases cs@.len() - i,
    {
        let c = cs[i];
        assert(d.take(i - start + 1).drop_last() =~= d.take(i - start));
        assert(d.take(i - start + 1).last() == c);
        if !('0' <= c && c <= '9') {
            proof {
                let k = i - start;
                assert(0 <= k < d.len());
                assert(!is_ascii_digit(d[k]));
                assert(!(forall|j: int| 0 <= j < d.len() ==> is_ascii_digit(#[trigger] d[j])));
                assert(parse_unsigned(s@, max as int) is None);
            }
            return None;
        }
        let digit = (c as u32 - '0' as u32) as u64;
        assert(digit == c as int - '0' as int);
        if !over {
            if digit > max || v > (max - digit) / 10 {
                over = true;
            } else {
                v = v * 10 + digit;
            }
        }
        i = i + 1;
    }
    assert(d.take(d.len() as int) =~= d);
    assert(d.len() > 0);
    assert(forall|i: int| 0 <= i < d.len() ==> is_ascii_digit(#[trigger] d[i]));
    if over {
        assert(digits_value(d) > max);
        None
    } else {
        assert(digits_value(d) == v);
        assert(parse_unsigned(s@, max as int) == Some(v as int));
        Some(v)
    }
}

/// What `str::parse::<i64>` gives: an unsigned number (see
/// `parse_unsigned`) up to `i64::MAX`, or `-` and one ASCII digit or more
/// of a value down to `i64::MIN`.
pub open spec fn parse_signed(s: Seq<char>) -> Option<int> {
    if s.len() > 0 && s[0] == '-' {
        let d = s.drop_first();
        if d.len() > 0 && (forall|i: int| 0 <= i < d.len() ==> is_ascii_digit(#[trigger] d[i]))
            && digits_value(d) <= 0x8000_0000_0000_0000 {
            Some(-digits_value(d))
        } else {
            None
        }
    } else {
        parse_unsigned(s, i64::MAX as int)
    }
}

/// Read a signed 64-bit integer; see `parse_signed`.
pub fn parse_int(s: &str) -> (r: Option<i64>)
    ensures
        match parse_signed(s@) {
            Some(v) => i64::MIN <= v <= i64::MAX && r == Some(v as i64),
            None => r is None,
        },
{
    let cs = chars_of(s);
    if cs.len() > 0 && cs[0] == '-' {
        let rest = slice(&cs, 1, cs.len());
        assert(rest@ =~= s@.drop_first());
        let t = string_from_chars(rest.as_slice());
        assert(t@ == rest@);
        assert(unsigned_digits(t@) == t@ || (t@.len() > 0 && t@[0] == '+'));
        if rest.len() > 0 && rest[0] == '+' {
            assert(!is_ascii_digit(s@.drop_first()[0]));
            return None;
        }
        assert(unsigned_digits(t@) == t@);
        match parse_uint(t.as_str(), 0x8000_0000_0000_0000) {
            Some(v) => {
                if v == 0x8000_0000_0000_0000 {
                    Some(i64::MIN)
                } else {
                    Some(-(v as i64))
                }
            },
            None => None,
        }
    } else {
        match parse_uint(s, i64::MAX as u64) {
            Some(v) => Some(v as i64),
            None => None,
        }
    }
}

} // verus!
