//! Advanced pattern matching: fuzzy, phonetic, leetspeak, Unicode-normalized,
//! Zalgo, homoglyph, keyboard-shift, repeated-character and encoded-content
//! detection.

use vstd::prelude::*;
use vstd::utf8::valid_utf8;
use vstd::utf8::decode_utf8;
use crate::text::{
    ascii_punctuation, char_lower_first, char_upper_first, chars_of, contains, is_ascii_punctuation,
    lower_first, lowercase, lowercase_chars, matches_at, seq_contains, split_whitespace,
    upper_first, words,
};

verus! {

// ---------------------------------------------------------------------------
// Names for outside decoders
// ---------------------------------------------------------------------------

/// Canonical decomposition (NFD) of a string.
pub uninterp spec fn nfd(s: Seq<char>) -> Seq<char>;

/// Standard-alphabet Base64 decoding of a string, `None` when it is not valid Base64.
pub uninterp spec fn base64_decoded(s: Seq<char>) -> Option<Seq<u8>>;

/// Percent-decoding of a string, `None` when the decoded bytes are not UTF-8.
pub uninterp spec fn url_decoded(s: Seq<char>) -> Option<Seq<char>>;

/// `unicode_normalization::UnicodeNormalization::nfd`, collected into a string.
#[verifier::external_body]
fn nfd_string(s: &str) -> (r: String)
    ensures
        r@ == nfd(s@),
{
    unicode_normalization::UnicodeNormalization::nfd(s).collect()
}

/// `base64::engine::general_purpose::STANDARD.decode`.
#[verifier::external_body]
fn base64_decode(s: &str) -> (r: Option<Vec<u8>>)
    ensures
        r matches Some(b) ==> base64_decoded(s@) == Some(b@),
        r is None ==> base64_decoded(s@) is None,
{
    base64::Engine::decode(&base64::engine::general_purpose::STANDARD, s).ok()
}

/// `String::from_utf8`: succeeds exactly on valid UTF-8 and decodes it.
#[verifier::external_body]
fn utf8_string(bytes: Vec<u8>) -> (r: Option<String>)
    ensures
        r is Some <==> valid_utf8(bytes@),
        r matches Some(s) ==> s@ == decode_utf8(bytes@),
{
    String::from_utf8(bytes).ok()
}

/// `urlencoding::decode`.
#[verifier::external_body]
fn url_decode(s: &str) -> (r: Option<String>)
    ensures
        r matches Some(d) ==> url_decoded(s@) == Some(d@),
        r is None ==> url_decoded(s@) is None,
{
    match urlencoding::decode(s) {
        Ok(c) => Some(c.into_owned()),
        Err(_) => None,
    }
}

// ---------------------------------------------------------------------------
// Character tables
// ---------------------------------------------------------------------------

/// Leetspeak substitutions.
pub open spec fn leet_of(c: char) -> Option<char> {
    if c == '0' {
        Some('o')
    } else if c == '1' {
        Some('i')
    } else if c == '3' {
        Some('e')
    } else if c == '4' {
        Some('a')
    } else if c == '5' {
        Some('s')
    } else if c == '6' {
        Some('g')
    } else if c == '7' {
        Some('t')
    } else if c == '8' {
        Some('b')
    } else if c == '9' {
        Some('g')
    } else if c == '@' {
        Some('a')
    } else if c == '$' {
        Some('s')
    } else if c == '+' {
        Some('t')
    } else if c == '!' {
        Some('i')
    } else if c == '|' {
        Some('l')
    } else if c == '(' {
        Some('c')
    } else if c == ')' {
        Some('c')
    } else if c == '[' {
        Some('c')
    } else if c == ']' {
        Some('c')
    } else if c == '{' {
        Some('c')
    } else if c == '}' {
        Some('c')
    } else if c == '/' {
        Some('l')
    } else if c == '\\' {
        Some('l')
    } else {
        None
    }
}

/// Table lookup for `leet_of`.
pub fn leet_of_lookup(c: char) -> (r: Option<char>)
    ensures
        r == leet_of(c),
{
    match c {
        '0' => Some('o'),
        '1' => Some('i'),
        '3' => Some('e'),
        '4' => Some('a'),
        '5' => Some('s'),
        '6' => Some('g'),
        '7' => Some('t'),
        '8' => Some('b'),
        '9' => Some('g'),
        '@' => Some('a'),
        '$' => Some('s'),
        '+' => Some('t'),
        '!' => Some('i'),
        '|' => Some('l'),
        '(' => Some('c'),
        ')' => Some('c'),
        '[' => Some('c'),
        ']' => Some('c'),
        '{' => Some('c'),
        '}' => Some('c'),
        '/' => Some('l'),
        '\\' => Some('l'),
        _ => None,
    }
}

/// Look-alike characters from other scripts and their ASCII counterparts.
pub open spec fn homoglyph_of(c: char) -> Option<char> {
    if c == '\u{430}' {
        Some('a')
    } else if c == '\u{435}' {
        Some('e')
    } else if c == '\u{43e}' {
        Some('o')
    } else if c == '\u{440}' {
        Some('p')
    } else if c == '\u{441}' {
        Some('c')
    } else if c == '\u{445}' {
        Some('x')
    } else if c == '\u{443}' {
        Some('y')
    } else if c == '\u{410}' {
        Some('A')
    } else if c == '\u{412}' {
        Some('B')
    } else if c == '\u{415}' {
        Some('E')
    } else if c == '\u{41a}' {
        Some('K')
    } else if c == '\u{41c}' {
        Some('M')
    } else if c == '\u{41d}' {
        Some('H')
    } else if c == '\u{41e}' {
        Some('O')
    } else if c == '\u{420}' {
        Some('P')
    } else if c == '\u{421}' {
        Some('C')
    } else if c == '\u{422}' {
        Some('T')
    } else if c == '\u{423}' {
        Some('Y')
    } else if c == '\u{425}' {
        Some('X')
    } else if c == '\u{3b1}' {
        Some('a')
    } else if c == '\u{3bf}' {
        Some('o')
    } else if c == '\u{3c1}' {
        Some('p')
    } else if c == '\u{3c5}' {
        Some('u')
    } else if c == '\u{391}' {
        Some('A')
    } else if c == '\u{392}' {
        Some('B')
    } else if c == '\u{395}' {
        Some('E')
    } else if c == '\u{396}' {
        Some('Z')
    } else if c == '\u{397}' {
        Some('H')
    } else if c == '\u{399}' {
        Some('I')
    } else if c == '\u{39a}' {
        Some('K')
    } else if c == '\u{39c}' {
        Some('M')
    } else if c == '\u{39d}' {
        Some('N')
    } else if c == '\u{39f}' {
        Some('O')
    } else if c == '\u{3a1}' {
        Some('P')
    } else if c == '\u{3a4}' {
        Some('T')
    } else if c == '\u{3a5}' {
        Some('Y')
    } else if c == '\u{3a7}' {
        Some('X')
    } else if c == '\u{1d400}' {
        Some('A')
    } else if c == '\u{1d401}' {
        Some('B')
    } else if c == '\u{1d402}' {
        Some('C')
    } else if c == '\u{1d403}' {
        Some('D')
    } else if c == '\u{1d404}' {
        Some('E')
    } else if c == '\u{1d41a}' {
        Some('a')
    } else if c == '\u{1d41b}' {
        Some('b')
    } else if c == '\u{1d41c}' {
        Some('c')
    } else if c == '\u{1d41d}' {
        Some('d')
    } else if c == '\u{1d41e}' {
        Some('e')
    } else if c == '\u{ff10}' {
        Some('0')
    } else if c == '\u{ff11}' {
        Some('1')
    } else if c == '\u{ff12}' {
        Some('2')
    } else if c == '\u{ff13}' {
        Some('3')
    } else if c == '\u{ff14}' {
        Some('4')
    } else if c == '\u{ff15}' {
        Some('5')
    } else if c == '\u{ff16}' {
        Some('6')
    } else if c == '\u{ff17}' {
        Some('7')
    } else if c == '\u{ff18}' {
        Some('8')
    } else if c == '\u{ff19}' {
        Some('9')
    } else {
        None
    }
}

/// Table lookup for `homoglyph_of`.
pub fn homoglyph_of_lookup(c: char) -> (r: Option<char>)
    ensures
        r == homoglyph_of(c),
{
    match c {
        '\u{430}' => Some('a'),
        '\u{435}' => Some('e'),
        '\u{43e}' => Some('o'),
        '\u{440}' => Some('p'),
        '\u{441}' => Some('c'),
        '\u{445}' => Some('x'),
        '\u{443}' => Some('y'),
        '\u{410}' => Some('A'),
        '\u{412}' => Some('B'),
        '\u{415}' => Some('E'),
        '\u{41a}' => Some('K'),
        '\u{41c}' => Some('M'),
        '\u{41d}' => Some('H'),
        '\u{41e}' => Some('O'),
        '\u{420}' => Some('P'),
        '\u{421}' => Some('C'),
        '\u{422}' => Some('T'),
        '\u{423}' => Some('Y'),
        '\u{425}' => Some('X'),
        '\u{3b1}' => Some('a'),
        '\u{3bf}' => Some('o'),
        '\u{3c1}' => Some('p'),
        '\u{3c5}' => Some('u'),
        '\u{391}' => Some('A'),
        '\u{392}' => Some('B'),
        '\u{395}' => Some('E'),
        '\u{396}' => Some('Z'),
        '\u{397}' => Some('H'),
        '\u{399}' => Some('I'),
        '\u{39a}' => Some('K'),
        '\u{39c}' => Some('M'),
        '\u{39d}' => Some('N'),
        '\u{39f}' => Some('O'),
        '\u{3a1}' => Some('P'),
        '\u{3a4}' => Some('T'),
        '\u{3a5}' => Some('Y'),
        '\u{3a7}' => Some('X'),
        '\u{1d400}' => Some('A'),
        '\u{1d401}' => Some('B'),
        '\u{1d402}' => Some('C'),
        '\u{1d403}' => Some('D'),
        '\u{1d404}' => Some('E'),
        '\u{1d41a}' => Some('a'),
        '\u{1d41b}' => Some('b'),
        '\u{1d41c}' => Some('c'),
        '\u{1d41d}' => Some('d'),
        '\u{1d41e}' => Some('e'),
        '\u{ff10}' => Some('0'),
        '\u{ff11}' => Some('1'),
        '\u{ff12}' => Some('2'),
        '\u{ff13}' => Some('3'),
        '\u{ff14}' => Some('4'),
        '\u{ff15}' => Some('5'),
        '\u{ff16}' => Some('6'),
        '\u{ff17}' => Some('7'),
        '\u{ff18}' => Some('8'),
        '\u{ff19}' => Some('9'),
        _ => None,
    }
}

/// Common QWERTY row shifts.
pub open spec fn qwerty_shift_of(c: char) -> Option<char> {
    if c == 'q' {
        Some('a')
    } else if c == 'w' {
        Some('s')
    } else if c == 'e' {
        Some('d')
    } else if c == 'r' {
        Some('f')
    } else if c == 't' {
        Some('g')
    } else if c == 'y' {
        Some('h')
    } else if c == 'u' {
        Some('j')
    } else if c == 'i' {
        Some('k')
    } else if c == 'o' {
        Some('l')
    } else if c == 'p' {
        Some(';')
    } else if c == 'a' {
        Some('q')
    } else if c == 's' {
        Some('w')
    } else if c == 'd' {
        Some('e')
    } else if c == 'f' {
        Some('r')
    } else if c == 'g' {
        Some('t')
    } else if c == 'h' {
        Some('y')
    } else if c == 'j' {
        Some('u')
    } else if c == 'k' {
        Some('i')
    } else if c == 'l' {
        Some('o')
    } else if c == ';' {
        Some('p')
    } else {
        None
    }
}

/// Table lookup for `qwerty_shift_of`.
pub fn qwerty_shift_of_lookup(c: char) -> (r: Option<char>)
    ensures
        r == qwerty_shift_of(c),
{
    match c {
        'q' => Some('a'),
        'w' => Some('s'),
        'e' => Some('d'),
        'r' => Some('f'),
        't' => Some('g'),
        'y' => Some('h'),
        'u' => Some('j'),
        'i' => Some('k'),
        'o' => Some('l'),
        'p' => Some(';'),
        'a' => Some('q'),
        's' => Some('w'),
        'd' => Some('e'),
        'f' => Some('r'),
        'g' => Some('t'),
        'h' => Some('y'),
        'j' => Some('u'),
        'k' => Some('i'),
        'l' => Some('o'),
        ';' => Some('p'),
        _ => None,
    }
}

/// Soundex digit of a lowercase consonant.
pub open spec fn soundex_code_of(c: char) -> Option<char> {
    if c == 'b' {
        Some('1')
    } else if c == 'f' {
        Some('1')
    } else if c == 'p' {
        Some('1')
    } else if c == 'v' {
        Some('1')
    } else if c == 'c' {
        Some('2')
    } else if c == 'g' {
        Some('2')
    } else if c == 'j' {
        Some('2')
    } else if c == 'k' {
        Some('2')
    } else if c == 'q' {
        Some('2')
    } else if c == 's' {
        Some('2')
    } else if c == 'x' {
        Some('2')
    } else if c == 'z' {
        Some('2')
    } else if c == 'd' {
        Some('3')
    } else if c == 't' {
        Some('3')
    } else if c == 'l' {
        Some('4')
    } else if c == 'm' {
        Some('5')
    } else if c == 'n' {
        Some('5')
    } else if c == 'r' {
        Some('6')
    } else {
        None
    }
}

/// Table lookup for `soundex_code_of`.
pub fn soundex_code_of_lookup(c: char) -> (r: Option<char>)
    ensures
        r == soundex_code_of(c),
{
    match c {
        'b' => Some('1'),
        'f' => Some('1'),
        'p' => Some('1'),
        'v' => Some('1'),
        'c' => Some('2'),
        'g' => Some('2'),
        'j' => Some('2'),
        'k' => Some('2'),
        'q' => Some('2'),
        's' => Some('2'),
        'x' => Some('2'),
        'z' => Some('2'),
        'd' => Some('3'),
        't' => Some('3'),
        'l' => Some('4'),
        'm' => Some('5'),
        'n' => Some('5'),
        'r' => Some('6'),
        _ => None,
    }
}

// ---------------------------------------------------------------------------
// Character-wise maps
// ---------------------------------------------------------------------------

/// Leetspeak normalization of one character: the table is looked up with the
/// character's lowercase form; characters outside the table are kept as they are.
pub open spec fn leet_char(c: char) -> char {
    match leet_of(lower_first(c)) {
        Some(m) => m,
        None => c,
    }
}

/// Homoglyph normalization of one character.
pub open spec fn homoglyph_char(c: char) -> char {
    match homoglyph_of(c) {
        Some(m) => m,
        None => c,
    }
}

/// QWERTY shift of one character, looked up with its lowercase form.
pub open spec fn qwerty_char(c: char) -> char {
    match qwerty_shift_of(lower_first(c)) {
        Some(m) => m,
        None => c,
    }
}

/// Convert leetspeak to plain text.
pub fn normalize_leetspeak(text: &[char]) -> (r: Vec<char>)
    ensures
        r@ == text@.map_values(|c: char| leet_char(c)),
{
    let mut r: Vec<char> = Vec::new();
    let mut i: usize = 0;
    while i < text.len()
        invariant
            i <= text@.len(),
            r@ == text@.take(i as int).map_values(|c: char| leet_char(c)),
        decreases text@.len() - i,
    {
        let c = text[i];
        let lc = char_lower_first(c);
        let m = match leet_of_lookup(lc) {
            Some(m) => m,
            None => c,
        };
        r.push(m);
        assert(text@.take(i + 1).map_values(|c: char| leet_char(c)) =~= text@.take(
            i as int,
        ).map_values(|c: char| leet_char(c)).push(leet_char(c)));
        i = i + 1;
    }
    assert(text@.take(text@.len() as int) =~= text@);
    r
}

/// Replace look-alike characters by their ASCII counterparts.
pub fn normalize_homoglyphs(text: &[char]) -> (r: Vec<char>)
    ensures
        r@ == text@.map_values(|c: char| homoglyph_char(c)),
{
    let mut r: Vec<char> = Vec::new();
    let mut i: usize = 0;
    while i < text.len()
        invariant
            i <= text@.len(),
            r@ == text@.take(i as int).map_values(|c: char| homoglyph_char(c)),
        decreases text@.len() - i,
    {
        let c = text[i];
        let m = match homoglyph_of_lookup(c) {
            Some(m) => m,
            None => c,
        };
        r.push(m);
        assert(text@.take(i + 1).map_values(|c: char| homoglyph_char(c)) =~= text@.take(
            i as int,
        ).map_values(|c: char| homoglyph_char(c)).push(homoglyph_char(c)));
        i = i + 1;
    }
    assert(text@.take(text@.len() as int) =~= text@);
    r
}

/// Apply the common QWERTY row shifts.
pub fn apply_qwerty_shift(text: &[char]) -> (r: Vec<char>)
    ensures
        r@ == text@.map_values(|c: char| qwerty_char(c)),
{
    let mut r: Vec<char> = Vec::new();
    let mut i: usize = 0;
    while i < text.len()
        invariant
            i <= text@.len(),
            r@ == text@.take(i as int).map_values(|c: char| qwerty_char(c)),
        decreases text@.len() - i,
    {
        let c = text[i];
        let lc = char_lower_first(c);
        let m = match qwerty_shift_of_lookup(lc) {
            Some(m) => m,
            None => c,
        };
        r.push(m);
        assert(text@.take(i + 1).map_values(|c: char| qwerty_char(c)) =~= text@.take(
            i as int,
        ).map_values(|c: char| qwerty_char(c)).push(qwerty_char(c)));
        i = i + 1;
    }
    assert(text@.take(text@.len() as int) =~= text@);
    r
}

// ---------------------------------------------------------------------------
// Combining marks and Zalgo text
// ---------------------------------------------------------------------------

/// Combining diacritical marks (the blocks U+0300–036F, U+1AB0–1AFF,
/// U+1DC0–1DFF, U+20D0–20FF and U+FE20–FE2F).
pub open spec fn combining_mark(c: char) -> bool {
    let u = c as u32;
    (0x0300 <= u && u <= 0x036F) || (0x1AB0 <= u && u <= 0x1AFF) || (0x1DC0 <= u && u <= 0x1DFF)
        || (0x20D0 <= u && u <= 0x20FF) || (0xFE20 <= u && u <= 0xFE2F)
}

/// Whether `c` is a combining mark.
pub fn is_combining_mark(c: char) -> (b: bool)
    ensures
        b == combining_mark(c),
{
    let u = c as u32;
    (0x0300 <= u && u <= 0x036F) || (0x1AB0 <= u && u <= 0x1AFF) || (0x1DC0 <= u && u <= 0x1DFF)
        || (0x20D0 <= u && u <= 0x20FF) || (0xFE20 <= u && u <= 0xFE2F)
}

/// Number of combining marks in `s`.
pub open spec fn count_combining(s: Seq<char>) -> nat
    decreases s.len(),
{
    if s.len() == 0 {
        0
    } else {
        count_combining(s.drop_last()) + if combining_mark(s.last()) {
            1nat
        } else {
            0nat
        }
    }
}

/// More than 30% of the characters of `s` are combining marks.
pub open spec fn zalgo_spec(s: Seq<char>) -> bool {
    s.len() > 0 && 10 * count_combining(s) > 3 * s.len()
}

/// Detect Zalgo text: more than 30% of the characters are combining marks.
pub fn is_zalgo_text(text: &[char]) -> (b: bool)
    ensures
        b == zalgo_spec(text@),
{
    let total = text.len();
    if total == 0 {
        return false;
    }
    let mut combining: u64 = 0;
    let mut i: usize = 0;
    while i < total
        invariant
            total == text@.len(),
            i <= total,
            combining as nat == count_combining(text@.take(i as int)),
            combining <= i,
        decreases total - i,
    {
        assert(text@.take(i + 1).drop_last() =~= text@.take(i as int));
        if is_combining_mark(text[i]) {
            combining = combining + 1;
        }
        i = i + 1;
    }
    assert(text@.take(total as int) =~= text@);
    10 * (combining as u128) > 3 * (total as u128)
}

/// `s` with ASCII punctuation and combining marks removed.
pub open spec fn strip_marks(s: Seq<char>) -> Seq<char>
    decreases s.len(),
{
    if s.len() == 0 {
        s
    } else {
        let rest = strip_marks(s.drop_last());
        let c = s.last();
        if !ascii_punctuation(c) && !combining_mark(c) {
            rest.push(c)
        } else {
            rest
        }
    }
}

/// Remove diacritical marks and ASCII punctuation.
pub fn remove_diacritics(text: &[char]) -> (r: Vec<char>)
    ensures
        r@ == strip_marks(text@),
{
    let mut r: Vec<char> = Vec::new();
    let mut i: usize = 0;
    while i < text.len()
        invariant
            i <= text@.len(),
            r@ == strip_marks(text@.take(i as int)),
        decreases text@.len() - i,
    {
        let c = text[i];
        assert(text@.take(i + 1).drop_last() =~= text@.take(i as int));
        if !is_ascii_punctuation(c) && !is_combining_mark(c) {
            r.push(c);
        }
        i = i + 1;
    }
    assert(text@.take(text@.len() as int) =~= text@);
    r
}

// ---------------------------------------------------------------------------
// Repeated characters
// ---------------------------------------------------------------------------

/// Compression state after reading a prefix: output so far, previous
/// character, and length of the current run (counted up to 3).
pub open spec fn compress_state(s: Seq<char>) -> (Seq<char>, Option<char>, nat)
    decreases s.len(),
{
    if s.len() == 0 {
        (Seq::empty(), None, 0)
    } else {
        let st = compress_state(s.drop_last());
        let ch = s.last();
        if st.1 == Some(ch) {
            let n = if st.2 >= 3 {
                3nat
            } else {
                st.2 + 1
            };
            (if n <= 2 {
                st.0.push(ch)
            } else {
                st.0
            }, Some(ch), n)
        } else {
            (st.0.push(ch), Some(ch), 1nat)
        }
    }
}

/// `s` with every run of equal characters cut to at most two.
pub open spec fn compress(s: Seq<char>) -> Seq<char> {
    compress_state(s).0
}

/// Compress repeated characters: "hellooooo" becomes "helloo".
pub fn compress_repeated_chars(text: &[char]) -> (r: Vec<char>)
    ensures
        r@ == compress(text@),
{
    let mut r: Vec<char> = Vec::new();
    let mut prev: Option<char> = None;
    let mut run: u8 = 0;
    let mut i: usize = 0;
    while i < text.len()
        invariant
            i <= text@.len(),
            (r@, prev, run as nat) == compress_state(text@.take(i as int)),
        decreases text@.len() - i,
    {
        let ch = text[i];
        assert(text@.take(i + 1).drop_last() =~= text@.take(i as int));
        let same = match prev {
            Some(p) => p == ch,
            None => false,
        };
        if same {
            if run < 3 {
                run = run + 1;
            }
            if run <= 2 {
                r.push(ch);
            }
        } else {
            r.push(ch);
            run = 1;
        }
        prev = Some(ch);
        i = i + 1;
    }
    assert(text@.take(text@.len() as int) =~= text@);
    r
}

// ---------------------------------------------------------------------------
// Levenshtein distance
// ---------------------------------------------------------------------------

/// Smallest of three numbers.
pub open spec fn min3(a: nat, b: nat, c: nat) -> nat {
    if a <= b && a <= c {
        a
    } else if b <= c {
        b
    } else {
        c
    }
}

/// Levenshtein edit distance between `a` and `b`.
pub open spec fn lev(a: Seq<char>, b: Seq<char>) -> nat
    decreases a.len() + b.len(),
{
    if a.len() == 0 {
        b.len()
    } else if b.len() == 0 {
        a.len()
    } else {
        min3(
            lev(a.drop_last(), b) + 1,
            lev(a, b.drop_last()) + 1,
            lev(a.drop_last(), b.drop_last()) + if a.last() == b.last() {
                0nat
            } else {
                1nat
            },
        )
    }
}

/// The edit distance is at most the length of the longer sequence.
pub proof fn lemma_lev_bounded(a: Seq<char>, b: Seq<char>)
    ensures
        lev(a, b) <= if a.len() >= b.len() {
            a.len()
        } else {
            b.len()
        },
    decreases a.len() + b.len(),
{
    if a.len() > 0 && b.len() > 0 {
        lemma_lev_bounded(a.drop_last(), b.drop_last());
    }
}

/// The distance of a sequence to itself is zero.
pub proof fn lemma_lev_self(a: Seq<char>)
    ensures
        lev(a, a) == 0,
    decreases a.len(),
{
    if a.len() > 0 {
        lemma_lev_self(a.drop_last());
    }
}

/// The edit distance is symmetric.
pub proof fn lemma_lev_symmetric(a: Seq<char>, b: Seq<char>)
    ensures
        lev(a, b) == lev(b, a),
    decreases a.len() + b.len(),
{
    if a.len() > 0 && b.len() > 0 {
        lemma_lev_symmetric(a.drop_last(), b);
        lemma_lev_symmetric(a, b.drop_last());
        lemma_lev_symmetric(a.drop_last(), b.drop_last());
    }
}

/// Levenshtein distance between two character sequences.
pub fn levenshtein_distance(s1: &[char], s2: &[char]) -> (d: usize)
    ensures
        d == lev(s1@, s2@),
{
    let len1 = s1.len();
    let len2 = s2.len();
    if len1 == 0 {
        return len2;
    }
    if len2 == 0 {
        return len1;
    }
    // while row i is computed, prev[j] == lev(s1[..i], s2[..j])
    let mut prev: Vec<u128> = Vec::new();
    let mut j: usize = 0;
    while j < len2
        invariant
            len2 == s2@.len(),
            j <= len2,
            prev@.len() == j,
            forall|k: int| 0 <= k < j ==> #[trigger] prev@[k] == lev(s1@.take(0), s2@.take(k)),
        decreases len2 - j,
    {
        proof {
            assert(s1@.take(0).len() == 0);
        }
        prev.push(j as u128);
        j = j + 1;
    }
    proof {
        assert(s1@.take(0).len() == 0);
    }
    prev.push(len2 as u128);
    let mut i: usize = 0;
    while i < len1
        invariant
            len1 == s1@.len(),
            len2 == s2@.len(),
            0 <= i <= len1,
            prev@.len() == len2 + 1,
            forall|k: int| 0 <= k <= len2 ==> #[trigger] prev@[k] == lev(s1@.take(i as int), s2@.take(k)),
        decreases len1 - i,
    {
        let ghost a = s1@.take(i + 1);
        proof {
            assert(a.drop_last() =~= s1@.take(i as int));
            assert(a.last() == s1@[i as int]);
            assert(s2@.take(0).len() == 0);
        }
        let c1 = s1[i];
        let mut cur: Vec<u128> = Vec::new();
        cur.push((i as u128) + 1);
        let mut j: usize = 0;
        while j < len2
            invariant
                len1 == s1@.len(),
                len2 == s2@.len(),
                i < len1,
                j <= len2,
                c1 == s1@[i as int],
                a == s1@.take(i + 1),
                a.drop_last() == s1@.take(i as int),
                a.last() == c1,
                prev@.len() == len2 + 1,
                cur@.len() == j + 1,
                forall|k: int|
                    0 <= k <= len2 ==> #[trigger] prev@[k] == lev(a.drop_last(), s2@.take(k)),
                forall|k: int| 0 <= k <= j ==> #[trigger] cur@[k] == lev(a, s2@.take(k)),
            decreases len2 - j,
        {
            let ghost b = s2@.take(j + 1);
            proof {
                assert(b.drop_last() =~= s2@.take(j as int));
                assert(b.last() == s2@[j as int]);
                lemma_lev_bounded(a.drop_last(), b);
                lemma_lev_bounded(a, b.drop_last());
                lemma_lev_bounded(a.drop_last(), b.drop_last());
            }
            let cost: u128 = if c1 == s2[j] {
                0
            } else {
                1
            };
            let del = prev[j + 1] + 1;
            let ins = cur[j] + 1;
            let sub = prev[j] + cost;
            let mut best = del;
            if ins < best {
                best = ins;
            }
            if sub < best {
                best = sub;
            }
            cur.push(best);
            j = j + 1;
        }
        prev = cur;
        i = i + 1;
    }
    proof {
        assert(s1@.take(len1 as int) =~= s1@);
        assert(s2@.take(len2 as int) =~= s2@);
        lemma_lev_bounded(s1@, s2@);
    }
    prev[len2] as usize
}

// ---------------------------------------------------------------------------
// Fuzzy matching
// ---------------------------------------------------------------------------

/// Number of bytes of the UTF-8 encoding of `c`.
pub open spec fn char_width(c: char) -> nat {
    let u = c as u32;
    if u < 0x80 {
        1
    } else if u < 0x800 {
        2
    } else if u < 0x10000 {
        3
    } else {
        4
    }
}

/// Number of bytes of the UTF-8 encoding of `s` (`str::len`).
pub open spec fn byte_len(s: Seq<char>) -> nat
    decreases s.len(),
{
    if s.len() == 0 {
        0
    } else {
        byte_len(s.drop_last()) + char_width(s.last())
    }
}

/// A sequence has at least as many bytes as characters.
pub proof fn lemma_byte_len_ge(s: Seq<char>)
    ensures
        s.len() <= byte_len(s) <= 4 * s.len(),
    decreases s.len(),
{
    if s.len() > 0 {
        lemma_byte_len_ge(s.drop_last());
    }
}

/// Number of UTF-8 bytes of `c`.
pub fn utf8_width(c: char) -> (w: usize)
    ensures
        w == char_width(c),
{
    let u = c as u32;
    if u < 0x80 {
        1
    } else if u < 0x800 {
        2
    } else if u < 0x10000 {
        3
    } else {
        4
    }
}

/// Number of UTF-8 bytes of `s`.
pub fn utf8_len(s: &[char]) -> (n: u128)
    ensures
        n == byte_len(s@),
{
    let mut n: u128 = 0;
    let mut i: usize = 0;
    while i < s.len()
        invariant
            i <= s@.len(),
            n == byte_len(s@.take(i as int)),
            n <= 4 * i,
        decreases s@.len() - i,
    {
        assert(s@.take(i + 1).drop_last() =~= s@.take(i as int));
        n = n + utf8_width(s[i]) as u128;
        i = i + 1;
    }
    assert(s@.take(s@.len() as int) =~= s@);
    n
}

/// Similarity of `a` and `b` reaches `threshold` thousandths:
/// `1 - lev(a, b) / max_len >= threshold / 1000`, where `max_len` is the
/// longer byte length; equal or empty sequences have similarity one.
pub open spec fn similar_enough(a: Seq<char>, b: Seq<char>, threshold: u32) -> bool {
    let m = if byte_len(a) >= byte_len(b) {
        byte_len(a)
    } else {
        byte_len(b)
    };
    if a == b || m == 0 {
        threshold <= 1000
    } else {
        1000 * (m - lev(a, b)) >= threshold * m
    }
}

/// Whether the similarity of `a` and `b` reaches `threshold` thousandths.
pub fn similarity_reaches(a: &[char], b: &[char], threshold: u32) -> (r: bool)
    ensures
        r == similar_enough(a@, b@, threshold),
{
    let same = a.len() == b.len() && matches_at(a, b, 0);
    proof {
        if a@.len() == b@.len() {
            assert(a@.subrange(0, b@.len() as int) =~= a@);
        }
    }
    let la = utf8_len(a);
    let lb = utf8_len(b);
    let m = if la >= lb {
        la
    } else {
        lb
    };
    if same || m == 0 {
        return threshold <= 1000;
    }
    let d = levenshtein_distance(a, b);
    let na = a.len();
    let nb = b.len();
    proof {
        lemma_lev_bounded(a@, b@);
        lemma_byte_len_ge(a@);
        lemma_byte_len_ge(b@);
        assert(m <= 4 * (usize::MAX as int));
        let t = threshold as int;
        let mm = m as int;
        assert(t * mm <= (u32::MAX as int) * (4 * (usize::MAX as int))) by (nonlinear_arith)
            requires
                0 <= t <= u32::MAX as int,
                0 <= mm <= 4 * (usize::MAX as int),
        ;
    }
    1000 * (m - d as u128) >= (threshold as u128) * m
}

/// A word is similar enough to the pattern, as written or once its
/// leetspeak is read as plain letters (so "sp4m" is read as "spam").
pub open spec fn word_fuzzy_hit(word: Seq<char>, pattern: Seq<char>, threshold: u32) -> bool {
    similar_enough(word, pattern, threshold) || similar_enough(
        word.map_values(|c: char| leet_char(c)),
        pattern,
        threshold,
    )
}

/// Some word of the lowercase text, as written or with its leetspeak read as
/// plain letters, is similar enough to the lowercase pattern.
pub open spec fn fuzzy_spec(text: Seq<char>, pattern: Seq<char>, threshold: u32) -> bool {
    exists|k: int|
        0 <= k < words(lowercase(text)).len() && #[trigger] word_fuzzy_hit(
            words(lowercase(text))[k],
            lowercase(pattern),
            threshold,
        )
}

/// Fuzzy matching: some word of `text`, as written or with its leetspeak read
/// as plain letters, is within the similarity threshold (in thousandths) of
/// `pattern`, ignoring case.
pub fn fuzzy_match(text: &[char], pattern: &[char], threshold: u32) -> (r: bool)
    ensures
        r == fuzzy_spec(text@, pattern@, threshold),
{
    let text_lower = lowercase_chars(text);
    let pattern_lower = lowercase_chars(pattern);
    let ws = split_whitespace(&text_lower);
    let mut k: usize = 0;
    while k < ws.len()
        invariant
            pattern_lower@ == lowercase(pattern@),
            ws@.len() == words(lowercase(text@)).len(),
            forall|q: int| 0 <= q < ws@.len() ==> #[trigger] ws@[q]@ == words(lowercase(text@))[q],
            k <= ws@.len(),
            forall|q: int|
                0 <= q < k ==> !#[trigger] word_fuzzy_hit(
                    words(lowercase(text@))[q],
                    lowercase(pattern@),
                    threshold,
                ),
        decreases ws@.len() - k,
    {
        if similarity_reaches(&ws[k], &pattern_lower, threshold) {
            assert(word_fuzzy_hit(words(lowercase(text@))[k as int], lowercase(pattern@), threshold));
            return true;
        }
        let plain = normalize_leetspeak(ws[k].as_slice());
        if similarity_reaches(&plain, &pattern_lower, threshold) {
            assert(word_fuzzy_hit(words(lowercase(text@))[k as int], lowercase(pattern@), threshold));
            return true;
        }
        k = k + 1;
    }
    false
}

// ---------------------------------------------------------------------------
// Soundex
// ---------------------------------------------------------------------------

/// Soundex digits read from position `i` of `l`, with `prev` the digit of the
/// previous character (`None` after a character without a digit), stopping
/// once `budget` digits have been taken.
pub open spec fn soundex_codes(l: Seq<char>, i: int, prev: Option<char>, budget: nat) -> Seq<char>
    decreases l.len() - i,
{
    if i < 0 || i >= l.len() || budget == 0 {
        Seq::empty()
    } else {
        match soundex_code_of(l[i]) {
            Some(d) => if prev != Some(d) {
                seq![d] + soundex_codes(l, i + 1, Some(d), (budget - 1) as nat)
            } else {
                soundex_codes(l, i + 1, prev, budget)
            },
            None => soundex_codes(l, i + 1, None, budget),
        }
    }
}

/// `n` zero digits.
pub open spec fn zeros(n: nat) -> Seq<char> {
    Seq::new(n, |k: int| '0')
}

/// Simplified Soundex code of `word`: the uppercased first letter of the
/// lowercased word, then the digits of the following consonants (a repeated
/// digit counts once unless a letter without a digit separates it), padded
/// with zeros so that the code takes four bytes.
pub open spec fn soundex_spec(word: Seq<char>) -> Seq<char> {
    let l = lowercase(word);
    if word.len() == 0 || l.len() == 0 {
        Seq::empty()
    } else {
        let first = upper_first(l[0]);
        let w = char_width(first);
        if w >= 4 {
            seq![first]
        } else {
            let budget = (4 - w) as nat;
            let codes = soundex_codes(l, 1, None, budget);
            seq![first] + codes + zeros((budget - codes.len()) as nat)
        }
    }
}

/// The digits never exceed their budget.
proof fn lemma_soundex_codes_len(l: Seq<char>, i: int, prev: Option<char>, budget: nat)
    ensures
        soundex_codes(l, i, prev, budget).len() <= budget,
    decreases l.len() - i,
{
    if i < 0 || i >= l.len() || budget == 0 {
    } else {
        match soundex_code_of(l[i]) {
            Some(d) => if prev != Some(d) {
                lemma_soundex_codes_len(l, i + 1, Some(d), (budget - 1) as nat);
            } else {
                lemma_soundex_codes_len(l, i + 1, prev, budget);
            },
            None => lemma_soundex_codes_len(l, i + 1, None, budget),
        }
    }
}

/// Simplified Soundex code of a word.
pub fn soundex(word: &[char]) -> (code: Vec<char>)
    ensures
        code@ == soundex_spec(word@),
{
    if word.len() == 0 {
        return Vec::new();
    }
    let l = lowercase_chars(word);
    if l.len() == 0 {
        return Vec::new();
    }
    let first = char_upper_first(l[0]);
    let w = utf8_width(first);
    let mut code: Vec<char> = Vec::new();
    code.push(first);
    if w >= 4 {
        return code;
    }
    let budget: usize = 4 - w;
    let ghost total = soundex_codes(l@, 1, None, budget as nat);
    let mut taken: usize = 0;
    let mut prev: Option<char> = None;
    let mut i: usize = 1;
    while i < l.len() && taken < budget
        invariant
            1 <= i <= l@.len(),
            taken <= budget,
            budget <= 3,
            code@.len() == 1 + taken,
            code@[0] == first,
            code@.subrange(1, code@.len() as int) + soundex_codes(
                l@,
                i as int,
                prev,
                (budget - taken) as nat,
            ) == total,
        decreases l@.len() - i,
    {
        let c = l[i];
        match soundex_code_of_lookup(c) {
            Some(d) => {
                let same = match prev {
                    Some(p) => p == d,
                    None => false,
                };
                if !same {
                    let ghost before = code@.subrange(1, code@.len() as int);
                    code.push(d);
                    assert(code@.subrange(1, code@.len() as int) =~= before.push(d));
                    assert(before.push(d) + soundex_codes(
                        l@,
                        i + 1,
                        Some(d),
                        (budget - taken - 1) as nat,
                    ) =~= before + (seq![d] + soundex_codes(
                        l@,
                        i + 1,
                        Some(d),
                        (budget - taken - 1) as nat,
                    )));
                    taken = taken + 1;
                    prev = Some(d);
                }
            },
            None => {
                prev = None;
            },
        }
        i = i + 1;
    }
    proof {
        lemma_soundex_codes_len(l@, 1, None, budget as nat);
        assert(soundex_codes(l@, i as int, prev, (budget - taken) as nat) =~= Seq::<char>::empty());
        assert(code@.subrange(1, code@.len() as int) + Seq::<char>::empty() =~= code@.subrange(
            1,
            code@.len() as int,
        ));
    }
    let ghost digits = code@;
    while taken < budget
        invariant
            taken <= budget,
            budget <= 3,
            code@.len() == 1 + taken,
            digits.len() <= code@.len(),
            code@ == digits + zeros((code@.len() - digits.len()) as nat),
        decreases budget - taken,
    {
        code.push('0');
        assert(code@ =~= digits + zeros((code@.len() - digits.len()) as nat));
        taken = taken + 1;
    }
    proof {
        assert(digits =~= seq![first] + total);
        assert(code@ =~= seq![first] + total + zeros((budget - total.len()) as nat));
    }
    code
}

/// Some word of the lowercased text has the same Soundex code as the pattern.
pub open spec fn phonetic_spec(text: Seq<char>, pattern: Seq<char>) -> bool {
    exists|k: int|
        0 <= k < words(lowercase(text)).len() && #[trigger] soundex_spec(
            words(lowercase(text))[k],
        ) == soundex_spec(pattern)
}

/// Phonetic matching: some word of `text` sounds like `pattern`.
pub fn phonetic_match(text: &[char], pattern: &[char]) -> (r: bool)
    ensures
        r == phonetic_spec(text@, pattern@),
{
    let text_lower = lowercase_chars(text);
    let pattern_code = soundex(pattern);
    let ws = split_whitespace(&text_lower);
    let mut k: usize = 0;
    while k < ws.len()
        invariant
            pattern_code@ == soundex_spec(pattern@),
            ws@.len() == words(lowercase(text@)).len(),
            forall|q: int| 0 <= q < ws@.len() ==> #[trigger] ws@[q]@ == words(lowercase(text@))[q],
            k <= ws@.len(),
            forall|q: int|
                0 <= q < k ==> #[trigger] soundex_spec(words(lowercase(text@))[q])
                    != soundex_spec(pattern@),
        decreases ws@.len() - k,
    {
        let code = soundex(&ws[k]);
        if code.len() == pattern_code.len() && matches_at(&code, &pattern_code, 0) {
            proof {
                assert(code@.subrange(0, pattern_code@.len() as int) =~= code@);
            }
            return true;
        }
        proof {
            if code@ == pattern_code@ {
                assert(code@.subrange(0, pattern_code@.len() as int) =~= code@);
            }
        }
        k = k + 1;
    }
    false
}

// ---------------------------------------------------------------------------
// Containment after normalization
// ---------------------------------------------------------------------------

/// Lowercased `a` contains lowercased `b`.
pub open spec fn contains_ignoring_case(a: Seq<char>, b: Seq<char>) -> bool {
    seq_contains(lowercase(a), lowercase(b))
}

/// Whether lowercased `a` contains lowercased `b`.
pub fn contains_ignore_case(a: &[char], b: &[char]) -> (r: bool)
    ensures
        r == contains_ignoring_case(a@, b@),
{
    let la = lowercase_chars(a);
    let lb = lowercase_chars(b);
    contains(&la, &lb)
}

/// Leetspeak-normalized text contains the leetspeak-normalized pattern, ignoring case.
pub open spec fn leetspeak_spec(text: Seq<char>, pattern: Seq<char>) -> bool {
    contains_ignoring_case(
        text.map_values(|c: char| leet_char(c)),
        pattern.map_values(|c: char| leet_char(c)),
    )
}

/// Leetspeak detection.
pub fn leetspeak_match(text: &[char], pattern: &[char]) -> (r: bool)
    ensures
        r == leetspeak_spec(text@, pattern@),
{
    let t = normalize_leetspeak(text);
    let p = normalize_leetspeak(pattern);
    contains_ignore_case(&t, &p)
}

/// After canonical decomposition and removal of marks and punctuation, the
/// text contains the pattern, ignoring case.
pub open spec fn unicode_normalized_spec(text: Seq<char>, pattern: Seq<char>) -> bool {
    contains_ignoring_case(strip_marks(nfd(text)), strip_marks(nfd(pattern)))
}

/// Unicode-normalized matching.
pub fn unicode_normalized_match(text: &str, pattern: &str) -> (r: bool)
    ensures
        r == unicode_normalized_spec(text@, pattern@),
{
    let nt = nfd_string(text);
    let np = nfd_string(pattern);
    let ct = remove_diacritics(&chars_of(nt.as_str()));
    let cp = remove_diacritics(&chars_of(np.as_str()));
    contains_ignore_case(&ct, &cp)
}

/// Homoglyph-normalized text contains the normalized pattern, ignoring case.
pub open spec fn homoglyph_spec(text: Seq<char>, pattern: Seq<char>) -> bool {
    contains_ignoring_case(
        text.map_values(|c: char| homoglyph_char(c)),
        pattern.map_values(|c: char| homoglyph_char(c)),
    )
}

/// Homoglyph detection.
pub fn homoglyph_match(text: &[char], pattern: &[char]) -> (r: bool)
    ensures
        r == homoglyph_spec(text@, pattern@),
{
    let t = normalize_homoglyphs(text);
    let p = normalize_homoglyphs(pattern);
    contains_ignore_case(&t, &p)
}

/// The text contains the QWERTY-shifted pattern or the pattern itself, ignoring case.
pub open spec fn keyboard_shift_spec(text: Seq<char>, pattern: Seq<char>) -> bool {
    contains_ignoring_case(text, pattern.map_values(|c: char| qwerty_char(c)))
        || contains_ignoring_case(text, pattern)
}

/// Keyboard-shift detection.
pub fn keyboard_shift_match(text: &[char], pattern: &[char]) -> (r: bool)
    ensures
        r == keyboard_shift_spec(text@, pattern@),
{
    let shifted = apply_qwerty_shift(pattern);
    contains_ignore_case(text, &shifted) || contains_ignore_case(text, pattern)
}

/// The compressed text contains the compressed pattern, ignoring case.
pub open spec fn repeated_char_spec(text: Seq<char>, pattern: Seq<char>) -> bool {
    contains_ignoring_case(compress(text), compress(pattern))
}

/// Repeated-character matching.
pub fn repeated_char_match(text: &[char], pattern: &[char]) -> (r: bool)
    ensures
        r == repeated_char_spec(text@, pattern@),
{
    let t = compress_repeated_chars(text);
    let p = compress_repeated_chars(pattern);
    contains_ignore_case(&t, &p)
}

/// The Base64 decoding of the text is UTF-8 and contains the pattern, or its
/// percent-decoding does, ignoring case.
pub open spec fn encoded_spec(text: Seq<char>, pattern: Seq<char>) -> bool {
    (match base64_decoded(text) {
        Some(b) => valid_utf8(b) && contains_ignoring_case(decode_utf8(b), pattern),
        None => false,
    }) || (match url_decoded(text) {
        Some(d) => contains_ignoring_case(d, pattern),
        None => false,
    })
}

/// Encoded-content detection (Base64 and percent-encoding).
pub fn encoded_content_match(text: &str, pattern: &str) -> (r: bool)
    ensures
        r == encoded_spec(text@, pattern@),
{
    let p = chars_of(pattern);
    if let Some(bytes) = base64_decode(text) {
        if let Some(decoded) = utf8_string(bytes) {
            if contains_ignore_case(&chars_of(decoded.as_str()), &p) {
                return true;
            }
        }
    }
    if let Some(decoded) = url_decode(text) {
        if contains_ignore_case(&chars_of(decoded.as_str()), &p) {
            return true;
        }
    }
    false
}

// ---------------------------------------------------------------------------
// Patterns
// ---------------------------------------------------------------------------

/// Keyboard layouts considered by keyboard-shift detection.
#[derive(Clone, Copy, Debug, PartialEq, Eq, Structural)]
pub enum KeyboardLayout {
    Qwerty,
    Azerty,
    Qwertz,
    Dvorak,
}

/// An advanced pattern. The fuzzy threshold is given in thousandths
/// (800 stands for a similarity of 0.8).
#[derive(Clone, Debug)]
pub enum AdvancedPattern {
    /// Fuzzy matching with a similarity threshold in thousandths.
    FuzzyMatch { pattern: String, threshold: u32 },
    /// Phonetic matching with Soundex codes.
    Phonetic(String),
    /// Leetspeak detection and normalization.
    Leetspeak(String),
    /// Unicode normalization of international characters.
    UnicodeNormalized(String),
    /// Zalgo text detection.
    ZalgoText,
    /// Homoglyph detection.
    Homoglyph(String),
    /// Keyboard layout shift detection.
    KeyboardShift { pattern: String, layouts: Vec<KeyboardLayout> },
    /// Repeated character compression.
    RepeatedCharCompression(String),
    /// Base64 or percent-encoded content detection.
    EncodedContent(String),
}

/// Whether `p` matches `text`.
pub open spec fn pattern_matches(p: AdvancedPattern, text: Seq<char>) -> bool {
    match p {
        AdvancedPattern::FuzzyMatch { pattern, threshold } => fuzzy_spec(
            text,
            pattern@,
            threshold,
        ),
        AdvancedPattern::Phonetic(pattern) => phonetic_spec(text, pattern@),
        AdvancedPattern::Leetspeak(pattern) => leetspeak_spec(text, pattern@),
        AdvancedPattern::UnicodeNormalized(pattern) => unicode_normalized_spec(text, pattern@),
        AdvancedPattern::ZalgoText => zalgo_spec(text),
        AdvancedPattern::Homoglyph(pattern) => homoglyph_spec(text, pattern@),
        AdvancedPattern::KeyboardShift { pattern, .. } => keyboard_shift_spec(text, pattern@),
        AdvancedPattern::RepeatedCharCompression(pattern) => repeated_char_spec(text, pattern@),
        AdvancedPattern::EncodedContent(pattern) => encoded_spec(text, pattern@),
    }
}

impl AdvancedPattern {
    /// Check whether this pattern matches `text`.
    pub fn matches(&self, text: &str) -> (r: bool)
        ensures
            r == pattern_matches(*self, text@),
    {
        let t = chars_of(text);
        match self {
            AdvancedPattern::FuzzyMatch { pattern, threshold } => fuzzy_match(
                &t,
                &chars_of(pattern.as_str()),
                *threshold,
            ),
            AdvancedPattern::Phonetic(pattern) => phonetic_match(&t, &chars_of(pattern.as_str())),
            AdvancedPattern::Leetspeak(pattern) => leetspeak_match(&t, &chars_of(pattern.as_str())),
            AdvancedPattern::UnicodeNormalized(pattern) => unicode_normalized_match(
                text,
                pattern.as_str(),
            ),
            AdvancedPattern::ZalgoText => is_zalgo_text(&t),
            AdvancedPattern::Homoglyph(pattern) => homoglyph_match(&t, &chars_of(pattern.as_str())),
            AdvancedPattern::KeyboardShift { pattern, .. } => keyboard_shift_match(
                &t,
                &chars_of(pattern.as_str()),
            ),
            AdvancedPattern::RepeatedCharCompression(pattern) => repeated_char_match(
                &t,
                &chars_of(pattern.as_str()),
            ),
            AdvancedPattern::EncodedContent(pattern) => encoded_content_match(
                text,
                pattern.as_str(),
            ),
        }
    }
}

// ---------------------------------------------------------------------------
// Pattern names, the patterns a text matches, and the default patterns
// ---------------------------------------------------------------------------

/// `s` between double quotes.
pub open spec fn quoted(s: Seq<char>) -> Seq<char> {
    "\""@ + s + "\""@
}

/// The name of a keyboard layout.
pub open spec fn layout_name(l: KeyboardLayout) -> Seq<char> {
    match l {
        KeyboardLayout::Qwerty => "Qwerty"@,
        KeyboardLayout::Azerty => "Azerty"@,
        KeyboardLayout::Qwertz => "Qwertz"@,
        KeyboardLayout::Dvorak => "Dvorak"@,
    }
}

/// The names of the layouts, separated by `, `.
pub open spec fn layout_list(ls: Seq<KeyboardLayout>) -> Seq<char>
    decreases ls.len(),
{
    if ls.len() == 0 {
        Seq::empty()
    } else if ls.len() == 1 {
        layout_name(ls[0])
    } else {
        layout_list(ls.drop_last()) + ", "@ + layout_name(ls.last())
    }
}

/// The name a pattern is known by: the pattern written out as Rust writes
/// its variant, its text between double quotes (the text is not escaped).
pub open spec fn pattern_id(p: AdvancedPattern) -> Seq<char> {
    match p {
        AdvancedPattern::FuzzyMatch { pattern, threshold } =>
            "FuzzyMatch { pattern: "@ + quoted(pattern@) + ", threshold: "@ + crate::text::nat_digits(threshold as nat) + " }"@,
        AdvancedPattern::Phonetic(x) => "Phonetic("@ + quoted(x@) + ")"@,
        AdvancedPattern::Leetspeak(x) => "Leetspeak("@ + quoted(x@) + ")"@,
        AdvancedPattern::UnicodeNormalized(x) => "UnicodeNormalized("@ + quoted(x@) + ")"@,
        AdvancedPattern::ZalgoText => "ZalgoText"@,
        AdvancedPattern::Homoglyph(x) => "Homoglyph("@ + quoted(x@) + ")"@,
        AdvancedPattern::KeyboardShift { pattern, layouts } =>
            "KeyboardShift { pattern: "@ + quoted(pattern@) + ", layouts: ["@ + layout_list(layouts@) + "] }"@,
        AdvancedPattern::RepeatedCharCompression(x) => "RepeatedCharCompression("@ + quoted(x@) + ")"@,
        AdvancedPattern::EncodedContent(x) => "EncodedContent("@ + quoted(x@) + ")"@,
    }
}

fn quoted_text(s: &str) -> (r: String)
    ensures
        r@ == quoted(s@),
{
    let a = crate::text::concat("\"", s);
    crate::text::concat(a.as_str(), "\"")
}

fn wrapped(prefix: &str, inner: &str, suffix: &str) -> (r: String)
    ensures
        r@ == prefix@ + quoted(inner@) + suffix@,
{
    let q = quoted_text(inner);
    let a = crate::text::concat(prefix, q.as_str());
    crate::text::concat(a.as_str(), suffix)
}

fn layout_name_of(l: KeyboardLayout) -> (r: &'static str)
    ensures
        r@ == layout_name(l),
{
    match l {
        KeyboardLayout::Qwerty => "Qwerty",
        KeyboardLayout::Azerty => "Azerty",
        KeyboardLayout::Qwertz => "Qwertz",
        KeyboardLayout::Dvorak => "Dvorak",
    }
}

fn layout_list_of(ls: &Vec<KeyboardLayout>) -> (r: String)
    ensures
        r@ == layout_list(ls@),
{
    if ls.len() == 0 {
        proof {
            reveal_strlit("");
        }
        return crate::text::owned("");
    }
    let mut r = crate::text::owned(layout_name_of(ls[0]));
    assert(ls@.take(1).drop_last() =~= ls@.take(0));
    let mut k: usize = 1;
    while k < ls.len()
        invariant
            1 <= k <= ls@.len(),
            r@ == layout_list(ls@.take(k as int)),
        decreases ls@.len() - k,
    {
        let a = crate::text::concat(r.as_str(), ", ");
        r = crate::text::concat(a.as_str(), layout_name_of(ls[k]));
        assert(ls@.take(k + 1).drop_last() =~= ls@.take(k as int));
        assert(ls@.take(k + 1).last() == ls@[k as int]);
        k = k + 1;
    }
    assert(ls@.take(ls@.len() as int) =~= ls@);
    r
}

impl AdvancedPattern {
    /// The name this pattern is known by; see `pattern_id`.
    pub fn id(&self) -> (r: String)
        ensures
            r@ == pattern_id(*self),
    {
        match self {
            AdvancedPattern::FuzzyMatch { pattern, threshold } => {
                let a = wrapped("FuzzyMatch { pattern: ", pattern.as_str(), ", threshold: ");
                let b = crate::text::concat(a.as_str(), crate::text::nat_decimal(*threshold as u64).as_str());
                crate::text::concat(b.as_str(), " }")
            },
            AdvancedPattern::Phonetic(x) => wrapped("Phonetic(", x.as_str(), ")"),
            AdvancedPattern::Leetspeak(x) => wrapped("Leetspeak(", x.as_str(), ")"),
            AdvancedPattern::UnicodeNormalized(x) => wrapped("UnicodeNormalized(", x.as_str(), ")"),
            AdvancedPattern::ZalgoText => crate::text::owned("ZalgoText"),
            AdvancedPattern::Homoglyph(x) => wrapped("Homoglyph(", x.as_str(), ")"),
            AdvancedPattern::KeyboardShift { pattern, layouts } => {
                let a = wrapped("KeyboardShift { pattern: ", pattern.as_str(), ", layouts: [");
                let b = crate::text::concat(a.as_str(), layout_list_of(layouts).as_str());
                crate::text::concat(b.as_str(), "] }")
            },
            AdvancedPattern::RepeatedCharCompression(x) => wrapped("RepeatedCharCompression(", x.as_str(), ")"),
            AdvancedPattern::EncodedContent(x) => wrapped("EncodedContent(", x.as_str(), ")"),
        }
    }
}

/// The names of the patterns of `ps` that match `text`, in order.
pub open spec fn matching_names(ps: Seq<AdvancedPattern>, text: Seq<char>) -> Seq<Seq<char>> {
    ps.filter(|p: AdvancedPattern| pattern_matches(p, text)).map_values(|p: AdvancedPattern| pattern_id(p))
}

/// The names of the patterns of `patterns` that match `text`, in order.
pub fn matching_pattern_names(patterns: &Vec<AdvancedPattern>, text: &str) -> (r: Vec<String>)
    ensures
        r@.map_values(|s: String| s@) == matching_names(patterns@, text@),
{
    let ghost ps = patterns@;
    let mut out: Vec<String> = Vec::new();
    let mut i: usize = 0;
    assert(out@.map_values(|s: String| s@) =~= matching_names(ps.take(0), text@));
    while i < patterns.len()
        invariant
            i <= ps.len(),
            ps == patterns@,
            out@.map_values(|s: String| s@) == matching_names(ps.take(i as int), text@),
        decreases ps.len() - i,
    {
        let ghost before = out@;
        let p = &patterns[i];
        let hit = p.matches(text);
        proof {
            assert(ps.take(i + 1).drop_last() =~= ps.take(i as int));
            assert(ps.take(i + 1) =~= ps.take(i as int).push(*p));
            reveal(Seq::filter);
        }
        if hit {
            let name = p.id();
            out.push(name);
            assert(out@.map_values(|s: String| s@) =~= before.map_values(|s: String| s@).push(pattern_id(*p)));
            assert(ps.take(i + 1).filter(|p: AdvancedPattern| pattern_matches(p, text@))
                =~= ps.take(i as int).filter(|p: AdvancedPattern| pattern_matches(p, text@)).push(*p));
        } else {
            assert(ps.take(i + 1).filter(|p: AdvancedPattern| pattern_matches(p, text@))
                =~= ps.take(i as int).filter(|p: AdvancedPattern| pattern_matches(p, text@)));
        }
        i = i + 1;
    }
    assert(ps.take(ps.len() as int) =~= ps);
    out
}

/// Number of default advanced patterns.
pub open spec fn default_pattern_count() -> nat {
    12
}

/// `p` is the `j`th default advanced pattern (from 0): fuzzy matches of
/// common spam words, leetspeak, normalized Unicode, Zalgo text, homoglyphs
/// of staff titles and stretched words.
pub open spec fn default_pattern_is(p: AdvancedPattern, j: int) -> bool {
    if j == 0 {
        p matches AdvancedPattern::FuzzyMatch { pattern, threshold } && pattern@ == "spam"@ && threshold == 800
    } else if j == 1 {
        p matches AdvancedPattern::FuzzyMatch { pattern, threshold } && pattern@ == "scam"@ && threshold == 800
    } else if j == 2 {
        p matches AdvancedPattern::Leetspeak(x) && x@ == "spam"@
    } else if j == 3 {
        p matches AdvancedPattern::Leetspeak(x) && x@ == "follow"@
    } else if j == 4 {
        p matches AdvancedPattern::Leetspeak(x) && x@ == "subscribe"@
    } else if j == 5 {
        p matches AdvancedPattern::UnicodeNormalized(x) && x@ == "buy"@
    } else if j == 6 {
        p matches AdvancedPattern::UnicodeNormalized(x) && x@ == "sell"@
    } else if j == 7 {
        p is ZalgoText
    } else if j == 8 {
        p matches AdvancedPattern::Homoglyph(x) && x@ == "admin"@
    } else if j == 9 {
        p matches AdvancedPattern::Homoglyph(x) && x@ == "moderator"@
    } else if j == 10 {
        p matches AdvancedPattern::RepeatedCharCompression(x) && x@ == "follow"@
    } else if j == 11 {
        p matches AdvancedPattern::RepeatedCharCompression(x) && x@ == "subscribe"@
    } else {
        false
    }
}

/// The default advanced patterns; see `default_pattern_is`.
pub fn default_advanced_patterns() -> (v: Vec<AdvancedPattern>)
    ensures
        v@.len() == default_pattern_count(),
        forall|j: int| 0 <= j < default_pattern_count() ==> #[trigger] default_pattern_is(v@[j], j),
{
    let mut v: Vec<AdvancedPattern> = Vec::new();
    v.push(AdvancedPattern::FuzzyMatch { pattern: crate::text::owned("spam"), threshold: 800 });
    v.push(AdvancedPattern::FuzzyMatch { pattern: crate::text::owned("scam"), threshold: 800 });
    v.push(AdvancedPattern::Leetspeak(crate::text::owned("spam")));
    v.push(AdvancedPattern::Leetspeak(crate::text::owned("follow")));
    v.push(AdvancedPattern::Leetspeak(crate::text::owned("subscribe")));
    v.push(AdvancedPattern::UnicodeNormalized(crate::text::owned("buy")));
    v.push(AdvancedPattern::UnicodeNormalized(crate::text::owned("sell")));
    v.push(AdvancedPattern::ZalgoText);
    v.push(AdvancedPattern::Homoglyph(crate::text::owned("admin")));
    v.push(AdvancedPattern::Homoglyph(crate::text::owned("moderator")));
    v.push(AdvancedPattern::RepeatedCharCompression(crate::text::owned("follow")));
    v.push(AdvancedPattern::RepeatedCharCompression(crate::text::owned("subscribe")));
    v
}

/// Percent-encoded content is detected: when the percent-decoding of a text
/// exists and holds the pattern (ignoring case), the encoded-content
/// pattern matches the text; likewise for a Base64 decoding that is valid
/// UTF-8.
pub proof fn lemma_encoded_content_detected(t: Seq<char>, p: String)
    ensures
        (url_decoded(t) matches Some(d) && seq_contains(lowercase(d), lowercase(p@)))
            ==> pattern_matches(AdvancedPattern::EncodedContent(p), t),
        (base64_decoded(t) matches Some(b) && valid_utf8(b) && seq_contains(lowercase(decode_utf8(b)), lowercase(p@)))
            ==> pattern_matches(AdvancedPattern::EncodedContent(p), t),
        (url_decoded(t) is None && base64_decoded(t) is None) ==> !pattern_matches(AdvancedPattern::EncodedContent(p), t),
        !(url_decoded(t) matches Some(d) && seq_contains(lowercase(d), lowercase(p@)))
            && !(base64_decoded(t) matches Some(b) && valid_utf8(b) && seq_contains(lowercase(decode_utf8(b)), lowercase(p@)))
            ==> !pattern_matches(AdvancedPattern::EncodedContent(p), t),
{
}

} // verus!
