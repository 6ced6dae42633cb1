//! Matching a message against blacklist entries: literal text found in the
//! message, wildcard patterns in which `*` stands for any run of
//! characters, and regular expressions written `~/body/flags`.

use vstd::prelude::*;
use crate::bot::types::{BlacklistPattern, PatternView, regex_source, regex_source_of};
use crate::bot::filter_import_export::{regex_escaped, escape_regex};
use crate::text::{self, occurs_at, lowercase, unicode_alphanumeric};

verus! {

// ---------------------------------------------------------------------------
// Regular expressions
// ---------------------------------------------------------------------------

/// Whether the regular expression `source` compiles and matches somewhere
/// in `text`.
pub uninterp spec fn regex_is_match(source: Seq<char>, text: Seq<char>) -> bool;

/// `regex::Regex::new(source)` and then `Regex::is_match(text)`; false when
/// the expression does not compile. The result is `regex_is_match`.
#[verifier::external_body]
fn regex_matches(source: &str, text: &str) -> (b: bool)
    ensures
        b == regex_is_match(source@, text@),
{
    match regex::Regex::new(source) {
        Ok(r) => r.is_match(text),
        Err(_) => false,
    }
}

// ---------------------------------------------------------------------------
// Literal entries
// ---------------------------------------------------------------------------

/// A character that belongs to a word: alphanumeric, or `_`.
pub open spec fn word_char(c: char) -> bool {
    unicode_alphanumeric(c) || c == '_'
}

/// The `len` characters of `t` at `i` stand as whole words: no word
/// character right before or right after them.
pub open spec fn bounded_at(t: Seq<char>, i: int, len: int) -> bool {
    &&& (i == 0 || !word_char(t[i - 1]))
    &&& (i + len == t.len() || !word_char(t[i + len]))
}

/// A non-empty literal `p` occurs in `t`, standing as whole words when
/// `whole` asks for it.
pub open spec fn literal_in(t: Seq<char>, p: Seq<char>, whole: bool) -> bool {
    p.len() > 0 && exists|i: int| #[trigger] occurs_at(t, p, i) && (!whole || bounded_at(t, i, p.len() as int))
}

fn is_word_char(c: char) -> (b: bool)
    ensures
        b == word_char(c),
{
    text::is_alphanumeric(c) || c == '_'
}

/// See `literal_in`.
pub fn literal_found(t: &[char], p: &[char], whole: bool) -> (b: bool)
    ensures
        b == literal_in(t@, p@, whole),
{
    if p.len() == 0 || p.len() > t.len() {
        assert forall|i: int| !occurs_at(t@, p@, i) || p@.len() == 0 by {}
        return false;
    }
    let n = t.len();
    let m = p.len();
    let mut i: usize = 0;
    while i <= n - m
        invariant
            n == t@.len(),
            m == p@.len(),
            0 < m <= n,
            i <= n - m + 1,
            forall|k: int| 0 <= k < i ==> !(#[trigger] occurs_at(t@, p@, k) && (!whole || bounded_at(t@, k, m as int))),
        decreases n - m + 1 - i,
    {
        if text::matches_at(t, p, i) {
            let ok = if !whole {
                true
            } else {
                let before_ok = i == 0 || !is_word_char(t[i - 1]);
                let after_ok = i + m == n || !is_word_char(t[i + m]);
                before_ok && after_ok
            };
            if ok {
                return true;
            }
        }
        i = i + 1;
    }
    assert forall|k: int| !(#[trigger] occurs_at(t@, p@, k) && (!whole || bounded_at(t@, k, m as int))) by {
        if k > n - m {
            assert(!occurs_at(t@, p@, k));
        }
    }
    false
}

// ---------------------------------------------------------------------------
// Wildcard entries
// ---------------------------------------------------------------------------

/// The regular expression of a wildcard pattern's characters: `*` stands
/// for any run of characters, every other character for itself (escaped).
pub open spec fn wildcard_body(p: Seq<char>) -> Seq<char>
    decreases p.len(),
{
    if p.len() == 0 {
        Seq::empty()
    } else {
        wildcard_body(p.drop_last()) + if p.last() == '*' { ".*"@ } else { regex_escaped(seq![p.last()]) }
    }
}

/// The regular expression a wildcard entry is matched with: made
/// case-insensitive unless case matters, and bounded by word boundaries
/// (`\b`) when whole words are asked for.
pub open spec fn wildcard_source(p: Seq<char>, case_sensitive: bool, whole: bool) -> Seq<char> {
    let body = if whole { "\\b"@ + wildcard_body(p) + "\\b"@ } else { wildcard_body(p) };
    if case_sensitive { body } else { "(?i)"@ + body }
}

fn wildcard_body_of(p: &[char]) -> (r: Vec<char>)
    ensures
        r@ == wildcard_body(p@),
{
    let mut r: Vec<char> = Vec::new();
    let mut i: usize = 0;
    while i < p.len()
        invariant
            i <= p@.len(),
            r@ == wildcard_body(p@.take(i as int)),
        decreases p@.len() - i,
    {
        let c = p[i];
        assert(p@.take(i + 1).drop_last() =~= p@.take(i as int));
        assert(p@.take(i + 1).last() == c);
        let piece: Vec<char> = if c == '*' {
            proof {
                reveal_strlit(".*");
            }
            text::chars_of(".*")
        } else {
            let one = text::string_from_chars(&[c]);
            assert(one@ =~= seq![c]);
            let e = escape_regex(one.as_str());
            text::chars_of(e.as_str())
        };
        r = text::join_chars(r.as_slice(), piece.as_slice());
        i = i + 1;
    }
    assert(p@.take(p@.len() as int) =~= p@);
    r
}

fn wildcard_source_of(p: &str, case_sensitive: bool, whole: bool) -> (r: String)
    ensures
        r@ == wildcard_source(p@, case_sensitive, whole),
{
    let chars = text::chars_of(p);
    let body = wildcard_body_of(chars.as_slice());
    let b = text::string_from_chars(body.as_slice());
    let bounded = if whole {
        let a = text::concat("\\b", b.as_str());
        text::concat(a.as_str(), "\\b")
    } else {
        b
    };
    if case_sensitive {
        bounded
    } else {
        text::concat("(?i)", bounded.as_str())
    }
}

// ---------------------------------------------------------------------------
// Entries and lists of entries
// ---------------------------------------------------------------------------

/// Whether a blacklist entry matches `content`.
/// - Literal text matches where it occurs (as whole words when asked),
///   compared after lowercasing both unless case matters.
/// - A wildcard entry matches as the regular expression `wildcard_source`.
/// - A `~/body/flags` entry matches as its regular expression (see
///   `regex_source`), made case-insensitive unless case matters; it states
///   its own word boundaries.
pub open spec fn spec_pattern_matches(p: PatternView, content: Seq<char>, case_sensitive: bool, whole: bool) -> bool {
    match p {
        PatternView::Literal(t) => if case_sensitive {
            literal_in(content, t, whole)
        } else {
            literal_in(lowercase(content), lowercase(t), whole)
        },
        PatternView::Wildcard(w) => regex_is_match(wildcard_source(w, case_sensitive, whole), content),
        PatternView::Regex(s) => regex_is_match(
            if case_sensitive { regex_source(s) } else { "(?i)"@ + regex_source(s) },
            content,
        ),
    }
}

impl BlacklistPattern {
    /// Whether this entry matches `content`; see `spec_pattern_matches`.
    pub fn matches(&self, content: &str, case_sensitive: bool, whole_words_only: bool) -> (b: bool)
        ensures
            b == spec_pattern_matches(self@, content@, case_sensitive, whole_words_only),
    {
        match self {
            BlacklistPattern::Literal(t) => {
                let c = text::chars_of(content);
                let tc = text::chars_of(t.as_str());
                if case_sensitive {
                    literal_found(c.as_slice(), tc.as_slice(), whole_words_only)
                } else {
                    let lc = text::lowercase_chars(c.as_slice());
                    let lt = text::lowercase_chars(tc.as_slice());
                    literal_found(lc.as_slice(), lt.as_slice(), whole_words_only)
                }
            },
            BlacklistPattern::Wildcard(w) => {
                let src = wildcard_source_of(w.as_str(), case_sensitive, whole_words_only);
                regex_matches(src.as_str(), content)
            },
            BlacklistPattern::Regex { pattern } => {
                let base = regex_source_of(pattern.as_str());
                let src = if case_sensitive { base } else { text::concat("(?i)", base.as_str()) };
                regex_matches(src.as_str(), content)
            },
        }
    }
}

/// Whether some entry of a blacklist matches `content`.
pub open spec fn blacklist_matches(patterns: Seq<BlacklistPattern>, content: Seq<char>, case_sensitive: bool, whole: bool) -> bool {
    exists|i: int| 0 <= i < patterns.len() && #[trigger] spec_pattern_matches(patterns[i]@, content, case_sensitive, whole)
}

/// Whether some entry of `patterns` matches `content`; see
/// `spec_pattern_matches`.
pub fn check_blacklist(content: &str, patterns: &Vec<BlacklistPattern>, case_sensitive: bool, whole_words_only: bool)
    -> (b: bool)
    ensures
        b == blacklist_matches(patterns@, content@, case_sensitive, whole_words_only),
{
    let mut i: usize = 0;
    while i < patterns.len()
        invariant
            i <= patterns@.len(),
            forall|k: int| 0 <= k < i ==> !#[trigger] spec_pattern_matches(patterns@[k]@, content@, case_sensitive, whole_words_only),
        decreases patterns@.len() - i,
    {
        if patterns[i].matches(content, case_sensitive, whole_words_only) {
            return true;
        }
        i = i + 1;
    }
    false
}

} // verus!
