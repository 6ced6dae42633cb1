//! Spam checks on message content and on a user's recent messages, the
//! upkeep of that message history, and the choice of the action a filter
//! takes against a message that breaks it.

use vstd::prelude::*;
use crate::bot::pattern_matching::{byte_len, utf8_len};
use crate::bot::blacklist::{blacklist_matches, check_blacklist};
use crate::bot::types::{
    ChatMessage, ModerationAction, ModerationEscalation, SpamFilter, SpamFilterType, ActionView,
    BlacklistPattern, PatternView, ExemptionLevel, regex_accepts, regex_source, pattern_views,
};
use crate::keyed::{keys_distinct, has_key, keyed_map, lemma_key_index_unique, lemma_keyed_update, lemma_keyed_push, lemma_keyed_empty};
use crate::text;

verus! {

// ---------------------------------------------------------------------------
// Counting
// ---------------------------------------------------------------------------

/// Number of alphabetic characters.
pub open spec fn count_alphabetic(s: Seq<char>) -> nat
    decreases s.len(),
{
    if s.len() == 0 { 0 } else { count_alphabetic(s.drop_last()) + if text::unicode_alphabetic(s.last()) { 1nat } else { 0nat } }
}

/// Number of uppercase characters.
pub open spec fn count_uppercase(s: Seq<char>) -> nat
    decreases s.len(),
{
    if s.len() == 0 { 0 } else { count_uppercase(s.drop_last()) + if text::unicode_uppercase(s.last()) { 1nat } else { 0nat } }
}

/// Number of characters that are neither alphanumeric nor white space.
pub open spec fn count_symbols(s: Seq<char>) -> nat
    decreases s.len(),
{
    if s.len() == 0 {
        0
    } else {
        count_symbols(s.drop_last())
            + if !text::unicode_alphanumeric(s.last()) && !text::unicode_whitespace(s.last()) { 1nat } else { 0nat }
    }
}

/// Number of non-overlapping occurrences of `p` in `t`, found from the
/// left (as `str::matches(p).count()`), for a non-empty `p`.
pub open spec fn count_matches(t: Seq<char>, p: Seq<char>) -> nat
    decreases t.len(),
{
    if p.len() == 0 || t.len() < p.len() {
        0
    } else if text::occurs_at(t, p, 0) {
        1 + count_matches(t.subrange(p.len() as int, t.len() as int), p)
    } else {
        count_matches(t.drop_first(), p)
    }
}

fn count_chars_where(s: &[char], which: u8) -> (n: usize)
    requires
        which < 3,
    ensures
        which == 0 ==> n == count_alphabetic(s@),
        which == 1 ==> n == count_uppercase(s@),
        which == 2 ==> n == count_symbols(s@),
        n <= s@.len(),
{
    let mut n: usize = 0;
    let mut i: usize = 0;
    while i < s.len()
        invariant
            i <= s@.len(),
            which < 3,
            n <= i,
            which == 0 ==> n == count_alphabetic(s@.take(i as int)),
            which == 1 ==> n == count_uppercase(s@.take(i as int)),
            which == 2 ==> n == count_symbols(s@.take(i as int)),
        decreases s@.len() - i,
    {
        assert(s@.take(i + 1).drop_last() =~= s@.take(i as int));
        let c = s[i];
        let hit = if which == 0 {
            text::is_alphabetic(c)
        } else if which == 1 {
            text::is_uppercase(c)
        } else {
            !text::is_alphanumeric(c) && !text::is_whitespace(c)
        };
        if hit {
            n = n + 1;
        }
        i = i + 1;
    }
    assert(s@.take(s@.len() as int) =~= s@);
    n
}

/// Number of non-overlapping occurrences of `p` in `t`; see `count_matches`.
pub fn count_occurrences(t: &[char], p: &[char]) -> (n: usize)
    ensures
        n == count_matches(t@, p@),
{
    if p.len() == 0 {
        return 0;
    }
    let mut n: usize = 0;
    let mut i: usize = 0;
    assert(t@.subrange(0, t@.len() as int) =~= t@);
    while p.len() <= t.len() - i
        invariant
            i <= t@.len(),
            p@.len() > 0,
            n <= i,
            n + count_matches(t@.subrange(i as int, t@.len() as int), p@) == count_matches(t@, p@),
        decreases t@.len() - i,
    {
        let ghost rest = t@.subrange(i as int, t@.len() as int);
        assert(rest.subrange(0, p@.len() as int) =~= t@.subrange(i as int, i + p@.len()));
        if text::matches_at(t, p, i) {
            assert(text::occurs_at(rest, p@, 0));
            assert(rest.subrange(p@.len() as int, rest.len() as int) =~= t@.subrange(i + p@.len(), t@.len() as int));
            n = n + 1;
            i = i + p.len();
        } else {
            assert(!text::occurs_at(rest, p@, 0));
            assert(rest.drop_first() =~= t@.subrange(i + 1, t@.len() as int));
            i = i + 1;
        }
    }
    assert(count_matches(t@.subrange(i as int, t@.len() as int), p@) == 0);
    n
}

// ---------------------------------------------------------------------------
// Content checks
// ---------------------------------------------------------------------------

/// Too many capitals: in a message of at least 10 bytes with letters, the
/// percentage of uppercase characters among the letters exceeds the limit.
pub open spec fn spec_excessive_caps(s: Seq<char>, max_percentage: u8) -> bool {
    byte_len(s) >= 10 && count_alphabetic(s) > 0
        && (count_uppercase(s) * 100) / count_alphabetic(s) > max_percentage
}

/// The link markers a message is checked for.
pub open spec fn link_markers() -> Seq<Seq<char>> {
    seq!["http://"@, "https://"@, "www."@, ".com"@, ".net"@, ".org"@, ".tv"@]
}

/// A message holds a link and no whitelisted domain.
pub open spec fn spec_has_link(s: Seq<char>, whitelist: Seq<Seq<char>>) -> bool {
    (exists|k: int| 0 <= k < link_markers().len() && text::seq_contains(s, #[trigger] link_markers()[k]))
        && forall|k: int| 0 <= k < whitelist.len() ==> !text::seq_contains(s, #[trigger] whitelist[k])
}

/// The emotes a message is checked for.
pub open spec fn emote_markers() -> Seq<Seq<char>> {
    seq![":)"@, ":("@, ":D"@, ":P"@, ":o"@, "Kappa"@, "PogChamp"@, "LUL"@]
}

/// Total occurrences of the emotes among the first `k`.
pub open spec fn emote_count(s: Seq<char>, k: int) -> nat
    decreases k,
{
    if k <= 0 { 0 } else { emote_count(s, k - 1) + count_matches(s, emote_markers()[k - 1]) }
}

/// Too many emotes.
pub open spec fn spec_excessive_emotes(s: Seq<char>, max_count: u8) -> bool {
    emote_count(s, emote_markers().len() as int) > max_count
}

/// Too many symbols: in a message of at least 10 bytes, the percentage of
/// symbol characters among the bytes exceeds the limit.
pub open spec fn spec_symbol_spam(s: Seq<char>, max_percentage: u8) -> bool {
    byte_len(s) >= 10 && (count_symbols(s) * 100) / byte_len(s) > max_percentage
}

/// Whether the percentages of a message of `s` can be computed in `usize`.
pub open spec fn percentages_fit(s: Seq<char>) -> bool {
    s.len() * 100 <= usize::MAX && byte_len(s) <= usize::MAX
}

/// Too many capitals; see `spec_excessive_caps`.
pub fn check_excessive_caps(content: &str, max_percentage: u8) -> (b: bool)
    requires
        percentages_fit(content@),
    ensures
        b == spec_excessive_caps(content@, max_percentage),
{
    let s = text::chars_of(content);
    if utf8_len(s.as_slice()) < 10 {
        return false;
    }
    let letters = count_chars_where(s.as_slice(), 0);
    if letters == 0 {
        return false;
    }
    let caps = count_chars_where(s.as_slice(), 1);
    (caps * 100) / letters > max_percentage as usize
}

fn contains_text(s: &Vec<char>, lit: &str) -> (b: bool)
    ensures
        b == text::seq_contains(s@, lit@),
{
    let m = text::chars_of(lit);
    text::contains(s.as_slice(), m.as_slice())
}

fn count_text(s: &Vec<char>, lit: &str) -> (n: usize)
    ensures
        n == count_matches(s@, lit@),
        n <= s@.len(),
{
    let m = text::chars_of(lit);
    let n = count_occurrences(s.as_slice(), m.as_slice());
    proof {
        lemma_count_matches_bound(s@, m@);
    }
    n
}

/// A link that is not whitelisted; see `spec_has_link`.
pub fn check_links(content: &str, whitelist: &Vec<String>) -> (b: bool)
    ensures
        b == spec_has_link(content@, crate::bot::types::texts(whitelist@)),
{
    let s = text::chars_of(content);
    let found = contains_text(&s, "http://") || contains_text(&s, "https://") || contains_text(&s, "www.")
        || contains_text(&s, ".com") || contains_text(&s, ".net") || contains_text(&s, ".org")
        || contains_text(&s, ".tv");
    let ghost lm = link_markers();
    assert(found == exists|j: int| 0 <= j < lm.len() && text::seq_contains(s@, #[trigger] lm[j])) by {
        if found {
            if text::seq_contains(s@, "http://"@) { assert(text::seq_contains(s@, lm[0])); }
            else if text::seq_contains(s@, "https://"@) { assert(text::seq_contains(s@, lm[1])); }
            else if text::seq_contains(s@, "www."@) { assert(text::seq_contains(s@, lm[2])); }
            else if text::seq_contains(s@, ".com"@) { assert(text::seq_contains(s@, lm[3])); }
            else if text::seq_contains(s@, ".net"@) { assert(text::seq_contains(s@, lm[4])); }
            else if text::seq_contains(s@, ".org"@) { assert(text::seq_contains(s@, lm[5])); }
            else { assert(text::seq_contains(s@, lm[6])); }
        }
    }
    if !found {
        return false;
    }
    let mut i: usize = 0;
    while i < whitelist.len()
        invariant
            i <= whitelist@.len(),
            s@ == content@,
            exists|j: int| 0 <= j < link_markers().len() && text::seq_contains(s@, #[trigger] link_markers()[j]),
            forall|j: int| 0 <= j < i ==> !text::seq_contains(s@, #[trigger] crate::bot::types::texts(whitelist@)[j]),
        decreases whitelist@.len() - i,
    {
        let d = text::chars_of(whitelist[i].as_str());
        if text::contains(s.as_slice(), d.as_slice()) {
            assert(text::seq_contains(s@, crate::bot::types::texts(whitelist@)[i as int]));
            return false;
        }
        i = i + 1;
    }
    true
}

/// Too many emotes; see `spec_excessive_emotes`.
pub fn check_excessive_emotes(content: &str, max_count: u8) -> (b: bool)
    requires
        content@.len() * 8 <= usize::MAX,
    ensures
        b == spec_excessive_emotes(content@, max_count),
{
    let s = text::chars_of(content);
    let c0 = count_text(&s, ":)");
    let c1 = count_text(&s, ":(");
    let c2 = count_text(&s, ":D");
    let c3 = count_text(&s, ":P");
    let c4 = count_text(&s, ":o");
    let c5 = count_text(&s, "Kappa");
    let c6 = count_text(&s, "PogChamp");
    let c7 = count_text(&s, "LUL");
    let total = c0 + c1 + c2 + c3 + c4 + c5 + c6 + c7;
    let ghost em = emote_markers();
    assert(total == emote_count(s@, 8)) by {
        assert(em[0] == ":)"@ && em[1] == ":("@ && em[2] == ":D"@ && em[3] == ":P"@);
        assert(em[4] == ":o"@ && em[5] == "Kappa"@ && em[6] == "PogChamp"@ && em[7] == "LUL"@);
        reveal_with_fuel(emote_count, 9);
    }
    total > max_count as usize
}

proof fn lemma_count_matches_bound(t: Seq<char>, p: Seq<char>)
    ensures
        count_matches(t, p) <= t.len(),
    decreases t.len(),
{
    if p.len() == 0 || t.len() < p.len() {
    } else if text::occurs_at(t, p, 0) {
        lemma_count_matches_bound(t.subrange(p.len() as int, t.len() as int), p);
    } else {
        lemma_count_matches_bound(t.drop_first(), p);
    }
}

/// Too many symbols; see `spec_symbol_spam`.
pub fn check_symbol_spam(content: &str, max_percentage: u8) -> (b: bool)
    requires
        percentages_fit(content@),
    ensures
        b == spec_symbol_spam(content@, max_percentage),
{
    let s = text::chars_of(content);
    let bytes = utf8_len(s.as_slice());
    if bytes < 10 {
        return false;
    }
    let symbols = count_chars_where(s.as_slice(), 2);
    (symbols * 100) / (bytes as usize) > max_percentage as usize
}

/// A message longer than `max_length` bytes.
pub fn check_message_length(content: &str, max_length: usize) -> (b: bool)
    ensures
        b == (byte_len(content@) > max_length),
{
    let s = text::chars_of(content);
    utf8_len(s.as_slice()) > max_length as u128
}

// ---------------------------------------------------------------------------
// A user's recent messages
// ---------------------------------------------------------------------------

/// A message a user sent: when (seconds) and what.
pub struct SentMessage {
    pub timestamp: i64,
    pub content: String,
}

/// Number of messages sent after `cutoff`.
pub open spec fn count_recent(h: Seq<SentMessage>, cutoff: int) -> nat
    decreases h.len(),
{
    if h.len() == 0 { 0 } else { count_recent(h.drop_last(), cutoff) + if h.last().timestamp > cutoff { 1nat } else { 0nat } }
}

/// Number of messages sent after `cutoff` whose text is `content`.
pub open spec fn count_recent_same(h: Seq<SentMessage>, cutoff: int, content: Seq<char>) -> nat
    decreases h.len(),
{
    if h.len() == 0 {
        0
    } else {
        count_recent_same(h.drop_last(), cutoff, content)
            + if h.last().timestamp > cutoff && h.last().content@ == content { 1nat } else { 0nat }
    }
}

/// The same message sent too often within the window ending at `now`.
pub fn check_repeated_messages(history: &Vec<SentMessage>, content: &str, max_repeats: u8, window_seconds: u64, now: i64)
    -> (b: bool)
    ensures
        b == (count_recent_same(history@, now - window_seconds, content@) >= max_repeats),
{
    let cutoff: i128 = now as i128 - window_seconds as i128;
    let mut n: usize = 0;
    let mut i: usize = 0;
    while i < history.len()
        invariant
            i <= history@.len(),
            cutoff == now - window_seconds,
            n == count_recent_same(history@.take(i as int), cutoff as int, content@),
            n <= i,
        decreases history@.len() - i,
    {
        assert(history@.take(i + 1).drop_last() =~= history@.take(i as int));
        let m = &history[i];
        if (m.timestamp as i128) > cutoff && text::same_text(m.content.as_str(), content) {
            n = n + 1;
        }
        i = i + 1;
    }
    assert(history@.take(history@.len() as int) =~= history@);
    n >= max_repeats as usize
}

/// Too many messages within the window ending at `now`.
pub fn check_rate_limit(history: &Vec<SentMessage>, max_messages: u8, window_seconds: u64, now: i64) -> (b: bool)
    ensures
        b == (count_recent(history@, now - window_seconds) >= max_messages),
{
    let cutoff: i128 = now as i128 - window_seconds as i128;
    let mut n: usize = 0;
    let mut i: usize = 0;
    while i < history.len()
        invariant
            i <= history@.len(),
            cutoff == now - window_seconds,
            n == count_recent(history@.take(i as int), cutoff as int),
            n <= i,
        decreases history@.len() - i,
    {
        assert(history@.take(i + 1).drop_last() =~= history@.take(i as int));
        if (history[i].timestamp as i128) > cutoff {
            n = n + 1;
        }
        i = i + 1;
    }
    assert(history@.take(history@.len() as int) =~= history@);
    n >= max_messages as usize
}

/// Number of messages kept per user.
pub const HISTORY_LIMIT: usize = 50;

/// The messages of `h` sent after `cutoff`, in order.
pub open spec fn keep_after(h: Seq<SentMessage>, cutoff: int) -> Seq<SentMessage> {
    h.filter(|m: SentMessage| m.timestamp > cutoff)
}

/// The history after a new message: the message is added, messages of an
/// hour or more before `now` are dropped, and only the newest 50 are kept.
pub open spec fn spec_update_history(h: Seq<SentMessage>, m: SentMessage, now: i64) -> Seq<SentMessage> {
    let kept = keep_after(h.push(m), now - 3600);
    if kept.len() > HISTORY_LIMIT { kept.subrange(kept.len() - HISTORY_LIMIT, kept.len() as int) } else { kept }
}

/// Record a message `message` sent at `timestamp` in a user's history at `now`; see `spec_update_history`.
pub fn update_user_history(history: &mut Vec<SentMessage>, timestamp: i64, content: String, now: i64)
    ensures
        final(history)@ == spec_update_history(old(history)@, SentMessage { timestamp, content }, now),
        final(history)@.len() <= HISTORY_LIMIT,
{
    let ghost target = spec_update_history(old(history)@, SentMessage { timestamp, content }, now);
    history.push(SentMessage { timestamp, content });
    let ghost all = history@;
    let cutoff: i128 = now as i128 - 3600;
    let mut kept: Vec<SentMessage> = Vec::new();
    let mut i: usize = 0;
    while i < history.len()
        invariant
            i <= history@.len(),
            history@ == all,
            cutoff == now - 3600,
            kept@ == all.take(i as int).filter(|m: SentMessage| m.timestamp > cutoff as int),
        decreases history@.len() - i,
    {
        assert(all.take(i + 1).drop_last() =~= all.take(i as int));
        reveal(Seq::filter);
        let m = &history[i];
        if (m.timestamp as i128) > cutoff {
            kept.push(SentMessage { timestamp: m.timestamp, content: m.content.clone() });
        }
        i = i + 1;
    }
    assert(all.take(all.len() as int) =~= all);
    if kept.len() > HISTORY_LIMIT {
        let len = kept.len();
        let tail = kept.split_off(len - HISTORY_LIMIT);
        kept = tail;
    }
    *history = kept;
}

// ---------------------------------------------------------------------------
// Filters and actions
// ---------------------------------------------------------------------------

/// Whether `m` breaks the rule `t`, given the user's recent messages `h` at
/// `now`; a blacklist is broken when one of its entries matches the message.
pub open spec fn spec_violates(m: ChatMessage, t: SpamFilterType, h: Seq<SentMessage>, now: i64) -> bool {
    match t {
        SpamFilterType::ExcessiveCaps { max_percentage } => spec_excessive_caps(m.content@, max_percentage),
        SpamFilterType::LinkBlocking { allow_mods, whitelist } =>
            !(allow_mods && m.is_mod) && spec_has_link(m.content@, crate::bot::types::texts(whitelist@)),
        SpamFilterType::RepeatedMessages { max_repeats, window_seconds } =>
            count_recent_same(h, now - window_seconds, m.content@) >= max_repeats,
        SpamFilterType::MessageLength { max_length } => byte_len(m.content@) > max_length,
        SpamFilterType::ExcessiveEmotes { max_count } => spec_excessive_emotes(m.content@, max_count),
        SpamFilterType::SymbolSpam { max_percentage } => spec_symbol_spam(m.content@, max_percentage),
        SpamFilterType::RateLimit { max_messages, window_seconds } =>
            count_recent(h, now - window_seconds) >= max_messages,
        SpamFilterType::Blacklist { patterns, case_sensitive, whole_words_only } =>
            blacklist_matches(patterns@, m.content@, case_sensitive, whole_words_only),
    }
}

/// Whether `message` breaks `filter_type`; see `spec_violates`.
pub fn violates_filter(message: &ChatMessage, filter_type: &SpamFilterType, history: &Vec<SentMessage>, now: i64)
    -> (b: bool)
    requires
        percentages_fit(message.content@),
        message.content@.len() * 8 <= usize::MAX,
    ensures
        b == spec_violates(*message, *filter_type, history@, now),
{
    match filter_type {
        SpamFilterType::ExcessiveCaps { max_percentage } => check_excessive_caps(message.content.as_str(), *max_percentage),
        SpamFilterType::LinkBlocking { allow_mods, whitelist } => {
            if *allow_mods && message.is_mod {
                false
            } else {
                check_links(message.content.as_str(), whitelist)
            }
        },
        SpamFilterType::RepeatedMessages { max_repeats, window_seconds } =>
            check_repeated_messages(history, message.content.as_str(), *max_repeats, *window_seconds, now),
        SpamFilterType::MessageLength { max_length } => check_message_length(message.content.as_str(), *max_length),
        SpamFilterType::ExcessiveEmotes { max_count } => check_excessive_emotes(message.content.as_str(), *max_count),
        SpamFilterType::SymbolSpam { max_percentage } => check_symbol_spam(message.content.as_str(), *max_percentage),
        SpamFilterType::RateLimit { max_messages, window_seconds } =>
            check_rate_limit(history, *max_messages, *window_seconds, now),
        SpamFilterType::Blacklist { patterns, case_sensitive, whole_words_only } =>
            check_blacklist(message.content.as_str(), patterns, *case_sensitive, *whole_words_only),
    }
}

/// The action a filter takes against a violation: the repeat action for a
/// repeat offense, else the first-offense action; a warning carries the
/// filter's custom message when it has one; in silent mode a warning is only
/// logged.
pub open spec fn spec_filter_action(f: SpamFilter, is_repeat: bool) -> ActionView {
    let a = if is_repeat { f.escalation.repeat_offense@ } else { f.escalation.first_offense@ };
    let b = match (a, f.custom_message) {
        (ActionView::WarnUser(_), Some(m)) => ActionView::WarnUser(m@),
        _ => a,
    };
    match b {
        ActionView::WarnUser(_) => if f.silent_mode { ActionView::LogOnly } else { b },
        _ => b,
    }
}

/// The action `filter` takes against a violation; see `spec_filter_action`.
pub fn filter_action(filter: &SpamFilter, is_repeat: bool) -> (a: ModerationAction)
    ensures
        a@ == spec_filter_action(*filter, is_repeat),
{
    let action = if is_repeat { filter.escalation.repeat_offense.clone() } else { filter.escalation.first_offense.clone() };
    let final_action = match &filter.custom_message {
        Some(custom) => match action {
            ModerationAction::WarnUser { .. } => ModerationAction::WarnUser { message: custom.clone() },
            other => other,
        },
        None => action,
    };
    if filter.silent_mode {
        match final_action {
            ModerationAction::WarnUser { .. } => ModerationAction::LogOnly,
            other => other,
        }
    } else {
        final_action
    }
}

/// The name a filter of each kind gets by default.
pub open spec fn spec_default_filter_name(t: SpamFilterType) -> Seq<char> {
    match t {
        SpamFilterType::ExcessiveCaps { .. } => "excessive_caps"@,
        SpamFilterType::LinkBlocking { .. } => "link_blocking"@,
        SpamFilterType::RepeatedMessages { .. } => "repeated_messages"@,
        SpamFilterType::MessageLength { .. } => "message_length"@,
        SpamFilterType::ExcessiveEmotes { .. } => "excessive_emotes"@,
        SpamFilterType::SymbolSpam { .. } => "symbol_spam"@,
        SpamFilterType::RateLimit { .. } => "rate_limit"@,
        SpamFilterType::Blacklist { .. } => "blacklist"@,
    }
}

/// The name a filter of this kind gets by default.
pub fn generate_filter_name(filter_type: &SpamFilterType) -> (n: String)
    ensures
        n@ == spec_default_filter_name(*filter_type),
{
    match filter_type {
        SpamFilterType::ExcessiveCaps { .. } => text::owned("excessive_caps"),
        SpamFilterType::LinkBlocking { .. } => text::owned("link_blocking"),
        SpamFilterType::RepeatedMessages { .. } => text::owned("repeated_messages"),
        SpamFilterType::MessageLength { .. } => text::owned("message_length"),
        SpamFilterType::ExcessiveEmotes { .. } => text::owned("excessive_emotes"),
        SpamFilterType::SymbolSpam { .. } => text::owned("symbol_spam"),
        SpamFilterType::RateLimit { .. } => text::owned("rate_limit"),
        SpamFilterType::Blacklist { .. } => text::owned("blacklist"),
    }
}

// ---------------------------------------------------------------------------
// The filter registry
// ---------------------------------------------------------------------------

/// Number of occurrences of `c`.
pub open spec fn count_char(s: Seq<char>, c: char) -> nat
    decreases s.len(),
{
    if s.len() == 0 { 0 } else { count_char(s.drop_last(), c) + if s.last() == c { 1nat } else { 0nat } }
}

/// Whether blacklist text is read as a regular expression: `~/…/`, or any
/// text with two slashes or more.
pub open spec fn looks_like_regex(s: Seq<char>) -> bool {
    (text::seq_starts_with(s, "~/"@) && s.len() > 0 && s.last() == '/') || count_char(s, '/') >= 2
}

/// The blacklist entry that text makes: a regular expression (none when it
/// does not compile), a wildcard pattern when it holds `*`, else literal text.
pub open spec fn blacklist_entry(s: Seq<char>) -> Option<PatternView> {
    if looks_like_regex(s) {
        if regex_accepts(regex_source(s)) { Some(PatternView::Regex(s)) } else { None }
    } else if s.contains('*') {
        Some(PatternView::Wildcard(s))
    } else {
        Some(PatternView::Literal(s))
    }
}

/// The entries a list of texts makes, in order, without the refused ones.
pub open spec fn blacklist_entries(ps: Seq<Seq<char>>) -> Seq<PatternView>
    decreases ps.len(),
{
    if ps.len() == 0 {
        Seq::empty()
    } else {
        blacklist_entries(ps.drop_last()) + match blacklist_entry(ps.last()) {
            Some(v) => seq![v],
            None => Seq::empty(),
        }
    }
}

fn count_slashes(v: &Vec<char>) -> (n: usize)
    ensures
        n == count_char(v@, '/'),
{
    let mut n: usize = 0;
    let mut i: usize = 0;
    while i < v.len()
        invariant
            i <= v@.len(),
            n == count_char(v@.take(i as int), '/'),
            n <= i,
        decreases v@.len() - i,
    {
        assert(v@.take(i + 1).drop_last() =~= v@.take(i as int));
        if v[i] == '/' {
            n = n + 1;
        }
        i = i + 1;
    }
    assert(v@.take(v@.len() as int) =~= v@);
    n
}

/// The blacklist entry that `s` makes; see `blacklist_entry`.
pub fn make_blacklist_entry(s: String) -> (r: Option<BlacklistPattern>)
    ensures
        match blacklist_entry(s@) {
            Some(v) => r is Some && r->0@ == v,
            None => r is None,
        },
{
    let cs = text::chars_of(s.as_str());
    let tilde = text::chars_of("~/");
    proof {
        reveal_strlit("~/");
    }
    let regex_like = (text::starts_with(cs.as_slice(), tilde.as_slice()) && cs.len() > 0 && cs[cs.len() - 1] == '/')
        || count_slashes(&cs) >= 2;
    if regex_like {
        match BlacklistPattern::from_regex_string(s.as_str()) {
            Ok(p) => Some(p),
            Err(_) => None,
        }
    } else if text::contains_char(cs.as_slice(), '*') {
        Some(BlacklistPattern::Wildcard(s))
    } else {
        Some(BlacklistPattern::Literal(s))
    }
}

pub open spec fn filter_name_of() -> spec_fn(SpamFilter) -> Seq<char> {
    |f: SpamFilter| f.name@
}

/// The registry of spam filters, by name, and the global switch.
pub struct ModerationSystem {
    spam_filters: Vec<SpamFilter>,
    global_enabled: bool,
}

/// The view of an optional string.
pub open spec fn opt_view(o: Option<String>) -> Option<Seq<char>> {
    match o {
        Some(s) => Some(s@),
        None => None,
    }
}

impl ModerationSystem {
    /// `after` is `before` with a blacklist filter `name` added (or put in
    /// place of one of that name): enabled, not silent, made of the entries
    /// that `patterns` make, warning first (with `custom_message`, or a
    /// default) and then timing out for `timeout_seconds`.
    pub open spec fn added_blacklist(
        before: ModerationSystem,
        after: ModerationSystem,
        name: Seq<char>,
        patterns: Seq<Seq<char>>,
        case_sensitive: bool,
        whole_words_only: bool,
        exemption_level: ExemptionLevel,
        timeout_seconds: u64,
        custom_message: Option<Seq<char>>,
    ) -> bool {
        &&& after.wf()
        &&& after.protection_enabled() == before.protection_enabled()
        &&& after.filters().dom() == before.filters().dom().insert(name)
        &&& forall|k: Seq<char>| k != name && #[trigger] before.filters().dom().contains(k)
            ==> after.filters()[k] == before.filters()[k]
        &&& ({
            let f = after.filters()[name];
            &&& f.name@ == name
            &&& f.enabled
            &&& f.exemption_level == exemption_level
            &&& !f.silent_mode
            &&& opt_view(f.custom_message) == custom_message
            &&& f.escalation.first_offense@ == ActionView::WarnUser(match custom_message {
                Some(m) => m,
                None => "Please watch your language (first warning)"@,
            })
            &&& f.escalation.repeat_offense@ == ActionView::TimeoutUser(timeout_seconds)
            &&& f.escalation.offense_window_seconds == 3600
            &&& match f.filter_type {
                SpamFilterType::Blacklist { patterns: ps, case_sensitive: cs, whole_words_only: ww } =>
                    pattern_views(ps@) == blacklist_entries(patterns) && cs == case_sensitive && ww == whole_words_only,
                _ => false,
            }
        })
    }

    /// The filters with whether each is enabled, in the order of the registry.
    pub closed spec fn listing(&self) -> Seq<(Seq<char>, bool)> {
        self.spam_filters@.map_values(|f: SpamFilter| (f.name@, f.enabled))
    }

    /// The filters by name.
    pub closed spec fn filters(&self) -> Map<Seq<char>, SpamFilter> {
        keyed_map(self.spam_filters@, filter_name_of())
    }

    /// Whether spam protection is on.
    pub closed spec fn protection_enabled(&self) -> bool {
        self.global_enabled
    }

    pub closed spec fn wf(&self) -> bool {
        keys_distinct(self.spam_filters@, filter_name_of())
    }

    /// No filters, protection on.
    pub fn new() -> (s: Self)
        ensures
            s.wf(),
            s.filters() == Map::<Seq<char>, SpamFilter>::empty(),
            s.protection_enabled(),
    {
        proof {
            lemma_keyed_empty(filter_name_of());
        }
        ModerationSystem { spam_filters: Vec::new(), global_enabled: true }
    }

    fn find_filter(&self, name: &str) -> (r: Option<usize>)
        requires
            self.wf(),
        ensures
            match r {
                Some(i) => i < self.spam_filters@.len() && self.spam_filters@[i as int].name@ == name@
                    && self.filters().dom().contains(name@) && self.filters()[name@] == self.spam_filters@[i as int],
                None => !self.filters().dom().contains(name@),
            },
    {
        let mut i: usize = 0;
        while i < self.spam_filters.len()
            invariant
                i <= self.spam_filters@.len(),
                self.wf(),
                forall|j: int| 0 <= j < i ==> self.spam_filters@[j].name@ != name@,
            decreases self.spam_filters@.len() - i,
        {
            if text::same_text(self.spam_filters[i].name.as_str(), name) {
                proof {
                    lemma_key_index_unique(self.spam_filters@, filter_name_of(), i as int);
                }
                return Some(i);
            }
            i = i + 1;
        }
        assert(!has_key(self.spam_filters@, filter_name_of(), name@));
        None
    }

    /// Add a filter under its name, replacing one with the same name.
    fn insert_filter(&mut self, filter: SpamFilter)
        requires
            old(self).wf(),
        ensures
            final(self).wf(),
            final(self).filters() == old(self).filters().insert(filter.name@, filter),
            final(self).protection_enabled() == old(self).protection_enabled(),
    {
        let ghost s0 = self.spam_filters@;
        let ghost fg = filter;
        match self.find_filter(filter.name.as_str()) {
            Some(i) => {
                self.spam_filters.set(i, filter);
                proof {
                    lemma_keyed_update(s0, filter_name_of(), i as int, fg);
                }
            },
            None => {
                self.spam_filters.push(filter);
                proof {
                    lemma_keyed_push(s0, filter_name_of(), fg);
                }
            },
        }
    }

    /// Add an enabled filter with the given settings under `name`, replacing
    /// one with that name.
    pub fn add_spam_filter_advanced(
        &mut self,
        name: String,
        filter_type: SpamFilterType,
        escalation: ModerationEscalation,
        exemption_level: ExemptionLevel,
        silent_mode: bool,
        custom_message: Option<String>,
    )
        requires
            old(self).wf(),
        ensures
            final(self).wf(),
            final(self).filters() == old(self).filters().insert(name@, SpamFilter {
                filter_type, enabled: true, escalation, exemption_level, silent_mode, custom_message, name,
            }),
            final(self).protection_enabled() == old(self).protection_enabled(),
    {
        let filter = SpamFilter { filter_type, enabled: true, escalation, exemption_level, silent_mode, custom_message, name };
        self.insert_filter(filter);
    }

    /// Add a blacklist filter under `name` made of the entries that
    /// `patterns` make (see `blacklist_entries`), which warns first and then
    /// times out for `timeout_seconds`.
    pub fn add_blacklist_filter(
        &mut self,
        name: String,
        patterns: Vec<String>,
        case_sensitive: bool,
        whole_words_only: bool,
        exemption_level: ExemptionLevel,
        timeout_seconds: u64,
        custom_message: Option<String>,
    )
        requires
            old(self).wf(),
        ensures
            final(self).wf(),
            ModerationSystem::added_blacklist(*old(self), *final(self), name@, crate::bot::types::texts(patterns@),
                case_sensitive, whole_words_only, exemption_level, timeout_seconds, opt_view(custom_message)),
    {
        let mut entries: Vec<BlacklistPattern> = Vec::new();
        let ghost ps = crate::bot::types::texts(patterns@);
        let mut i: usize = 0;
        while i < patterns.len()
            invariant
                i <= patterns@.len(),
                ps == crate::bot::types::texts(patterns@),
                pattern_views(entries@) == blacklist_entries(ps.take(i as int)),
            decreases patterns@.len() - i,
        {
            assert(ps.take(i + 1).drop_last() =~= ps.take(i as int));
            assert(ps.take(i + 1).last() == patterns@[i as int]@);
            let ghost before = entries@;
            match make_blacklist_entry(patterns[i].clone()) {
                Some(p) => {
                    entries.push(p);
                    assert(pattern_views(entries@) =~= pattern_views(before) + seq![p@]);
                },
                None => {
                    assert(pattern_views(entries@) =~= pattern_views(before) + Seq::<PatternView>::empty());
                },
            }
            i = i + 1;
        }
        assert(ps.take(patterns@.len() as int) =~= ps);
        let warning = match &custom_message {
            Some(m) => m.clone(),
            None => text::owned("Please watch your language (first warning)"),
        };
        let escalation = ModerationEscalation {
            first_offense: ModerationAction::WarnUser { message: warning },
            repeat_offense: ModerationAction::TimeoutUser { duration_seconds: timeout_seconds },
            offense_window_seconds: 3600,
        };
        let filter_type = SpamFilterType::Blacklist { patterns: entries, case_sensitive, whole_words_only };
        self.add_spam_filter_advanced(name, filter_type, escalation, exemption_level, false, custom_message);
    }

    /// Whether spam protection is on.
    pub fn is_protection_enabled(&self) -> (b: bool)
        ensures
            b == self.protection_enabled(),
    {
        self.global_enabled
    }

    /// Turn spam protection on or off.
    pub fn set_spam_protection_enabled(&mut self, enabled: bool)
        ensures
            final(self).protection_enabled() == enabled,
            final(self).filters() == old(self).filters(),
            final(self).wf() == old(self).wf(),
    {
        self.global_enabled = enabled;
    }

    /// Turn the filter `name` on or off; `false` when there is none.
    pub fn set_filter_enabled(&mut self, name: &str, enabled: bool) -> (found: bool)
        requires
            old(self).wf(),
        ensures
            final(self).wf(),
            found == old(self).filters().dom().contains(name@),
            found ==> final(self).filters() == old(self).filters().insert(name@,
                SpamFilter { enabled, ..old(self).filters()[name@] }),
            !found ==> final(self).filters() == old(self).filters(),
            final(self).protection_enabled() == old(self).protection_enabled(),
    {
        match self.find_filter(name) {
            Some(i) => {
                let ghost s0 = self.spam_filters@;
                let ghost updated = SpamFilter { enabled, ..s0[i as int] };
                let mut f = self.spam_filters.remove(i);
                f.enabled = enabled;
                assert(f == updated);
                self.spam_filters.insert(i, f);
                assert(self.spam_filters@ =~= s0.update(i as int, updated));
                proof {
                    lemma_keyed_update(s0, filter_name_of(), i as int, updated);
                }
                true
            },
            None => false,
        }
    }

    /// Remove the filter `name`; `false` when there is none.
    pub fn remove_filter(&mut self, name: &str) -> (found: bool)
        requires
            old(self).wf(),
        ensures
            final(self).wf(),
            found == old(self).filters().dom().contains(name@),
            final(self).filters() == old(self).filters().remove(name@),
            final(self).protection_enabled() == old(self).protection_enabled(),
    {
        let ghost c0 = self.spam_filters@;
        match self.find_filter(name) {
            Some(i) => {
                self.spam_filters.remove(i);
                proof {
                    let c1 = self.spam_filters@;
                    let key = filter_name_of();
                    assert(c1 =~= c0.remove(i as int));
                    assert(keys_distinct(c1, key)) by {
                        assert forall|a: int, b: int| 0 <= a < c1.len() && 0 <= b < c1.len() && a != b
                            implies #[trigger] key(c1[a]) != #[trigger] key(c1[b]) by {
                            let a0 = if a < i { a } else { a + 1 };
                            let b0 = if b < i { b } else { b + 1 };
                            assert(c1[a] == c0[a0] && c1[b] == c0[b0]);
                        }
                    }
                    assert forall|t: Seq<char>| #[trigger] self.filters().dom().contains(t)
                        <==> old(self).filters().remove(name@).dom().contains(t) by {
                        if has_key(c1, key, t) {
                            let k = choose|k: int| 0 <= k < c1.len() && #[trigger] key(c1[k]) == t;
                            let k0 = if k < i { k } else { k + 1 };
                            assert(c1[k] == c0[k0]);
                            lemma_key_index_unique(c0, key, i as int);
                            if t == name@ {
                                assert(key(c0[k0]) == key(c0[i as int]));
                            }
                        }
                        if has_key(c0, key, t) && t != name@ {
                            let k = choose|k: int| 0 <= k < c0.len() && #[trigger] key(c0[k]) == t;
                            assert(k != i);
                            let k1 = if k < i { k } else { k - 1 };
                            assert(c1[k1] == c0[k]);
                        }
                    }
                    assert forall|t: Seq<char>| #[trigger] self.filters().dom().contains(t)
                        implies self.filters()[t] == old(self).filters()[t] by {
                        let k = choose|k: int| 0 <= k < c1.len() && #[trigger] key(c1[k]) == t;
                        let k0 = if k < i { k } else { k + 1 };
                        assert(c1[k] == c0[k0]);
                        lemma_key_index_unique(c1, key, k);
                        lemma_key_index_unique(c0, key, k0);
                    }
                    assert(self.filters() =~= old(self).filters().remove(name@));
                }
                true
            },
            None => {
                assert(old(self).filters().remove(name@) =~= old(self).filters());
                false
            },
        }
    }

    /// Add an enabled filter `name` of kind `filter_type` that warns first
    /// (with `custom_message`, or a default warning) and then times out for
    /// `timeout_seconds`, within an hour; see `add_spam_filter_advanced`.
    pub fn add_spam_filter_enhanced(
        &mut self,
        name: String,
        filter_type: SpamFilterType,
        timeout_seconds: u64,
        exemption_level: ExemptionLevel,
        custom_message: Option<String>,
        silent_mode: bool,
    )
        requires
            old(self).wf(),
        ensures
            final(self).wf(),
            final(self).protection_enabled() == old(self).protection_enabled(),
            final(self).filters().dom() == old(self).filters().dom().insert(name@),
            forall|k: Seq<char>| k != name@ && #[trigger] old(self).filters().dom().contains(k)
                ==> final(self).filters()[k] == old(self).filters()[k],
            ({
                let f = final(self).filters()[name@];
                &&& f.name@ == name@
                &&& f.filter_type == filter_type
                &&& f.enabled
                &&& f.exemption_level == exemption_level
                &&& f.silent_mode == silent_mode
                &&& opt_view(f.custom_message) == opt_view(custom_message)
                &&& f.escalation.first_offense@ == ActionView::WarnUser(match custom_message {
                    Some(m) => m@,
                    None => "Please follow chat rules (first warning)"@,
                })
                &&& f.escalation.repeat_offense@ == ActionView::TimeoutUser(timeout_seconds)
                &&& f.escalation.offense_window_seconds == 3600
            }),
    {
        let warning = match &custom_message {
            Some(m) => m.clone(),
            None => text::owned("Please follow chat rules (first warning)"),
        };
        let escalation = ModerationEscalation {
            first_offense: ModerationAction::WarnUser { message: warning },
            repeat_offense: ModerationAction::TimeoutUser { duration_seconds: timeout_seconds },
            offense_window_seconds: 3600,
        };
        self.add_spam_filter_advanced(name, filter_type, escalation, exemption_level, silent_mode, custom_message);
    }

    /// Every filter once, with whether it is enabled.
    #[verifier::spinoff_prover]
    pub fn list_filters(&self) -> (r: Vec<(String, bool)>)
        requires
            self.wf(),
        ensures
            r@.len() == self.filters().dom().len(),
            forall|i: int| 0 <= i < r@.len() ==> #[trigger] self.filters().dom().contains(r@[i].0@)
                && self.filters()[r@[i].0@].enabled == r@[i].1,
            forall|k: Seq<char>| #[trigger] self.filters().dom().contains(k)
                ==> exists|i: int| 0 <= i < r@.len() && #[trigger] r@[i].0@ == k,
            forall|i: int, j: int| 0 <= i < r@.len() && 0 <= j < r@.len() && i != j
                ==> #[trigger] r@[i].0@ != #[trigger] r@[j].0@,
            r@.map_values(|e: (String, bool)| (e.0@, e.1)) == self.listing(),
    {
        let mut r: Vec<(String, bool)> = Vec::new();
        let mut i: usize = 0;
        while i < self.spam_filters.len()
            invariant
                i <= self.spam_filters@.len(),
                self.wf(),
                r@.len() == i,
                forall|j: int| 0 <= j < i ==> (#[trigger] r@[j]).0@ == self.spam_filters@[j].name@
                    && r@[j].1 == self.spam_filters@[j].enabled,
            decreases self.spam_filters@.len() - i,
        {
            let ghost before = r@;
            r.push((self.spam_filters[i].name.clone(), self.spam_filters[i].enabled));
            assert forall|j: int| 0 <= j < i + 1 implies (#[trigger] r@[j]).0@ == self.spam_filters@[j].name@
                && r@[j].1 == self.spam_filters@[j].enabled by {
                if j < i {
                    assert(r@[j] == before[j]);
                }
            }
            i = i + 1;
        }
        proof {
            let s = self.spam_filters@;
            let key = filter_name_of();
            assert forall|j: int| 0 <= j < r@.len() implies #[trigger] self.filters().dom().contains(r@[j].0@)
                && self.filters()[r@[j].0@].enabled == r@[j].1 by {
                lemma_key_index_unique(s, key, j);
                assert(key(s[j]) == r@[j].0@);
            }
            assert forall|k: Seq<char>| #[trigger] self.filters().dom().contains(k)
                implies exists|j: int| 0 <= j < r@.len() && #[trigger] r@[j].0@ == k by {
                let j = choose|j: int| 0 <= j < s.len() && #[trigger] key(s[j]) == k;
                assert(r@[j].0@ == k);
            }
            assert forall|a: int, b: int| 0 <= a < r@.len() && 0 <= b < r@.len() && a != b
                implies #[trigger] r@[a].0@ != #[trigger] r@[b].0@ by {
                assert(key(s[a]) != key(s[b]));
            }
            lemma_listing_len(s, key);
            assert(r@.map_values(|e: (String, bool)| (e.0@, e.1)) =~= self.listing());
        }
        r
    }
}

// ---------------------------------------------------------------------------
// Checking a message against the filters
// ---------------------------------------------------------------------------

/// Under which exemption levels the sender of a message is exempt.
pub struct Exemptions {
    pub subscriber: bool,
    pub regular: bool,
    pub moderator: bool,
    pub owner: bool,
}

/// Whether a sender with exemptions `e` is exempt from a filter of level `l`.
pub open spec fn exempt_under(e: Exemptions, l: ExemptionLevel) -> bool {
    match l {
        ExemptionLevel::NoOne => false,
        ExemptionLevel::Subscriber => e.subscriber,
        ExemptionLevel::Regular => e.regular,
        ExemptionLevel::Moderator => e.moderator,
        ExemptionLevel::Owner => e.owner,
    }
}

/// A violation recorded against a user.
pub struct ViolationRecord {
    pub filter_name: String,
    /// When, in seconds since the epoch.
    pub timestamp: i64,
    /// The filter's escalation step before its custom message and silent mode.
    pub action_taken: ModerationAction,
    pub message_content: String,
}

/// Whether a violation of filter `name` was recorded within the `window`
/// seconds before `now`.
pub open spec fn repeat_offense(v: Seq<ViolationRecord>, name: Seq<char>, window: u64, now: i64) -> bool {
    exists|k: int| 0 <= k < v.len() && #[trigger] v[k].filter_name@ == name && v[k].timestamp > now - window
}

/// The position of the first filter from `from` on that `m` breaks: one
/// that is enabled, that the sender is not exempt from, and whose rule the
/// message breaks.
pub open spec fn first_violated(fs: Seq<SpamFilter>, m: ChatMessage, h: Seq<SentMessage>, now: i64, e: Exemptions,
    from: int) -> Option<int>
    decreases fs.len() - from,
{
    if from < 0 || from >= fs.len() {
        None
    } else if fs[from].enabled && !exempt_under(e, fs[from].exemption_level)
        && spec_violates(m, fs[from].filter_type, h, now) {
        Some(from)
    } else {
        first_violated(fs, m, h, now, e, from + 1)
    }
}

fn is_exempt(e: &Exemptions, l: ExemptionLevel) -> (b: bool)
    ensures
        b == exempt_under(*e, l),
{
    match l {
        ExemptionLevel::NoOne => false,
        ExemptionLevel::Subscriber => e.subscriber,
        ExemptionLevel::Regular => e.regular,
        ExemptionLevel::Moderator => e.moderator,
        ExemptionLevel::Owner => e.owner,
    }
}

/// Whether `violations` hold a repeat offense against filter `name`; see
/// `repeat_offense`.
pub fn is_repeat_offense(violations: &Vec<ViolationRecord>, name: &str, window_seconds: u64, now: i64) -> (b: bool)
    ensures
        b == repeat_offense(violations@, name@, window_seconds, now),
{
    let cutoff: i128 = now as i128 - window_seconds as i128;
    let mut i: usize = 0;
    while i < violations.len()
        invariant
            i <= violations@.len(),
            cutoff == now - window_seconds,
            forall|k: int| 0 <= k < i ==> !(#[trigger] violations@[k].filter_name@ == name@
                && violations@[k].timestamp > now - window_seconds),
        decreases violations@.len() - i,
    {
        let v = &violations[i];
        if text::same_text(v.filter_name.as_str(), name) && (v.timestamp as i128) > cutoff {
            assert(violations@[i as int].filter_name@ == name@);
            return true;
        }
        i = i + 1;
    }
    false
}

impl ModerationSystem {
    /// The filters in the order they are checked.
    pub closed spec fn ordered(&self) -> Seq<SpamFilter> {
        self.spam_filters@
    }

    /// What checking message `m` at `now` decides: nothing while protection
    /// is off; otherwise the first filter it breaks (see `first_violated`),
    /// if any, which records the violation in `violations` and answers its
    /// action (see `spec_filter_action`), a repeat offense if that filter
    /// was broken within its offense window.
    pub open spec fn checked(&self, m: ChatMessage, h: Seq<SentMessage>, v0: Seq<ViolationRecord>,
        v1: Seq<ViolationRecord>, e: Exemptions, now: i64, r: Option<ModerationAction>) -> bool {
        if !self.protection_enabled() {
            r is None && v1 == v0
        } else {
            match first_violated(self.ordered(), m, h, now, e, 0) {
                None => r is None && v1 == v0,
                Some(i) => {
                    let f = self.ordered()[i];
                    let rep = repeat_offense(v0, f.name@, f.escalation.offense_window_seconds, now);
                    let step = if rep { f.escalation.repeat_offense } else { f.escalation.first_offense };
                    &&& r matches Some(a) && a@ == spec_filter_action(f, rep)
                    &&& v1.len() == v0.len() + 1
                    &&& v1.take(v0.len() as int) == v0
                    &&& v1.last().filter_name@ == f.name@
                    &&& v1.last().timestamp == now
                    &&& v1.last().action_taken@ == step@
                    &&& v1.last().message_content@ == m.content@
                },
            }
        }
    }

    /// Check `message`, whose sender's recent messages are `history` and
    /// recorded violations `violations`, against the filters at `now`;
    /// see `checked`.
    pub fn check_spam_filters_at(&self, message: &ChatMessage, history: &Vec<SentMessage>,
        violations: &mut Vec<ViolationRecord>, exemptions: &Exemptions, now: i64)
        -> (r: Option<ModerationAction>)
        requires
            self.wf(),
            percentages_fit(message.content@),
            message.content@.len() * 8 <= usize::MAX,
        ensures
            self.checked(*message, history@, old(violations)@, final(violations)@, *exemptions, now, r),
    {
        if !self.global_enabled {
            return None;
        }
        let ghost fs = self.spam_filters@;
        let mut i: usize = 0;
        let mut found: Option<usize> = None;
        assert(first_violated(fs, *message, history@, now, *exemptions, 0)
            == first_violated(fs, *message, history@, now, *exemptions, i as int));
        while i < self.spam_filters.len()
            invariant_except_break
                found is None,
            invariant
                i <= fs.len(),
                fs == self.spam_filters@,
                percentages_fit(message.content@),
                message.content@.len() * 8 <= usize::MAX,
                first_violated(fs, *message, history@, now, *exemptions, 0)
                    == first_violated(fs, *message, history@, now, *exemptions, i as int),
            ensures
                match found {
                    Some(k) => k < fs.len() && first_violated(fs, *message, history@, now, *exemptions, 0)
                        == Some(k as int),
                    None => first_violated(fs, *message, history@, now, *exemptions, 0) is None,
                },
            decreases fs.len() - i,
        {
            let f = &self.spam_filters[i];
            if f.enabled && !is_exempt(exemptions, f.exemption_level)
                && violates_filter(message, &f.filter_type, history, now) {
                found = Some(i);
                break;
            }
            i = i + 1;
        }
        match found {
            None => None,
            Some(k) => {
                let f = &self.spam_filters[k];
                let rep = is_repeat_offense(violations, f.name.as_str(), f.escalation.offense_window_seconds, now);
                let step = if rep { f.escalation.repeat_offense.clone() } else { f.escalation.first_offense.clone() };
                let ghost v0 = violations@;
                violations.push(ViolationRecord {
                    filter_name: f.name.clone(),
                    timestamp: now,
                    action_taken: step,
                    message_content: message.content.clone(),
                });
                assert(violations@.take(v0.len() as int) =~= v0);
                Some(filter_action(f, rep))
            },
        }
    }

    /// Check `message` against the filters now; see `check_spam_filters_at`.
    pub fn check_spam_filters(&self, message: &ChatMessage, history: &Vec<SentMessage>,
        violations: &mut Vec<ViolationRecord>, exemptions: &Exemptions)
        -> (r: Option<ModerationAction>)
        requires
            self.wf(),
            percentages_fit(message.content@),
            message.content@.len() * 8 <= usize::MAX,
        ensures
            exists|now: i64| #[trigger] self.checked(*message, history@, old(violations)@, final(violations)@,
                *exemptions, now, r),
    {
        let now = crate::clock::now_secs() as i64;
        let r = self.check_spam_filters_at(message, history, violations, exemptions, now);
        assert(self.checked(*message, history@, old(violations)@, violations@, *exemptions, now, r));
        r
    }
}

/// Escalation: when a filter catches a user again within its offense
/// window, the second catch takes the filter's repeat-offense action.
pub proof fn lemma_second_violation_escalates(
    s: ModerationSystem, i: int,
    m1: ChatMessage, h1: Seq<SentMessage>, e1: Exemptions, now1: i64, r1: Option<ModerationAction>,
    m2: ChatMessage, h2: Seq<SentMessage>, e2: Exemptions, now2: i64, r2: Option<ModerationAction>,
    v0: Seq<ViolationRecord>, v1: Seq<ViolationRecord>, v2: Seq<ViolationRecord>,
)
    requires
        s.protection_enabled(),
        first_violated(s.ordered(), m1, h1, now1, e1, 0) == Some(i),
        first_violated(s.ordered(), m2, h2, now2, e2, 0) == Some(i),
        now1 > now2 - s.ordered()[i].escalation.offense_window_seconds,
        s.checked(m1, h1, v0, v1, e1, now1, r1),
        s.checked(m2, h2, v1, v2, e2, now2, r2),
    ensures
        r2 matches Some(a) && a@ == spec_filter_action(s.ordered()[i], true),
{
    let f = s.ordered()[i];
    let k = v1.len() - 1;
    assert(v1[k].filter_name@ == f.name@);
    assert(repeat_offense(v1, f.name@, f.escalation.offense_window_seconds, now2));
}

/// With distinct keys, the map has as many keys as the vector has elements.
proof fn lemma_listing_len<T>(s: Seq<T>, key: spec_fn(T) -> Seq<char>)
    requires
        keys_distinct(s, key),
    ensures
        keyed_map(s, key).dom().len() == s.len(),
        keyed_map(s, key).dom().finite(),
    decreases s.len(),
{
    if s.len() == 0 {
        assert(keyed_map(s, key).dom() =~= Set::<Seq<char>>::empty());
    } else {
        let t = s.drop_last();
        assert forall|a: int, b: int| 0 <= a < t.len() && 0 <= b < t.len() && a != b
            implies #[trigger] key(t[a]) != #[trigger] key(t[b]) by {
            assert(t[a] == s[a] && t[b] == s[b]);
        }
        lemma_listing_len(t, key);
        assert(!has_key(t, key, key(s.last()))) by {
            if has_key(t, key, key(s.last())) {
                let j = choose|j: int| 0 <= j < t.len() && #[trigger] key(t[j]) == key(s.last());
                assert(key(s[j]) == key(s[s.len() - 1]));
            }
        }
        assert(t.push(s.last()) =~= s);
        lemma_keyed_push(t, key, s.last());
        assert(keyed_map(s, key).dom() =~= keyed_map(t, key).dom().insert(key(s.last())));
    }
}

/// A whitelisted domain always exempts a message: when some whitelist entry
/// occurs in the text, the link check is false, whatever links the text
/// holds; and a text with none of the link markers is never flagged.
pub proof fn lemma_whitelisted_domain_exempts(s: Seq<char>, whitelist: Seq<Seq<char>>, k: int)
    requires
        0 <= k < whitelist.len(),
        text::seq_contains(s, whitelist[k]),
    ensures
        !spec_has_link(s, whitelist),
{
}

/// A text is flagged exactly when it holds one of the link markers
/// (`http://`, `https://`, `www.`, `.com`, `.net`, `.org`, `.tv`) and no
/// whitelisted entry.
pub proof fn lemma_links_need_a_marker(s: Seq<char>, whitelist: Seq<Seq<char>>)
    ensures
        (forall|k: int| 0 <= k < link_markers().len() ==> !text::seq_contains(s, #[trigger] link_markers()[k]))
            ==> !spec_has_link(s, whitelist),
        (text::seq_contains(s, "http://"@) || text::seq_contains(s, "https://"@) || text::seq_contains(s, "www."@)
            || text::seq_contains(s, ".com"@) || text::seq_contains(s, ".net"@) || text::seq_contains(s, ".org"@)
            || text::seq_contains(s, ".tv"@))
            && (forall|k: int| 0 <= k < whitelist.len() ==> !text::seq_contains(s, #[trigger] whitelist[k]))
            ==> spec_has_link(s, whitelist),
        !(text::seq_contains(s, "http://"@) || text::seq_contains(s, "https://"@) || text::seq_contains(s, "www."@)
            || text::seq_contains(s, ".com"@) || text::seq_contains(s, ".net"@) || text::seq_contains(s, ".org"@)
            || text::seq_contains(s, ".tv"@)) ==> !spec_has_link(s, whitelist),
{
    assert(link_markers()[0] == "http://"@);
    assert(link_markers()[1] == "https://"@);
    assert(link_markers()[2] == "www."@);
    assert(link_markers()[3] == ".com"@);
    assert(link_markers()[4] == ".net"@);
    assert(link_markers()[5] == ".org"@);
    assert(link_markers()[6] == ".tv"@);
}

} // verus!
