//! Applying filter and pattern definitions read from configuration files to
//! the filter registry and to the advanced pattern matcher.
//!
//! Parameters that the files give as JSON values are held here as the
//! values the logic reads from them.

use vstd::prelude::*;
use crate::bot::moderation::{ModerationSystem, opt_view};
use crate::bot::pattern_matching::AdvancedPattern;
use crate::bot::types::{
    ExemptionLevel, ModerationAction, ModerationEscalation, SpamFilterType, ActionView, SpamFilter,
    BlacklistPattern, regex_accepts, regex_source, texts, copy_opt,
};
use crate::text;

verus! {

/// A configuration parameter, as far as the filters read it.
pub enum ParamValue {
    /// A non-negative integer.
    Unsigned(u64),
    /// A number with a fractional part, in thousandths.
    Fraction(u32),
    Bool(bool),
    Text(String),
    /// A list; the entries that are strings, and `None` for the others.
    TextList(Vec<Option<String>>),
    /// Any other value.
    Other,
}

/// The first parameter named `key`.
pub open spec fn param(ps: Seq<(String, ParamValue)>, key: Seq<char>) -> Option<ParamValue>
    decreases ps.len(),
{
    if ps.len() == 0 {
        None
    } else if ps[0].0@ == key {
        Some(ps[0].1)
    } else {
        param(ps.drop_first(), key)
    }
}

/// Parameter `key` as an unsigned integer.
pub open spec fn param_u64(ps: Seq<(String, ParamValue)>, key: Seq<char>) -> Option<u64> {
    match param(ps, key) {
        Some(ParamValue::Unsigned(n)) => Some(n),
        _ => None,
    }
}

/// Parameter `key` as a boolean.
pub open spec fn param_bool(ps: Seq<(String, ParamValue)>, key: Seq<char>) -> Option<bool> {
    match param(ps, key) {
        Some(ParamValue::Bool(b)) => Some(b),
        _ => None,
    }
}

/// Parameter `key` as a string.
pub open spec fn param_text(ps: Seq<(String, ParamValue)>, key: Seq<char>) -> Option<Seq<char>> {
    match param(ps, key) {
        Some(ParamValue::Text(s)) => Some(s@),
        _ => None,
    }
}

/// The strings among a list's entries, in order.
pub open spec fn strings_of(l: Seq<Option<String>>) -> Seq<Seq<char>>
    decreases l.len(),
{
    if l.len() == 0 {
        Seq::empty()
    } else {
        strings_of(l.drop_last()) + match l.last() {
            Some(s) => seq![s@],
            None => Seq::empty(),
        }
    }
}

/// Parameter `key` as a list of strings (the strings of a list).
pub open spec fn param_texts(ps: Seq<(String, ParamValue)>, key: Seq<char>) -> Option<Seq<Seq<char>>> {
    match param(ps, key) {
        Some(ParamValue::TextList(l)) => Some(strings_of(l@)),
        _ => None,
    }
}

/// Parameter `key` as a fraction in thousandths: a fraction as it is, an
/// integer times a thousand (at most `u32::MAX`).
pub open spec fn param_thousandths(ps: Seq<(String, ParamValue)>, key: Seq<char>) -> Option<u32> {
    match param(ps, key) {
        Some(ParamValue::Fraction(t)) => Some(t),
        Some(ParamValue::Unsigned(n)) => Some(if n * 1000 <= u32::MAX { (n * 1000) as u32 } else { u32::MAX }),
        _ => None,
    }
}

fn find_param<'a>(ps: &'a Vec<(String, ParamValue)>, key: &str) -> (r: Option<&'a ParamValue>)
    ensures
        match param(ps@, key@) {
            Some(v) => r == Some(&v),
            None => r is None,
        },
{
    let mut i: usize = 0;
    assert(ps@.subrange(0, ps@.len() as int) =~= ps@);
    while i < ps.len()
        invariant
            i <= ps@.len(),
            param(ps@, key@) == param(ps@.subrange(i as int, ps@.len() as int), key@),
        decreases ps@.len() - i,
    {
        assert(ps@.subrange(i as int, ps@.len() as int).drop_first() =~= ps@.subrange(i + 1, ps@.len() as int));
        if text::same_text(ps[i].0.as_str(), key) {
            return Some(&ps[i].1);
        }
        i = i + 1;
    }
    None
}

fn get_u64(ps: &Vec<(String, ParamValue)>, key: &str, default: u64) -> (v: u64)
    ensures
        v == match param_u64(ps@, key@) { Some(n) => n, None => default },
{
    match find_param(ps, key) {
        Some(ParamValue::Unsigned(n)) => *n,
        _ => default,
    }
}

fn get_bool(ps: &Vec<(String, ParamValue)>, key: &str, default: bool) -> (v: bool)
    ensures
        v == match param_bool(ps@, key@) { Some(b) => b, None => default },
{
    match find_param(ps, key) {
        Some(ParamValue::Bool(b)) => *b,
        _ => default,
    }
}

fn get_text(ps: &Vec<(String, ParamValue)>, key: &str) -> (v: Option<String>)
    ensures
        opt_view(v) == param_text(ps@, key@),
{
    match find_param(ps, key) {
        Some(ParamValue::Text(s)) => Some(s.clone()),
        _ => None,
    }
}

fn get_texts(ps: &Vec<(String, ParamValue)>, key: &str) -> (v: Vec<String>)
    ensures
        texts(v@) == match param_texts(ps@, key@) { Some(l) => l, None => Seq::empty() },
{
    let mut out: Vec<String> = Vec::new();
    match find_param(ps, key) {
        Some(ParamValue::TextList(l)) => {
            let mut i: usize = 0;
            while i < l.len()
                invariant
                    i <= l@.len(),
                    texts(out@) == strings_of(l@.take(i as int)),
                decreases l@.len() - i,
            {
                assert(l@.take(i + 1).drop_last() =~= l@.take(i as int));
                assert(l@.take(i + 1).last() == l@[i as int]);
                let ghost before = texts(out@);
                match &l[i] {
                    Some(s) => {
                        out.push(s.clone());
                        assert(texts(out@) =~= before + seq![s@]);
                    },
                    None => {
                        assert(texts(out@) =~= before + Seq::<Seq<char>>::empty());
                    },
                }
                i = i + 1;
            }
            assert(l@.take(l@.len() as int) =~= l@);
        },
        _ => {
            assert(texts(out@) =~= Seq::<Seq<char>>::empty());
        },
    }
    out
}

fn get_thousandths(ps: &Vec<(String, ParamValue)>, key: &str, default: u32) -> (v: u32)
    ensures
        v == match param_thousandths(ps@, key@) { Some(t) => t, None => default },
{
    match find_param(ps, key) {
        Some(ParamValue::Fraction(t)) => *t,
        Some(ParamValue::Unsigned(n)) => if *n <= 4294967 { (*n * 1000) as u32 } else { u32::MAX },
        _ => default,
    }
}

// ---------------------------------------------------------------------------
// Definitions read from the files
// ---------------------------------------------------------------------------

/// One pattern of a configured blacklist filter.
pub struct PatternDefinition {
    pub value: String,
    /// `literal`, `wildcard`, `regex` or `fuzzy`; others count as literal.
    pub pattern_type: String,
    pub enabled: bool,
}

/// A configured blacklist filter.
pub struct EnhancedBlacklistFilter {
    pub id: String,
    pub name: String,
    pub enabled: bool,
    pub patterns: Vec<PatternDefinition>,
    pub regex_flags: Option<String>,
    pub case_sensitive: bool,
    pub whole_words_only: bool,
    pub exemption_level: String,
    pub escalation_enabled: bool,
    pub timeout_seconds: Option<u64>,
    pub custom_message: Option<String>,
}

/// The escalation of a configured spam filter.
pub struct EscalationConfig {
    /// `warn`, `timeout` or `delete`.
    pub first_offense_action: String,
    pub offense_window_seconds: u64,
}

/// A configured spam filter.
pub struct EnhancedSpamFilter {
    pub id: String,
    pub enabled: bool,
    /// The rule's name, such as `ExcessiveCaps`.
    pub filter_type: String,
    pub parameters: Vec<(String, ParamValue)>,
    pub exemption_level: String,
    pub escalation: EscalationConfig,
    pub custom_message: Option<String>,
    pub timeout_seconds: u64,
    pub silent_mode: bool,
}

/// A configured advanced pattern.
pub struct AdvancedPatternDefinition {
    pub pattern_type: String,
    pub parameters: Vec<(String, ParamValue)>,
    pub enabled: bool,
}

/// The filters of a configuration file.
pub struct FilterConfiguration {
    pub blacklist_filters: Vec<EnhancedBlacklistFilter>,
    pub spam_filters: Vec<EnhancedSpamFilter>,
}

/// Why a configured item could not be applied.
#[derive(Clone, Debug, PartialEq, Eq)]
pub enum ConfigError {
    /// A regular-expression pattern does not compile.
    InvalidRegex,
    /// A pattern of this kind lacks its `pattern` parameter.
    MissingPattern(String),
}

/// The configuration areas that can be reloaded.
#[derive(Clone, Copy, Debug, PartialEq, Eq, Structural)]
pub enum ConfigType {
    Filters,
    Patterns,
    Timers,
    All,
}

/// A change handler that only reports changes.
pub struct LoggingChangeHandler;

/// The exemption level a configuration names (exact names), `Regular` for
/// an unknown name.
pub open spec fn configured_exemption(name: Seq<char>) -> ExemptionLevel {
    if name == "None"@ {
        ExemptionLevel::NoOne
    } else if name == "Subscriber"@ {
        ExemptionLevel::Subscriber
    } else if name == "Regular"@ {
        ExemptionLevel::Regular
    } else if name == "Moderator"@ {
        ExemptionLevel::Moderator
    } else if name == "Owner"@ {
        ExemptionLevel::Owner
    } else {
        ExemptionLevel::Regular
    }
}

fn configured_exemption_of(name: &str) -> (e: ExemptionLevel)
    ensures
        e == configured_exemption(name@),
{
    if text::same_text(name, "None") {
        ExemptionLevel::NoOne
    } else if text::same_text(name, "Subscriber") {
        ExemptionLevel::Subscriber
    } else if text::same_text(name, "Regular") {
        ExemptionLevel::Regular
    } else if text::same_text(name, "Moderator") {
        ExemptionLevel::Moderator
    } else if text::same_text(name, "Owner") {
        ExemptionLevel::Owner
    } else {
        ExemptionLevel::Regular
    }
}

// ---------------------------------------------------------------------------
// Blacklist filters
// ---------------------------------------------------------------------------

/// The text a pattern definition stands for: a regular expression is
/// written `~/value/flags` with the filter's flags (none when it has none).
pub open spec fn pattern_text(p: PatternDefinition, flags: Option<String>) -> Seq<char> {
    if p.pattern_type@ == "regex"@ {
        "~/"@ + p.value@ + "/"@ + match flags { Some(f) => f@, None => Seq::empty() }
    } else {
        p.value@
    }
}

/// Whether a pattern definition is an enabled regular expression that does
/// not compile.
pub open spec fn refused_pattern(p: PatternDefinition, flags: Option<String>) -> bool {
    p.enabled && p.pattern_type@ == "regex"@ && !regex_accepts(regex_source(pattern_text(p, flags)))
}

/// The texts of the enabled pattern definitions, in order.
pub open spec fn enabled_pattern_texts(ps: Seq<PatternDefinition>, flags: Option<String>) -> Seq<Seq<char>>
    decreases ps.len(),
{
    if ps.len() == 0 {
        Seq::empty()
    } else {
        enabled_pattern_texts(ps.drop_last(), flags) + if ps.last().enabled {
            seq![pattern_text(ps.last(), flags)]
        } else {
            Seq::empty()
        }
    }
}

/// What applying a configured blacklist filter does: nothing for a disabled
/// filter or one without enabled patterns; an error, with nothing changed,
/// when an enabled regular expression does not compile; else the blacklist
/// filter `id` made of the enabled patterns.
pub open spec fn blacklist_applied(
    before: ModerationSystem,
    after: ModerationSystem,
    f: EnhancedBlacklistFilter,
    r: Result<(), ConfigError>,
) -> bool {
    let ps = f.patterns@;
    let texts_ = enabled_pattern_texts(ps, f.regex_flags);
    if !f.enabled {
        r is Ok && after == before
    } else if exists|i: int| 0 <= i < ps.len() && #[trigger] refused_pattern(ps[i], f.regex_flags) {
        r == Err::<(), ConfigError>(ConfigError::InvalidRegex) && after == before
    } else if texts_.len() == 0 {
        r is Ok && after == before
    } else {
        r is Ok && ModerationSystem::added_blacklist(before, after, f.id@, texts_, f.case_sensitive,
            f.whole_words_only, configured_exemption(f.exemption_level@),
            match f.timeout_seconds { Some(t) => t, None => 600 }, opt_view(f.custom_message))
    }
}

fn pattern_text_of(p: &PatternDefinition, flags: &Option<String>) -> (t: String)
    ensures
        t@ == pattern_text(*p, *flags),
{
    if text::same_text(p.pattern_type.as_str(), "regex") {
        let a = text::concat("~/", p.value.as_str());
        let b = text::concat(a.as_str(), "/");
        match flags {
            Some(f) => text::concat(b.as_str(), f.as_str()),
            None => {
                proof {
                    reveal_strlit("");
                }
                assert(b@ + Seq::<char>::empty() =~= b@);
                b
            },
        }
    } else {
        p.value.clone()
    }
}

/// Apply a configured blacklist filter; see `blacklist_applied`.
pub fn apply_blacklist_filter(ms: &mut ModerationSystem, filter: &EnhancedBlacklistFilter) -> (r: Result<(), ConfigError>)
    requires
        old(ms).wf(),
    ensures
        final(ms).wf(),
        blacklist_applied(*old(ms), *final(ms), *filter, r),
{
    if !filter.enabled {
        return Ok(());
    }
    let ghost ps = filter.patterns@;
    let mut strings: Vec<String> = Vec::new();
    let mut refused = false;
    let mut i: usize = 0;
    while i < filter.patterns.len()
        invariant_except_break
            texts(strings@) == enabled_pattern_texts(ps.take(i as int), filter.regex_flags),
        invariant
            i <= ps.len(),
            ps == filter.patterns@,
            forall|k: int| 0 <= k < i ==> !#[trigger] refused_pattern(ps[k], filter.regex_flags),
            refused ==> i < ps.len() && refused_pattern(ps[i as int], filter.regex_flags),
        ensures
            !refused ==> i == ps.len() && texts(strings@) == enabled_pattern_texts(ps.take(i as int), filter.regex_flags),
        decreases ps.len() - i,
    {
        assert(ps.take(i + 1).drop_last() =~= ps.take(i as int));
        assert(ps.take(i + 1).last() == ps[i as int]);
        let p = &filter.patterns[i];
        let ghost before = texts(strings@);
        if p.enabled {
            let t = pattern_text_of(p, &filter.regex_flags);
            if text::same_text(p.pattern_type.as_str(), "regex") && BlacklistPattern::from_regex_string(t.as_str()).is_err() {
                refused = true;
                break;
            }
            strings.push(t);
            assert(texts(strings@) =~= before + seq![pattern_text(ps[i as int], filter.regex_flags)]);
        } else {
            assert(texts(strings@) =~= before + Seq::<Seq<char>>::empty());
        }
        i = i + 1;
    }
    if refused {
        return Err(ConfigError::InvalidRegex);
    }
    assert(ps.take(ps.len() as int) =~= ps);
    if strings.len() == 0 {
        return Ok(());
    }
    let level = configured_exemption_of(filter.exemption_level.as_str());
    let timeout = match filter.timeout_seconds {
        Some(t) => t,
        None => 600,
    };
    ms.add_blacklist_filter(filter.id.clone(), strings, filter.case_sensitive, filter.whole_words_only, level, timeout,
        copy_opt(&filter.custom_message));
    Ok(())
}

// ---------------------------------------------------------------------------
// Spam filters
// ---------------------------------------------------------------------------

/// Whether a configured spam filter's rule name is known.
pub open spec fn known_spam_rule(name: Seq<char>) -> bool {
    name == "ExcessiveCaps"@ || name == "SymbolSpam"@ || name == "RateLimit"@ || name == "MessageLength"@
        || name == "ExcessiveEmotes"@ || name == "LinkBlocking"@ || name == "RepeatedMessages"@
}

/// `param_u64` with a default.
pub open spec fn u64_or(ps: Seq<(String, ParamValue)>, key: Seq<char>, default: u64) -> u64 {
    match param_u64(ps, key) { Some(n) => n, None => default }
}

/// Whether `t` is the rule a configured spam filter names, with its
/// parameters read (small numbers keep their low bits, as a cast does) and
/// defaults for missing ones.
pub open spec fn is_configured_rule(t: SpamFilterType, name: Seq<char>, ps: Seq<(String, ParamValue)>) -> bool {
    if name == "ExcessiveCaps"@ {
        t == SpamFilterType::ExcessiveCaps { max_percentage: u64_or(ps, "max_percentage"@, 60) as u8 }
    } else if name == "SymbolSpam"@ {
        t == SpamFilterType::SymbolSpam { max_percentage: u64_or(ps, "max_percentage"@, 50) as u8 }
    } else if name == "RateLimit"@ {
        t == SpamFilterType::RateLimit {
            max_messages: u64_or(ps, "max_messages"@, 5) as u8,
            window_seconds: u64_or(ps, "window_seconds"@, 30),
        }
    } else if name == "MessageLength"@ {
        t == SpamFilterType::MessageLength { max_length: u64_or(ps, "max_length"@, 500) as usize }
    } else if name == "ExcessiveEmotes"@ {
        t == SpamFilterType::ExcessiveEmotes { max_count: u64_or(ps, "max_count"@, 10) as u8 }
    } else if name == "LinkBlocking"@ {
        match t {
            SpamFilterType::LinkBlocking { allow_mods, whitelist } =>
                allow_mods == (match param_bool(ps, "allow_mods"@) { Some(b) => b, None => true })
                && texts(whitelist@) == match param_texts(ps, "whitelist"@) { Some(l) => l, None => Seq::empty() },
            _ => false,
        }
    } else {
        t == SpamFilterType::RepeatedMessages {
            max_repeats: u64_or(ps, "max_repeats"@, 3) as u8,
            window_seconds: u64_or(ps, "window_seconds"@, 300),
        }
    }
}

/// The first-offense action a configured spam filter names.
pub open spec fn configured_first_action(f: EnhancedSpamFilter) -> ActionView {
    let a = f.escalation.first_offense_action@;
    if a == "warn"@ {
        ActionView::WarnUser(match f.custom_message { Some(m) => m@, None => "Please follow chat rules"@ })
    } else if a == "timeout"@ {
        ActionView::TimeoutUser(f.timeout_seconds)
    } else if a == "delete"@ {
        ActionView::DeleteMessage
    } else {
        ActionView::WarnUser("Please follow chat rules"@)
    }
}

/// What applying a configured spam filter does: nothing when it is disabled
/// or names an unknown rule; else the filter `id` added (or put in place of
/// one of that name) with the configured rule, escalation and settings.
pub open spec fn spam_filter_applied(before: ModerationSystem, after: ModerationSystem, f: EnhancedSpamFilter) -> bool {
    if !f.enabled || !known_spam_rule(f.filter_type@) {
        after == before
    } else {
        &&& after.wf()
        &&& after.protection_enabled() == before.protection_enabled()
        &&& after.filters().dom() == before.filters().dom().insert(f.id@)
        &&& forall|k: Seq<char>| k != f.id@ && #[trigger] before.filters().dom().contains(k)
            ==> after.filters()[k] == before.filters()[k]
        &&& ({
            let g = after.filters()[f.id@];
            &&& g.name@ == f.id@
            &&& g.enabled
            &&& g.exemption_level == configured_exemption(f.exemption_level@)
            &&& g.silent_mode == f.silent_mode
            &&& g.custom_message == f.custom_message
            &&& g.escalation.first_offense@ == configured_first_action(f)
            &&& g.escalation.repeat_offense@ == ActionView::TimeoutUser(f.timeout_seconds)
            &&& g.escalation.offense_window_seconds == f.escalation.offense_window_seconds
            &&& is_configured_rule(g.filter_type, f.filter_type@, f.parameters@)
        })
    }
}

/// Apply a configured spam filter; see `spam_filter_applied`.
pub fn apply_spam_filter(ms: &mut ModerationSystem, filter: &EnhancedSpamFilter)
    requires
        old(ms).wf(),
    ensures
        final(ms).wf(),
        spam_filter_applied(*old(ms), *final(ms), *filter),
{
    if !filter.enabled {
        return;
    }
    let ps = &filter.parameters;
    let kind = filter.filter_type.as_str();
    let filter_type = if text::same_text(kind, "ExcessiveCaps") {
        SpamFilterType::ExcessiveCaps { max_percentage: get_u64(ps, "max_percentage", 60) as u8 }
    } else if text::same_text(kind, "SymbolSpam") {
        SpamFilterType::SymbolSpam { max_percentage: get_u64(ps, "max_percentage", 50) as u8 }
    } else if text::same_text(kind, "RateLimit") {
        SpamFilterType::RateLimit {
            max_messages: get_u64(ps, "max_messages", 5) as u8,
            window_seconds: get_u64(ps, "window_seconds", 30),
        }
    } else if text::same_text(kind, "MessageLength") {
        SpamFilterType::MessageLength { max_length: get_u64(ps, "max_length", 500) as usize }
    } else if text::same_text(kind, "ExcessiveEmotes") {
        SpamFilterType::ExcessiveEmotes { max_count: get_u64(ps, "max_count", 10) as u8 }
    } else if text::same_text(kind, "LinkBlocking") {
        SpamFilterType::LinkBlocking { allow_mods: get_bool(ps, "allow_mods", true), whitelist: get_texts(ps, "whitelist") }
    } else if text::same_text(kind, "RepeatedMessages") {
        SpamFilterType::RepeatedMessages {
            max_repeats: get_u64(ps, "max_repeats", 3) as u8,
            window_seconds: get_u64(ps, "window_seconds", 300),
        }
    } else {
        return;
    };
    let level = configured_exemption_of(filter.exemption_level.as_str());
    let action = filter.escalation.first_offense_action.as_str();
    let first = if text::same_text(action, "warn") {
        ModerationAction::WarnUser {
            message: match &filter.custom_message {
                Some(m) => m.clone(),
                None => text::owned("Please follow chat rules"),
            },
        }
    } else if text::same_text(action, "timeout") {
        ModerationAction::TimeoutUser { duration_seconds: filter.timeout_seconds }
    } else if text::same_text(action, "delete") {
        ModerationAction::DeleteMessage
    } else {
        ModerationAction::WarnUser { message: text::owned("Please follow chat rules") }
    };
    let escalation = ModerationEscalation {
        first_offense: first,
        repeat_offense: ModerationAction::TimeoutUser { duration_seconds: filter.timeout_seconds },
        offense_window_seconds: filter.escalation.offense_window_seconds,
    };
    ms.add_spam_filter_advanced(filter.id.clone(), filter_type, escalation, level, filter.silent_mode,
        copy_opt(&filter.custom_message));
}

// ---------------------------------------------------------------------------
// Whole filter configurations
// ---------------------------------------------------------------------------

/// Whether applying a configured blacklist filter adds it.
pub open spec fn blacklist_takes_effect(f: EnhancedBlacklistFilter) -> bool {
    &&& f.enabled
    &&& !exists|i: int| 0 <= i < f.patterns@.len() && #[trigger] refused_pattern(f.patterns@[i], f.regex_flags)
    &&& enabled_pattern_texts(f.patterns@, f.regex_flags).len() > 0
}

/// Whether applying a configured spam filter adds it.
pub open spec fn spam_filter_takes_effect(f: EnhancedSpamFilter) -> bool {
    f.enabled && known_spam_rule(f.filter_type@)
}

/// Replace the registry's filters by those of a configuration: every
/// filter is removed, then the blacklist filters and the spam filters are
/// applied in order (one that cannot be applied is skipped). Afterwards the
/// registry holds exactly the filters that took effect, by id.
pub fn apply_filter_configuration(ms: &mut ModerationSystem, config: &FilterConfiguration)
    requires
        old(ms).wf(),
    ensures
        final(ms).wf(),
        final(ms).protection_enabled() == old(ms).protection_enabled(),
        forall|k: Seq<char>| #[trigger] final(ms).filters().dom().contains(k) <==> (
            (exists|i: int| 0 <= i < config.blacklist_filters@.len()
                && #[trigger] blacklist_takes_effect(config.blacklist_filters@[i]) && config.blacklist_filters@[i].id@ == k)
            || (exists|j: int| 0 <= j < config.spam_filters@.len()
                && #[trigger] spam_filter_takes_effect(config.spam_filters@[j]) && config.spam_filters@[j].id@ == k)),
{
    let existing = ms.list_filters();
    let ghost start = *ms;
    let mut i: usize = 0;
    while i < existing.len()
        invariant
            i <= existing@.len(),
            ms.wf(),
            ms.protection_enabled() == start.protection_enabled(),
            start.wf(),
            forall|j: int| 0 <= j < existing@.len() ==> #[trigger] start.filters().dom().contains(existing@[j].0@),
            forall|k: Seq<char>| #[trigger] start.filters().dom().contains(k)
                ==> exists|j: int| 0 <= j < existing@.len() && #[trigger] existing@[j].0@ == k,
            forall|k: Seq<char>| #[trigger] ms.filters().dom().contains(k) <==> (start.filters().dom().contains(k)
                && !exists|j: int| 0 <= j < i && #[trigger] existing@[j].0@ == k),
        decreases existing@.len() - i,
    {
        let ghost before = *ms;
        ms.remove_filter(existing[i].0.as_str());
        assert forall|k: Seq<char>| #[trigger] ms.filters().dom().contains(k) <==> (start.filters().dom().contains(k)
            && !exists|j: int| 0 <= j < i + 1 && #[trigger] existing@[j].0@ == k) by {
            if exists|j: int| 0 <= j < i + 1 && #[trigger] existing@[j].0@ == k {
                let j = choose|j: int| 0 <= j < i + 1 && #[trigger] existing@[j].0@ == k;
                if j < i {
                    assert(exists|j2: int| 0 <= j2 < i && #[trigger] existing@[j2].0@ == k);
                }
            }
            if !before.filters().dom().contains(k) && start.filters().dom().contains(k) {
                let j = choose|j: int| 0 <= j < i && #[trigger] existing@[j].0@ == k;
                assert(0 <= j < i + 1 && existing@[j].0@ == k);
            }
        }
        i = i + 1;
    }
    assert forall|k: Seq<char>| !#[trigger] ms.filters().dom().contains(k) by {
        if start.filters().dom().contains(k) {
            let j = choose|j: int| 0 <= j < existing@.len() && #[trigger] existing@[j].0@ == k;
            assert(0 <= j < i && existing@[j].0@ == k);
        }
    }
    let bl = &config.blacklist_filters;
    let mut b: usize = 0;
    while b < bl.len()
        invariant
            b <= bl@.len(),
            bl == &config.blacklist_filters,
            ms.wf(),
            ms.protection_enabled() == start.protection_enabled(),
            forall|k: Seq<char>| #[trigger] ms.filters().dom().contains(k) <==>
                (exists|x: int| 0 <= x < b && #[trigger] blacklist_takes_effect(bl@[x]) && bl@[x].id@ == k),
        decreases bl@.len() - b,
    {
        let ghost before = *ms;
        let _ = apply_blacklist_filter(ms, &bl[b]);
        assert(blacklist_takes_effect(bl@[b as int]) ==> ms.filters().dom() == before.filters().dom().insert(bl@[b as int].id@));
        assert(!blacklist_takes_effect(bl@[b as int]) ==> ms.filters() == before.filters());
        assert forall|k: Seq<char>| #[trigger] ms.filters().dom().contains(k) <==>
            (exists|x: int| 0 <= x < b + 1 && #[trigger] blacklist_takes_effect(bl@[x]) && bl@[x].id@ == k) by {
            if exists|x: int| 0 <= x < b + 1 && #[trigger] blacklist_takes_effect(bl@[x]) && bl@[x].id@ == k {
                let x = choose|x: int| 0 <= x < b + 1 && #[trigger] blacklist_takes_effect(bl@[x]) && bl@[x].id@ == k;
                if x < b {
                    assert(before.filters().dom().contains(k));
                }
            }
            if before.filters().dom().contains(k) {
                let x = choose|x: int| 0 <= x < b && #[trigger] blacklist_takes_effect(bl@[x]) && bl@[x].id@ == k;
                assert(0 <= x < b + 1);
            }
        }
        b = b + 1;
    }
    let sf = &config.spam_filters;
    let mut c: usize = 0;
    while c < sf.len()
        invariant
            c <= sf@.len(),
            bl == &config.blacklist_filters,
            sf == &config.spam_filters,
            ms.wf(),
            ms.protection_enabled() == start.protection_enabled(),
            forall|k: Seq<char>| #[trigger] ms.filters().dom().contains(k) <==> (
                (exists|x: int| 0 <= x < bl@.len() && #[trigger] blacklist_takes_effect(bl@[x]) && bl@[x].id@ == k)
                || (exists|y: int| 0 <= y < c && #[trigger] spam_filter_takes_effect(sf@[y]) && sf@[y].id@ == k)),
        decreases sf@.len() - c,
    {
        let ghost before = *ms;
        apply_spam_filter(ms, &sf[c]);
        assert(spam_filter_takes_effect(sf@[c as int]) ==> ms.filters().dom() == before.filters().dom().insert(sf@[c as int].id@));
        assert(!spam_filter_takes_effect(sf@[c as int]) ==> ms.filters() == before.filters());
        assert forall|k: Seq<char>| #[trigger] ms.filters().dom().contains(k) <==> (
            (exists|x: int| 0 <= x < bl@.len() && #[trigger] blacklist_takes_effect(bl@[x]) && bl@[x].id@ == k)
            || (exists|y: int| 0 <= y < c + 1 && #[trigger] spam_filter_takes_effect(sf@[y]) && sf@[y].id@ == k)) by {
            if exists|y: int| 0 <= y < c + 1 && #[trigger] spam_filter_takes_effect(sf@[y]) && sf@[y].id@ == k {
                let y = choose|y: int| 0 <= y < c + 1 && #[trigger] spam_filter_takes_effect(sf@[y]) && sf@[y].id@ == k;
                if y < c {
                    assert(before.filters().dom().contains(k));
                }
            }
            if before.filters().dom().contains(k) {
                if !exists|x: int| 0 <= x < bl@.len() && #[trigger] blacklist_takes_effect(bl@[x]) && bl@[x].id@ == k {
                    let y = choose|y: int| 0 <= y < c && #[trigger] spam_filter_takes_effect(sf@[y]) && sf@[y].id@ == k;
                    assert(0 <= y < c + 1);
                }
            }
        }
        c = c + 1;
    }
}

// ---------------------------------------------------------------------------
// Advanced patterns
// ---------------------------------------------------------------------------

/// The name a missing `pattern` parameter is reported under, for the kinds
/// of advanced pattern that need one.
pub open spec fn pattern_kind_label(kind: Seq<char>) -> Option<Seq<char>> {
    if kind == "fuzzy_match"@ {
        Some("fuzzy match"@)
    } else if kind == "leetspeak"@ {
        Some("leetspeak"@)
    } else if kind == "unicode_normalized"@ {
        Some("unicode normalized"@)
    } else if kind == "homoglyph"@ {
        Some("homoglyph"@)
    } else if kind == "repeated_char_compression"@ {
        Some("repeated char compression"@)
    } else if kind == "encoded_content"@ {
        Some("encoded content"@)
    } else if kind == "phonetic"@ {
        Some("phonetic"@)
    } else {
        None
    }
}

/// Whether `r` is the advanced pattern a definition describes: `None` for
/// an unknown kind, the zalgo check for `zalgo_text`, an error when another
/// kind lacks its `pattern` parameter, else that kind with the pattern (and,
/// for fuzzy matching, the `threshold`, 0.8 by default).
pub open spec fn converted_pattern(d: AdvancedPatternDefinition, r: Result<Option<AdvancedPattern>, ConfigError>) -> bool {
    let kind = d.pattern_type@;
    let p = param_text(d.parameters@, "pattern"@);
    if kind == "zalgo_text"@ {
        r == Ok::<Option<AdvancedPattern>, ConfigError>(Some(AdvancedPattern::ZalgoText))
    } else {
        match pattern_kind_label(kind) {
            None => r == Ok::<Option<AdvancedPattern>, ConfigError>(None),
            Some(label) => match p {
                None => match r {
                    Err(ConfigError::MissingPattern(l)) => l@ == label,
                    _ => false,
                },
                Some(text_) => match r {
                    Ok(Some(AdvancedPattern::FuzzyMatch { pattern, threshold })) => kind == "fuzzy_match"@
                        && pattern@ == text_
                        && threshold == match param_thousandths(d.parameters@, "threshold"@) { Some(t) => t, None => 800 },
                    Ok(Some(AdvancedPattern::Leetspeak(s))) => kind == "leetspeak"@ && s@ == text_,
                    Ok(Some(AdvancedPattern::UnicodeNormalized(s))) => kind == "unicode_normalized"@ && s@ == text_,
                    Ok(Some(AdvancedPattern::Homoglyph(s))) => kind == "homoglyph"@ && s@ == text_,
                    Ok(Some(AdvancedPattern::RepeatedCharCompression(s))) => kind == "repeated_char_compression"@ && s@ == text_,
                    Ok(Some(AdvancedPattern::EncodedContent(s))) => kind == "encoded_content"@ && s@ == text_,
                    Ok(Some(AdvancedPattern::Phonetic(s))) => kind == "phonetic"@ && s@ == text_,
                    _ => false,
                },
            },
        }
    }
}

/// The advanced pattern a definition describes; see `converted_pattern`.
pub fn convert_pattern_definition(d: &AdvancedPatternDefinition) -> (r: Result<Option<AdvancedPattern>, ConfigError>)
    ensures
        converted_pattern(*d, r),
{
    let kind = d.pattern_type.as_str();
    if text::same_text(kind, "zalgo_text") {
        return Ok(Some(AdvancedPattern::ZalgoText));
    }
    let label = if text::same_text(kind, "fuzzy_match") {
        "fuzzy match"
    } else if text::same_text(kind, "leetspeak") {
        "leetspeak"
    } else if text::same_text(kind, "unicode_normalized") {
        "unicode normalized"
    } else if text::same_text(kind, "homoglyph") {
        "homoglyph"
    } else if text::same_text(kind, "repeated_char_compression") {
        "repeated char compression"
    } else if text::same_text(kind, "encoded_content") {
        "encoded content"
    } else if text::same_text(kind, "phonetic") {
        "phonetic"
    } else {
        return Ok(None);
    };
    let pattern = match get_text(&d.parameters, "pattern") {
        Some(p) => p,
        None => {
            return Err(ConfigError::MissingPattern(text::owned(label)));
        },
    };
    let made = if text::same_text(kind, "fuzzy_match") {
        AdvancedPattern::FuzzyMatch { pattern, threshold: get_thousandths(&d.parameters, "threshold", 800) }
    } else if text::same_text(kind, "leetspeak") {
        AdvancedPattern::Leetspeak(pattern)
    } else if text::same_text(kind, "unicode_normalized") {
        AdvancedPattern::UnicodeNormalized(pattern)
    } else if text::same_text(kind, "homoglyph") {
        AdvancedPattern::Homoglyph(pattern)
    } else if text::same_text(kind, "repeated_char_compression") {
        AdvancedPattern::RepeatedCharCompression(pattern)
    } else if text::same_text(kind, "encoded_content") {
        AdvancedPattern::EncodedContent(pattern)
    } else {
        AdvancedPattern::Phonetic(pattern)
    };
    Ok(Some(made))
}

} // verus!
