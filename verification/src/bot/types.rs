//! Types shared by the bot's subsystems.

use vstd::prelude::*;
use crate::text;

verus! {

/// A chat message received from a platform. Times are seconds since the epoch.
pub struct ChatMessage {
    pub platform: String,
    pub channel: String,
    pub username: String,
    pub display_name: Option<String>,
    pub content: String,
    pub timestamp: i64,
    pub user_badges: Vec<String>,
    pub is_mod: bool,
    pub is_subscriber: bool,
}

/// The key under which a user is known: platform, a colon, and user name.
pub open spec fn user_key(platform: Seq<char>, username: Seq<char>) -> Seq<char> {
    platform + ":"@ + username
}

/// `platform:username`.
pub fn make_user_key(platform: &str, username: &str) -> (k: String)
    ensures
        k@ == user_key(platform@, username@),
{
    let a = text::concat(platform, ":");
    text::concat(a.as_str(), username)
}

/// What a spam filter does to a message that breaks it.
pub enum ModerationAction {
    DeleteMessage,
    TimeoutUser { duration_seconds: u64 },
    WarnUser { message: String },
    LogOnly,
}

/// Mathematical view of a moderation action.
pub enum ActionView {
    DeleteMessage,
    TimeoutUser(u64),
    WarnUser(Seq<char>),
    LogOnly,
}

impl View for ModerationAction {
    type V = ActionView;

    open spec fn view(&self) -> ActionView {
        match self {
            ModerationAction::DeleteMessage => ActionView::DeleteMessage,
            ModerationAction::TimeoutUser { duration_seconds } => ActionView::TimeoutUser(*duration_seconds),
            ModerationAction::WarnUser { message } => ActionView::WarnUser(message@),
            ModerationAction::LogOnly => ActionView::LogOnly,
        }
    }
}

impl Clone for ModerationAction {
    fn clone(&self) -> (r: Self)
        ensures
            r == *self,
    {
        match self {
            ModerationAction::DeleteMessage => ModerationAction::DeleteMessage,
            ModerationAction::TimeoutUser { duration_seconds } => ModerationAction::TimeoutUser { duration_seconds: *duration_seconds },
            ModerationAction::WarnUser { message } => ModerationAction::WarnUser { message: message.clone() },
            ModerationAction::LogOnly => ModerationAction::LogOnly,
        }
    }
}

/// Actions for a first offense and for a repeat offense within a window.
pub struct ModerationEscalation {
    pub first_offense: ModerationAction,
    pub repeat_offense: ModerationAction,
    pub offense_window_seconds: u64,
}

impl Clone for ModerationEscalation {
    fn clone(&self) -> (r: Self)
        ensures
            r == *self,
    {
        ModerationEscalation {
            first_offense: self.first_offense.clone(),
            repeat_offense: self.repeat_offense.clone(),
            offense_window_seconds: self.offense_window_seconds,
        }
    }
}

/// Which users a filter leaves alone.
#[derive(Clone, Copy, Debug, PartialEq, Eq, Structural)]
pub enum ExemptionLevel {
    /// Nobody is exempt.
    NoOne,
    Subscriber,
    Regular,
    Moderator,
    Owner,
}

/// A blacklist entry: literal text, a wildcard pattern, or a regular
/// expression written `~/body/flags`.
pub enum BlacklistPattern {
    Literal(String),
    Wildcard(String),
    Regex { pattern: String },
}

/// Mathematical view of a blacklist entry.
pub enum PatternView {
    Literal(Seq<char>),
    Wildcard(Seq<char>),
    Regex(Seq<char>),
}

impl View for BlacklistPattern {
    type V = PatternView;

    open spec fn view(&self) -> PatternView {
        match self {
            BlacklistPattern::Literal(t) => PatternView::Literal(t@),
            BlacklistPattern::Wildcard(t) => PatternView::Wildcard(t@),
            BlacklistPattern::Regex { pattern } => PatternView::Regex(pattern@),
        }
    }
}

impl Clone for BlacklistPattern {
    fn clone(&self) -> (r: Self)
        ensures
            r == *self,
    {
        match self {
            BlacklistPattern::Literal(t) => BlacklistPattern::Literal(t.clone()),
            BlacklistPattern::Wildcard(t) => BlacklistPattern::Wildcard(t.clone()),
            BlacklistPattern::Regex { pattern } => BlacklistPattern::Regex { pattern: pattern.clone() },
        }
    }
}

/// Whether `regex::Regex::new` accepts `source`.
pub uninterp spec fn regex_accepts(source: Seq<char>) -> bool;

/// `regex::Regex::new(source).is_ok()`: the result is `regex_accepts(source)`.
#[verifier::external_body]
fn regex_compiles(source: &str) -> (b: bool)
    ensures
        b == regex_accepts(source@),
{
    regex::Regex::new(source).is_ok()
}

/// The body and flags of a `~/body/flags` pattern: without the leading
/// `~/`, the body runs to the last `/` and the flags follow it. A pattern
/// without a closing `/` is all body.
pub open spec fn regex_parts(s: Seq<char>) -> (Seq<char>, Seq<char>) {
    let rest = if text::seq_starts_with(s, "~/"@) { s.subrange(2, s.len() as int) } else { s };
    let last = last_slash(rest);
    if last < 0 {
        (rest, Seq::empty())
    } else {
        (rest.subrange(0, last), rest.subrange(last + 1, rest.len() as int))
    }
}

/// Position of the last `/`, or -1.
pub open spec fn last_slash(s: Seq<char>) -> int
    decreases s.len(),
{
    if s.len() == 0 {
        -1
    } else if s.last() == '/' {
        s.len() - 1
    } else {
        last_slash(s.drop_last())
    }
}

/// The regular expression a `~/body/flags` pattern compiles to: the body,
/// made case-insensitive when the flags hold `i`.
pub open spec fn regex_source(s: Seq<char>) -> Seq<char> {
    let (body, flags) = regex_parts(s);
    if flags.contains('i') { "(?i)"@ + body } else { body }
}

/// Why a blacklist pattern was refused.
#[derive(Clone, Copy, Debug, PartialEq, Eq, Structural)]
pub enum PatternError {
    /// The regular expression does not compile.
    InvalidRegex,
}

fn last_slash_index(v: &Vec<char>) -> (r: Option<usize>)
    ensures
        match r {
            Some(i) => i as int == last_slash(v@) && i < v@.len(),
            None => last_slash(v@) == -1,
        },
{
    let mut i: usize = v.len();
    assert(v@.take(v@.len() as int) =~= v@);
    while i > 0
        invariant
            i <= v@.len(),
            last_slash(v@) == last_slash(v@.take(i as int)),
        decreases i,
    {
        assert(v@.take(i as int).drop_last() =~= v@.take(i - 1));
        if v[i - 1] == '/' {
            return Some(i - 1);
        }
        i = i - 1;
    }
    None
}

/// The regular expression a `~/body/flags` pattern compiles to; see
/// `regex_source`.
pub fn regex_source_of(s: &str) -> (r: String)
    ensures
    r@ == regex_source(s@),
{
    let all = text::chars_of(s);
    let prefix = text::chars_of("~/");
    proof {
        reveal_strlit("~/");
    }
    let rest: Vec<char> = if text::starts_with(all.as_slice(), prefix.as_slice()) {
        text::slice(&all, 2, all.len())
    } else {
        text::slice(&all, 0, all.len())
    };
    assert(all@.subrange(0, all@.len() as int) =~= all@);
    let (body, flags) = match last_slash_index(&rest) {
        None => (text::slice(&rest, 0, rest.len()), Vec::new()),
        Some(k) => (text::slice(&rest, 0, k), text::slice(&rest, k + 1, rest.len())),
    };
    assert(rest@.subrange(0, rest@.len() as int) =~= rest@);
    assert(body@ == regex_parts(s@).0);
    assert(flags@ =~= regex_parts(s@).1);
    let source: Vec<char> = if text::contains_char(flags.as_slice(), 'i') {
        let prefix_i = text::chars_of("(?i)");
        text::join_chars(prefix_i.as_slice(), body.as_slice())
    } else {
        body
    };
    text::string_from_chars(source.as_slice())
}

impl BlacklistPattern {
    /// A regular-expression pattern from its `~/body/flags` text, refused
    /// when the expression does not compile.
    pub fn from_regex_string(s: &str) -> (r: Result<BlacklistPattern, PatternError>)
        ensures
            regex_accepts(regex_source(s@)) ==> r is Ok && r->Ok_0@ == PatternView::Regex(s@),
            !regex_accepts(regex_source(s@)) ==> r == Err::<BlacklistPattern, PatternError>(PatternError::InvalidRegex),
    {
        let src = regex_source_of(s);
        if regex_compiles(src.as_str()) {
            Ok(BlacklistPattern::Regex { pattern: text::owned(s) })
        } else {
            Err(PatternError::InvalidRegex)
        }
    }
}

/// The rule a spam filter applies.
pub enum SpamFilterType {
    ExcessiveCaps { max_percentage: u8 },
    LinkBlocking { allow_mods: bool, whitelist: Vec<String> },
    RepeatedMessages { max_repeats: u8, window_seconds: u64 },
    MessageLength { max_length: usize },
    ExcessiveEmotes { max_count: u8 },
    SymbolSpam { max_percentage: u8 },
    RateLimit { max_messages: u8, window_seconds: u64 },
    Blacklist { patterns: Vec<BlacklistPattern>, case_sensitive: bool, whole_words_only: bool },
}

/// A configured spam filter.
pub struct SpamFilter {
    pub filter_type: SpamFilterType,
    pub enabled: bool,
    pub escalation: ModerationEscalation,
    pub exemption_level: ExemptionLevel,
    pub silent_mode: bool,
    pub custom_message: Option<String>,
    pub name: String,
}

/// Views of a list of strings.
pub open spec fn texts(v: Seq<String>) -> Seq<Seq<char>> {
    v.map_values(|s: String| s@)
}

/// Views of a list of blacklist entries.
pub open spec fn pattern_views(v: Seq<BlacklistPattern>) -> Seq<PatternView> {
    v.map_values(|p: BlacklistPattern| p@)
}

/// A copy of a list of strings.
pub fn copy_texts(v: &Vec<String>) -> (r: Vec<String>)
    ensures
        r@ == v@,
{
    let mut r: Vec<String> = Vec::new();
    let mut i: usize = 0;
    while i < v.len()
        invariant
            i <= v@.len(),
            r@ == v@.take(i as int),
        decreases v@.len() - i,
    {
        r.push(v[i].clone());
        assert(v@.take(i + 1) =~= v@.take(i as int).push(v@[i as int]));
        i = i + 1;
    }
    assert(v@.take(v@.len() as int) =~= v@);
    r
}

/// A copy of an optional string.
pub fn copy_opt(o: &Option<String>) -> (r: Option<String>)
    ensures
        r == *o,
{
    match o {
        Some(s) => Some(s.clone()),
        None => None,
    }
}

} // verus!
