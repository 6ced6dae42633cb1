//! Import and export of spam filter configurations: the portable forms of
//! filters, patterns and actions, their conversion to and from the bot's own
//! forms, version compatibility, the NightBot-compatible pattern list, format
//! detection, and the processing of an imported set of filters.

use vstd::prelude::*;
use crate::bot::types::{
    ActionView, BlacklistPattern, ExemptionLevel, ModerationAction, ModerationEscalation, PatternError,
    PatternView, SpamFilter, SpamFilterType, copy_opt, copy_texts, regex_accepts, regex_source, texts,
};
use crate::text;

verus! {

// ---------------------------------------------------------------------------
// Portable forms
// ---------------------------------------------------------------------------

/// Portable form of a blacklist entry; a regular expression is kept as its
/// body and flags.
pub enum SerializableBlacklistPattern {
    Literal(String),
    Wildcard(String),
    Regex { pattern: String, flags: String },
}

/// Mathematical view of a portable blacklist entry.
pub enum SPatternView {
    Literal(Seq<char>),
    Wildcard(Seq<char>),
    Regex(Seq<char>, Seq<char>),
}

impl View for SerializableBlacklistPattern {
    type V = SPatternView;

    open spec fn view(&self) -> SPatternView {
        match self {
            SerializableBlacklistPattern::Literal(t) => SPatternView::Literal(t@),
            SerializableBlacklistPattern::Wildcard(t) => SPatternView::Wildcard(t@),
            SerializableBlacklistPattern::Regex { pattern, flags } => SPatternView::Regex(pattern@, flags@),
        }
    }
}

/// Portable form of a moderation action.
pub enum SerializableModerationAction {
    DeleteMessage,
    TimeoutUser { duration_seconds: u64 },
    WarnUser { message: String },
    LogOnly,
}

impl View for SerializableModerationAction {
    type V = ActionView;

    open spec fn view(&self) -> ActionView {
        match self {
            SerializableModerationAction::DeleteMessage => ActionView::DeleteMessage,
            SerializableModerationAction::TimeoutUser { duration_seconds } => ActionView::TimeoutUser(*duration_seconds),
            SerializableModerationAction::WarnUser { message } => ActionView::WarnUser(message@),
            SerializableModerationAction::LogOnly => ActionView::LogOnly,
        }
    }
}

/// Portable form of an escalation.
pub struct SerializableModerationEscalation {
    pub first_offense: SerializableModerationAction,
    pub repeat_offense: SerializableModerationAction,
    pub offense_window_seconds: u64,
}

/// Portable form of a filter rule. An advanced pattern keeps its data as
/// JSON text and its threshold as the bits of an `f32`.
pub enum SerializableSpamFilterType {
    ExcessiveCaps { max_percentage: u8 },
    LinkBlocking { allow_mods: bool, whitelist: Vec<String> },
    RepeatedMessages { max_repeats: u8, window_seconds: u64 },
    MessageLength { max_length: usize },
    ExcessiveEmotes { max_count: u8 },
    SymbolSpam { max_percentage: u8 },
    RateLimit { max_messages: u8, window_seconds: u64 },
    Blacklist { patterns: Vec<SerializableBlacklistPattern>, case_sensitive: bool, whole_words_only: bool },
    AdvancedPattern { pattern_type: String, pattern_data: String, threshold_bits: u32 },
}

/// Portable form of a filter. Times are seconds since the epoch.
pub struct ExportableFilter {
    pub name: String,
    pub filter_type: SerializableSpamFilterType,
    pub enabled: bool,
    pub escalation: SerializableModerationEscalation,
    pub exemption_level: String,
    pub silent_mode: bool,
    pub custom_message: Option<String>,
    pub created_at: i64,
    pub usage_context: Vec<String>,
}

/// File formats of an export.
#[derive(Clone, Copy, Debug, PartialEq, Eq, Structural)]
pub enum ExportFormat {
    Json,
    Yaml,
    Toml,
    NightBotCompatible,
    StreamlabsCompatible,
    CompressedArchive,
}

/// Options of an import.
#[derive(Clone, Copy, Debug, PartialEq, Eq, Structural)]
pub struct ImportOptions {
    pub overwrite_existing: bool,
    pub prefix_names: bool,
    pub validate_patterns: bool,
    pub dry_run: bool,
}

impl Default for ImportOptions {
    fn default() -> (o: Self)
        ensures
            o == (ImportOptions { overwrite_existing: false, prefix_names: true, validate_patterns: true, dry_run: false }),
    {
        ImportOptions { overwrite_existing: false, prefix_names: true, validate_patterns: true, dry_run: false }
    }
}

/// Descriptive options of an export.
pub struct ExportOptions {
    pub exported_by: String,
    pub description: String,
    pub tags: Vec<String>,
    pub author: String,
    pub license: String,
    pub recommended_for: Vec<String>,
    pub update_url: Option<String>,
}

impl Default for ExportOptions {
    fn default() -> (o: Self)
        ensures
            o.exported_by@ == "NotaBot User"@,
            o.description@ == "Filter configuration export"@,
            texts(o.tags@) == seq!["general"@],
            o.author@ == "Anonymous"@,
            o.license@ == "Public Domain"@,
            texts(o.recommended_for@) == seq!["general"@],
            o.update_url is None,
    {
        let mut tags: Vec<String> = Vec::new();
        tags.push(text::owned("general"));
        let mut recommended: Vec<String> = Vec::new();
        recommended.push(text::owned("general"));
        assert(texts(tags@) =~= seq!["general"@]);
        assert(texts(recommended@) =~= seq!["general"@]);
        ExportOptions {
            exported_by: text::owned("NotaBot User"),
            description: text::owned("Filter configuration export"),
            tags,
            author: text::owned("Anonymous"),
            license: text::owned("Public Domain"),
            recommended_for: recommended,
            update_url: None,
        }
    }
}

/// Why a filter could not be imported.
#[derive(Clone, Copy, Debug, PartialEq, Eq, Structural)]
pub enum ImportError {
    /// The filter's rule has no form in the bot.
    UnsupportedFilterType,
    /// One of its regular expressions does not compile.
    InvalidRegex,
    /// The format of the input could not be told.
    UnknownFormat,
}

impl ImportError {
    /// The message for this error.
    pub fn message(&self) -> (m: String)
        ensures
            m@ == import_error_text(*self),
    {
        match self {
            ImportError::UnsupportedFilterType => text::owned("Unsupported filter type in import"),
            ImportError::InvalidRegex => text::owned("Invalid regex pattern"),
            ImportError::UnknownFormat => text::owned("Could not detect file format"),
        }
    }
}

pub open spec fn import_error_text(e: ImportError) -> Seq<char> {
    match e {
        ImportError::UnsupportedFilterType => "Unsupported filter type in import"@,
        ImportError::InvalidRegex => "Invalid regex pattern"@,
        ImportError::UnknownFormat => "Could not detect file format"@,
    }
}

// ---------------------------------------------------------------------------
// Trimming
// ---------------------------------------------------------------------------

/// `s` without every leading repetition of `p` (as `trim_start_matches`).
pub open spec fn trim_start_all(s: Seq<char>, p: Seq<char>) -> Seq<char>
    decreases s.len(),
{
    if p.len() > 0 && text::seq_starts_with(s, p) {
        trim_start_all(s.subrange(p.len() as int, s.len() as int), p)
    } else {
        s
    }
}

/// `s` without every trailing repetition of `p` (as `trim_end_matches`).
pub open spec fn trim_end_all(s: Seq<char>, p: Seq<char>) -> Seq<char>
    decreases s.len(),
{
    if p.len() > 0 && text::seq_ends_with(s, p) {
        trim_end_all(s.subrange(0, s.len() - p.len()), p)
    } else {
        s
    }
}

fn trim_start_matches(s: Vec<char>, p: &Vec<char>) -> (r: Vec<char>)
    ensures
        r@ == trim_start_all(s@, p@),
    decreases s@.len(),
{
    if p.len() > 0 && text::starts_with(s.as_slice(), p.as_slice()) {
        let rest = text::slice(&s, p.len(), s.len());
        trim_start_matches(rest, p)
    } else {
        s
    }
}

fn trim_end_matches(s: Vec<char>, p: &Vec<char>) -> (r: Vec<char>)
    ensures
        r@ == trim_end_all(s@, p@),
    decreases s@.len(),
{
    if p.len() > 0 && text::ends_with(s.as_slice(), p.as_slice()) {
        let rest = text::slice(&s, 0, s.len() - p.len());
        trim_end_matches(rest, p)
    } else {
        s
    }
}

// ---------------------------------------------------------------------------
// Conversions
// ---------------------------------------------------------------------------

/// Portable form of a blacklist entry: a regular expression's text loses its
/// `~/` prefix and its closing `/` or `/i`, and its flags are `i` exactly
/// when the text holds `/i`.
pub open spec fn spec_pattern_to_serializable(p: PatternView) -> SPatternView {
    match p {
        PatternView::Literal(t) => SPatternView::Literal(t),
        PatternView::Wildcard(t) => SPatternView::Wildcard(t),
        PatternView::Regex(full) => SPatternView::Regex(
            trim_end_all(trim_end_all(trim_start_all(full, "~/"@), "/"@), "/i"@),
            if text::seq_contains(full, "/i"@) { "i"@ } else { Seq::empty() },
        ),
    }
}

/// The `~/body/flags` text of a portable regular expression.
pub open spec fn regex_text(body: Seq<char>, flags: Seq<char>) -> Seq<char> {
    "~/"@ + body + "/"@ + flags
}

/// The bot's form of a portable blacklist entry, or why it is refused.
pub open spec fn spec_pattern_from_serializable(p: SPatternView) -> Result<PatternView, ImportError> {
    match p {
        SPatternView::Literal(t) => Ok(PatternView::Literal(t)),
        SPatternView::Wildcard(t) => Ok(PatternView::Wildcard(t)),
        SPatternView::Regex(body, flags) => if regex_accepts(regex_source(regex_text(body, flags))) {
            Ok(PatternView::Regex(regex_text(body, flags)))
        } else {
            Err(ImportError::InvalidRegex)
        },
    }
}

/// The exemption level named `name`; an unknown name means moderators.
pub open spec fn exemption_named(name: Seq<char>) -> ExemptionLevel {
    if name == "None"@ {
        ExemptionLevel::NoOne
    } else if name == "Subscriber"@ {
        ExemptionLevel::Subscriber
    } else if name == "Regular"@ {
        ExemptionLevel::Regular
    } else if name == "Owner"@ {
        ExemptionLevel::Owner
    } else {
        ExemptionLevel::Moderator
    }
}

/// The name an exemption level is exported under.
pub open spec fn exemption_name(e: ExemptionLevel) -> Seq<char> {
    match e {
        ExemptionLevel::NoOne => "None"@,
        ExemptionLevel::Subscriber => "Subscriber"@,
        ExemptionLevel::Regular => "Regular"@,
        ExemptionLevel::Moderator => "Moderator"@,
        ExemptionLevel::Owner => "Owner"@,
    }
}

/// The import and export manager: the versions it reads and which versions
/// each older one can be upgraded to.
pub struct FilterImportExport {
    supported_versions: Vec<String>,
    compatibility_matrix: Vec<(String, Vec<String>)>,
}

/// Versions read directly.
pub open spec fn supported_versions_spec() -> Seq<Seq<char>> {
    seq!["1.0"@, "1.1"@, "2.0"@]
}

/// Each older version with the versions it can be upgraded to.
pub open spec fn compatibility_spec() -> Seq<(Seq<char>, Seq<Seq<char>>)> {
    seq![("1.0"@, seq!["1.1"@, "2.0"@]), ("1.1"@, seq!["2.0"@])]
}

pub open spec fn matrix_view(m: Seq<(String, Vec<String>)>) -> Seq<(Seq<char>, Seq<Seq<char>>)> {
    m.map_values(|e: (String, Vec<String>)| (e.0@, texts(e.1@)))
}

impl FilterImportExport {
    pub closed spec fn versions(&self) -> Seq<Seq<char>> {
        texts(self.supported_versions@)
    }

    pub closed spec fn matrix(&self) -> Seq<(Seq<char>, Seq<Seq<char>>)> {
        matrix_view(self.compatibility_matrix@)
    }

    /// A manager reading versions 1.0, 1.1 and 2.0.
    pub fn new() -> (m: Self)
        ensures
            m.versions() == supported_versions_spec(),
            m.matrix() == compatibility_spec(),
    {
        let mut v: Vec<String> = Vec::new();
        v.push(text::owned("1.0"));
        v.push(text::owned("1.1"));
        v.push(text::owned("2.0"));
        let m = FilterImportExport { supported_versions: v, compatibility_matrix: FilterImportExport::build_compatibility_matrix() };
        assert(m.versions() =~= supported_versions_spec());
        m
    }

    /// Upgrade paths: 1.0 to 1.1 or 2.0, and 1.1 to 2.0.
    pub fn build_compatibility_matrix() -> (m: Vec<(String, Vec<String>)>)
        ensures
            matrix_view(m@) == compatibility_spec(),
    {
        let mut from_10: Vec<String> = Vec::new();
        from_10.push(text::owned("1.1"));
        from_10.push(text::owned("2.0"));
        let mut from_11: Vec<String> = Vec::new();
        from_11.push(text::owned("2.0"));
        assert(texts(from_10@) =~= seq!["1.1"@, "2.0"@]);
        assert(texts(from_11@) =~= seq!["2.0"@]);
        let mut m: Vec<(String, Vec<String>)> = Vec::new();
        m.push((text::owned("1.0"), from_10));
        m.push((text::owned("1.1"), from_11));
        assert(matrix_view(m@) =~= compatibility_spec());
        m
    }

    /// Whether `version` is read directly or has an upgrade path.
    pub fn is_version_compatible(&self, version: &str) -> (b: bool)
        ensures
            b == (self.versions().contains(version@)
                || exists|k: int| 0 <= k < self.matrix().len() && #[trigger] self.matrix()[k].0 == version@),
    {
        let mut i: usize = 0;
        while i < self.supported_versions.len()
            invariant
                i <= self.supported_versions@.len(),
                forall|j: int| 0 <= j < i ==> self.supported_versions@[j]@ != version@,
            decreases self.supported_versions@.len() - i,
        {
            if text::same_text(self.supported_versions[i].as_str(), version) {
                assert(self.versions()[i as int] == version@);
                return true;
            }
            i = i + 1;
        }
        assert forall|j: int| 0 <= j < self.versions().len() implies self.versions()[j] != version@ by {
            assert(self.versions()[j] == self.supported_versions@[j]@);
        }
        let mut k: usize = 0;
        while k < self.compatibility_matrix.len()
            invariant
                k <= self.compatibility_matrix@.len(),
                !self.versions().contains(version@),
                forall|j: int| 0 <= j < k ==> self.compatibility_matrix@[j].0@ != version@,
            decreases self.compatibility_matrix@.len() - k,
        {
            if text::same_text(self.compatibility_matrix[k].0.as_str(), version) {
                assert(self.matrix()[k as int].0 == version@);
                return true;
            }
            k = k + 1;
        }
        assert forall|j: int| 0 <= j < self.matrix().len() implies #[trigger] self.matrix()[j].0 != version@ by {
            assert(self.matrix()[j].0 == self.compatibility_matrix@[j].0@);
        }
        false
    }

    /// Portable form of a blacklist entry; see `spec_pattern_to_serializable`.
    pub fn convert_pattern_to_serializable(&self, pattern: &BlacklistPattern) -> (r: Result<SerializableBlacklistPattern, ImportError>)
        ensures
            r is Ok && r->Ok_0@ == spec_pattern_to_serializable(pattern@),
    {
        match pattern {
            BlacklistPattern::Literal(t) => Ok(SerializableBlacklistPattern::Literal(t.clone())),
            BlacklistPattern::Wildcard(t) => Ok(SerializableBlacklistPattern::Wildcard(t.clone())),
            BlacklistPattern::Regex { pattern } => {
                let full = text::chars_of(pattern.as_str());
                let has_i = text::contains(full.as_slice(), text::chars_of("/i").as_slice());
                let flags = if has_i { text::owned("i") } else { String::new() };
                let t1 = trim_start_matches(text::chars_of(pattern.as_str()), &text::chars_of("~/"));
                let t2 = trim_end_matches(t1, &text::chars_of("/"));
                let t3 = trim_end_matches(t2, &text::chars_of("/i"));
                Ok(SerializableBlacklistPattern::Regex { pattern: text::string_from_chars(t3.as_slice()), flags })
            },
        }
    }

    /// Portable form of a moderation action: the same action.
    pub fn convert_action_to_serializable(&self, action: &ModerationAction) -> (r: SerializableModerationAction)
        ensures
            r@ == action@,
    {
        match action {
            ModerationAction::DeleteMessage => SerializableModerationAction::DeleteMessage,
            ModerationAction::TimeoutUser { duration_seconds } =>
                SerializableModerationAction::TimeoutUser { duration_seconds: *duration_seconds },
            ModerationAction::WarnUser { message } => SerializableModerationAction::WarnUser { message: message.clone() },
            ModerationAction::LogOnly => SerializableModerationAction::LogOnly,
        }
    }

    /// The bot's form of a portable moderation action: the same action.
    pub fn convert_action_from_serializable(&self, action: &SerializableModerationAction) -> (r: ModerationAction)
        ensures
            r@ == action@,
    {
        match action {
            SerializableModerationAction::DeleteMessage => ModerationAction::DeleteMessage,
            SerializableModerationAction::TimeoutUser { duration_seconds } =>
                ModerationAction::TimeoutUser { duration_seconds: *duration_seconds },
            SerializableModerationAction::WarnUser { message } => ModerationAction::WarnUser { message: message.clone() },
            SerializableModerationAction::LogOnly => ModerationAction::LogOnly,
        }
    }

    /// The bot's form of a portable blacklist entry; see `spec_pattern_from_serializable`.
    pub fn convert_pattern_from_serializable(&self, pattern: &SerializableBlacklistPattern) -> (r: Result<BlacklistPattern, ImportError>)
        ensures
            match spec_pattern_from_serializable(pattern@) {
                Ok(v) => r is Ok && r->Ok_0@ == v,
                Err(e) => r == Err::<BlacklistPattern, ImportError>(e),
            },
    {
        match pattern {
            SerializableBlacklistPattern::Literal(t) => Ok(BlacklistPattern::Literal(t.clone())),
            SerializableBlacklistPattern::Wildcard(t) => Ok(BlacklistPattern::Wildcard(t.clone())),
            SerializableBlacklistPattern::Regex { pattern, flags } => {
                let a = text::concat("~/", pattern.as_str());
                let b = text::concat(a.as_str(), "/");
                let full = text::concat(b.as_str(), flags.as_str());
                match BlacklistPattern::from_regex_string(full.as_str()) {
                    Ok(p) => Ok(p),
                    Err(PatternError::InvalidRegex) => Err(ImportError::InvalidRegex),
                }
            },
        }
    }
}

/// Views of portable blacklist entries.
pub open spec fn spattern_views(v: Seq<SerializableBlacklistPattern>) -> Seq<SPatternView> {
    v.map_values(|p: SerializableBlacklistPattern| p@)
}

/// Whether `s` is the portable form of the filter rule `t`.
pub open spec fn serializes_to(t: SpamFilterType, s: SerializableSpamFilterType) -> bool {
    match (t, s) {
        (SpamFilterType::ExcessiveCaps { max_percentage: a }, SerializableSpamFilterType::ExcessiveCaps { max_percentage: b }) => a == b,
        (SpamFilterType::LinkBlocking { allow_mods: a, whitelist: w }, SerializableSpamFilterType::LinkBlocking { allow_mods: b, whitelist: x }) =>
            a == b && texts(w@) == texts(x@),
        (SpamFilterType::RepeatedMessages { max_repeats: a, window_seconds: c }, SerializableSpamFilterType::RepeatedMessages { max_repeats: b, window_seconds: d }) =>
            a == b && c == d,
        (SpamFilterType::MessageLength { max_length: a }, SerializableSpamFilterType::MessageLength { max_length: b }) => a == b,
        (SpamFilterType::ExcessiveEmotes { max_count: a }, SerializableSpamFilterType::ExcessiveEmotes { max_count: b }) => a == b,
        (SpamFilterType::SymbolSpam { max_percentage: a }, SerializableSpamFilterType::SymbolSpam { max_percentage: b }) => a == b,
        (SpamFilterType::RateLimit { max_messages: a, window_seconds: c }, SerializableSpamFilterType::RateLimit { max_messages: b, window_seconds: d }) =>
            a == b && c == d,
        (SpamFilterType::Blacklist { patterns: p, case_sensitive: a, whole_words_only: c },
         SerializableSpamFilterType::Blacklist { patterns: q, case_sensitive: b, whole_words_only: d }) =>
            a == b && c == d && spattern_views(q@) == crate::bot::types::pattern_views(p@).map_values(|v: PatternView| spec_pattern_to_serializable(v)),
        _ => false,
    }
}

impl FilterImportExport {
    /// Portable form of a filter rule: the same rule, with each blacklist
    /// entry in its portable form.
    pub fn convert_to_serializable(&self, filter_type: &SpamFilterType) -> (r: Result<SerializableSpamFilterType, ImportError>)
        ensures
            r is Ok && serializes_to(*filter_type, r->Ok_0),
    {
        let s = match filter_type {
            SpamFilterType::ExcessiveCaps { max_percentage } =>
                SerializableSpamFilterType::ExcessiveCaps { max_percentage: *max_percentage },
            SpamFilterType::LinkBlocking { allow_mods, whitelist } =>
                SerializableSpamFilterType::LinkBlocking { allow_mods: *allow_mods, whitelist: copy_texts(whitelist) },
            SpamFilterType::RepeatedMessages { max_repeats, window_seconds } =>
                SerializableSpamFilterType::RepeatedMessages { max_repeats: *max_repeats, window_seconds: *window_seconds },
            SpamFilterType::MessageLength { max_length } =>
                SerializableSpamFilterType::MessageLength { max_length: *max_length },
            SpamFilterType::ExcessiveEmotes { max_count } =>
                SerializableSpamFilterType::ExcessiveEmotes { max_count: *max_count },
            SpamFilterType::SymbolSpam { max_percentage } =>
                SerializableSpamFilterType::SymbolSpam { max_percentage: *max_percentage },
            SpamFilterType::RateLimit { max_messages, window_seconds } =>
                SerializableSpamFilterType::RateLimit { max_messages: *max_messages, window_seconds: *window_seconds },
            SpamFilterType::Blacklist { patterns, case_sensitive, whole_words_only } => {
                let mut out: Vec<SerializableBlacklistPattern> = Vec::new();
                let mut i: usize = 0;
                while i < patterns.len()
                    invariant
                        i <= patterns@.len(),
                        spattern_views(out@) == crate::bot::types::pattern_views(patterns@.take(i as int))
                            .map_values(|v: PatternView| spec_pattern_to_serializable(v)),
                    decreases patterns@.len() - i,
                {
                    let ghost before = out@;
                    let q = match self.convert_pattern_to_serializable(&patterns[i]) {
                        Ok(q) => q,
                        Err(e) => return Err(e),
                    };
                    out.push(q);
                    assert(patterns@.take(i + 1) =~= patterns@.take(i as int).push(patterns@[i as int]));
                    assert(spattern_views(out@) =~= spattern_views(before).push(q@));
                    assert(crate::bot::types::pattern_views(patterns@.take(i + 1)).map_values(|v: PatternView| spec_pattern_to_serializable(v))
                        =~= crate::bot::types::pattern_views(patterns@.take(i as int)).map_values(|v: PatternView| spec_pattern_to_serializable(v))
                            .push(spec_pattern_to_serializable(patterns@[i as int]@)));
                    i = i + 1;
                }
                assert(patterns@.take(patterns@.len() as int) =~= patterns@);
                SerializableSpamFilterType::Blacklist {
                    patterns: out,
                    case_sensitive: *case_sensitive,
                    whole_words_only: *whole_words_only,
                }
            },
        };
        Ok(s)
    }

    /// The bot's form of a portable filter: only caps, link and blacklist
    /// rules are imported, every blacklist entry must convert, and the
    /// exemption level is read by name.
    pub fn convert_from_serializable(&self, filter: &ExportableFilter) -> (r: Result<SpamFilter, ImportError>)
        ensures
            match filter.filter_type {
                SerializableSpamFilterType::ExcessiveCaps { .. } | SerializableSpamFilterType::LinkBlocking { .. } => r is Ok,
                SerializableSpamFilterType::Blacklist { patterns, .. } =>
                    (r is Ok <==> forall|k: int| 0 <= k < patterns@.len() ==> #[trigger] spec_pattern_from_serializable(patterns@[k]@) is Ok),
                _ => r == Err::<SpamFilter, ImportError>(ImportError::UnsupportedFilterType),
            },
            r is Ok <==> import_failure(*filter) is None,
            r is Err ==> import_failure(*filter) == Some(r->Err_0),
            r is Ok ==> {
                let f = r->Ok_0;
                &&& serializes_to_import(f.filter_type, filter.filter_type)
                &&& f.enabled == filter.enabled
                &&& f.escalation.first_offense@ == filter.escalation.first_offense@
                &&& f.escalation.repeat_offense@ == filter.escalation.repeat_offense@
                &&& f.escalation.offense_window_seconds == filter.escalation.offense_window_seconds
                &&& f.exemption_level == exemption_named(filter.exemption_level@)
                &&& f.silent_mode == filter.silent_mode
                &&& f.custom_message == filter.custom_message
                &&& f.name@ == filter.name@
            },
    {
        let filter_type = match &filter.filter_type {
            SerializableSpamFilterType::ExcessiveCaps { max_percentage } =>
                SpamFilterType::ExcessiveCaps { max_percentage: *max_percentage },
            SerializableSpamFilterType::LinkBlocking { allow_mods, whitelist } =>
                SpamFilterType::LinkBlocking { allow_mods: *allow_mods, whitelist: copy_texts(whitelist) },
            SerializableSpamFilterType::Blacklist { patterns, case_sensitive, whole_words_only } => {
                let mut out: Vec<BlacklistPattern> = Vec::new();
                let mut i: usize = 0;
                while i < patterns.len()
                    invariant
                        i <= patterns@.len(),
                        (filter.filter_type matches SerializableSpamFilterType::Blacklist { patterns: ps, .. } && ps == *patterns),
                        out@.len() == i,
                        forall|k: int| 0 <= k < i ==> #[trigger] spec_pattern_from_serializable(patterns@[k]@) is Ok
                            && Ok::<PatternView, ImportError>(out@[k]@) == spec_pattern_from_serializable(patterns@[k]@),
                    decreases patterns@.len() - i,
                {
                    let p = match self.convert_pattern_from_serializable(&patterns[i]) {
                        Ok(p) => p,
                        Err(e) => return Err(e),
                    };
                    out.push(p);
                    i = i + 1;
                }
                SpamFilterType::Blacklist { patterns: out, case_sensitive: *case_sensitive, whole_words_only: *whole_words_only }
            },
            _ => return Err(ImportError::UnsupportedFilterType),
        };
        let level = exemption_from_name(filter.exemption_level.as_str());
        Ok(SpamFilter {
            filter_type,
            enabled: filter.enabled,
            escalation: ModerationEscalation {
                first_offense: self.convert_action_from_serializable(&filter.escalation.first_offense),
                repeat_offense: self.convert_action_from_serializable(&filter.escalation.repeat_offense),
                offense_window_seconds: filter.escalation.offense_window_seconds,
            },
            exemption_level: level,
            silent_mode: filter.silent_mode,
            custom_message: copy_opt(&filter.custom_message),
            name: filter.name.clone(),
        })
    }
}

/// Whether the bot's rule `t` is the import of the portable rule `s`.
pub open spec fn serializes_to_import(t: SpamFilterType, s: SerializableSpamFilterType) -> bool {
    match (t, s) {
        (SpamFilterType::ExcessiveCaps { max_percentage: a }, SerializableSpamFilterType::ExcessiveCaps { max_percentage: b }) => a == b,
        (SpamFilterType::LinkBlocking { allow_mods: a, whitelist: w }, SerializableSpamFilterType::LinkBlocking { allow_mods: b, whitelist: x }) =>
            a == b && texts(w@) == texts(x@),
        (SpamFilterType::Blacklist { patterns: p, case_sensitive: a, whole_words_only: c },
         SerializableSpamFilterType::Blacklist { patterns: q, case_sensitive: b, whole_words_only: d }) =>
            a == b && c == d && p@.len() == q@.len()
                && forall|k: int| 0 <= k < p@.len() ==> Ok::<PatternView, ImportError>(#[trigger] p@[k]@) == spec_pattern_from_serializable(q@[k]@),
        _ => false,
    }
}

/// The exemption level named `name`; see `exemption_named`.
pub fn exemption_from_name(name: &str) -> (e: ExemptionLevel)
    ensures
        e == exemption_named(name@),
{
    if text::same_text(name, "None") {
        ExemptionLevel::NoOne
    } else if text::same_text(name, "Subscriber") {
        ExemptionLevel::Subscriber
    } else if text::same_text(name, "Regular") {
        ExemptionLevel::Regular
    } else if text::same_text(name, "Owner") {
        ExemptionLevel::Owner
    } else {
        ExemptionLevel::Moderator
    }
}

// ---------------------------------------------------------------------------
// NightBot compatibility
// ---------------------------------------------------------------------------

/// The portable entry for a NightBot blacklist line: `~/body/` is a
/// case-insensitive regular expression, a line with `*` is a wildcard, any
/// other line is literal text.
pub open spec fn spec_classify_nightbot(s: Seq<char>) -> SPatternView {
    if text::seq_starts_with(s, "~/"@) && text::seq_ends_with(s, "/"@) {
        SPatternView::Regex(s.subrange(2, s.len() - 1), "i"@)
    } else if s.contains('*') {
        SPatternView::Wildcard(s)
    } else {
        SPatternView::Literal(s)
    }
}

/// Whether a NightBot line can be classified: the line `~/` alone both opens
/// and closes a regular expression and has no body to take.
pub open spec fn nightbot_line_ok(s: Seq<char>) -> bool {
    !(text::seq_starts_with(s, "~/"@) && text::seq_ends_with(s, "/"@) && s.len() < 3)
}

/// The NightBot line for a portable blacklist entry.
pub open spec fn spec_nightbot_line(p: SPatternView) -> Seq<char> {
    match p {
        SPatternView::Literal(t) => t,
        SPatternView::Wildcard(t) => t,
        SPatternView::Regex(body, _) => "~/"@ + body + "/"@,
    }
}

/// The characters that have a meaning in a regular expression, as
/// `regex_syntax::is_meta_character` lists them.
pub open spec fn regex_meta(c: char) -> bool {
    c == '\\' || c == '.' || c == '+' || c == '*' || c == '?' || c == '(' || c == ')' || c == '|'
        || c == '[' || c == ']' || c == '{' || c == '}' || c == '^' || c == '$' || c == '#' || c == '&'
        || c == '-' || c == '~'
}

/// `s` with a backslash put before each regular-expression metacharacter.
pub open spec fn regex_escaped(s: Seq<char>) -> Seq<char>
    decreases s.len(),
{
    if s.len() == 0 {
        Seq::empty()
    } else {
        regex_escaped(s.drop_last()) + if regex_meta(s.last()) { seq!['\\', s.last()] } else { seq![s.last()] }
    }
}

/// `regex::escape` (which calls `regex_syntax::escape`): each character of
/// `s` in order, a metacharacter with a backslash before it.
#[verifier::external_body]
pub(crate) fn escape_regex(s: &str) -> (r: String)
    ensures
        r@ == regex_escaped(s@),
{
    regex::escape(s)
}

/// NightBot lines standing for a filter that is not a blacklist: caps and
/// symbol limits as character-class patterns, link blocking as link
/// patterns with one pattern per whitelisted domain; other rules have none.
pub open spec fn spec_nightbot_equivalent(t: SerializableSpamFilterType) -> Option<Seq<Seq<char>>> {
    match t {
        SerializableSpamFilterType::ExcessiveCaps { max_percentage } =>
            Some(seq!["~/[A-Z]{"@ + text::nat_digits((max_percentage * 10 / 100) as nat) + ",%}/"@]),
        SerializableSpamFilterType::LinkBlocking { whitelist, .. } =>
            Some(seq!["~/https?:\\/\\//"@, "~/www\\./"@, "~/\\.(com|net|org|tv)/"@]
                + texts(whitelist@).map_values(|d: Seq<char>| "~/(?!.*"@ + regex_escaped(d) + ").*\\.(com|net|org)/"@)),
        SerializableSpamFilterType::SymbolSpam { max_percentage } =>
            Some(seq!["~/[^\\w\\s]{"@ + text::nat_digits((max_percentage / 10) as nat) + ",}/"@]),
        _ => None,
    }
}

/// When the NightBot equivalent can be computed: `max_percentage * 10` is
/// computed in `u8` for a caps limit.
pub open spec fn nightbot_equivalent_ok(t: SerializableSpamFilterType) -> bool {
    t matches SerializableSpamFilterType::ExcessiveCaps { max_percentage } ==> max_percentage * 10 <= 255
}

/// The NightBot lines of a list of portable filters: a blacklist gives its
/// entries; another filter its equivalent lines, if any.
pub open spec fn spec_nightbot_lines(filters: Seq<ExportableFilter>) -> Seq<Seq<char>>
    decreases filters.len(),
{
    if filters.len() == 0 {
        Seq::empty()
    } else {
        let rest = spec_nightbot_lines(filters.drop_last());
        match filters.last().filter_type {
            SerializableSpamFilterType::Blacklist { patterns, .. } =>
                rest + spattern_views(patterns@).map_values(|p: SPatternView| spec_nightbot_line(p)),
            t => match spec_nightbot_equivalent(t) {
                Some(lines) => rest + lines,
                None => rest,
            },
        }
    }
}

/// The portable entry for a NightBot blacklist line; see `spec_classify_nightbot`.
pub fn classify_nightbot_pattern(pattern_str: &str) -> (r: SerializableBlacklistPattern)
    requires
        nightbot_line_ok(pattern_str@),
    ensures
        r@ == spec_classify_nightbot(pattern_str@),
{
    let v = text::chars_of(pattern_str);
    proof {
        reveal_strlit("~/");
        reveal_strlit("/");
        reveal_strlit("i");
    }
    if text::starts_with(v.as_slice(), text::chars_of("~/").as_slice()) && text::ends_with(v.as_slice(), text::chars_of("/").as_slice()) {
        let body = text::slice(&v, 2, v.len() - 1);
        SerializableBlacklistPattern::Regex { pattern: text::string_from_chars(body.as_slice()), flags: text::owned("i") }
    } else if text::contains_char(v.as_slice(), '*') {
        SerializableBlacklistPattern::Wildcard(text::owned(pattern_str))
    } else {
        SerializableBlacklistPattern::Literal(text::owned(pattern_str))
    }
}

/// The NightBot line for a portable blacklist entry.
pub fn nightbot_line(p: &SerializableBlacklistPattern) -> (r: String)
    ensures
        r@ == spec_nightbot_line(p@),
{
    match p {
        SerializableBlacklistPattern::Literal(t) => t.clone(),
        SerializableBlacklistPattern::Wildcard(t) => t.clone(),
        SerializableBlacklistPattern::Regex { pattern, .. } => {
            let a = text::concat("~/", pattern.as_str());
            text::concat(a.as_str(), "/")
        },
    }
}

/// The filter imported from a NightBot blacklist: its lines classified, a
/// warning (the custom message, or a default) for a first offense, a
/// timeout (600 seconds by default) for a repeat within an hour, exempting
/// moderators. No filter comes of an empty list.
pub open spec fn nightbot_filter_ok(
    f: ExportableFilter,
    lines: Seq<Seq<char>>,
    enabled: Option<bool>,
    timeout: Option<u64>,
    silent: Option<bool>,
    message: Option<String>,
    now: i64,
) -> bool {
    &&& f.name@ == "imported_blacklist"@
    &&& f.filter_type matches SerializableSpamFilterType::Blacklist { patterns, case_sensitive, whole_words_only }
        && spattern_views(patterns@) == lines.map_values(|l: Seq<char>| spec_classify_nightbot(l))
        && !case_sensitive && !whole_words_only
    &&& f.enabled == (match enabled { Some(e) => e, None => true })
    &&& f.escalation.first_offense@ == ActionView::WarnUser(match message { Some(m) => m@, None => "Please follow chat rules"@ })
    &&& f.escalation.repeat_offense@ == ActionView::TimeoutUser(match timeout { Some(t) => t, None => 600 })
    &&& f.escalation.offense_window_seconds == 3600
    &&& f.exemption_level@ == "Moderator"@
    &&& f.silent_mode == (match silent { Some(s) => s, None => false })
    &&& f.custom_message == message
    &&& f.created_at == now
    &&& texts(f.usage_context@) == seq!["general"@]
}

impl FilterImportExport {
    /// The filter imported from a NightBot blacklist with the lines `lines`
    /// and the given settings, read at `now`; `None` for an empty list.
    pub fn import_nightbot_blacklist(
        &self,
        lines: &Vec<String>,
        enabled: Option<bool>,
        timeout: Option<u64>,
        silent: Option<bool>,
        message: Option<String>,
        now: i64,
    ) -> (r: Option<ExportableFilter>)
        requires
            forall|k: int| 0 <= k < lines@.len() ==> nightbot_line_ok(#[trigger] lines@[k]@),
        ensures
            lines@.len() == 0 ==> r is None,
            lines@.len() > 0 ==> r is Some && nightbot_filter_ok(r->0, texts(lines@), enabled, timeout, silent, message, now),
    {
        let mut patterns: Vec<SerializableBlacklistPattern> = Vec::new();
        let mut i: usize = 0;
        while i < lines.len()
            invariant
                i <= lines@.len(),
                forall|k: int| 0 <= k < lines@.len() ==> nightbot_line_ok(#[trigger] lines@[k]@),
                spattern_views(patterns@) == texts(lines@.take(i as int)).map_values(|l: Seq<char>| spec_classify_nightbot(l)),
            decreases lines@.len() - i,
        {
            let ghost before = patterns@;
            let p = classify_nightbot_pattern(lines[i].as_str());
            patterns.push(p);
            assert(lines@.take(i + 1) =~= lines@.take(i as int).push(lines@[i as int]));
            assert(spattern_views(patterns@) =~= spattern_views(before).push(p@));
            assert(texts(lines@.take(i + 1)).map_values(|l: Seq<char>| spec_classify_nightbot(l))
                =~= texts(lines@.take(i as int)).map_values(|l: Seq<char>| spec_classify_nightbot(l)).push(spec_classify_nightbot(lines@[i as int]@)));
            i = i + 1;
        }
        assert(lines@.take(lines@.len() as int) =~= lines@);
        if patterns.len() == 0 {
            return None;
        }
        let warning = match &message {
            Some(m) => m.clone(),
            None => text::owned("Please follow chat rules"),
        };
        let mut context: Vec<String> = Vec::new();
        context.push(text::owned("general"));
        assert(texts(context@) =~= seq!["general"@]);
        Some(ExportableFilter {
            name: text::owned("imported_blacklist"),
            filter_type: SerializableSpamFilterType::Blacklist { patterns, case_sensitive: false, whole_words_only: false },
            enabled: match enabled { Some(e) => e, None => true },
            escalation: SerializableModerationEscalation {
                first_offense: SerializableModerationAction::WarnUser { message: warning },
                repeat_offense: SerializableModerationAction::TimeoutUser { duration_seconds: match timeout { Some(t) => t, None => 600 } },
                offense_window_seconds: 3600,
            },
            exemption_level: text::owned("Moderator"),
            silent_mode: match silent { Some(s) => s, None => false },
            custom_message: message,
            created_at: now,
            usage_context: context,
        })
    }

    /// NightBot lines standing for a filter that is not a blacklist; see
    /// `spec_nightbot_equivalent`.
    pub fn convert_to_nightbot_equivalent(&self, filter: &ExportableFilter) -> (r: Option<Vec<String>>)
        requires
            nightbot_equivalent_ok(filter.filter_type),
        ensures
            match spec_nightbot_equivalent(filter.filter_type) {
                Some(lines) => r is Some && texts(r->0@) == lines,
                None => r is None,
            },
    {
        match &filter.filter_type {
            SerializableSpamFilterType::ExcessiveCaps { max_percentage } => {
                let n: u8 = *max_percentage * 10 / 100;
                let a = text::concat("~/[A-Z]{", text::nat_decimal(n as u64).as_str());
                let mut v: Vec<String> = Vec::new();
                v.push(text::concat(a.as_str(), ",%}/"));
                assert(texts(v@) =~= seq!["~/[A-Z]{"@ + text::nat_digits((*max_percentage * 10 / 100) as nat) + ",%}/"@]);
                Some(v)
            },
            SerializableSpamFilterType::LinkBlocking { whitelist, .. } => {
                let mut v: Vec<String> = Vec::new();
                v.push(text::owned("~/https?:\\/\\//"));
                v.push(text::owned("~/www\\./"));
                v.push(text::owned("~/\\.(com|net|org|tv)/"));
                let ghost fixed = seq!["~/https?:\\/\\//"@, "~/www\\./"@, "~/\\.(com|net|org|tv)/"@];
                assert(texts(v@) =~= fixed);
                let mut i: usize = 0;
                while i < whitelist.len()
                    invariant
                        i <= whitelist@.len(),
                        texts(v@) == fixed + texts(whitelist@.take(i as int)).map_values(|d: Seq<char>| "~/(?!.*"@ + regex_escaped(d) + ").*\\.(com|net|org)/"@),
                    decreases whitelist@.len() - i,
                {
                    let ghost before = texts(v@);
                    let a = text::concat("~/(?!.*", escape_regex(whitelist[i].as_str()).as_str());
                    let line = text::concat(a.as_str(), ").*\\.(com|net|org)/");
                    v.push(line);
                    assert(whitelist@.take(i + 1) =~= whitelist@.take(i as int).push(whitelist@[i as int]));
                    assert(texts(v@) =~= before.push(line@));
                    assert(texts(whitelist@.take(i + 1)).map_values(|d: Seq<char>| "~/(?!.*"@ + regex_escaped(d) + ").*\\.(com|net|org)/"@)
                        =~= texts(whitelist@.take(i as int)).map_values(|d: Seq<char>| "~/(?!.*"@ + regex_escaped(d) + ").*\\.(com|net|org)/"@)
                            .push("~/(?!.*"@ + regex_escaped(whitelist@[i as int]@) + ").*\\.(com|net|org)/"@));
                    i = i + 1;
                }
                assert(whitelist@.take(whitelist@.len() as int) =~= whitelist@);
                Some(v)
            },
            SerializableSpamFilterType::SymbolSpam { max_percentage } => {
                let n: u8 = *max_percentage / 10;
                let a = text::concat("~/[^\\w\\s]{", text::nat_decimal(n as u64).as_str());
                let mut v: Vec<String> = Vec::new();
                v.push(text::concat(a.as_str(), ",}/"));
                assert(texts(v@) =~= seq!["~/[^\\w\\s]{"@ + text::nat_digits((*max_percentage / 10) as nat) + ",}/"@]);
                Some(v)
            },
            _ => None,
        }
    }

    /// The NightBot blacklist lines of a list of portable filters; see `spec_nightbot_lines`.
    pub fn nightbot_blacklist(&self, filters: &Vec<ExportableFilter>) -> (r: Vec<String>)
        requires
            forall|k: int| 0 <= k < filters@.len() ==> nightbot_equivalent_ok(#[trigger] filters@[k].filter_type),
        ensures
            texts(r@) == spec_nightbot_lines(filters@),
    {
        let mut out: Vec<String> = Vec::new();
        let mut i: usize = 0;
        while i < filters.len()
            invariant
                i <= filters@.len(),
                forall|k: int| 0 <= k < filters@.len() ==> nightbot_equivalent_ok(#[trigger] filters@[k].filter_type),
                texts(out@) == spec_nightbot_lines(filters@.take(i as int)),
            decreases filters@.len() - i,
        {
            assert(filters@.take(i + 1).drop_last() =~= filters@.take(i as int));
            let ghost before = texts(out@);
            let f = &filters[i];
            match &f.filter_type {
                SerializableSpamFilterType::Blacklist { patterns, .. } => {
                    let mut j: usize = 0;
                    while j < patterns.len()
                        invariant
                            j <= patterns@.len(),
                            texts(out@) == before + spattern_views(patterns@.take(j as int)).map_values(|p: SPatternView| spec_nightbot_line(p)),
                        decreases patterns@.len() - j,
                    {
                        let ghost b2 = texts(out@);
                        let line = nightbot_line(&patterns[j]);
                        out.push(line);
                        assert(patterns@.take(j + 1) =~= patterns@.take(j as int).push(patterns@[j as int]));
                        assert(texts(out@) =~= b2.push(line@));
                        assert(spattern_views(patterns@.take(j + 1)).map_values(|p: SPatternView| spec_nightbot_line(p))
                            =~= spattern_views(patterns@.take(j as int)).map_values(|p: SPatternView| spec_nightbot_line(p))
                                .push(spec_nightbot_line(patterns@[j as int]@)));
                        j = j + 1;
                    }
                    assert(patterns@.take(patterns@.len() as int) =~= patterns@);
                },
                _ => {
                    if let Some(lines) = self.convert_to_nightbot_equivalent(f) {
                        let mut j: usize = 0;
                        while j < lines.len()
                            invariant
                                j <= lines@.len(),
                                texts(out@) == before + texts(lines@.take(j as int)),
                            decreases lines@.len() - j,
                        {
                            let ghost b2 = texts(out@);
                            out.push(lines[j].clone());
                            assert(lines@.take(j + 1) =~= lines@.take(j as int).push(lines@[j as int]));
                            assert(texts(out@) =~= b2.push(lines@[j as int]@));
                            j = j + 1;
                        }
                        assert(lines@.take(lines@.len() as int) =~= lines@);
                    }
                },
            }
            i = i + 1;
        }
        assert(filters@.take(filters@.len() as int) =~= filters@);
        out
    }
}

// ---------------------------------------------------------------------------
// Format detection
// ---------------------------------------------------------------------------

/// The format a file extension names, if any.
pub open spec fn spec_format_of_extension(ext: Seq<char>) -> Option<ExportFormat> {
    if ext == "json"@ {
        Some(ExportFormat::Json)
    } else if ext == "yaml"@ || ext == "yml"@ {
        Some(ExportFormat::Yaml)
    } else if ext == "toml"@ {
        Some(ExportFormat::Toml)
    } else if ext == "gz"@ || ext == "tar"@ || ext == "tgz"@ {
        Some(ExportFormat::CompressedArchive)
    } else {
        None
    }
}

/// `s` without its leading white space.
pub open spec fn trim_leading_space(s: Seq<char>) -> Seq<char>
    decreases s.len(),
{
    if s.len() > 0 && text::unicode_whitespace(s[0]) {
        trim_leading_space(s.drop_first())
    } else {
        s
    }
}

/// The format told from a file's content: JSON when it opens with `{`,
/// YAML when it mentions `version:` or `filters:`.
pub open spec fn spec_format_of_content(content: Seq<char>) -> Result<ExportFormat, ImportError> {
    let t = trim_leading_space(content);
    if t.len() > 0 && t[0] == '{' {
        Ok(ExportFormat::Json)
    } else if text::seq_contains(content, "version:"@) || text::seq_contains(content, "filters:"@) {
        Ok(ExportFormat::Yaml)
    } else {
        Err(ImportError::UnknownFormat)
    }
}

impl FilterImportExport {
    /// The format a file extension names; see `spec_format_of_extension`.
    pub fn detect_format_from_extension(&self, extension: &str) -> (r: Option<ExportFormat>)
        ensures
            r == spec_format_of_extension(extension@),
    {
        if text::same_text(extension, "json") {
            Some(ExportFormat::Json)
        } else if text::same_text(extension, "yaml") || text::same_text(extension, "yml") {
            Some(ExportFormat::Yaml)
        } else if text::same_text(extension, "toml") {
            Some(ExportFormat::Toml)
        } else if text::same_text(extension, "gz") || text::same_text(extension, "tar") || text::same_text(extension, "tgz") {
            Some(ExportFormat::CompressedArchive)
        } else {
            None
        }
    }

    /// The format told from a file's content; see `spec_format_of_content`.
    pub fn detect_format_from_content(&self, content: &str) -> (r: Result<ExportFormat, ImportError>)
        ensures
            r == spec_format_of_content(content@),
    {
        let v = text::chars_of(content);
        let mut i: usize = 0;
        assert(v@.subrange(0, v@.len() as int) =~= v@);
        while i < v.len() && text::is_whitespace(v[i])
            invariant
                i <= v@.len(),
                trim_leading_space(v@) == trim_leading_space(v@.subrange(i as int, v@.len() as int)),
            decreases v@.len() - i,
        {
            assert(v@.subrange(i as int, v@.len() as int).drop_first() =~= v@.subrange(i + 1, v@.len() as int));
            i = i + 1;
        }
        assert(v@.subrange(0, v@.len() as int) =~= v@);
        if i < v.len() && v[i] == '{' {
            return Ok(ExportFormat::Json);
        }
        let version = text::chars_of("version:");
        let filters = text::chars_of("filters:");
        if text::contains(v.as_slice(), version.as_slice()) || text::contains(v.as_slice(), filters.as_slice()) {
            Ok(ExportFormat::Yaml)
        } else {
            Err(ImportError::UnknownFormat)
        }
    }
}

// ---------------------------------------------------------------------------
// Processing an import
// ---------------------------------------------------------------------------

/// The error a portable filter's conversion fails with, if any.
pub open spec fn import_failure(f: ExportableFilter) -> Option<ImportError> {
    match f.filter_type {
        SerializableSpamFilterType::ExcessiveCaps { .. } | SerializableSpamFilterType::LinkBlocking { .. } => None,
        SerializableSpamFilterType::Blacklist { patterns, .. } =>
            if forall|k: int| 0 <= k < patterns@.len() ==> #[trigger] spec_pattern_from_serializable(patterns@[k]@) is Ok {
                None
            } else {
                Some(ImportError::InvalidRegex)
            },
        _ => Some(ImportError::UnsupportedFilterType),
    }
}

/// The name a filter is imported under.
pub open spec fn imported_name(f: ExportableFilter, options: ImportOptions) -> Seq<char> {
    if options.prefix_names { "imported_"@ + f.name@ } else { f.name@ }
}

/// Progress of an import: the names imported so far (in the order first
/// imported) with the index of the filter each holds, the errors, and the
/// warnings.
pub struct ImportProgress {
    pub names: Seq<Seq<char>>,
    pub sources: Seq<int>,
    pub errors: Seq<Seq<char>>,
    pub warnings: Seq<Seq<char>>,
}

/// Importing the `j`-th filter `f`: a filter that does not convert is an
/// error; one whose name is taken is skipped with a warning unless existing
/// filters may be overwritten, in which case it replaces the earlier one.
pub open spec fn import_step(p: ImportProgress, f: ExportableFilter, j: int, options: ImportOptions) -> ImportProgress {
    match import_failure(f) {
        Some(e) => ImportProgress {
            errors: p.errors.push("Failed to import filter '"@ + f.name@ + "': "@ + import_error_text(e)),
            ..p
        },
        None => {
            let n = imported_name(f, options);
            if p.names.contains(n) {
                if options.overwrite_existing {
                    ImportProgress { sources: p.sources.update(p.names.index_of(n), j), ..p }
                } else {
                    ImportProgress { warnings: p.warnings.push("Skipped duplicate filter: "@ + n), ..p }
                }
            } else {
                ImportProgress { names: p.names.push(n), sources: p.sources.push(j), ..p }
            }
        },
    }
}

/// Importing the filters `fs` in order, after the version check.
pub open spec fn import_all(fs: Seq<ExportableFilter>, start: ImportProgress, options: ImportOptions) -> ImportProgress
    decreases fs.len(),
{
    if fs.len() == 0 {
        start
    } else {
        import_step(import_all(fs.drop_last(), start, options), fs.last(), fs.len() - 1, options)
    }
}

/// The progress an import starts from: a warning for a version neither read
/// directly nor upgradable.
pub open spec fn import_start(compatible: bool, version: Seq<char>) -> ImportProgress {
    ImportProgress {
        names: Seq::empty(),
        sources: Seq::empty(),
        errors: Seq::empty(),
        warnings: if compatible { Seq::empty() } else { seq!["Import version "@ + version + " may not be fully compatible"@] },
    }
}

/// The result of an import.
pub struct ImportOutcome {
    pub filters: Vec<(String, SpamFilter)>,
    pub imported_count: usize,
    pub error_count: usize,
    pub warning_count: usize,
    pub errors: Vec<String>,
    pub warnings: Vec<String>,
}

fn find_name(names: &Vec<(String, SpamFilter)>, n: &str) -> (r: Option<usize>)
    ensures
        match r {
            Some(i) => i < names@.len() && names@[i as int].0@ == n@
                && forall|k: int| 0 <= k < i ==> names@[k].0@ != n@,
            None => forall|k: int| 0 <= k < names@.len() ==> names@[k].0@ != n@,
        },
{
    let mut i: usize = 0;
    while i < names.len()
        invariant
            i <= names@.len(),
            forall|k: int| 0 <= k < i ==> names@[k].0@ != n@,
        decreases names@.len() - i,
    {
        if text::same_text(names[i].0.as_str(), n) {
            return Some(i);
        }
        i = i + 1;
    }
    None
}

impl FilterImportExport {
    /// Import the filters `filters` of an export of version `version`; see
    /// `import_all`. Each imported filter is the conversion of the filter
    /// its name holds.
    pub fn process_import(&self, version: &str, filters: Vec<ExportableFilter>, options: ImportOptions) -> (r: ImportOutcome)
        ensures
            ({
                let compatible = self.versions().contains(version@)
                    || exists|k: int| 0 <= k < self.matrix().len() && #[trigger] self.matrix()[k].0 == version@;
                let p = import_all(filters@, import_start(compatible, version@), options);
                &&& r.filters@.map_values(|e: (String, SpamFilter)| e.0@) == p.names
                &&& texts(r.errors@) == p.errors
                &&& texts(r.warnings@) == p.warnings
                &&& r.imported_count == p.names.len()
                &&& forall|a: int, b: int| 0 <= a < r.filters@.len() && 0 <= b < r.filters@.len() && a != b
                    ==> #[trigger] r.filters@[a].0@ != #[trigger] r.filters@[b].0@
                &&& r.error_count == p.errors.len()
                &&& r.warning_count == p.warnings.len()
                &&& forall|k: int| 0 <= k < r.filters@.len() ==> 0 <= #[trigger] p.sources[k] < filters@.len()
                    && import_failure(filters@[p.sources[k]]) is None
                    && r.filters@[k].1.name@ == filters@[p.sources[k]].name@
                    && r.filters@[k].1.enabled == filters@[p.sources[k]].enabled
            }),
    {
        let compatible = self.is_version_compatible(version);
        let mut warnings: Vec<String> = Vec::new();
        if !compatible {
            let a = text::concat("Import version ", version);
            warnings.push(text::concat(a.as_str(), " may not be fully compatible"));
        }
        let ghost start = import_start(compatible, version@);
        assert(texts(warnings@) =~= start.warnings);
        let mut errors: Vec<String> = Vec::new();
        let mut imported: Vec<(String, SpamFilter)> = Vec::new();
        let ghost mut sources: Seq<int> = Seq::empty();
        let mut j: usize = 0;
        assert(filters@.take(0) =~= Seq::<ExportableFilter>::empty());
        assert(imported@.map_values(|e: (String, SpamFilter)| e.0@) =~= Seq::<Seq<char>>::empty());
        assert(texts(errors@) =~= Seq::<Seq<char>>::empty());
        while j < filters.len()
            invariant
                j <= filters@.len(),
                start == import_start(compatible, version@),
                ({
                    let p = import_all(filters@.take(j as int), start, options);
                    &&& imported@.map_values(|e: (String, SpamFilter)| e.0@) == p.names
                    &&& sources == p.sources
                    &&& texts(errors@) == p.errors
                    &&& texts(warnings@) == p.warnings
                }),
                sources.len() == imported@.len(),
                forall|a: int, b: int| 0 <= a < imported@.len() && 0 <= b < imported@.len() && a != b
                    ==> #[trigger] imported@[a].0@ != #[trigger] imported@[b].0@,
                forall|k: int| 0 <= k < imported@.len() ==> 0 <= #[trigger] sources[k] < j
                    && import_failure(filters@[sources[k]]) is None
                    && imported@[k].1.name@ == filters@[sources[k]].name@
                    && imported@[k].1.enabled == filters@[sources[k]].enabled,
            decreases filters@.len() - j,
        {
            assert(filters@.take(j + 1).drop_last() =~= filters@.take(j as int));
            let ghost p0 = import_all(filters@.take(j as int), start, options);
            let f = &filters[j];
            match self.convert_from_serializable(f) {
                Ok(sf) => {
                    let name = if options.prefix_names {
                        text::concat("imported_", f.name.as_str())
                    } else {
                        f.name.clone()
                    };
                    proof {
                        reveal_strlit("imported_");
                    }
                    let ghost names0 = imported@.map_values(|e: (String, SpamFilter)| e.0@);
                    match find_name(&imported, name.as_str()) {
                        Some(i) => {
                            assert(names0[i as int] == name@);
                            assert(names0.contains(name@));
                            assert(names0.index_of(name@) == i) by {
                                let c = names0.index_of(name@);
                                assert(0 <= c < names0.len() && names0[c] == name@);
                                if c != i {
                                    assert(imported@[c].0@ != imported@[i as int].0@);
                                }
                            }
                            if options.overwrite_existing {
                                let ghost old_imp = imported@;
                                imported.set(i, (name, sf));
                                proof {
                                    sources = sources.update(i as int, j as int);
                                    assert(imported@.map_values(|e: (String, SpamFilter)| e.0@) =~= names0);
                                    assert forall|k: int| 0 <= k < imported@.len() implies 0 <= #[trigger] sources[k] < j + 1
                                        && import_failure(filters@[sources[k]]) is None
                                        && imported@[k].1.name@ == filters@[sources[k]].name@
                                        && imported@[k].1.enabled == filters@[sources[k]].enabled by {
                                        if k != i {
                                            assert(imported@[k] == old_imp[k]);
                                        }
                                    }
                                }
                            } else {
                                let w = text::concat("Skipped duplicate filter: ", name.as_str());
                                let ghost wb = texts(warnings@);
                                warnings.push(w);
                                assert(texts(warnings@) =~= wb.push(w@));
                            }
                        },
                        None => {
                            assert forall|k: int| 0 <= k < names0.len() implies names0[k] != name@ by {
                                assert(names0[k] == imported@[k].0@);
                            }
                            assert(!names0.contains(name@));
                            let ghost old_imp = imported@;
                            let ghost nm = name@;
                            imported.push((name, sf));
                            proof {
                                sources = sources.push(j as int);
                                assert(imported@.map_values(|e: (String, SpamFilter)| e.0@) =~= names0.push(nm));
                                assert forall|k: int| 0 <= k < imported@.len() implies 0 <= #[trigger] sources[k] < j + 1
                                    && import_failure(filters@[sources[k]]) is None
                                    && imported@[k].1.name@ == filters@[sources[k]].name@
                                    && imported@[k].1.enabled == filters@[sources[k]].enabled by {
                                    if k < old_imp.len() {
                                        assert(imported@[k] == old_imp[k]);
                                    }
                                }
                            }
                        },
                    }
                },
                Err(e) => {
                    let a = text::concat("Failed to import filter '", f.name.as_str());
                    let b = text::concat(a.as_str(), "': ");
                    let msg = text::concat(b.as_str(), e.message().as_str());
                    let ghost eb = texts(errors@);
                    errors.push(msg);
                    assert(texts(errors@) =~= eb.push(msg@));
                },
            }
            j = j + 1;
        }
        assert(filters@.take(filters@.len() as int) =~= filters@);
        let n = imported.len();
        let ne = errors.len();
        let nw = warnings.len();
        ImportOutcome {
            filters: imported,
            imported_count: n,
            error_count: ne,
            warning_count: nw,
            errors,
            warnings,
        }
    }
}

// ---------------------------------------------------------------------------
// Laws
// ---------------------------------------------------------------------------

/// Exporting and re-importing a literal or wildcard blacklist entry gives
/// it back unchanged.
pub proof fn lemma_plain_pattern_round_trip(p: PatternView)
    requires
        !(p is Regex),
    ensures
        spec_pattern_from_serializable(spec_pattern_to_serializable(p)) == Ok::<PatternView, ImportError>(p),
{
}

/// Re-importing an exported regular expression `~/body/flags` gives the
/// text `~/` + exported body + `/` + exported flags, when that compiles.
pub proof fn lemma_regex_pattern_reimport(full: Seq<char>)
    requires
        ({
            let s = spec_pattern_to_serializable(PatternView::Regex(full));
            s matches SPatternView::Regex(b, f) && regex_accepts(regex_source(regex_text(b, f)))
        }),
    ensures
        ({
            let s = spec_pattern_to_serializable(PatternView::Regex(full));
            s matches SPatternView::Regex(b, f)
                && spec_pattern_from_serializable(s) == Ok::<PatternView, ImportError>(PatternView::Regex(regex_text(b, f)))
        }),
{
}

/// A NightBot line written for a literal entry without `*` that does not
/// look like a regular expression is read back as the same literal.
pub proof fn lemma_nightbot_literal_round_trip(t: Seq<char>)
    requires
        !t.contains('*'),
        !(text::seq_starts_with(t, "~/"@) && text::seq_ends_with(t, "/"@)),
    ensures
        spec_classify_nightbot(spec_nightbot_line(SPatternView::Literal(t))) == SPatternView::Literal(t),
{
}

/// A moderation action survives export and re-import: both conversions keep
/// the action's view.
pub proof fn lemma_action_round_trip(a: ModerationAction, s: SerializableModerationAction, b: ModerationAction)
    requires
        s@ == a@,
        b@ == s@,
    ensures
        b@ == a@,
{
}

/// Every filter of an import is answered once: it is imported under a new
/// name, reported as an error, or skipped with a warning, except that a
/// filter replacing an earlier one of the same name adds to none of these.
/// Without overwriting, the three counts add up to the number of filters.
pub proof fn lemma_import_counts(fs: Seq<ExportableFilter>, start: ImportProgress, options: ImportOptions)
    ensures
        ({
            let p = import_all(fs, start, options);
            &&& p.names.len() + p.errors.len() + p.warnings.len()
                <= start.names.len() + start.errors.len() + start.warnings.len() + fs.len()
            &&& !options.overwrite_existing ==> p.names.len() + p.errors.len() + p.warnings.len()
                == start.names.len() + start.errors.len() + start.warnings.len() + fs.len()
        }),
    decreases fs.len(),
{
    if fs.len() > 0 {
        lemma_import_counts(fs.drop_last(), start, options);
    }
}

} // verus!
