//! Giveaways: their configuration and its validation, who may enter and how
//! a chat message enters, and the weighted draw of a winner.
//!
//! Luck multipliers and fraud scores are fractions, held in thousandths.

use vstd::prelude::*;
use rand::Rng;
use crate::bot::types::{ChatMessage, texts};
use crate::keyed::{keys_distinct, has_key, keyed_map, lemma_key_index_unique, lemma_keyed_update, lemma_keyed_push, lemma_keyed_empty};
use crate::text;

verus! {

/// A chat user's standing, from the lowest.
#[derive(Clone, Copy, Debug, PartialEq, Eq, Structural)]
pub enum UserLevel {
    Viewer,
    Regular,
    Subscriber,
    VIP,
    Moderator,
    Owner,
}

/// The kinds of giveaway.
pub enum GiveawayType {
    /// Everyone who chats within the time is eligible.
    ActiveUser { duration_minutes: u32, min_messages: Option<u32> },
    /// Everyone who types the keyword is eligible.
    Keyword { keyword: String, case_sensitive: bool, anti_spam: bool, max_entries_per_user: Option<u32> },
    /// The first to type the drawn number wins.
    RandomNumber { min: u32, max: u32, auto_generate: bool },
}

/// The settings of a giveaway.
pub struct GiveawaySettings {
    pub eligible_user_levels: Vec<UserLevel>,
    /// Luck multiplier of subscribers, in thousandths.
    pub subscriber_luck_multiplier: u32,
    /// Luck multiplier of regulars, in thousandths.
    pub regular_luck_multiplier: u32,
    /// Highest fraud score allowed to enter, in thousandths.
    pub max_fraud_score: u32,
}

/// Why a giveaway operation failed.
#[derive(Debug)]
pub enum GiveawayError {
    GiveawayAlreadyActive,
    NoActiveGiveaway,
    InvalidConfiguration { reason: String },
    WinnerSelectionFailed { reason: String },
}

/// The reason a configuration is refused, if it is: no eligible levels; a
/// duration outside 1 to 1440 minutes; an empty (blank) or over-long
/// keyword; a number range that is empty or spans more than a million; a
/// luck multiplier outside 1 to 10.
pub open spec fn config_refusal(t: GiveawayType, s: GiveawaySettings) -> Option<Seq<char>> {
    if s.eligible_user_levels@.len() == 0 {
        Some("No eligible user levels specified"@)
    } else if match t {
        GiveawayType::ActiveUser { duration_minutes, .. } => duration_minutes == 0 || duration_minutes > 1440,
        _ => false,
    } {
        Some("Duration must be between 1 and 1440 minutes"@)
    } else if match t {
        GiveawayType::Keyword { keyword, .. } => text::all_whitespace(keyword@),
        _ => false,
    } {
        Some("Keyword cannot be empty"@)
    } else if match t {
        GiveawayType::Keyword { keyword, .. } => crate::bot::pattern_matching::byte_len(keyword@) > 100,
        _ => false,
    } {
        Some("Keyword too long (max 100 characters)"@)
    } else if match t {
        GiveawayType::RandomNumber { min, max, .. } => min >= max,
        _ => false,
    } {
        Some("Minimum must be less than maximum"@)
    } else if match t {
        GiveawayType::RandomNumber { min, max, .. } => max - min > 1000000,
        _ => false,
    } {
        Some("Range too large (max 1,000,000)"@)
    } else if s.subscriber_luck_multiplier < 1000 || s.subscriber_luck_multiplier > 10000 {
        Some("Subscriber luck multiplier must be between 1.0 and 10.0"@)
    } else if s.regular_luck_multiplier < 1000 || s.regular_luck_multiplier > 10000 {
        Some("Regular luck multiplier must be between 1.0 and 10.0"@)
    } else {
        None
    }
}

fn refuse(reason: &str) -> (r: Result<(), GiveawayError>)
    ensures
        r matches Err(GiveawayError::InvalidConfiguration { reason: x }) && x@ == reason@,
{
    Err(GiveawayError::InvalidConfiguration { reason: text::owned(reason) })
}

/// Check a giveaway configuration; see `config_refusal`.
pub fn validate_giveaway_config(giveaway_type: &GiveawayType, settings: &GiveawaySettings) -> (r: Result<(), GiveawayError>)
    ensures
        match config_refusal(*giveaway_type, *settings) {
            None => r is Ok,
            Some(reason) => r matches Err(GiveawayError::InvalidConfiguration { reason: x }) && x@ == reason,
        },
{
    if settings.eligible_user_levels.len() == 0 {
        return refuse("No eligible user levels specified");
    }
    match giveaway_type {
        GiveawayType::ActiveUser { duration_minutes, .. } => {
            if *duration_minutes == 0 || *duration_minutes > 1440 {
                return refuse("Duration must be between 1 and 1440 minutes");
            }
        },
        GiveawayType::Keyword { keyword, .. } => {
            let k = text::chars_of(keyword.as_str());
            if text::is_blank(k.as_slice()) {
                return refuse("Keyword cannot be empty");
            }
            if crate::bot::pattern_matching::utf8_len(k.as_slice()) > 100 {
                return refuse("Keyword too long (max 100 characters)");
            }
        },
        GiveawayType::RandomNumber { min, max, .. } => {
            if *min >= *max {
                return refuse("Minimum must be less than maximum");
            }
            if *max - *min > 1000000 {
                return refuse("Range too large (max 1,000,000)");
            }
        },
    }
    if settings.subscriber_luck_multiplier < 1000 || settings.subscriber_luck_multiplier > 10000 {
        return refuse("Subscriber luck multiplier must be between 1.0 and 10.0");
    }
    if settings.regular_luck_multiplier < 1000 || settings.regular_luck_multiplier > 10000 {
        return refuse("Regular luck multiplier must be between 1.0 and 10.0");
    }
    Ok(())
}

// ---------------------------------------------------------------------------
// Who enters
// ---------------------------------------------------------------------------

/// The standing a message shows: broadcaster or owner badge, moderator, VIP
/// badge, subscriber, a regular (`is_regular`), else a viewer.
pub open spec fn spec_user_level(m: ChatMessage, is_regular: bool) -> UserLevel {
    let badges = texts(m.user_badges@);
    if badges.contains("broadcaster"@) || badges.contains("owner"@) {
        UserLevel::Owner
    } else if m.is_mod {
        UserLevel::Moderator
    } else if badges.contains("vip"@) {
        UserLevel::VIP
    } else if m.is_subscriber {
        UserLevel::Subscriber
    } else if is_regular {
        UserLevel::Regular
    } else {
        UserLevel::Viewer
    }
}

fn has_badge(badges: &Vec<String>, badge: &str) -> (b: bool)
    ensures
        b == texts(badges@).contains(badge@),
{
    let mut i: usize = 0;
    while i < badges.len()
        invariant
            i <= badges@.len(),
            forall|k: int| 0 <= k < i ==> badges@[k]@ != badge@,
        decreases badges@.len() - i,
    {
        if text::same_text(badges[i].as_str(), badge) {
            assert(texts(badges@)[i as int] == badge@);
            return true;
        }
        i = i + 1;
    }
    assert forall|k: int| 0 <= k < texts(badges@).len() implies texts(badges@)[k] != badge@ by {
        assert(texts(badges@)[k] == badges@[k]@);
    }
    false
}

/// The standing a message shows; see `spec_user_level`.
pub fn determine_user_level(message: &ChatMessage, is_regular: bool) -> (l: UserLevel)
    ensures
        l == spec_user_level(*message, is_regular),
{
    if has_badge(&message.user_badges, "broadcaster") || has_badge(&message.user_badges, "owner") {
        UserLevel::Owner
    } else if message.is_mod {
        UserLevel::Moderator
    } else if has_badge(&message.user_badges, "vip") {
        UserLevel::VIP
    } else if message.is_subscriber {
        UserLevel::Subscriber
    } else if is_regular {
        UserLevel::Regular
    } else {
        UserLevel::Viewer
    }
}

/// Whether a message enters a keyword giveaway: it holds the keyword,
/// compared case-insensitively unless the giveaway says otherwise. (A
/// message whose trimmed text is the keyword holds it.)
pub open spec fn keyword_entered(content: Seq<char>, keyword: Seq<char>, case_sensitive: bool) -> bool {
    if case_sensitive {
        text::seq_contains(content, keyword)
    } else {
        text::seq_contains(text::lowercase(content), text::lowercase(keyword))
    }
}

/// Whether a message enters a keyword giveaway; see `keyword_entered`.
pub fn keyword_matches(content: &str, keyword: &str, case_sensitive: bool) -> (b: bool)
    ensures
        b == keyword_entered(content@, keyword@, case_sensitive),
{
    let c = text::chars_of(content);
    let k = text::chars_of(keyword);
    if case_sensitive {
        text::contains(c.as_slice(), k.as_slice())
    } else {
        let lc = text::lowercase_chars(c.as_slice());
        let lk = text::lowercase_chars(k.as_slice());
        text::contains(lc.as_slice(), lk.as_slice())
    }
}

/// `s` without leading and trailing whitespace.
pub open spec fn trimmed(s: Seq<char>) -> Seq<char>
    decreases s.len(),
{
    if s.len() > 0 && text::unicode_whitespace(s[0]) {
        trimmed(s.drop_first())
    } else if s.len() > 0 && text::unicode_whitespace(s.last()) {
        trimmed(s.drop_last())
    } else {
        s
    }
}

proof fn lemma_trimmed_inner(s: Seq<char>, a: int, b: int)
    requires
        0 <= a <= b <= s.len(),
        forall|k: int| 0 <= k < a ==> text::unicode_whitespace(#[trigger] s[k]),
        forall|k: int| b <= k < s.len() ==> text::unicode_whitespace(#[trigger] s[k]),
        a < b ==> !text::unicode_whitespace(s[a]) && !text::unicode_whitespace(s[b - 1]),
    ensures
        trimmed(s) == s.subrange(a, b),
    decreases s.len(),
{
    if s.len() > 0 && text::unicode_whitespace(s[0]) {
        assert(a > 0 || b == 0);
        if a > 0 {
            let t = s.drop_first();
            assert forall|k: int| 0 <= k < a - 1 implies text::unicode_whitespace(#[trigger] t[k]) by {
                assert(t[k] == s[k + 1]);
            }
            assert forall|k: int| b - 1 <= k < t.len() implies text::unicode_whitespace(#[trigger] t[k]) by {
                assert(t[k] == s[k + 1]);
            }
            lemma_trimmed_inner(t, a - 1, b - 1);
            assert(t.subrange(a - 1, b - 1) =~= s.subrange(a, b));
        } else {
            let t = s.drop_first();
            assert forall|k: int| 0 <= k < t.len() implies text::unicode_whitespace(#[trigger] t[k]) by {
                assert(t[k] == s[k + 1]);
            }
            lemma_trimmed_inner(t, 0, 0);
            assert(t.subrange(0, 0) =~= s.subrange(a, b));
        }
    } else if s.len() > 0 && text::unicode_whitespace(s.last()) {
        let t = s.drop_last();
        assert(b < s.len());
        assert forall|k: int| 0 <= k < a implies text::unicode_whitespace(#[trigger] t[k]) by {
            assert(t[k] == s[k]);
        }
        assert forall|k: int| b <= k < t.len() implies text::unicode_whitespace(#[trigger] t[k]) by {
            assert(t[k] == s[k]);
        }
        lemma_trimmed_inner(t, a, b);
        assert(t.subrange(a, b) =~= s.subrange(a, b));
    } else {
        if s.len() > 0 {
            assert(a == 0);
            assert(b == s.len());
        }
        assert(s.subrange(a, b) =~= s);
    }
}

/// `s` without leading and trailing whitespace.
pub fn trim(s: &str) -> (r: Vec<char>)
    ensures
        r@ == trimmed(s@),
{
    let c = text::chars_of(s);
    let mut a: usize = 0;
    while a < c.len() && text::is_whitespace(c[a])
        invariant
            a <= c@.len(),
            forall|k: int| 0 <= k < a ==> text::unicode_whitespace(#[trigger] c@[k]),
        decreases c@.len() - a,
    {
        a = a + 1;
    }
    let mut b: usize = c.len();
    while b > a && text::is_whitespace(c[b - 1])
        invariant
            a <= b <= c@.len(),
            forall|k: int| b <= k < c@.len() ==> text::unicode_whitespace(#[trigger] c@[k]),
        decreases b,
    {
        b = b - 1;
    }
    proof {
        lemma_trimmed_inner(c@, a as int, b as int);
    }
    text::slice(&c, a, b)
}

/// The number a message types: its trimmed text read as a `u32`.
pub open spec fn typed_number(content: Seq<char>) -> Option<u32> {
    match text::parse_unsigned(trimmed(content), u32::MAX as int) {
        Some(v) => Some(v as u32),
        None => None,
    }
}

/// The number a message types; see `typed_number`.
pub fn read_typed_number(content: &str) -> (r: Option<u32>)
    ensures
        r == typed_number(content@),
{
    let t = trim(content);
    let s = text::string_from_chars(t.as_slice());
    match text::parse_uint(s.as_str(), u32::MAX as u64) {
        Some(v) => Some(v as u32),
        None => None,
    }
}

// ---------------------------------------------------------------------------
// The weighted draw
// ---------------------------------------------------------------------------

/// Sum of the first `k` weights.
pub open spec fn weight_prefix(w: Seq<u32>, k: int) -> int
    decreases k,
{
    if k <= 0 { 0 } else { weight_prefix(w, k - 1) + w[k - 1] }
}

proof fn lemma_weight_prefix_mono(w: Seq<u32>, a: int, b: int)
    requires
        0 <= a <= b <= w.len(),
    ensures
        weight_prefix(w, a) <= weight_prefix(w, b),
    decreases b - a,
{
    if a < b {
        lemma_weight_prefix_mono(w, a, b - 1);
    }
}

/// The entrant a drawn ticket falls to: entrant `i` holds the tickets after
/// the weights before it, up to and including its own.
pub open spec fn ticket_holder(w: Seq<u32>, ticket: int, i: int) -> bool {
    0 <= i < w.len() && weight_prefix(w, i) < ticket <= weight_prefix(w, i + 1)
}

/// Whether entrant `i` holds one of the tickets, numbered from 1 to the
/// total weight.
pub open spec fn drawn_winner(w: Seq<u32>, i: int) -> bool {
    exists|t: int| 1 <= t <= weight_prefix(w, w.len() as int) && #[trigger] ticket_holder(w, t, i)
}

/// The entrant ticket `ticket` (1 to the total weight) falls to.
pub fn select_weighted(weights: &Vec<u32>, ticket: u64) -> (i: usize)
    requires
        1 <= ticket <= weight_prefix(weights@, weights@.len() as int),
    ensures
        ticket_holder(weights@, ticket as int, i as int),
{
    let mut total: u128 = 0;
    let mut i: usize = 0;
    while i < weights.len()
        invariant
            i <= weights@.len(),
            total == weight_prefix(weights@, i as int),
            total < ticket,
            ticket <= weight_prefix(weights@, weights@.len() as int),
        decreases weights@.len() - i,
    {
        proof {
            lemma_weight_prefix_mono(weights@, i + 1, weights@.len() as int);
        }
        total = total + weights[i] as u128;
        if total >= ticket as u128 {
            return i;
        }
        i = i + 1;
    }
    i
}

/// A ticket drawn with `rand::thread_rng().gen_range(1..=total)`: a number
/// from 1 to `total`; which one is chance.
#[verifier::external_body]
fn draw_ticket(total: u64) -> (t: u64)
    requires
        total >= 1,
    ensures
        1 <= t <= total,
{
    rand::thread_rng().gen_range(1..=total)
}

/// The total weight, when it fits in a `u64`.
fn total_weight(weights: &Vec<u32>) -> (t: u64)
    requires
        weights@.len() <= u32::MAX,
    ensures
        t == weight_prefix(weights@, weights@.len() as int),
{
    let mut total: u64 = 0;
    let mut i: usize = 0;
    while i < weights.len()
        invariant
            i <= weights@.len(),
            weights@.len() <= u32::MAX,
            total == weight_prefix(weights@, i as int),
            total <= i * (u32::MAX as int),
        decreases weights@.len() - i,
    {
        total = total + weights[i] as u64;
        i = i + 1;
    }
    total
}

/// Draw the winner among eligible entrants with these weights: refused
/// when there is nobody, or nobody holds a ticket; otherwise the entrant
/// that a ticket drawn by chance falls to.
pub fn select_winner(weights: &Vec<u32>) -> (r: Result<usize, GiveawayError>)
    requires
        weights@.len() <= u32::MAX,
    ensures
        weights@.len() == 0 ==> (r matches Err(GiveawayError::WinnerSelectionFailed { reason: x }) && x@ == "No eligible users"@),
        weights@.len() > 0 && weight_prefix(weights@, weights@.len() as int) == 0
            ==> (r matches Err(GiveawayError::WinnerSelectionFailed { reason: x }) && x@ == "No valid entries"@),
        weight_prefix(weights@, weights@.len() as int) > 0 ==> r is Ok,
        r is Ok ==> drawn_winner(weights@, r->Ok_0 as int),
{
    if weights.len() == 0 {
        return Err(GiveawayError::WinnerSelectionFailed { reason: text::owned("No eligible users") });
    }
    let total = total_weight(weights);
    if total == 0 {
        return Err(GiveawayError::WinnerSelectionFailed { reason: text::owned("No valid entries") });
    }
    let ticket = draw_ticket(total);
    let i = select_weighted(weights, ticket);
    assert(ticket_holder(weights@, ticket as int, i as int));
    assert(1 <= ticket as int <= weight_prefix(weights@, weights@.len() as int));
    assert(drawn_winner(weights@, i as int));
    Ok(i)
}

// ---------------------------------------------------------------------------
// The running giveaway
// ---------------------------------------------------------------------------

/// Where a giveaway stands.
#[derive(Clone, Copy, Debug, PartialEq, Eq, Structural)]
pub enum GiveawayStatus {
    Active,
    Completed,
    Cancelled,
    Failed,
}

/// Someone who entered a giveaway.
pub struct Participant {
    pub username: String,
    pub platform: String,
    pub user_level: UserLevel,
    pub eligible: bool,
    pub manual_override: bool,
}

/// The winner of a giveaway.
pub struct GiveawayWinner {
    pub username: String,
    pub platform: String,
    pub user_level: UserLevel,
    pub entries: u32,
    /// The entry that won, such as the number typed.
    pub winning_entry: Option<String>,
}

/// The key a user is entered under: platform, a colon, and the lowercase name.
pub open spec fn entrant_key(platform: Seq<char>, username: Seq<char>) -> Seq<char> {
    platform + ":"@ + text::lowercase(username)
}

pub open spec fn participant_key() -> spec_fn(Participant) -> Seq<char> {
    |p: Participant| entrant_key(p.platform@, p.username@)
}

pub open spec fn entry_key() -> spec_fn(String) -> Seq<char> {
    |k: String| k@
}

/// A giveaway in progress.
pub struct ActiveGiveaway {
    pub giveaway_type: GiveawayType,
    pub settings: GiveawaySettings,
    pub creator: String,
    pub channel: String,
    /// A platform's name, or `all`.
    pub platform: String,
    /// Start, in seconds since the epoch.
    pub start_time: u64,
    pub generated_number: Option<u32>,
    pub participants: Vec<Participant>,
    pub keyword_entries: Vec<String>,
    pub winner: Option<GiveawayWinner>,
    pub status: GiveawayStatus,
}

/// What a chat message does to a running giveaway.
pub enum EntryDecision {
    Ignore,
    /// The sender becomes eligible.
    MarkEligible,
    /// The sender enters with the keyword and becomes eligible.
    KeywordEntry,
    /// The sender typed the drawn number and wins.
    Win(u32),
}

impl ActiveGiveaway {
    /// The participants by key.
    pub closed spec fn participants(&self) -> Map<Seq<char>, Participant> {
        keyed_map(self.participants@, participant_key())
    }

    /// The keys that entered with the keyword.
    pub closed spec fn keyword_entered_keys(&self) -> Set<Seq<char>> {
        keyed_map(self.keyword_entries@, entry_key()).dom()
    }

    pub closed spec fn wf(&self) -> bool {
        keys_distinct(self.participants@, participant_key()) && keys_distinct(self.keyword_entries@, entry_key())
    }

    /// A new giveaway with nobody entered.
    pub fn new(giveaway_type: GiveawayType, settings: GiveawaySettings, creator: String, channel: String,
        platform: String, start_time: u64) -> (g: Self)
        ensures
            g.wf(),
            g.participants() == Map::<Seq<char>, Participant>::empty(),
            g.keyword_entered_keys() == Set::<Seq<char>>::empty(),
            g.giveaway_type == giveaway_type,
            g.settings == settings,
            g.creator == creator,
            g.channel == channel,
            g.platform == platform,
            g.start_time == start_time,
            g.generated_number is None,
            g.winner is None,
            g.status == GiveawayStatus::Active,
    {
        proof {
            lemma_keyed_empty(participant_key());
            lemma_keyed_empty(entry_key());
        }
        ActiveGiveaway {
            giveaway_type, settings, creator, channel, platform, start_time,
            generated_number: None,
            participants: Vec::new(),
            keyword_entries: Vec::new(),
            winner: None,
            status: GiveawayStatus::Active,
        }
    }

    /// Whether users of this standing may enter.
    pub open spec fn level_allowed(&self, level: UserLevel) -> bool {
        self.settings.eligible_user_levels@.contains(level)
    }

    /// Whether a timed giveaway is over at `now`.
    pub open spec fn timed_out(&self, now: u64) -> bool {
        match self.giveaway_type {
            GiveawayType::ActiveUser { duration_minutes, .. } => now >= self.start_time + duration_minutes * 60,
            _ => false,
        }
    }

    /// What message `m` from a user of standing `level` with fraud score
    /// `fraud` (thousandths) does at `now`: nothing unless it comes from the
    /// giveaway's platform (or any, for `all`) and channel, from a standing
    /// that may enter, with a fraud score within the limit; then, by kind:
    /// eligibility while a timed giveaway runs; a keyword entry for a
    /// message holding the keyword (once only, with anti-spam); a win for
    /// the drawn number.
    pub open spec fn spec_entry_decision(&self, m: ChatMessage, level: UserLevel, fraud: u32, now: u64) -> EntryDecision {
        if self.platform@ != "all"@ && self.platform@ != m.platform@ {
            EntryDecision::Ignore
        } else if self.channel@ != m.channel@ {
            EntryDecision::Ignore
        } else if !self.level_allowed(level) {
            EntryDecision::Ignore
        } else if fraud > self.settings.max_fraud_score {
            EntryDecision::Ignore
        } else {
            match self.giveaway_type {
                GiveawayType::ActiveUser { .. } =>
                    if self.timed_out(now) { EntryDecision::Ignore } else { EntryDecision::MarkEligible },
                GiveawayType::Keyword { keyword, case_sensitive, anti_spam, .. } =>
                    if !keyword_entered(m.content@, keyword@, case_sensitive) {
                        EntryDecision::Ignore
                    } else if anti_spam && self.keyword_entered_keys().contains(entrant_key(m.platform@, m.username@)) {
                        EntryDecision::Ignore
                    } else {
                        EntryDecision::KeywordEntry
                    },
                GiveawayType::RandomNumber { .. } => match self.generated_number {
                    Some(n) => if typed_number(m.content@) == Some(n) { EntryDecision::Win(n) } else { EntryDecision::Ignore },
                    None => EntryDecision::Ignore,
                },
            }
        }
    }

    fn has_keyword_entry(&self, key: &str) -> (b: bool)
        requires
            self.wf(),
        ensures
            b == self.keyword_entered_keys().contains(key@),
    {
        let mut i: usize = 0;
        while i < self.keyword_entries.len()
            invariant
                i <= self.keyword_entries@.len(),
                forall|k: int| 0 <= k < i ==> self.keyword_entries@[k]@ != key@,
            decreases self.keyword_entries@.len() - i,
        {
            if text::same_text(self.keyword_entries[i].as_str(), key) {
                assert(entry_key()(self.keyword_entries@[i as int]) == key@);
                return true;
            }
            i = i + 1;
        }
        assert(!has_key(self.keyword_entries@, entry_key(), key@));
        false
    }

    fn level_in_settings(&self, level: UserLevel) -> (b: bool)
        ensures
            b == self.level_allowed(level),
    {
        let mut i: usize = 0;
        while i < self.settings.eligible_user_levels.len()
            invariant
                i <= self.settings.eligible_user_levels@.len(),
                forall|k: int| 0 <= k < i ==> self.settings.eligible_user_levels@[k] != level,
            decreases self.settings.eligible_user_levels@.len() - i,
        {
            if self.settings.eligible_user_levels[i] == level {
                return true;
            }
            i = i + 1;
        }
        false
    }

    /// What a message does to this giveaway; see `spec_entry_decision`.
    pub fn entry_decision(&self, m: &ChatMessage, level: UserLevel, fraud: u32, now: u64) -> (d: EntryDecision)
        requires
            self.wf(),
        ensures
            d == self.spec_entry_decision(*m, level, fraud, now),
    {
        if !text::same_text(self.platform.as_str(), "all") && !text::same_text(self.platform.as_str(), m.platform.as_str()) {
            return EntryDecision::Ignore;
        }
        if !text::same_text(self.channel.as_str(), m.channel.as_str()) {
            return EntryDecision::Ignore;
        }
        if !self.level_in_settings(level) {
            return EntryDecision::Ignore;
        }
        if fraud > self.settings.max_fraud_score {
            return EntryDecision::Ignore;
        }
        match &self.giveaway_type {
            GiveawayType::ActiveUser { duration_minutes, .. } => {
                if (now as u128) >= (self.start_time as u128) + (*duration_minutes as u128) * 60 {
                    EntryDecision::Ignore
                } else {
                    EntryDecision::MarkEligible
                }
            },
            GiveawayType::Keyword { keyword, case_sensitive, anti_spam, .. } => {
                if !keyword_matches(m.content.as_str(), keyword.as_str(), *case_sensitive) {
                    EntryDecision::Ignore
                } else {
                    let key = entry_key_of(m.platform.as_str(), m.username.as_str());
                    if *anti_spam && self.has_keyword_entry(key.as_str()) {
                        EntryDecision::Ignore
                    } else {
                        EntryDecision::KeywordEntry
                    }
                }
            },
            GiveawayType::RandomNumber { .. } => match self.generated_number {
                Some(n) => {
                    if read_typed_number(m.content.as_str()) == Some(n) {
                        EntryDecision::Win(n)
                    } else {
                        EntryDecision::Ignore
                    }
                },
                None => EntryDecision::Ignore,
            },
        }
    }

    fn find_participant(&self, key: &str) -> (r: Option<usize>)
        requires
            self.wf(),
        ensures
            match r {
                Some(i) => i < self.participants@.len() && participant_key()(self.participants@[i as int]) == key@
                    && self.participants().dom().contains(key@) && self.participants()[key@] == self.participants@[i as int],
                None => !self.participants().dom().contains(key@),
            },
    {
        let mut i: usize = 0;
        while i < self.participants.len()
            invariant
                i <= self.participants@.len(),
                self.wf(),
                forall|k: int| 0 <= k < i ==> participant_key()(self.participants@[k]) != key@,
            decreases self.participants@.len() - i,
        {
            let pk = entry_key_of(self.participants[i].platform.as_str(), self.participants[i].username.as_str());
            if text::same_text(pk.as_str(), key) {
                proof {
                    lemma_key_index_unique(self.participants@, participant_key(), i as int);
                }
                return Some(i);
            }
            i = i + 1;
        }
        assert(!has_key(self.participants@, participant_key(), key@));
        None
    }

    /// Make a user eligible: a new entry (not overridden by hand) for a user
    /// not entered yet; otherwise the entry becomes eligible at this standing.
    pub fn update_user_eligibility(&mut self, username: String, platform: String, level: UserLevel)
        requires
            old(self).wf(),
        ensures
            final(self).wf(),
            final(self).participants() == old(self).participants().insert(entrant_key(platform@, username@), Participant {
                username,
                platform,
                user_level: level,
                eligible: true,
                manual_override: if old(self).participants().dom().contains(entrant_key(platform@, username@)) {
                    old(self).participants()[entrant_key(platform@, username@)].manual_override
                } else {
                    false
                },
            }),
            final(self).keyword_entered_keys() == old(self).keyword_entered_keys(),
            final(self).giveaway_type == old(self).giveaway_type,
            final(self).settings == old(self).settings,
            final(self).winner == old(self).winner,
            final(self).status == old(self).status,
            final(self).generated_number == old(self).generated_number,
            final(self).platform == old(self).platform,
            final(self).channel == old(self).channel,
    {
        let key = entry_key_of(platform.as_str(), username.as_str());
        let ghost s0 = self.participants@;
        match self.find_participant(key.as_str()) {
            Some(i) => {
                let keep = self.participants[i].manual_override;
                let p = Participant { username, platform, user_level: level, eligible: true, manual_override: keep };
                let ghost pg = p;
                self.participants.set(i, p);
                proof {
                    lemma_keyed_update(s0, participant_key(), i as int, pg);
                }
            },
            None => {
                let p = Participant { username, platform, user_level: level, eligible: true, manual_override: false };
                let ghost pg = p;
                self.participants.push(p);
                proof {
                    lemma_keyed_push(s0, participant_key(), pg);
                }
            },
        }
    }

    fn record_keyword_entry(&mut self, key: String)
        requires
            old(self).wf(),
        ensures
            final(self).wf(),
            final(self).keyword_entered_keys() == old(self).keyword_entered_keys().insert(key@),
            final(self).participants() == old(self).participants(),
            final(self).giveaway_type == old(self).giveaway_type,
            final(self).settings == old(self).settings,
            final(self).winner == old(self).winner,
            final(self).status == old(self).status,
            final(self).generated_number == old(self).generated_number,
            final(self).platform == old(self).platform,
            final(self).channel == old(self).channel,
    {
        let ghost s0 = self.keyword_entries@;
        let ghost k = key@;
        if self.has_keyword_entry(key.as_str()) {
            assert(self.keyword_entered_keys().insert(k) =~= self.keyword_entered_keys());
        } else {
            let ghost kg = key;
            self.keyword_entries.push(key);
            proof {
                lemma_keyed_push(s0, entry_key(), kg);
            }
            assert(self.keyword_entered_keys() =~= old(self).keyword_entered_keys().insert(k));
        }
    }
}

/// `platform:lowercase(username)`.
fn entry_key_of(platform: &str, username: &str) -> (k: String)
    ensures
        k@ == entrant_key(platform@, username@),
{
    let l = text::to_lowercase(username);
    let a = text::concat(platform, ":");
    text::concat(a.as_str(), l.as_str())
}

/// What applying decision `d` for message `m` from a user of standing
/// `level` turns `g0` into: nothing changes when it is ignored; eligibility
/// goes to the sender at `level`, and a keyword entry is recorded under the
/// sender's key; a win completes the giveaway with the sender as winner of
/// one entry, the number typed being the winning entry.
pub open spec fn message_applied(g0: ActiveGiveaway, g1: ActiveGiveaway, m: ChatMessage, level: UserLevel,
    d: EntryDecision) -> bool {
    &&& g1.wf()
    &&& g1.giveaway_type == g0.giveaway_type
    &&& g1.platform == g0.platform
    &&& g1.channel == g0.channel
    &&& g1.settings == g0.settings
    &&& g1.generated_number == g0.generated_number
    &&& match d {
        EntryDecision::Ignore => g1 == g0,
        EntryDecision::MarkEligible | EntryDecision::KeywordEntry => {
            &&& g1.participants().dom() == g0.participants().dom().insert(entrant_key(m.platform@, m.username@))
            &&& g1.participants()[entrant_key(m.platform@, m.username@)].eligible
            &&& g1.participants()[entrant_key(m.platform@, m.username@)].user_level == level
            &&& g1.keyword_entered_keys() == (if d is KeywordEntry {
                g0.keyword_entered_keys().insert(entrant_key(m.platform@, m.username@))
            } else {
                g0.keyword_entered_keys()
            })
            &&& g1.winner == g0.winner
            &&& g1.status == g0.status
        },
        EntryDecision::Win(n) => {
            &&& g1.status == GiveawayStatus::Completed
            &&& g1.participants() == g0.participants()
            &&& match g1.winner {
                Some(w) => w.username@ == m.username@ && w.platform@ == m.platform@ && w.user_level == level
                    && w.entries == 1 && (w.winning_entry matches Some(e) && e@ == text::nat_digits(n as nat)),
                None => false,
            }
        },
    }
}

/// Apply a message to a running giveaway: `spec_entry_decision` says what
/// it decides and `message_applied` what that does.
pub fn process_giveaway_message(g: &mut ActiveGiveaway, m: &ChatMessage, level: UserLevel, fraud: u32, now: u64)
    -> (d: EntryDecision)
    requires
        old(g).wf(),
    ensures
        d == old(g).spec_entry_decision(*m, level, fraud, now),
        message_applied(*old(g), *final(g), *m, level, d),
{
    let d = g.entry_decision(m, level, fraud, now);
    match d {
        EntryDecision::Ignore => {},
        EntryDecision::MarkEligible => {
            g.update_user_eligibility(m.username.clone(), m.platform.clone(), level);
        },
        EntryDecision::KeywordEntry => {
            let key = entry_key_of(m.platform.as_str(), m.username.as_str());
            g.record_keyword_entry(key);
            g.update_user_eligibility(m.username.clone(), m.platform.clone(), level);
        },
        EntryDecision::Win(n) => {
            g.winner = Some(GiveawayWinner {
                username: m.username.clone(),
                platform: m.platform.clone(),
                user_level: level,
                entries: 1,
                winning_entry: Some(text::nat_decimal(n as u64)),
            });
            g.status = GiveawayStatus::Completed;
        },
    }
    d
}

// ---------------------------------------------------------------------------
// Starting a giveaway
// ---------------------------------------------------------------------------

/// A number drawn with `rand::thread_rng().gen_range(min..=max)`: from `min`
/// to `max`; which one is chance.
#[verifier::external_body]
fn draw_in_range(min: u32, max: u32) -> (n: u32)
    requires
        min <= max,
    ensures
        min <= n <= max,
{
    rand::thread_rng().gen_range(min..=max)
}

/// What an error says.
pub open spec fn error_text(e: GiveawayError) -> Seq<char> {
    match e {
        GiveawayError::GiveawayAlreadyActive => "A giveaway is already active"@,
        GiveawayError::NoActiveGiveaway => "No active giveaway"@,
        GiveawayError::InvalidConfiguration { reason } => "Invalid giveaway configuration: "@ + reason@,
        GiveawayError::WinnerSelectionFailed { reason } => "Winner selection failed: "@ + reason@,
    }
}

impl GiveawayError {
    /// What the error says.
    pub fn message(&self) -> (r: String)
        ensures
            r@ == error_text(*self),
    {
        match self {
            GiveawayError::GiveawayAlreadyActive => text::owned("A giveaway is already active"),
            GiveawayError::NoActiveGiveaway => text::owned("No active giveaway"),
            GiveawayError::InvalidConfiguration { reason } => text::concat("Invalid giveaway configuration: ", reason.as_str()),
            GiveawayError::WinnerSelectionFailed { reason } => text::concat("Winner selection failed: ", reason.as_str()),
        }
    }
}

/// Whether two settings are the same.
pub open spec fn same_settings(a: GiveawaySettings, b: GiveawaySettings) -> bool {
    &&& a.eligible_user_levels@ == b.eligible_user_levels@
    &&& a.subscriber_luck_multiplier == b.subscriber_luck_multiplier
    &&& a.regular_luck_multiplier == b.regular_luck_multiplier
    &&& a.max_fraud_score == b.max_fraud_score
}

/// A copy of a giveaway's settings.
pub fn copy_settings(s: &GiveawaySettings) -> (r: GiveawaySettings)
    ensures
        same_settings(r, *s),
{
    let mut levels: Vec<UserLevel> = Vec::new();
    let mut i: usize = 0;
    while i < s.eligible_user_levels.len()
        invariant
            i <= s.eligible_user_levels@.len(),
            levels@ == s.eligible_user_levels@.take(i as int),
        decreases s.eligible_user_levels@.len() - i,
    {
        levels.push(s.eligible_user_levels[i]);
        assert(s.eligible_user_levels@.take(i + 1) =~= s.eligible_user_levels@.take(i as int).push(s.eligible_user_levels@[i as int]));
        i = i + 1;
    }
    assert(s.eligible_user_levels@.take(s.eligible_user_levels@.len() as int) =~= s.eligible_user_levels@);
    GiveawaySettings {
        eligible_user_levels: levels,
        subscriber_luck_multiplier: s.subscriber_luck_multiplier,
        regular_luck_multiplier: s.regular_luck_multiplier,
        max_fraud_score: s.max_fraud_score,
    }
}

/// The running giveaway, if any, the settings new ones use by default, the
/// users' fraud scores, and how many giveaways were started, how many ended
/// with a winner or without one, and how many took part in those that ended.
pub struct GiveawaySystem {
    pub active_giveaway: Option<ActiveGiveaway>,
    pub default_settings: GiveawaySettings,
    /// Fraud scores in thousandths, by entrant key.
    pub fraud_scores: Vec<(String, u32)>,
    pub total_giveaways: u64,
    pub successful_giveaways: u64,
    pub cancelled_giveaways: u64,
    pub total_participants: u64,
}

pub open spec fn score_key() -> spec_fn((String, u32)) -> Seq<char> {
    |e: (String, u32)| e.0@
}

impl GiveawaySystem {
    pub fn new(default_settings: GiveawaySettings) -> (s: Self)
        ensures
            s.active_giveaway is None,
            s.default_settings == default_settings,
            s.total_giveaways == 0,
            s.successful_giveaways == 0,
            s.cancelled_giveaways == 0,
            s.total_participants == 0,
            s.scores_wf(),
            s.fraud_map() == Map::<Seq<char>, u32>::empty(),
    {
        proof {
            lemma_keyed_empty(score_key());
        }
        let s = GiveawaySystem {
            active_giveaway: None,
            default_settings,
            fraud_scores: Vec::new(),
            total_giveaways: 0,
            successful_giveaways: 0,
            cancelled_giveaways: 0,
            total_participants: 0,
        };
        assert(s.fraud_map() =~= Map::<Seq<char>, u32>::empty());
        s
    }

    /// What starting a giveaway at `now` does: refused while one runs, or
    /// when its configuration is refused (see `config_refusal`; the custom
    /// settings, else the defaults); otherwise it runs, with nobody entered
    /// and, for a number giveaway that draws its number, a number drawn in
    /// its range, and one more giveaway is counted.
    pub open spec fn started(
        before: GiveawaySystem,
        after: GiveawaySystem,
        t: GiveawayType,
        settings: GiveawaySettings,
        creator: Seq<char>,
        channel: Seq<char>,
        platform: Seq<char>,
        now: u64,
        r: Result<(), GiveawayError>,
    ) -> bool {
        if before.active_giveaway is Some {
            r matches Err(GiveawayError::GiveawayAlreadyActive) && after == before
        } else if config_refusal(t, settings) is Some {
            &&& (r matches Err(GiveawayError::InvalidConfiguration { reason }) && Some(reason@) == config_refusal(t, settings))
            &&& after == before
        } else {
            &&& r is Ok
            &&& after.total_giveaways == before.total_giveaways + 1
            &&& after.successful_giveaways == before.successful_giveaways
            &&& after.cancelled_giveaways == before.cancelled_giveaways
            &&& after.total_participants == before.total_participants
            &&& after.fraud_scores == before.fraud_scores
            &&& after.default_settings == before.default_settings
            &&& match after.active_giveaway {
                Some(g) => {
                    &&& g.wf()
                    &&& g.giveaway_type == t
                    &&& same_settings(g.settings, settings)
                    &&& g.creator@ == creator && g.channel@ == channel && g.platform@ == platform
                    &&& g.start_time == now
                    &&& g.status == GiveawayStatus::Active
                    &&& g.winner is None
                    &&& g.participants() == Map::<Seq<char>, Participant>::empty()
                    &&& match t {
                        GiveawayType::RandomNumber { min, max, auto_generate } => if auto_generate {
                            g.generated_number matches Some(n) && min <= n <= max
                        } else {
                            g.generated_number is None
                        },
                        _ => g.generated_number is None,
                    }
                },
                None => false,
            }
        }
    }

    /// Start a giveaway at `now` (seconds); see `started`.
    pub fn start_giveaway_at(
        &mut self,
        giveaway_type: GiveawayType,
        creator: String,
        channel: String,
        platform: String,
        custom_settings: Option<GiveawaySettings>,
        now: u64,
    ) -> (r: Result<(), GiveawayError>)
        requires
            old(self).total_giveaways < u64::MAX,
        ensures
            final(self).scores_wf() == old(self).scores_wf(),
            Self::started(*old(self), *final(self), giveaway_type,
                match custom_settings { Some(c) => c, None => old(self).default_settings },
                creator@, channel@, platform@, now, r),
    {
        if self.active_giveaway.is_some() {
            return Err(GiveawayError::GiveawayAlreadyActive);
        }
        let settings = match custom_settings {
            Some(c) => c,
            None => copy_settings(&self.default_settings),
        };
        match validate_giveaway_config(&giveaway_type, &settings) {
            Err(e) => {
                return Err(e);
            },
            Ok(()) => {},
        }
        let number = match &giveaway_type {
            GiveawayType::RandomNumber { min, max, auto_generate } => {
                if *auto_generate { Some(draw_in_range(*min, *max)) } else { None }
            },
            _ => None,
        };
        let mut g = ActiveGiveaway::new(giveaway_type, settings, creator, channel, platform, now);
        g.generated_number = number;
        self.active_giveaway = Some(g);
        self.total_giveaways = self.total_giveaways + 1;
        Ok(())
    }
}

/// Whether two winners are the same.
pub open spec fn same_winner(a: GiveawayWinner, b: GiveawayWinner) -> bool {
    &&& a.username@ == b.username@
    &&& a.platform@ == b.platform@
    &&& a.user_level == b.user_level
    &&& a.entries == b.entries
    &&& crate::bot::moderation::opt_view(a.winning_entry) == crate::bot::moderation::opt_view(b.winning_entry)
}

/// The eligible participants, in the order they entered.
pub open spec fn eligible_list(ps: Seq<Participant>) -> Seq<Participant>
    decreases ps.len(),
{
    if ps.len() == 0 {
        Seq::empty()
    } else {
        eligible_list(ps.drop_last()) + if ps.last().eligible { seq![ps.last()] } else { Seq::empty() }
    }
}

impl GiveawaySystem {
    /// What ending the running giveaway does: refused when none runs; a
    /// forced end cancels it with no winner; otherwise a number giveaway
    /// already won keeps its winner, and any other is drawn among the
    /// eligible participants with their `weights` (see `select_winner`), a
    /// failed draw ending it without winner. The giveaway stops running, is
    /// counted as successful or cancelled, and its participants are counted.
    pub open spec fn ended(before: GiveawaySystem, after: GiveawaySystem, force: bool, weights: Seq<u32>,
        r: Result<Option<GiveawayWinner>, GiveawayError>) -> bool {
        match before.active_giveaway {
            None => r matches Err(GiveawayError::NoActiveGiveaway) && after == before,
            Some(g) => {
                let el = eligible_list(g.participants@);
                &&& after.active_giveaway is None
                &&& after.default_settings == before.default_settings
                &&& after.total_giveaways == before.total_giveaways
                &&& after.total_participants == before.total_participants + g.participants@.len()
                &&& after.fraud_scores == before.fraud_scores
                &&& if force {
                    &&& r matches Ok(None)
                    &&& after.cancelled_giveaways == before.cancelled_giveaways + 1
                    &&& after.successful_giveaways == before.successful_giveaways
                } else if el.len() == 0 || (!(g.giveaway_type is RandomNumber && g.winner is Some)
                    && weight_prefix(weights, weights.len() as int) == 0) {
                    &&& r matches Ok(None)
                    &&& after.cancelled_giveaways == before.cancelled_giveaways + 1
                    &&& after.successful_giveaways == before.successful_giveaways
                } else {
                    &&& after.successful_giveaways == before.successful_giveaways + 1
                    &&& after.cancelled_giveaways == before.cancelled_giveaways
                    &&& match r {
                        Ok(Some(w)) => if g.giveaway_type is RandomNumber && g.winner is Some {
                            same_winner(w, g.winner->0)
                        } else {
                            exists|i: int| #[trigger] drawn_winner(weights, i) && {
                                let p = el[i];
                                w.username@ == p.username@ && w.platform@ == p.platform@ && w.user_level == p.user_level
                                    && w.entries == weights[i] && w.winning_entry is None
                            }
                        },
                        _ => false,
                    }
                }
            },
        }
    }

    /// End the running giveaway, `weights` giving the entries of each
    /// eligible participant in order; see `ended`.
    pub fn end_giveaway(&mut self, force: bool, weights: &Vec<u32>) -> (r: Result<Option<GiveawayWinner>, GiveawayError>)
        requires
            !force ==> (old(self).active_giveaway matches Some(g) ==> weights@.len() == eligible_list(g.participants@).len()),
            weights@.len() <= u32::MAX,
            !force ==> old(self).successful_giveaways < u64::MAX,
            old(self).cancelled_giveaways < u64::MAX,
            old(self).active_giveaway matches Some(g) ==> old(self).total_participants + g.participants@.len() <= u64::MAX,
        ensures
            final(self).scores_wf() == old(self).scores_wf(),
            Self::ended(*old(self), *final(self), force, weights@, r),
    {
        let g = match self.active_giveaway.take() {
            Some(g) => g,
            None => {
                return Err(GiveawayError::NoActiveGiveaway);
            },
        };
        self.total_participants = self.total_participants + g.participants.len() as u64;
        if force {
            self.cancelled_giveaways = self.cancelled_giveaways + 1;
            return Ok(None);
        }
        let ghost ps = g.participants@;
        let mut eligible: Vec<usize> = Vec::new();
        let mut i: usize = 0;
        while i < g.participants.len()
            invariant
                i <= ps.len(),
                ps == g.participants@,
                eligible@.len() == eligible_list(ps.take(i as int)).len(),
                forall|k: int| 0 <= k < eligible@.len() ==> #[trigger] eligible@[k] < i
                    && ps[eligible@[k] as int] == eligible_list(ps.take(i as int))[k],
            decreases ps.len() - i,
        {
            assert(ps.take(i + 1).drop_last() =~= ps.take(i as int));
            assert(ps.take(i + 1).last() == ps[i as int]);
            if g.participants[i].eligible {
                eligible.push(i);
            }
            i = i + 1;
        }
        assert(ps.take(ps.len() as int) =~= ps);
        if eligible.len() == 0 {
            self.cancelled_giveaways = self.cancelled_giveaways + 1;
            return Ok(None);
        }
        let already = match (&g.giveaway_type, &g.winner) {
            (GiveawayType::RandomNumber { .. }, Some(w)) => Some(GiveawayWinner {
                username: w.username.clone(),
                platform: w.platform.clone(),
                user_level: w.user_level,
                entries: w.entries,
                winning_entry: crate::bot::types::copy_opt(&w.winning_entry),
            }),
            _ => None,
        };
        match already {
            Some(w) => {
                self.successful_giveaways = self.successful_giveaways + 1;
                Ok(Some(w))
            },
            None => match select_winner(weights) {
                Ok(k) => {
                    assert(drawn_winner(weights@, k as int));
                    assert(0 <= k < weights@.len());
                    assert(g.participants@[eligible@[k as int] as int] == eligible_list(ps)[k as int]);
                    let p = &g.participants[eligible[k]];
                    let w = GiveawayWinner {
                        username: p.username.clone(),
                        platform: p.platform.clone(),
                        user_level: p.user_level,
                        entries: weights[k],
                        winning_entry: None,
                    };
                    self.successful_giveaways = self.successful_giveaways + 1;
                    Ok(Some(w))
                },
                Err(_) => {
                    proof {
                        lemma_weight_prefix_mono(weights@, 0, weights@.len() as int);
                    }
                    self.cancelled_giveaways = self.cancelled_giveaways + 1;
                    Ok(None)
                },
            },
        }
    }

    /// What switching the eligibility of `username` on `platform` by hand
    /// answers: refused when no giveaway runs, else whether the user is now
    /// eligible.
    pub open spec fn toggle_result(before: GiveawaySystem, platform: Seq<char>, username: Seq<char>)
        -> Result<bool, GiveawayError> {
        match before.active_giveaway {
            None => Err(GiveawayError::NoActiveGiveaway),
            Some(g0) => {
                let key = entrant_key(platform, username);
                if g0.participants().dom().contains(key) {
                    Ok(!g0.participants()[key].eligible)
                } else {
                    Ok(true)
                }
            },
        }
    }

    /// What switching it does: an entered user's eligibility flips; a user
    /// not entered is entered as an eligible viewer, marked as added by
    /// hand; no one else changes. Without a running giveaway nothing does.
    pub open spec fn toggled(before: GiveawaySystem, after: GiveawaySystem, platform: Seq<char>, username: Seq<char>)
        -> bool {
        &&& after.default_settings == before.default_settings
        &&& after.total_giveaways == before.total_giveaways
        &&& after.successful_giveaways == before.successful_giveaways
        &&& after.cancelled_giveaways == before.cancelled_giveaways
        &&& after.total_participants == before.total_participants
        &&& after.fraud_scores == before.fraud_scores
        &&& match before.active_giveaway {
            None => after == before,
            Some(g0) => after.active_giveaway matches Some(g1) && {
                let key = entrant_key(platform, username);
                &&& g1.wf()
                &&& same_but_participants(g0, g1)
                &&& g1.participants().dom() == g0.participants().dom().insert(key)
                &&& forall|k: Seq<char>| k != key && #[trigger] g0.participants().dom().contains(k)
                    ==> g1.participants()[k] == g0.participants()[k]
                &&& if g0.participants().dom().contains(key) {
                    g1.participants()[key] == (Participant { eligible: !g0.participants()[key].eligible, ..g0.participants()[key] })
                } else {
                    &&& g1.participants()[key].eligible
                    &&& g1.participants()[key].manual_override
                    &&& g1.participants()[key].user_level == UserLevel::Viewer
                }
            },
        }
    }

    /// Switch a user's eligibility in the running giveaway by hand; see
    /// `toggle_result` and `toggled`.
    pub fn toggle_user_eligibility(&mut self, platform: &str, username: &str) -> (r: Result<bool, GiveawayError>)
        requires
            old(self).active_giveaway matches Some(g) ==> g.wf(),
        ensures
            final(self).scores_wf() == old(self).scores_wf(),
            r == Self::toggle_result(*old(self), platform@, username@),
            Self::toggled(*old(self), *final(self), platform@, username@),
    {
        let mut g = match self.active_giveaway.take() {
            Some(g) => g,
            None => {
                return Err(GiveawayError::NoActiveGiveaway);
            },
        };
        let key = entry_key_of(platform, username);
        let ghost s0 = g.participants@;
        let r = match g.find_participant(key.as_str()) {
            Some(i) => {
                let mut p = g.participants.remove(i);
                p.eligible = !p.eligible;
                let now_eligible = p.eligible;
                let ghost pg = p;
                g.participants.insert(i, p);
                assert(g.participants@ =~= s0.update(i as int, pg));
                proof {
                    lemma_keyed_update(s0, participant_key(), i as int, pg);
                }
                now_eligible
            },
            None => {
                let p = Participant {
                    username: text::owned(username),
                    platform: text::owned(platform),
                    user_level: UserLevel::Viewer,
                    eligible: true,
                    manual_override: true,
                };
                let ghost pg = p;
                g.participants.push(p);
                proof {
                    lemma_keyed_push(s0, participant_key(), pg);
                }
                true
            },
        };
        self.active_giveaway = Some(g);
        Ok(r)
    }
}

impl GiveawaySystem {
    /// The fraud scores by entrant key.
    pub closed spec fn fraud_map(&self) -> Map<Seq<char>, u32> {
        keyed_map(self.fraud_scores@, score_key()).map_values(|e: (String, u32)| e.1)
    }

    pub closed spec fn scores_wf(&self) -> bool {
        keys_distinct(self.fraud_scores@, score_key())
    }

    /// The fraud score of `username` on `platform`: the one set, else zero.
    pub open spec fn fraud_of(&self, platform: Seq<char>, username: Seq<char>) -> u32 {
        let key = entrant_key(platform, username);
        if self.fraud_map().dom().contains(key) { self.fraud_map()[key] } else { 0 }
    }

    fn find_score(&self, key: &str) -> (r: Option<usize>)
        requires
            self.scores_wf(),
        ensures
            match r {
                Some(i) => i < self.fraud_scores@.len() && self.fraud_scores@[i as int].0@ == key@
                    && self.fraud_map().dom().contains(key@) && self.fraud_map()[key@] == self.fraud_scores@[i as int].1,
                None => !self.fraud_map().dom().contains(key@),
            },
    {
        let mut i: usize = 0;
        while i < self.fraud_scores.len()
            invariant
                i <= self.fraud_scores@.len(),
                self.scores_wf(),
                forall|j: int| 0 <= j < i ==> self.fraud_scores@[j].0@ != key@,
            decreases self.fraud_scores@.len() - i,
        {
            if text::same_text(self.fraud_scores[i].0.as_str(), key) {
                proof {
                    lemma_key_index_unique(self.fraud_scores@, score_key(), i as int);
                }
                return Some(i);
            }
            i = i + 1;
        }
        assert(!has_key(self.fraud_scores@, score_key(), key@));
        None
    }

    /// The fraud score of `username` on `platform`; see `fraud_of`.
    pub fn get_fraud_score(&self, platform: &str, username: &str) -> (score: u32)
        requires
            self.scores_wf(),
        ensures
            score == self.fraud_of(platform@, username@),
    {
        let key = entry_key_of(platform, username);
        match self.find_score(key.as_str()) {
            Some(i) => self.fraud_scores[i].1,
            None => 0,
        }
    }

    /// Set the fraud score of `username` on `platform`, in thousandths,
    /// limited to one (a thousand); nothing else changes.
    pub fn set_fraud_score(&mut self, platform: &str, username: &str, score: u32)
        requires
            old(self).scores_wf(),
        ensures
            final(self).scores_wf(),
            final(self).fraud_map() == old(self).fraud_map().insert(entrant_key(platform@, username@),
                if score > 1000 { 1000u32 } else { score }),
            final(self).active_giveaway == old(self).active_giveaway,
            final(self).default_settings == old(self).default_settings,
            final(self).total_giveaways == old(self).total_giveaways,
            final(self).successful_giveaways == old(self).successful_giveaways,
            final(self).cancelled_giveaways == old(self).cancelled_giveaways,
            final(self).total_participants == old(self).total_participants,
    {
        let key = entry_key_of(platform, username);
        let value: u32 = if score > 1000 { 1000 } else { score };
        let ghost s0 = self.fraud_scores@;
        match self.find_score(key.as_str()) {
            Some(i) => {
                self.fraud_scores.set(i, (key, value));
                proof {
                    lemma_keyed_update(s0, score_key(), i as int, self.fraud_scores@[i as int]);
                }
            },
            None => {
                self.fraud_scores.push((key, value));
                proof {
                    lemma_keyed_push(s0, score_key(), self.fraud_scores@.last());
                }
            },
        }
        assert(self.fraud_map() =~= old(self).fraud_map().insert(entrant_key(platform@, username@), value));
    }

    /// Feed a chat message from `message`'s sender (a regular when
    /// `is_regular`) to the running giveaway at `now`: `None` when none
    /// runs, else what it decided (see `process_giveaway_message`), at the
    /// standing `spec_user_level` gives, with the sender's fraud score.
    pub fn process_message(&mut self, message: &ChatMessage, is_regular: bool, now: u64)
        -> (r: Option<EntryDecision>)
        requires
            old(self).active_giveaway matches Some(g) ==> g.wf(),
            old(self).scores_wf(),
        ensures
            final(self).scores_wf() == old(self).scores_wf(),
            final(self).default_settings == old(self).default_settings,
            final(self).total_giveaways == old(self).total_giveaways,
            final(self).successful_giveaways == old(self).successful_giveaways,
            final(self).cancelled_giveaways == old(self).cancelled_giveaways,
            final(self).total_participants == old(self).total_participants,
            final(self).fraud_scores == old(self).fraud_scores,
            match old(self).active_giveaway {
                None => r is None && final(self).active_giveaway is None,
                Some(g0) => {
                    let level = spec_user_level(*message, is_regular);
                    let fraud = old(self).fraud_of(message.platform@, message.username@);
                    &&& r == Some(g0.spec_entry_decision(*message, level, fraud, now))
                    &&& final(self).active_giveaway matches Some(g1)
                        && message_applied(g0, g1, *message, level, r->0)
                },
            },
    {
        let fraud = self.get_fraud_score(message.platform.as_str(), message.username.as_str());
        match self.active_giveaway.take() {
            None => None,
            Some(mut g) => {
                let level = determine_user_level(message, is_regular);
                let d = process_giveaway_message(&mut g, message, level, fraud, now);
                self.active_giveaway = Some(g);
                Some(d)
            },
        }
    }

    /// Draw a new number in `min..=max` for the running number giveaway.
    /// Refused when none runs, or when it is not a number giveaway.
    pub fn generate_random_number(&mut self, min: u32, max: u32) -> (r: Result<u32, GiveawayError>)
        requires
            min <= max,
        ensures
            final(self).scores_wf() == old(self).scores_wf(),
            final(self).default_settings == old(self).default_settings,
            final(self).total_giveaways == old(self).total_giveaways,
            final(self).successful_giveaways == old(self).successful_giveaways,
            final(self).cancelled_giveaways == old(self).cancelled_giveaways,
            final(self).total_participants == old(self).total_participants,
            final(self).fraud_scores == old(self).fraud_scores,
            match old(self).active_giveaway {
                None => r matches Err(GiveawayError::NoActiveGiveaway) && *final(self) == *old(self),
                Some(g0) => if g0.giveaway_type is RandomNumber {
                    r matches Ok(n) && min <= n <= max
                        && final(self).active_giveaway == Some(ActiveGiveaway { generated_number: Some(n), ..g0 })
                } else {
                    &&& r matches Err(GiveawayError::InvalidConfiguration { reason })
                        && reason@ == "Not a random number giveaway"@
                    &&& *final(self) == *old(self)
                },
            },
    {
        match self.active_giveaway.take() {
            None => Err(GiveawayError::NoActiveGiveaway),
            Some(mut g) => {
                let numbered = match &g.giveaway_type {
                    GiveawayType::RandomNumber { .. } => true,
                    _ => false,
                };
                if !numbered {
                    self.active_giveaway = Some(g);
                    return Err(GiveawayError::InvalidConfiguration { reason: text::owned("Not a random number giveaway") });
                }
                let n = draw_in_range(min, max);
                g.generated_number = Some(n);
                self.active_giveaway = Some(g);
                Ok(n)
            },
        }
    }

    /// Make `settings` the default for new giveaways, if they pass the
    /// checks a ten-minute active-user giveaway makes (see `config_refusal`).
    pub fn update_default_settings(&mut self, settings: GiveawaySettings) -> (r: Result<(), GiveawayError>)
        ensures
            final(self).scores_wf() == old(self).scores_wf(),
            match config_refusal(GiveawayType::ActiveUser { duration_minutes: 10, min_messages: None }, settings) {
                Some(reason) => (r matches Err(GiveawayError::InvalidConfiguration { reason: e }) && e@ == reason)
                    && *final(self) == *old(self),
                None => r is Ok && *final(self) == (GiveawaySystem { default_settings: settings, ..*old(self) }),
            },
    {
        let probe = GiveawayType::ActiveUser { duration_minutes: 10, min_messages: None };
        match validate_giveaway_config(&probe, &settings) {
            Err(e) => Err(e),
            Ok(()) => {
                self.default_settings = settings;
                Ok(())
            },
        }
    }
}

/// `p` without eligibility.
pub open spec fn without_eligibility(p: Participant) -> Participant {
    Participant { eligible: false, ..p }
}

/// Whether `b` is `a` with other participants.
pub open spec fn same_but_participants(a: ActiveGiveaway, b: ActiveGiveaway) -> bool {
    &&& b.giveaway_type == a.giveaway_type
    &&& b.settings == a.settings
    &&& b.creator == a.creator
    &&& b.channel == a.channel
    &&& b.platform == a.platform
    &&& b.start_time == a.start_time
    &&& b.generated_number == a.generated_number
    &&& b.keyword_entries == a.keyword_entries
    &&& b.winner == a.winner
    &&& b.status == a.status
}

impl GiveawaySystem {
    /// What taking eligibility from everyone entered does: refused when no
    /// giveaway runs; else everyone entered stays, in order, without
    /// eligibility, and the answer is how many were entered.
    pub open spec fn eligibility_reset(before: GiveawaySystem, after: GiveawaySystem, r: Result<usize, GiveawayError>)
        -> bool {
        &&& after.default_settings == before.default_settings
        &&& after.total_giveaways == before.total_giveaways
        &&& after.successful_giveaways == before.successful_giveaways
        &&& after.cancelled_giveaways == before.cancelled_giveaways
        &&& after.total_participants == before.total_participants
        &&& after.fraud_scores == before.fraud_scores
        &&& match before.active_giveaway {
            None => r matches Err(GiveawayError::NoActiveGiveaway) && after == before,
            Some(g0) => after.active_giveaway matches Some(g1) && {
                &&& r == Ok::<usize, GiveawayError>(g0.participants@.len() as usize)
                &&& g1.wf()
                &&& same_but_participants(g0, g1)
                &&& g1.participants@ == g0.participants@.map_values(|p: Participant| without_eligibility(p))
            },
        }
    }

    /// Take eligibility from everyone entered in the running giveaway; see
    /// `eligibility_reset`.
    pub fn reset_eligibility(&mut self) -> (r: Result<usize, GiveawayError>)
        requires
            old(self).active_giveaway matches Some(g) ==> g.wf(),
        ensures
            final(self).scores_wf() == old(self).scores_wf(),
            Self::eligibility_reset(*old(self), *final(self), r),
    {
        let mut g = match self.active_giveaway.take() {
            Some(g) => g,
            None => {
                return Err(GiveawayError::NoActiveGiveaway);
            },
        };
        let ghost g0 = g;
        let n = g.participants.len();
        let mut i: usize = 0;
        while i < n
            invariant
                n == g0.participants@.len(),
                g.participants@.len() == n,
                i <= n,
                keys_distinct(g.participants@, participant_key()),
                keys_distinct(g.keyword_entries@, entry_key()),
                same_but_participants(g0, g),
                forall|j: int| 0 <= j < i ==> #[trigger] g.participants@[j] == without_eligibility(g0.participants@[j]),
                forall|j: int| i <= j < n ==> #[trigger] g.participants@[j] == g0.participants@[j],
            decreases n - i,
        {
            let ghost before = g.participants@;
            let mut p = g.participants.remove(i);
            p.eligible = false;
            let ghost pg = p;
            g.participants.insert(i, p);
            assert(g.participants@ =~= before.update(i as int, pg));
            proof {
                lemma_keyed_update(before, participant_key(), i as int, pg);
            }
            i = i + 1;
        }
        assert(g.participants@ =~= g0.participants@.map_values(|p: Participant| without_eligibility(p)));
        self.active_giveaway = Some(g);
        Ok(n)
    }
}

/// What is shown of the running giveaway.
pub struct GiveawayInfo {
    pub giveaway_type: GiveawayType,
    pub status: GiveawayStatus,
    pub start_time: u64,
    pub participant_count: usize,
    /// The entries of the eligible participants together.
    pub total_entries: u64,
    pub generated_number: Option<u32>,
    pub creator: String,
    pub channel: String,
    pub platform: String,
    pub eligible_users_count: usize,
    /// Seconds left of a timed giveaway.
    pub time_remaining: Option<u64>,
}

/// Seconds left at `now` of a timed giveaway: none for other kinds, never
/// below zero, and at most what a `u64` holds.
pub open spec fn seconds_left(g: ActiveGiveaway, now: u64) -> Option<u64> {
    match g.giveaway_type {
        GiveawayType::ActiveUser { duration_minutes, .. } => {
            let left = g.start_time + duration_minutes * 60 - now;
            Some(if left <= 0 { 0u64 } else if left > u64::MAX { u64::MAX } else { left as u64 })
        },
        _ => None,
    }
}

/// A copy of a giveaway kind.
pub fn copy_type(t: &GiveawayType) -> (r: GiveawayType)
    ensures
        r == *t,
{
    match t {
        GiveawayType::ActiveUser { duration_minutes, min_messages } =>
            GiveawayType::ActiveUser { duration_minutes: *duration_minutes, min_messages: *min_messages },
        GiveawayType::Keyword { keyword, case_sensitive, anti_spam, max_entries_per_user } => {
            let k = keyword.clone();
            assert(k == *keyword);
            GiveawayType::Keyword { keyword: k, case_sensitive: *case_sensitive, anti_spam: *anti_spam,
                max_entries_per_user: *max_entries_per_user }
        },
        GiveawayType::RandomNumber { min, max, auto_generate } =>
            GiveawayType::RandomNumber { min: *min, max: *max, auto_generate: *auto_generate },
    }
}

fn seconds_left_of(g: &ActiveGiveaway, now: u64) -> (r: Option<u64>)
    ensures
        r == seconds_left(*g, now),
{
    match &g.giveaway_type {
        GiveawayType::ActiveUser { duration_minutes, .. } => {
            let span: u64 = *duration_minutes as u64 * 60;
            if now <= g.start_time {
                let ahead = g.start_time - now;
                if ahead > u64::MAX - span { Some(u64::MAX) } else { Some(ahead + span) }
            } else {
                let elapsed = now - g.start_time;
                if elapsed >= span { Some(0) } else { Some(span - elapsed) }
            }
        },
        _ => None,
    }
}

fn eligible_count(ps: &Vec<Participant>) -> (n: usize)
    ensures
        n == eligible_list(ps@).len(),
{
    let mut n: usize = 0;
    let mut i: usize = 0;
    while i < ps.len()
        invariant
            i <= ps@.len(),
            n == eligible_list(ps@.take(i as int)).len(),
            n <= i,
        decreases ps@.len() - i,
    {
        assert(ps@.take(i + 1).drop_last() =~= ps@.take(i as int));
        assert(ps@.take(i + 1).last() == ps@[i as int]);
        if ps[i].eligible {
            n = n + 1;
        }
        i = i + 1;
    }
    assert(ps@.take(ps@.len() as int) =~= ps@);
    n
}

impl GiveawaySystem {
    /// The running giveaway as shown, `weights` giving the entries of each
    /// eligible participant in order; `None` when none runs.
    pub fn get_giveaway_status(&self, now: u64, weights: &Vec<u32>) -> (r: Option<GiveawayInfo>)
        requires
            weights@.len() <= u32::MAX,
        ensures
            match self.active_giveaway {
                None => r is None,
                Some(g) => r matches Some(i) && {
                    &&& i.giveaway_type == g.giveaway_type
                    &&& i.status == g.status
                    &&& i.start_time == g.start_time
                    &&& i.participant_count == g.participants@.len()
                    &&& i.total_entries == weight_prefix(weights@, weights@.len() as int)
                    &&& i.generated_number == g.generated_number
                    &&& i.creator@ == g.creator@
                    &&& i.channel@ == g.channel@
                    &&& i.platform@ == g.platform@
                    &&& i.eligible_users_count == eligible_list(g.participants@).len()
                    &&& i.time_remaining == seconds_left(g, now)
                },
            },
    {
        match &self.active_giveaway {
            None => None,
            Some(g) => Some(GiveawayInfo {
                giveaway_type: copy_type(&g.giveaway_type),
                status: g.status,
                start_time: g.start_time,
                participant_count: g.participants.len(),
                total_entries: total_weight(weights),
                generated_number: g.generated_number,
                creator: g.creator.clone(),
                channel: g.channel.clone(),
                platform: g.platform.clone(),
                eligible_users_count: eligible_count(&g.participants),
                time_remaining: seconds_left_of(g, now),
            }),
        }
    }

    /// Cancel the running giveaway: a forced end (see `ended`).
    pub fn cancel_giveaway(&mut self) -> (r: Result<(), GiveawayError>)
        requires
            old(self).cancelled_giveaways < u64::MAX,
            old(self).active_giveaway matches Some(g) ==> old(self).total_participants + g.participants@.len() <= u64::MAX,
        ensures
            final(self).scores_wf() == old(self).scores_wf(),
            match old(self).active_giveaway {
                None => r matches Err(GiveawayError::NoActiveGiveaway),
                Some(_) => r is Ok,
            },
            Self::ended(*old(self), *final(self), true, Seq::empty(),
                match r { Ok(()) => Ok(None), Err(e) => Err(e) }),
    {
        let none: Vec<u32> = Vec::new();
        match self.end_giveaway(true, &none) {
            Ok(_) => Ok(()),
            Err(e) => Err(e),
        }
    }
}

// ---------------------------------------------------------------------------
// The `!gstart` command
// ---------------------------------------------------------------------------

/// The giveaway `!gstart <args…>` asks for, or the reply refusing it:
/// `active [minutes]` (10 by default), `keyword <word>` (case-insensitive,
/// one entry per person), `number [min] [max]` (1 to 100 by default, the
/// number drawn at once).
pub open spec fn requested_giveaway(t: GiveawayType, args: Seq<Seq<char>>) -> bool {
    let kind = text::lowercase(args[0]);
    if kind == "active"@ {
        t == GiveawayType::ActiveUser {
            duration_minutes: crate::bot::filter_commands::number_arg(args, 1, u32::MAX as int, 10) as u32,
            min_messages: None,
        }
    } else if kind == "keyword"@ {
        match t {
            GiveawayType::Keyword { keyword, case_sensitive, anti_spam, max_entries_per_user } =>
                keyword@ == args[1] && !case_sensitive && anti_spam && max_entries_per_user == Some(1u32),
            _ => false,
        }
    } else {
        t == GiveawayType::RandomNumber {
            min: crate::bot::filter_commands::number_arg(args, 1, u32::MAX as int, 1) as u32,
            max: crate::bot::filter_commands::number_arg(args, 2, u32::MAX as int, 100) as u32,
            auto_generate: true,
        }
    }
}

/// The reply to a giveaway started.
pub open spec fn start_reply(t: GiveawayType, number: Option<u32>) -> Seq<char> {
    match t {
        GiveawayType::ActiveUser { duration_minutes, .. } =>
            "Active User Giveaway started! Chat within "@ + text::nat_digits(duration_minutes as nat)
                + " minutes to be eligible. Good luck!"@,
        GiveawayType::Keyword { keyword, .. } =>
            "Keyword Giveaway started! Type '"@ + keyword@ + "' to enter. One entry per person!"@,
        GiveawayType::RandomNumber { min, max, .. } => match number {
            Some(n) => "Random Number Giveaway! First person to type "@ + text::nat_digits(n as nat) + " wins! (Range: "@
                + text::nat_digits(min as nat) + "-"@ + text::nat_digits(max as nat) + ")"@,
            None => "Random Number Giveaway started! Range: "@ + text::nat_digits(min as nat) + "-"@
                + text::nat_digits(max as nat),
        },
    }
}

fn arg_number(args: &Vec<String>, i: usize, default: u32) -> (v: u32)
    ensures
        v == crate::bot::filter_commands::number_arg(texts(args@), i as int, u32::MAX as int, default as int),
{
    if i < args.len() {
        assert(texts(args@)[i as int] == args@[i as int]@);
        match text::parse_uint(args[i].as_str(), u32::MAX as u64) {
            Some(v) => v as u32,
            None => default,
        }
    } else {
        default
    }
}

fn start_reply_of(t: &GiveawayType, number: Option<u32>) -> (r: String)
    ensures
        r@ == start_reply(*t, number),
{
    match t {
        GiveawayType::ActiveUser { duration_minutes, .. } => {
            let a = text::concat("Active User Giveaway started! Chat within ", text::nat_decimal(*duration_minutes as u64).as_str());
            text::concat(a.as_str(), " minutes to be eligible. Good luck!")
        },
        GiveawayType::Keyword { keyword, .. } => {
            let a = text::concat("Keyword Giveaway started! Type '", keyword.as_str());
            text::concat(a.as_str(), "' to enter. One entry per person!")
        },
        GiveawayType::RandomNumber { min, max, .. } => {
            let lo = text::nat_decimal(*min as u64);
            let hi = text::nat_decimal(*max as u64);
            match number {
                Some(n) => {
                    let a = text::concat("Random Number Giveaway! First person to type ", text::nat_decimal(n as u64).as_str());
                    let b = text::concat(a.as_str(), " wins! (Range: ");
                    let c = text::concat(b.as_str(), lo.as_str());
                    let d = text::concat(c.as_str(), "-");
                    let e = text::concat(d.as_str(), hi.as_str());
                    text::concat(e.as_str(), ")")
                },
                None => {
                    let a = text::concat("Random Number Giveaway started! Range: ", lo.as_str());
                    let b = text::concat(a.as_str(), "-");
                    text::concat(b.as_str(), hi.as_str())
                },
            }
        },
    }
}

/// What `!gstart <args…>` from `m` at `now` does: usage help without
/// arguments or without a keyword, a refusal for an unknown kind, else the
/// requested giveaway started (see `GiveawaySystem::started`) with its
/// announcement, or the reason it could not start.
pub open spec fn start_command_outcome(
    before: GiveawaySystem,
    after: GiveawaySystem,
    args: Seq<Seq<char>>,
    m: ChatMessage,
    now: u64,
    reply: Seq<char>,
) -> bool {
    if args.len() == 0 {
        reply == "Usage: !gstart <active|keyword|number> [options]"@ && after == before
    } else {
        let kind = text::lowercase(args[0]);
        if kind != "active"@ && kind == "keyword"@ && args.len() < 2 {
            reply == "Usage: !gstart keyword <word>"@ && after == before
        } else if kind == "active"@ || kind == "keyword"@ || kind == "number"@ {
            exists|t: GiveawayType, r: Result<(), GiveawayError>|
                #[trigger] start_described(before, after, args, m, now, reply, t, r)
        } else {
            reply == "Invalid giveaway type. Use: active, keyword, or number"@ && after == before
        }
    }
}

/// `after` and `reply` are what starting the giveaway `t` that `args` ask
/// for gives, with outcome `r`.
pub open spec fn start_described(
    before: GiveawaySystem,
    after: GiveawaySystem,
    args: Seq<Seq<char>>,
    m: ChatMessage,
    now: u64,
    reply: Seq<char>,
    t: GiveawayType,
    r: Result<(), GiveawayError>,
) -> bool {
    &&& requested_giveaway(t, args)
    &&& GiveawaySystem::started(before, after, t, before.default_settings, m.username@, m.channel@, m.platform@, now, r)
    &&& match r {
        Ok(()) => match after.active_giveaway {
            Some(g) => reply == start_reply(t, g.generated_number),
            None => false,
        },
        Err(e) => reply == "Failed to start giveaway: "@ + error_text(e),
    }
}

/// Giveaway commands and the giveaways they run.
pub struct GiveawayCommands {
    pub giveaway_system: GiveawaySystem,
}

impl GiveawayCommands {
    pub fn new(giveaway_system: GiveawaySystem) -> (r: Self)
        ensures
            r.giveaway_system == giveaway_system,
    {
        GiveawayCommands { giveaway_system }
    }

    /// Run `!gstart <args…>` from `message` at `now`; see `start_command_outcome`.
    pub fn handle_start_giveaway_at(&mut self, args: &Vec<String>, message: &ChatMessage, now: u64) -> (reply: String)
        requires
            old(self).giveaway_system.total_giveaways < u64::MAX,
        ensures
            final(self).giveaway_system.scores_wf() == old(self).giveaway_system.scores_wf(),
            start_command_outcome(old(self).giveaway_system, final(self).giveaway_system, texts(args@), *message, now, reply@),
    {
        if args.len() == 0 {
            return text::owned("Usage: !gstart <active|keyword|number> [options]");
        }
        assert(texts(args@)[0] == args@[0]@);
        proof {
            reveal_strlit("active");
            reveal_strlit("keyword");
            reveal_strlit("number");
        }
        let kind = text::to_lowercase(args[0].as_str());
        let k = kind.as_str();
        let t = if text::same_text(k, "active") {
            GiveawayType::ActiveUser { duration_minutes: arg_number(args, 1, 10), min_messages: None }
        } else if text::same_text(k, "keyword") {
            if args.len() < 2 {
                return text::owned("Usage: !gstart keyword <word>");
            }
            assert(texts(args@)[1] == args@[1]@);
            GiveawayType::Keyword { keyword: args[1].clone(), case_sensitive: false, anti_spam: true, max_entries_per_user: Some(1) }
        } else if text::same_text(k, "number") {
            GiveawayType::RandomNumber { min: arg_number(args, 1, 1), max: arg_number(args, 2, 100), auto_generate: true }
        } else {
            return text::owned("Invalid giveaway type. Use: active, keyword, or number");
        };
        let ghost tg = t;
        let reply_type = match &t {
            GiveawayType::ActiveUser { duration_minutes, min_messages } =>
                GiveawayType::ActiveUser { duration_minutes: *duration_minutes, min_messages: *min_messages },
            GiveawayType::Keyword { keyword, case_sensitive, anti_spam, max_entries_per_user } =>
                GiveawayType::Keyword { keyword: keyword.clone(), case_sensitive: *case_sensitive, anti_spam: *anti_spam,
                    max_entries_per_user: *max_entries_per_user },
            GiveawayType::RandomNumber { min, max, auto_generate } =>
                GiveawayType::RandomNumber { min: *min, max: *max, auto_generate: *auto_generate },
        };
        assert(reply_type == tg);
        let r = self.giveaway_system.start_giveaway_at(t, message.username.clone(), message.channel.clone(),
            message.platform.clone(), None, now);
        let ghost rg = r;
        let reply = match &r {
            Ok(()) => {
                let number = match &self.giveaway_system.active_giveaway {
                    Some(g) => g.generated_number,
                    None => None,
                };
                start_reply_of(&reply_type, number)
            },
            Err(e) => text::concat("Failed to start giveaway: ", e.message().as_str()),
        };
        assert(requested_giveaway(tg, texts(args@)));
        assert(GiveawaySystem::started(old(self).giveaway_system, self.giveaway_system, tg,
            old(self).giveaway_system.default_settings, message.username@, message.channel@, message.platform@, now, rg));
        assert(start_described(old(self).giveaway_system, self.giveaway_system, texts(args@), *message, now, reply@, tg, rg));
        reply
    }
}

// ---------------------------------------------------------------------------
// Laws of the giveaway system
// ---------------------------------------------------------------------------

/// One giveaway at a time: once a start succeeded, a second start is
/// refused as a giveaway already active and changes nothing.
pub proof fn lemma_one_giveaway_at_a_time(
    s0: GiveawaySystem, s1: GiveawaySystem, s2: GiveawaySystem,
    t1: GiveawayType, set1: GiveawaySettings, t2: GiveawayType, set2: GiveawaySettings,
    creator: Seq<char>, channel: Seq<char>, platform: Seq<char>, now1: u64, now2: u64,
    r2: Result<(), GiveawayError>,
)
    requires
        GiveawaySystem::started(s0, s1, t1, set1, creator, channel, platform, now1, Ok(())),
        GiveawaySystem::started(s1, s2, t2, set2, creator, channel, platform, now2, r2),
    ensures
        r2 matches Err(GiveawayError::GiveawayAlreadyActive),
        s2 == s1,
{
}

/// Ending stops the giveaway: after an end that found one running, ending
/// again is refused as no giveaway active.
pub proof fn lemma_end_then_none_active(
    s0: GiveawaySystem, s1: GiveawaySystem, s2: GiveawaySystem,
    force1: bool, w1: Seq<u32>, r1: Result<Option<GiveawayWinner>, GiveawayError>,
    force2: bool, w2: Seq<u32>, r2: Result<Option<GiveawayWinner>, GiveawayError>,
)
    requires
        s0.active_giveaway is Some,
        GiveawaySystem::ended(s0, s1, force1, w1, r1),
        GiveawaySystem::ended(s1, s2, force2, w2, r2),
    ensures
        r1 is Ok,
        r2 matches Err(GiveawayError::NoActiveGiveaway),
        s2 == s1,
{
}

/// One entry per person: after a user's keyword entry in a giveaway with
/// anti-spam, any later message from that user (same platform, same name
/// up to case) is ignored.
pub proof fn lemma_keyword_entry_counts_once(
    g0: ActiveGiveaway, g1: ActiveGiveaway, m: ChatMessage, level: UserLevel, fraud: u32, now: u64,
    m2: ChatMessage, level2: UserLevel, fraud2: u32, now2: u64,
)
    requires
        g0.wf(),
        g0.giveaway_type matches GiveawayType::Keyword { anti_spam, .. } && anti_spam,
        g0.spec_entry_decision(m, level, fraud, now) == EntryDecision::KeywordEntry,
        message_applied(g0, g1, m, level, EntryDecision::KeywordEntry),
        entrant_key(m2.platform@, m2.username@) == entrant_key(m.platform@, m.username@),
    ensures
        g1.spec_entry_decision(m2, level2, fraud2, now2) == EntryDecision::Ignore,
{
    assert(g1.keyword_entered_keys().contains(entrant_key(m.platform@, m.username@)));
}

/// Switching a user's eligibility twice by hand gives it back: the second
/// switch answers, and leaves, what the user had before the first.
pub proof fn lemma_toggle_twice_restores(
    s0: GiveawaySystem, s1: GiveawaySystem, s2: GiveawaySystem, platform: Seq<char>, username: Seq<char>,
)
    requires
        s0.active_giveaway matches Some(g) && g.participants().dom().contains(entrant_key(platform, username)),
        GiveawaySystem::toggled(s0, s1, platform, username),
        GiveawaySystem::toggled(s1, s2, platform, username),
    ensures
        GiveawaySystem::toggle_result(s1, platform, username)
            == Ok::<bool, GiveawayError>(s0.active_giveaway->0.participants()[entrant_key(platform, username)].eligible),
        s2.active_giveaway->0.participants()[entrant_key(platform, username)].eligible
            == s0.active_giveaway->0.participants()[entrant_key(platform, username)].eligible,
{
    let key = entrant_key(platform, username);
    let g1 = s1.active_giveaway->0;
    assert(g1.participants().dom().contains(key));
}

// ---------------------------------------------------------------------------
// The other giveaway commands
// ---------------------------------------------------------------------------

/// How the status line describes a kind of giveaway.
pub open spec fn type_description(t: GiveawayType, number: Option<u32>) -> Seq<char> {
    match t {
        GiveawayType::ActiveUser { duration_minutes, .. } =>
            "Active User ("@ + text::nat_digits(duration_minutes as nat) + "min)"@,
        GiveawayType::Keyword { keyword, .. } => "Keyword ('"@ + keyword@ + "')"@,
        GiveawayType::RandomNumber { min, max, .. } => match number {
            Some(n) => "Random Number ("@ + text::nat_digits(n as nat) + ")"@,
            None => "Random Number ("@ + text::nat_digits(min as nat) + "-"@ + text::nat_digits(max as nat) + ")"@,
        },
    }
}

/// How the status line tells the time left.
pub open spec fn time_description(left: Option<u64>) -> Seq<char> {
    match left {
        Some(t) => if t > 0 { " | "@ + text::nat_digits(t as nat) + "s remaining"@ } else { " | Time expired"@ },
        None => ""@,
    }
}

/// The status line of giveaway `g` at `now`, its eligible participants
/// holding `weights` entries.
pub open spec fn status_line(g: ActiveGiveaway, now: u64, weights: Seq<u32>) -> Seq<char> {
    "Giveaway Status: "@ + type_description(g.giveaway_type, g.generated_number) + " | "@
        + text::nat_digits(g.participants@.len()) + " participants | "@
        + text::nat_digits(weight_prefix(weights, weights.len() as int) as nat) + " total entries"@
        + time_description(seconds_left(g, now))
}

/// The reply to ending a giveaway.
pub open spec fn end_reply(r: Result<Option<GiveawayWinner>, GiveawayError>) -> Seq<char> {
    match r {
        Ok(Some(w)) => "Giveaway ended! Winner: "@ + w.username@ + " from "@ + w.platform@ + "! Congratulations! "@,
        Ok(None) => "Giveaway ended but no winner was selected (no eligible users)"@,
        Err(e) => "Failed to end giveaway: "@ + error_text(e),
    }
}

/// `after` and `reply` are what ending the giveaway with outcome `r` gives.
pub open spec fn end_described(before: GiveawaySystem, after: GiveawaySystem, weights: Seq<u32>, reply: Seq<char>,
    r: Result<Option<GiveawayWinner>, GiveawayError>) -> bool {
    GiveawaySystem::ended(before, after, false, weights, r) && reply == end_reply(r)
}

/// The reply to switching a user's eligibility.
pub open spec fn toggle_reply(username: Seq<char>, r: Result<bool, GiveawayError>) -> Seq<char> {
    match r {
        Ok(b) => "User "@ + username + " is now "@ + if b { "eligible"@ } else { "ineligible"@ },
        Err(e) => "Failed to toggle eligibility: "@ + error_text(e),
    }
}

/// The reply to taking eligibility from everyone.
pub open spec fn reset_reply(r: Result<usize, GiveawayError>) -> Seq<char> {
    match r {
        Ok(n) => "Reset eligibility for "@ + text::nat_digits(n as nat) + " users"@,
        Err(e) => "Failed to reset eligibility: "@ + error_text(e),
    }
}

/// What a giveaway command comes to.
pub enum GiveawayCommandOutcome {
    /// The reply to send.
    Reply(String),
    /// The statistics are to be shown.
    ShowStatistics,
    /// Not a giveaway command.
    NotHandled,
}

/// The text of a reply.
pub open spec fn reply_text(out: GiveawayCommandOutcome) -> Seq<char> {
    match out {
        GiveawayCommandOutcome::Reply(r) => r@,
        _ => Seq::empty(),
    }
}

/// Whether the outcome is the reply `text`.
pub open spec fn replies(out: GiveawayCommandOutcome, text: Seq<char>) -> bool {
    out is Reply && reply_text(out) == text
}

/// What giveaway command `command` with `args` from `m` at `now` does, the
/// eligible participants of a running giveaway holding `weights` entries:
/// `gstart`, `gend`, `gcancel`, `geligible` (for the sender when no user
/// is named), `greset` and `gstats` are for moderators, and refused to
/// others with a reply of their own; `gstatus` is for everyone. Anything
/// else is not a giveaway command.
pub open spec fn giveaway_command_outcome(before: GiveawaySystem, after: GiveawaySystem, command: Seq<char>,
    args: Seq<Seq<char>>, m: ChatMessage, now: u64, weights: Seq<u32>, out: GiveawayCommandOutcome) -> bool {
    if command == "gstart"@ {
        if !m.is_mod {
            replies(out, "Only moderators can start giveaways."@) && after == before
        } else {
            out is Reply && start_command_outcome(before, after, args, m, now, reply_text(out))
        }
    } else if command == "gend"@ {
        if !m.is_mod {
            replies(out, "Only moderators can end giveaways."@) && after == before
        } else {
            out is Reply && exists|e: Result<Option<GiveawayWinner>, GiveawayError>|
                #[trigger] end_described(before, after, weights, reply_text(out), e)
        }
    } else if command == "gcancel"@ {
        if !m.is_mod {
            replies(out, "Only moderators can cancel giveaways."@) && after == before
        } else {
            match before.active_giveaway {
                None => replies(out, "Failed to cancel giveaway: "@ + error_text(GiveawayError::NoActiveGiveaway)) && after == before,
                Some(_) => replies(out, "Giveaway cancelled by moderator"@)
                    && GiveawaySystem::ended(before, after, true, Seq::empty(), Ok(None)),
            }
        }
    } else if command == "gstatus"@ {
        after == before && match before.active_giveaway {
            None => replies(out, "No active giveaway. Use !gstart to begin one!"@),
            Some(g) => replies(out, status_line(g, now, weights)),
        }
    } else if command == "geligible"@ {
        if !m.is_mod {
            replies(out, "Only moderators can manage eligibility."@) && after == before
        } else {
            let name = if args.len() == 0 { m.username@ } else { args[0] };
            &&& GiveawaySystem::toggled(before, after, m.platform@, name)
            &&& replies(out, toggle_reply(name, GiveawaySystem::toggle_result(before, m.platform@, name)))
        }
    } else if command == "greset"@ {
        if !m.is_mod {
            replies(out, "Only moderators can reset eligibility."@) && after == before
        } else {
            out is Reply && exists|r: Result<usize, GiveawayError>|
                #[trigger] GiveawaySystem::eligibility_reset(before, after, r) && reply_text(out) == reset_reply(r)
        }
    } else if command == "gstats"@ {
        after == before && if !m.is_mod {
            replies(out, "Only moderators can view giveaway statistics."@)
        } else {
            out is ShowStatistics
        }
    } else {
        out is NotHandled && after == before
    }
}

fn reply(s: &str) -> (out: GiveawayCommandOutcome)
    ensures
        replies(out, s@),
{
    GiveawayCommandOutcome::Reply(text::owned(s))
}

impl GiveawayCommands {
    /// The reply to `!gstatus` at `now`; see `status_line`.
    pub fn handle_giveaway_status(&self, now: u64, weights: &Vec<u32>) -> (reply: String)
        requires
            weights@.len() <= u32::MAX,
        ensures
            reply@ == match self.giveaway_system.active_giveaway {
                None => "No active giveaway. Use !gstart to begin one!"@,
                Some(g) => status_line(g, now, weights@),
            },
    {
        match self.giveaway_system.get_giveaway_status(now, weights) {
            None => text::owned("No active giveaway. Use !gstart to begin one!"),
            Some(info) => {
                let kind = match &info.giveaway_type {
                    GiveawayType::ActiveUser { duration_minutes, .. } => {
                        let a = text::concat("Active User (", text::nat_decimal(*duration_minutes as u64).as_str());
                        text::concat(a.as_str(), "min)")
                    },
                    GiveawayType::Keyword { keyword, .. } => {
                        let a = text::concat("Keyword ('", keyword.as_str());
                        text::concat(a.as_str(), "')")
                    },
                    GiveawayType::RandomNumber { min, max, .. } => match info.generated_number {
                        Some(n) => {
                            let a = text::concat("Random Number (", text::nat_decimal(n as u64).as_str());
                            text::concat(a.as_str(), ")")
                        },
                        None => {
                            let a = text::concat("Random Number (", text::nat_decimal(*min as u64).as_str());
                            let b = text::concat(a.as_str(), "-");
                            let c = text::concat(b.as_str(), text::nat_decimal(*max as u64).as_str());
                            text::concat(c.as_str(), ")")
                        },
                    },
                };
                let time = match info.time_remaining {
                    Some(t) => if t > 0 {
                        let a = text::concat(" | ", text::nat_decimal(t).as_str());
                        text::concat(a.as_str(), "s remaining")
                    } else {
                        text::owned(" | Time expired")
                    },
                    None => text::owned(""),
                };
                let a = text::concat("Giveaway Status: ", kind.as_str());
                let b = text::concat(a.as_str(), " | ");
                let c = text::concat(b.as_str(), text::nat_decimal(info.participant_count as u64).as_str());
                let d = text::concat(c.as_str(), " participants | ");
                let e = text::concat(d.as_str(), text::nat_decimal(info.total_entries).as_str());
                let f = text::concat(e.as_str(), " total entries");
                text::concat(f.as_str(), time.as_str())
            },
        }
    }

    /// Run `!gend`: end the giveaway and announce the winner; see `end_described`.
    pub fn handle_end_giveaway(&mut self, weights: &Vec<u32>) -> (reply: String)
        requires
            old(self).giveaway_system.active_giveaway matches Some(g) ==> {
                &&& weights@.len() == eligible_list(g.participants@).len()
                &&& old(self).giveaway_system.total_participants + g.participants@.len() <= u64::MAX
            },
            weights@.len() <= u32::MAX,
            old(self).giveaway_system.successful_giveaways < u64::MAX,
            old(self).giveaway_system.cancelled_giveaways < u64::MAX,
        ensures
            final(self).giveaway_system.scores_wf() == old(self).giveaway_system.scores_wf(),
            exists|e: Result<Option<GiveawayWinner>, GiveawayError>|
                #[trigger] end_described(old(self).giveaway_system, final(self).giveaway_system, weights@, reply@, e),
    {
        let r = self.giveaway_system.end_giveaway(false, weights);
        let reply = match &r {
            Ok(Some(w)) => {
                let a = text::concat("Giveaway ended! Winner: ", w.username.as_str());
                let b = text::concat(a.as_str(), " from ");
                let c = text::concat(b.as_str(), w.platform.as_str());
                text::concat(c.as_str(), "! Congratulations! ")
            },
            Ok(None) => text::owned("Giveaway ended but no winner was selected (no eligible users)"),
            Err(e) => text::concat("Failed to end giveaway: ", e.message().as_str()),
        };
        assert(end_described(old(self).giveaway_system, self.giveaway_system, weights@, reply@, r));
        reply
    }

    /// Run `!gcancel`: a forced end, announced.
    pub fn handle_cancel_giveaway(&mut self) -> (reply: String)
        requires
            old(self).giveaway_system.cancelled_giveaways < u64::MAX,
            old(self).giveaway_system.active_giveaway matches Some(g)
                ==> old(self).giveaway_system.total_participants + g.participants@.len() <= u64::MAX,
        ensures
            final(self).giveaway_system.scores_wf() == old(self).giveaway_system.scores_wf(),
            match old(self).giveaway_system.active_giveaway {
                None => reply@ == "Failed to cancel giveaway: "@ + error_text(GiveawayError::NoActiveGiveaway)
                    && final(self).giveaway_system == old(self).giveaway_system,
                Some(_) => reply@ == "Giveaway cancelled by moderator"@
                    && GiveawaySystem::ended(old(self).giveaway_system, final(self).giveaway_system, true, Seq::empty(), Ok(None)),
            },
    {
        match self.giveaway_system.cancel_giveaway() {
            Ok(()) => text::owned("Giveaway cancelled by moderator"),
            Err(e) => text::concat("Failed to cancel giveaway: ", e.message().as_str()),
        }
    }

    /// Run `!geligible [user]` from `message`: switch the eligibility of the
    /// user named, or of the sender; see `toggled` and `toggle_reply`.
    pub fn handle_toggle_eligibility(&mut self, args: &Vec<String>, message: &ChatMessage) -> (reply: String)
        requires
            old(self).giveaway_system.active_giveaway matches Some(g) ==> g.wf(),
        ensures
            final(self).giveaway_system.scores_wf() == old(self).giveaway_system.scores_wf(),
            ({
                let name = if args@.len() == 0 { message.username@ } else { args@[0]@ };
                &&& GiveawaySystem::toggled(old(self).giveaway_system, final(self).giveaway_system, message.platform@, name)
                &&& reply@ == toggle_reply(name, GiveawaySystem::toggle_result(old(self).giveaway_system, message.platform@, name))
            }),
    {
        let name = if args.len() == 0 { message.username.as_str() } else { args[0].as_str() };
        let r = self.giveaway_system.toggle_user_eligibility(message.platform.as_str(), name);
        match r {
            Ok(b) => {
                let a = text::concat("User ", name);
                let c = text::concat(a.as_str(), " is now ");
                text::concat(c.as_str(), if b { "eligible" } else { "ineligible" })
            },
            Err(e) => text::concat("Failed to toggle eligibility: ", e.message().as_str()),
        }
    }

    /// Run `!greset`: take eligibility from everyone; see `eligibility_reset`.
    pub fn handle_reset_eligibility(&mut self) -> (reply: String)
        requires
            old(self).giveaway_system.active_giveaway matches Some(g) ==> g.wf(),
        ensures
            final(self).giveaway_system.scores_wf() == old(self).giveaway_system.scores_wf(),
            exists|r: Result<usize, GiveawayError>|
                #[trigger] GiveawaySystem::eligibility_reset(old(self).giveaway_system, final(self).giveaway_system, r)
                && reply@ == reset_reply(r),
    {
        let r = self.giveaway_system.reset_eligibility();
        let reply = match &r {
            Ok(n) => {
                let a = text::concat("Reset eligibility for ", text::nat_decimal(*n as u64).as_str());
                text::concat(a.as_str(), " users")
            },
            Err(e) => text::concat("Failed to reset eligibility: ", e.message().as_str()),
        };
        assert(GiveawaySystem::eligibility_reset(old(self).giveaway_system, self.giveaway_system, r));
        reply
    }

    /// Run giveaway command `command` with `args` from `message` at `now`,
    /// the eligible participants of a running giveaway holding `weights`
    /// entries; see `giveaway_command_outcome`.
    pub fn process_command(&mut self, command: &str, args: &Vec<String>, message: &ChatMessage, now: u64,
        weights: &Vec<u32>) -> (out: GiveawayCommandOutcome)
        requires
            old(self).giveaway_system.active_giveaway matches Some(g) ==> {
                &&& g.wf()
                &&& weights@.len() == eligible_list(g.participants@).len()
                &&& old(self).giveaway_system.total_participants + g.participants@.len() <= u64::MAX
            },
            weights@.len() <= u32::MAX,
            old(self).giveaway_system.total_giveaways < u64::MAX,
            old(self).giveaway_system.successful_giveaways < u64::MAX,
            old(self).giveaway_system.cancelled_giveaways < u64::MAX,
        ensures
            final(self).giveaway_system.scores_wf() == old(self).giveaway_system.scores_wf(),
            giveaway_command_outcome(old(self).giveaway_system, final(self).giveaway_system, command@, texts(args@),
                *message, now, weights@, out),
    {
        if text::same_text(command, "gstart") {
            if !message.is_mod {
                reply("Only moderators can start giveaways.")
            } else {
                GiveawayCommandOutcome::Reply(self.handle_start_giveaway_at(args, message, now))
            }
        } else if text::same_text(command, "gend") {
            if !message.is_mod {
                reply("Only moderators can end giveaways.")
            } else {
                let r = self.handle_end_giveaway(weights);
                proof {
                    let e = choose|e: Result<Option<GiveawayWinner>, GiveawayError>|
                        #[trigger] end_described(old(self).giveaway_system, self.giveaway_system, weights@, r@, e);
                    assert(end_described(old(self).giveaway_system, self.giveaway_system, weights@, r@, e));
                    assert(reply_text(GiveawayCommandOutcome::Reply(r)) == r@);
                }
                GiveawayCommandOutcome::Reply(r)
            }
        } else if text::same_text(command, "gcancel") {
            if !message.is_mod {
                reply("Only moderators can cancel giveaways.")
            } else {
                GiveawayCommandOutcome::Reply(self.handle_cancel_giveaway())
            }
        } else if text::same_text(command, "gstatus") {
            GiveawayCommandOutcome::Reply(self.handle_giveaway_status(now, weights))
        } else if text::same_text(command, "geligible") {
            if !message.is_mod {
                reply("Only moderators can manage eligibility.")
            } else {
                proof {
                    if args@.len() > 0 {
                        assert(texts(args@)[0] == args@[0]@);
                    }
                }
                GiveawayCommandOutcome::Reply(self.handle_toggle_eligibility(args, message))
            }
        } else if text::same_text(command, "greset") {
            if !message.is_mod {
                reply("Only moderators can reset eligibility.")
            } else {
                let r = self.handle_reset_eligibility();
                proof {
                    let e = choose|e: Result<usize, GiveawayError>|
                        #[trigger] GiveawaySystem::eligibility_reset(old(self).giveaway_system, self.giveaway_system, e)
                        && r@ == reset_reply(e);
                    assert(GiveawaySystem::eligibility_reset(old(self).giveaway_system, self.giveaway_system, e));
                    assert(reply_text(GiveawayCommandOutcome::Reply(r)) == r@);
                }
                GiveawayCommandOutcome::Reply(r)
            }
        } else if text::same_text(command, "gstats") {
            if !message.is_mod {
                reply("Only moderators can view giveaway statistics.")
            } else {
                GiveawayCommandOutcome::ShowStatistics
            }
        } else {
            GiveawayCommandOutcome::NotHandled
        }
    }
}

/// Only the first keyword message enters a user: once a message has entered
/// its sender into an anti-spam keyword giveaway, any later message from
/// the same user on the same platform is ignored and leaves the giveaway as
/// it is; so is any message from another channel.
pub proof fn lemma_keyword_entry_once(
    g0: ActiveGiveaway, g1: ActiveGiveaway, g2: ActiveGiveaway,
    m1: ChatMessage, l1: UserLevel, f1: u32, t1: u64,
    m2: ChatMessage, l2: UserLevel, f2: u32, t2: u64,
)
    requires
        g0.giveaway_type matches GiveawayType::Keyword { anti_spam, .. } && anti_spam,
        g0.spec_entry_decision(m1, l1, f1, t1) is KeywordEntry,
        message_applied(g0, g1, m1, l1, EntryDecision::KeywordEntry),
        m2.platform@ == m1.platform@,
        m2.username@ == m1.username@,
        message_applied(g1, g2, m2, l2, g1.spec_entry_decision(m2, l2, f2, t2)),
    ensures
        g1.spec_entry_decision(m2, l2, f2, t2) is Ignore,
        g2 == g1,
{
}

/// A message from another channel than the giveaway's is ignored and leaves
/// the giveaway as it is.
pub proof fn lemma_other_channel_ignored(g0: ActiveGiveaway, g1: ActiveGiveaway, m: ChatMessage, l: UserLevel, f: u32, t: u64)
    requires
        m.channel@ != g0.channel@,
        message_applied(g0, g1, m, l, g0.spec_entry_decision(m, l, f, t)),
    ensures
        g0.spec_entry_decision(m, l, f, t) is Ignore,
        g1 == g0,
{
}

/// `gs` is a run of a giveaway fed the messages `ms` in order: each state
/// after the first is what the message before it did to the state before
/// it, with the sender's standing `ls[k]`, fraud score `fs[k]` and time
/// `ts[k]`.
pub open spec fn giveaway_run(
    gs: Seq<ActiveGiveaway>, ms: Seq<ChatMessage>, ls: Seq<UserLevel>, fs: Seq<u32>, ts: Seq<u64>,
) -> bool {
    &&& gs.len() == ms.len() + 1
    &&& ls.len() == ms.len() && fs.len() == ms.len() && ts.len() == ms.len()
    &&& forall|k: int| 0 <= k < ms.len() ==> #[trigger] message_applied(gs[k], gs[k + 1], ms[k], ls[k],
        gs[k].spec_entry_decision(ms[k], ls[k], fs[k], ts[k]))
}

/// Over any run of an anti-spam keyword giveaway fed messages from one user
/// on one platform, only the first entry counts: once message `i` has
/// entered the user, every later message is ignored and the giveaway stays
/// as that entry left it.
pub proof fn lemma_keyword_run_enters_once(
    gs: Seq<ActiveGiveaway>, ms: Seq<ChatMessage>, ls: Seq<UserLevel>, fs: Seq<u32>, ts: Seq<u64>, i: int,
)
    requires
        giveaway_run(gs, ms, ls, fs, ts),
        0 <= i < ms.len(),
        gs[i].giveaway_type matches GiveawayType::Keyword { anti_spam, .. } && anti_spam,
        gs[i].spec_entry_decision(ms[i], ls[i], fs[i], ts[i]) is KeywordEntry,
        forall|k: int| 0 <= k < ms.len() ==> (#[trigger] ms[k]).platform@ == ms[i].platform@ && ms[k].username@ == ms[i].username@,
    ensures
        forall|k: int| i < k < ms.len() ==> (#[trigger] gs[k].spec_entry_decision(ms[k], ls[k], fs[k], ts[k])) is Ignore,
        forall|k: int| i < k <= ms.len() ==> #[trigger] gs[k] == gs[i + 1],
{
    assert forall|k: int| i < k <= ms.len() implies #[trigger] gs[k] == gs[i + 1]
        && (k < ms.len() ==> gs[k].spec_entry_decision(ms[k], ls[k], fs[k], ts[k]) is Ignore) by {
        lemma_keyword_run_stays(gs, ms, ls, fs, ts, i, k);
    }
    assert forall|k: int| i < k < ms.len() implies (#[trigger] gs[k].spec_entry_decision(ms[k], ls[k], fs[k], ts[k])) is Ignore by {
        lemma_keyword_run_stays(gs, ms, ls, fs, ts, i, k);
    }
}

proof fn lemma_keyword_run_stays(
    gs: Seq<ActiveGiveaway>, ms: Seq<ChatMessage>, ls: Seq<UserLevel>, fs: Seq<u32>, ts: Seq<u64>, i: int, k: int,
)
    requires
        giveaway_run(gs, ms, ls, fs, ts),
        0 <= i < ms.len(),
        gs[i].giveaway_type matches GiveawayType::Keyword { anti_spam, .. } && anti_spam,
        gs[i].spec_entry_decision(ms[i], ls[i], fs[i], ts[i]) is KeywordEntry,
        forall|j: int| 0 <= j < ms.len() ==> (#[trigger] ms[j]).platform@ == ms[i].platform@ && ms[j].username@ == ms[i].username@,
        i < k <= ms.len(),
    ensures
        gs[k] == gs[i + 1],
        k < ms.len() ==> gs[k].spec_entry_decision(ms[k], ls[k], fs[k], ts[k]) is Ignore,
    decreases k - i,
{
    assert(message_applied(gs[i], gs[i + 1], ms[i], ls[i], gs[i].spec_entry_decision(ms[i], ls[i], fs[i], ts[i])));
    if k > i + 1 {
        lemma_keyword_run_stays(gs, ms, ls, fs, ts, i, k - 1);
        let j = k - 1;
        assert(message_applied(gs[j], gs[j + 1], ms[j], ls[j], gs[j].spec_entry_decision(ms[j], ls[j], fs[j], ts[j])));
        assert(j + 1 == k);
    }
    if k < ms.len() {
        assert(ms[k].platform@ == ms[i].platform@ && ms[k].username@ == ms[i].username@);
    }
}

/// Typing the drawn number wins: in a number giveaway whose number is
/// drawn, a message from the giveaway's platform (or any, for `all`) and
/// channel, from an allowed standing within the fraud limit, whose trimmed
/// text reads as the number, is a win; the giveaway is completed with the
/// sender as its winner, holding that number.
pub proof fn lemma_typing_the_number_wins(
    g0: ActiveGiveaway, g1: ActiveGiveaway, m: ChatMessage, level: UserLevel, fraud: u32, now: u64, n: u32,
)
    requires
        g0.giveaway_type is RandomNumber,
        g0.generated_number == Some(n),
        g0.platform@ == "all"@ || g0.platform@ == m.platform@,
        g0.channel@ == m.channel@,
        g0.settings.eligible_user_levels@.contains(level),
        fraud <= g0.settings.max_fraud_score,
        typed_number(m.content@) == Some(n),
        message_applied(g0, g1, m, level, g0.spec_entry_decision(m, level, fraud, now)),
    ensures
        g0.spec_entry_decision(m, level, fraud, now) == EntryDecision::Win(n),
        g1.status == GiveawayStatus::Completed,
        g1.winner matches Some(w) && w.username@ == m.username@ && w.platform@ == m.platform@
            && w.user_level == level && (w.winning_entry matches Some(e) && e@ == text::nat_digits(n as nat)),
{
}

/// Only the drawn number wins: a message whose text does not read as the
/// drawn number (or sent before a number is drawn) never wins a number
/// giveaway, and leaves it as it was.
pub proof fn lemma_other_numbers_do_not_win(
    g0: ActiveGiveaway, g1: ActiveGiveaway, m: ChatMessage, level: UserLevel, fraud: u32, now: u64,
)
    requires
        g0.giveaway_type is RandomNumber,
        match g0.generated_number { Some(n) => typed_number(m.content@) != Some(n), None => true },
        message_applied(g0, g1, m, level, g0.spec_entry_decision(m, level, fraud, now)),
    ensures
        g0.spec_entry_decision(m, level, fraud, now) == EntryDecision::Ignore,
        g1 == g0,
{
}

} // verus!
