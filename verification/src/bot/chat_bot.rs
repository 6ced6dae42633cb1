//! How the bot handles each chat message: the order in which the message
//! is scored, moderated and offered to the command handlers, the replies to
//! moderation actions, and the announcements of unlocked achievements.
//!
//! The application performs each step on the library's subsystems and
//! reports the outcome; `first_step` and `after_step` decide what comes next.

use vstd::prelude::*;
use crate::bot::achievements::{Achievement, AchievementRarity};
use crate::bot::types::{ChatMessage, ModerationAction, ActionView, ModerationEscalation, ExemptionLevel, SpamFilter, SpamFilterType};
use crate::bot::moderation::{ModerationSystem, generate_filter_name, spec_default_filter_name, SentMessage, percentages_fit, spec_update_history};
use crate::bot::achievements::{AchievementSystem, check_fits, check_all, start_view};
use crate::bot::achievement_commands::AchievementCommands;
use crate::bot::points::{PointsSystem, PointsState, UserPoints, spec_process_message, message_fits, spec_grant, view_can_add};
use crate::bot::points_commands::PointsCommands;
use crate::bot::filter_commands::FilterCommands;
use crate::bot::commands::{CommandSystem, spec_parse_command, parse_command};
use crate::bot::analytics::{AnalyticsSystem, ChannelView, channel_key, add_once};
use crate::bot::user_history::{UserHistories, spec_exemptions, exemptions_for};
use crate::bot::types::user_key;
use crate::text;

verus! {

/// A step of handling a message that passed the points and achievements.
#[derive(Clone, Copy, Debug, PartialEq, Eq, Structural)]
pub enum Step {
    /// Act on the spam filters' verdict; nothing else follows.
    Moderate,
    /// Offer the command to the timer commands.
    Timer,
    /// Offer the command to the filter commands.
    Filter,
    /// Offer the command to the achievement commands.
    Achievement,
    /// Offer the command to the points commands.
    Points,
    /// Run the custom commands; `award` when the message held a command.
    Regular { award: bool },
    /// Award the points for using a command.
    AwardCommandPoints,
    Done,
}

/// The first step for a message: moderation when the spam filters flagged
/// it; the command handlers, in order, when it holds a command; otherwise
/// the custom commands alone.
pub open spec fn spec_first_step(flagged: bool, has_command: bool) -> Step {
    if flagged {
        Step::Moderate
    } else if has_command {
        Step::Timer
    } else {
        Step::Regular { award: false }
    }
}

/// The step after `s`, given whether it handled the message (for the
/// custom commands: whether they ran without error): a handler that took
/// the command ends the handling, and the points handler's commands earn
/// points; otherwise the next handler is tried, the custom commands last,
/// which earn points for a command when they ran.
pub open spec fn spec_after_step(s: Step, handled: bool) -> Step {
    match s {
        Step::Moderate => Step::Done,
        Step::Timer => if handled { Step::Done } else { Step::Filter },
        Step::Filter => if handled { Step::Done } else { Step::Achievement },
        Step::Achievement => if handled { Step::Done } else { Step::Points },
        Step::Points => if handled { Step::AwardCommandPoints } else { Step::Regular { award: true } },
        Step::Regular { award } => if handled && award { Step::AwardCommandPoints } else { Step::Done },
        Step::AwardCommandPoints => Step::Done,
        Step::Done => Step::Done,
    }
}

/// The first step for a message; see `spec_first_step`.
pub fn first_step(flagged: bool, has_command: bool) -> (s: Step)
    ensures
        s == spec_first_step(flagged, has_command),
{
    if flagged {
        Step::Moderate
    } else if has_command {
        Step::Timer
    } else {
        Step::Regular { award: false }
    }
}

/// The step after `s`; see `spec_after_step`.
pub fn after_step(s: Step, handled: bool) -> (n: Step)
    ensures
        n == spec_after_step(s, handled),
{
    match s {
        Step::Moderate => Step::Done,
        Step::Timer => if handled { Step::Done } else { Step::Filter },
        Step::Filter => if handled { Step::Done } else { Step::Achievement },
        Step::Achievement => if handled { Step::Done } else { Step::Points },
        Step::Points => if handled { Step::AwardCommandPoints } else { Step::Regular { award: true } },
        Step::Regular { award } => if handled && award { Step::AwardCommandPoints } else { Step::Done },
        Step::AwardCommandPoints => Step::Done,
        Step::Done => Step::Done,
    }
}

/// The step reached from `s` after `outcomes`, one per step taken.
pub open spec fn run_steps(s: Step, outcomes: Seq<bool>) -> Step
    decreases outcomes.len(),
{
    if outcomes.len() == 0 { s } else { run_steps(spec_after_step(s, outcomes[0]), outcomes.drop_first()) }
}

/// How many steps at most remain after `s`.
pub open spec fn steps_left(s: Step) -> nat {
    match s {
        Step::Moderate => 1,
        Step::Timer => 6,
        Step::Filter => 5,
        Step::Achievement => 4,
        Step::Points => 3,
        Step::Regular { .. } => 2,
        Step::AwardCommandPoints => 1,
        Step::Done => 0,
    }
}

/// Handling ends: whatever the handlers answer, a message is done after at
/// most seven steps, and done stays done.
pub proof fn lemma_handling_ends(flagged: bool, has_command: bool, outcomes: Seq<bool>)
    requires
        outcomes.len() >= 7,
    ensures
        run_steps(spec_first_step(flagged, has_command), outcomes) == Step::Done,
{
    lemma_steps_bounded(spec_first_step(flagged, has_command), outcomes);
}

proof fn lemma_steps_bounded(s: Step, outcomes: Seq<bool>)
    requires
        outcomes.len() >= steps_left(s),
    ensures
        run_steps(s, outcomes) == Step::Done,
    decreases outcomes.len(),
{
    if outcomes.len() > 0 {
        lemma_steps_bounded(spec_after_step(s, outcomes[0]), outcomes.drop_first());
    }
}

/// Command points are awarded only for a command that the points handler
/// or the custom commands took: never for a flagged message, never when
/// the timer, filter or achievement handlers took the command.
pub proof fn lemma_award_only_after_points_or_custom(s: Step, handled: bool)
    ensures
        spec_after_step(s, handled) == Step::AwardCommandPoints ==>
            (s == Step::Points && handled) || (s == (Step::Regular { award: true }) && handled),
{
}

/// The reply a moderation action gets in chat: a timeout is announced and a
/// warning addressed to the user; deletion and logging get none.
pub open spec fn spec_moderation_reply(a: ActionView, username: Seq<char>) -> Option<Seq<char>> {
    match a {
        ActionView::TimeoutUser(d) => Some("@"@ + username + " has been timed out for "@ + text::nat_digits(d as nat) + " seconds"@),
        ActionView::WarnUser(w) => Some("@"@ + username + " "@ + w),
        _ => None,
    }
}

/// The reply a moderation action gets in chat; see `spec_moderation_reply`.
pub fn moderation_reply(action: &ModerationAction, message: &ChatMessage) -> (r: Option<String>)
    ensures
        match spec_moderation_reply(action@, message.username@) {
            Some(t) => r matches Some(s) && s@ == t,
            None => r is None,
        },
{
    match action {
        ModerationAction::TimeoutUser { duration_seconds } => {
            let a = text::concat("@", message.username.as_str());
            let b = text::concat(a.as_str(), " has been timed out for ");
            let c = text::concat(b.as_str(), text::nat_decimal(*duration_seconds).as_str());
            Some(text::concat(c.as_str(), " seconds"))
        },
        ModerationAction::WarnUser { message: warning } => {
            let a = text::concat("@", message.username.as_str());
            let b = text::concat(a.as_str(), " ");
            Some(text::concat(b.as_str(), warning.as_str()))
        },
        _ => None,
    }
}

/// The emoji that announces an achievement of this rarity.
pub open spec fn rarity_emoji(r: AchievementRarity) -> Seq<char> {
    match r {
        AchievementRarity::Common => "🎉"@,
        AchievementRarity::Uncommon => "✨"@,
        AchievementRarity::Rare => "🌟"@,
        AchievementRarity::Epic => "💫"@,
        AchievementRarity::Legendary => "🎆"@,
        AchievementRarity::Mythic => "👑"@,
    }
}

/// The announcement of an achievement unlocked by `username`.
pub open spec fn announcement(a: Achievement, username: Seq<char>) -> Seq<char> {
    rarity_emoji(a.rarity) + " "@ + username + " UNLOCKED: "@ + a.badge_emoji@ + " "@ + a.name@ + " | \""@
        + a.description@ + "\" | +"@ + text::int_text(a.reward_points as int) + " points! "@ + rarity_emoji(a.rarity)
}

/// Announce an achievement unlocked by `username`; see `announcement`.
pub fn announce_achievement(achievement: &Achievement, username: &str) -> (r: String)
    ensures
        r@ == announcement(*achievement, username@),
{
    let e = match achievement.rarity {
        AchievementRarity::Common => "🎉",
        AchievementRarity::Uncommon => "✨",
        AchievementRarity::Rare => "🌟",
        AchievementRarity::Epic => "💫",
        AchievementRarity::Legendary => "🎆",
        AchievementRarity::Mythic => "👑",
    };
    let a = text::concat(e, " ");
    let b = text::concat(a.as_str(), username);
    let c = text::concat(b.as_str(), " UNLOCKED: ");
    let d = text::concat(c.as_str(), achievement.badge_emoji.as_str());
    let f = text::concat(d.as_str(), " ");
    let g = text::concat(f.as_str(), achievement.name.as_str());
    let h = text::concat(g.as_str(), " | \"");
    let i = text::concat(h.as_str(), achievement.description.as_str());
    let j = text::concat(i.as_str(), "\" | +");
    let k = text::concat(j.as_str(), text::int_decimal(achievement.reward_points).as_str());
    let l = text::concat(k.as_str(), " points! ");
    text::concat(l.as_str(), e)
}

/// The reason logged for an achievement's bonus points.
pub fn achievement_reason(achievement: &Achievement) -> (r: String)
    ensures
        r@ == "Achievement: "@ + achievement.name@,
{
    text::concat("Achievement: ", achievement.name.as_str())
}

// ---------------------------------------------------------------------------
// Filters added with the older settings
// ---------------------------------------------------------------------------

/// The escalation of a filter given a timeout and an optional warning: a
/// warning first (the given text, or a default), then a timeout of
/// `timeout_duration` seconds for a repeat within an hour.
pub fn legacy_escalation(timeout_duration: u64, warning_message: &Option<String>) -> (e: ModerationEscalation)
    ensures
        e.first_offense@ == ActionView::WarnUser(match warning_message {
            Some(w) => w@,
            None => "Please follow chat rules (first warning)"@,
        }),
        e.repeat_offense@ == ActionView::TimeoutUser(timeout_duration),
        e.offense_window_seconds == 3600,
{
    let message = match warning_message {
        Some(w) => text::owned(w.as_str()),
        None => text::owned("Please follow chat rules (first warning)"),
    };
    ModerationEscalation {
        first_offense: ModerationAction::WarnUser { message },
        repeat_offense: ModerationAction::TimeoutUser { duration_seconds: timeout_duration },
        offense_window_seconds: 3600,
    }
}

/// Which exemption level a filter gets, given whether moderators and
/// subscribers are to bypass it: the subscriber level whenever subscribers
/// are, the moderator level when only moderators are, and no exemption
/// otherwise.
pub open spec fn spec_legacy_exemption(mod_exempt: bool, subscriber_exempt: bool) -> ExemptionLevel {
    if subscriber_exempt {
        ExemptionLevel::Subscriber
    } else if mod_exempt {
        ExemptionLevel::Moderator
    } else {
        ExemptionLevel::NoOne
    }
}

/// See `spec_legacy_exemption`.
pub fn legacy_exemption_level(mod_exempt: bool, subscriber_exempt: bool) -> (l: ExemptionLevel)
    ensures
        l == spec_legacy_exemption(mod_exempt, subscriber_exempt),
{
    if subscriber_exempt {
        ExemptionLevel::Subscriber
    } else if mod_exempt {
        ExemptionLevel::Moderator
    } else {
        ExemptionLevel::NoOne
    }
}

/// The name a filter added at `now` (seconds) gets: its kind's default name,
/// an underscore and the time.
pub open spec fn legacy_filter_name(filter_type: SpamFilterType, now: i64) -> Seq<char> {
    spec_default_filter_name(filter_type) + "_"@ + text::int_text(now as int)
}

/// `after` is `before` with an enabled, not silent filter added at `now`
/// (seconds) from the older settings: named by `legacy_filter_name`,
/// escalating as `legacy_escalation` says, exempting as
/// `spec_legacy_exemption` says, with the warning as its custom message;
/// the other filters and the protection switch are kept.
pub open spec fn legacy_filter_added(
    before: ModerationSystem,
    after: ModerationSystem,
    filter_type: SpamFilterType,
    timeout_duration: u64,
    warning_message: Option<String>,
    mod_exempt: bool,
    subscriber_exempt: bool,
    now: i64,
) -> bool {
    let name = legacy_filter_name(filter_type, now);
    let f = after.filters()[name];
    &&& after.protection_enabled() == before.protection_enabled()
    &&& after.filters().dom() == before.filters().dom().insert(name)
    &&& forall|n: Seq<char>| n != name && #[trigger] before.filters().dom().contains(n)
        ==> after.filters()[n] == before.filters()[n]
    &&& f.name@ == name
    &&& f.filter_type == filter_type
    &&& f.enabled
    &&& f.escalation.first_offense@ == ActionView::WarnUser(match warning_message {
        Some(w) => w@,
        None => "Please follow chat rules (first warning)"@,
    })
    &&& f.escalation.repeat_offense@ == ActionView::TimeoutUser(timeout_duration)
    &&& f.escalation.offense_window_seconds == 3600
    &&& f.exemption_level == spec_legacy_exemption(mod_exempt, subscriber_exempt)
    &&& !f.silent_mode
    &&& f.custom_message == warning_message
}

/// Add a filter at `now` (seconds) from the older settings; see
/// `legacy_filter_added`.
pub fn add_spam_filter_advanced_at(
    moderation: &mut ModerationSystem,
    filter_type: SpamFilterType,
    timeout_duration: u64,
    warning_message: Option<String>,
    mod_exempt: bool,
    subscriber_exempt: bool,
    now: i64,
)
    requires
        old(moderation).wf(),
    ensures
        final(moderation).wf(),
        legacy_filter_added(*old(moderation), *final(moderation), filter_type, timeout_duration, warning_message,
            mod_exempt, subscriber_exempt, now),
{
    let ghost w = warning_message;
    let escalation = legacy_escalation(timeout_duration, &warning_message);
    let exemption_level = legacy_exemption_level(mod_exempt, subscriber_exempt);
    let base = generate_filter_name(&filter_type);
    let with_sep = text::concat(base.as_str(), "_");
    let stamp = text::int_decimal(now);
    let name = text::concat(with_sep.as_str(), stamp.as_str());
    let ghost ng = name@;
    moderation.add_spam_filter_advanced(name, filter_type, escalation, exemption_level, false, warning_message);
    assert(ng == legacy_filter_name(filter_type, now));
    assert(legacy_filter_added(*old(moderation), *moderation, filter_type, timeout_duration, w,
        mod_exempt, subscriber_exempt, now));
}

/// Add a filter from the older settings now, by the wall clock; see
/// `legacy_filter_added`.
pub fn add_spam_filter_advanced(
    moderation: &mut ModerationSystem,
    filter_type: SpamFilterType,
    timeout_duration: u64,
    warning_message: Option<String>,
    mod_exempt: bool,
    subscriber_exempt: bool,
)
    requires
        old(moderation).wf(),
    ensures
        final(moderation).wf(),
        exists|now: i64| #[trigger] legacy_filter_added(*old(moderation), *final(moderation), filter_type, timeout_duration,
            warning_message, mod_exempt, subscriber_exempt, now),
{
    let now = crate::clock::now_secs() as i64;
    let ghost w = warning_message;
    add_spam_filter_advanced_at(moderation, filter_type, timeout_duration, warning_message, mod_exempt, subscriber_exempt, now);
    assert(legacy_filter_added(*old(moderation), *moderation, filter_type, timeout_duration, w,
        mod_exempt, subscriber_exempt, now));
}

// ---------------------------------------------------------------------------
// Taking in a message
// ---------------------------------------------------------------------------

/// The reason logged with an achievement's reward.
pub open spec fn award_reason(a: Achievement) -> Seq<char> {
    "Achievement: "@ + a.name@
}

/// The points after the rewards of the achievements `newly` are granted to
/// user `id` in order at `now`.
pub open spec fn spec_awards(st: PointsState, id: Seq<char>, newly: Seq<Achievement>, now: i64) -> PointsState
    decreases newly.len(),
{
    if newly.len() == 0 {
        st
    } else {
        spec_grant(spec_awards(st, id, newly.drop_last(), now), id, newly.last().reward_points, award_reason(newly.last()), now)
    }
}

/// Whether every reward of `newly` can be granted in turn without overflow.
pub open spec fn awards_fit(st: PointsState, id: Seq<char>, newly: Seq<Achievement>, now: i64) -> bool
    decreases newly.len(),
{
    if newly.len() == 0 {
        true
    } else {
        let before = spec_awards(st, id, newly.drop_last(), now);
        &&& awards_fit(st, id, newly.drop_last(), now)
        &&& before.users.dom().contains(id) ==> view_can_add(before.users[id], newly.last().reward_points as int)
    }
}

proof fn lemma_awards_fit_prefix(st: PointsState, id: Seq<char>, newly: Seq<Achievement>, now: i64, k: int)
    requires
        awards_fit(st, id, newly, now),
        0 <= k <= newly.len(),
    ensures
        awards_fit(st, id, newly.take(k), now),
    decreases newly.len(),
{
    if k == newly.len() {
        assert(newly.take(k) =~= newly);
    } else {
        assert(newly.take(k) =~= newly.drop_last().take(k));
        lemma_awards_fit_prefix(st, id, newly.drop_last(), now, k);
    }
}

/// The clock reading in seconds of a reading in milliseconds.
pub open spec fn seconds_of(now_ms: u64) -> i64 {
    (now_ms / 1000) as i64
}

/// Whether a user counts as a regular: ranked Regular or above, having
/// earned at least 1000 points.
pub open spec fn is_regular(st: PointsState, id: Seq<char>) -> bool {
    st.users.dom().contains(id) && st.users[id].total_earned >= 1000
}

/// A channel's statistics once a message from `user` is received.
pub open spec fn received(c: ChannelView, user: Seq<char>) -> ChannelView {
    ChannelView { total_messages: (c.total_messages + 1) as u64, unique_users: add_once(c.unique_users, user), ..c }
}

/// A channel's statistics once a message is blocked as spam.
pub open spec fn blocked(c: ChannelView) -> ChannelView {
    ChannelView { spam_messages_blocked: (c.spam_messages_blocked + 1) as u64, ..c }
}

/// The bot's subsystems and what moderation remembers of its users.
pub struct ChatBot {
    pub commands: CommandSystem,
    pub filters: FilterCommands,
    pub points: PointsCommands,
    pub achievements: AchievementCommands,
    pub analytics: AnalyticsSystem,
    pub histories: UserHistories,
    pub total_violations: u64,
}

/// What taking in a message produced: the replies to send to its channel,
/// and the step the handling goes on with (`Done` for a flagged message).
pub struct Intake {
    pub replies: Vec<String>,
    pub next: Step,
}

impl ChatBot {
    /// The subsystems are well formed.
    pub open spec fn wf(&self) -> bool {
        &&& self.filters.moderation_system.wf()
        &&& self.points.points_system.wf()
        &&& self.achievements.achievement_system.wf()
        &&& self.analytics.wf()
        &&& self.histories.wf()
    }

    /// A bot with empty subsystems and the prefix `!`.
    pub fn new() -> (b: Self)
        ensures
            b.wf(),
            b.total_violations == 0,
            b.commands.prefix() == "!"@,
    {
        ChatBot {
            commands: CommandSystem::new(),
            filters: FilterCommands::new(ModerationSystem::new()),
            points: PointsCommands::new(PointsSystem::new()),
            achievements: AchievementCommands::new(AchievementSystem::new()),
            analytics: AnalyticsSystem::new(),
            histories: UserHistories::new(),
            total_violations: 0,
        }
    }

    /// The points after `m` was counted at `now_ms`.
    pub open spec fn points_after_message(&self, m: ChatMessage, now_ms: u64) -> PointsState {
        spec_process_message(self.points.points_system.state(), self.points.points_system.config_of(), m, now_ms)
    }

    /// Whether taking in `m` at `now_ms` stays within the counters' and
    /// the points' ranges.
    pub open spec fn intake_fits(&self, m: ChatMessage, now_ms: u64) -> bool {
        let id = user_key(m.platform@, m.username@);
        let now = seconds_of(now_ms);
        let st1 = self.points_after_message(m, now_ms);
        let c = self.analytics.channel_or_new(channel_key(m.platform@, m.channel@));
        let ach = self.achievements.achievement_system;
        &&& c.total_messages < u64::MAX - 1
        &&& c.spam_messages_blocked < u64::MAX
        &&& message_fits(self.points.points_system.state(), self.points.points_system.config_of(), m, now_ms)
        &&& forall|u: UserPoints| #![trigger u.view()] u@ == st1.users[id] ==> {
            &&& check_fits(ach.catalogue(), start_view(ach.users(), u.user_id@), u, now)
            &&& awards_fit(st1, id, check_all(ach.catalogue(), start_view(ach.users(), u.user_id@), u, now).1, now)
        }
        &&& percentages_fit(m.content@)
        &&& m.content@.len() * 8 <= usize::MAX
        &&& self.total_violations < u64::MAX
    }

    /// Taking in `m` at `now_ms` took `before` to `after` and gave `r`, with
    /// `u` the sender's points record once the message was counted, `newly`
    /// the achievements it unlocked and `verdict` what the filters decided.
    /// The message is counted as received, earns its points, the
    /// sender's achievements are checked and their rewards granted and
    /// announced, the message joins the sender's history and is checked by
    /// the filters (the sender exempt as `spec_exemptions` says, a regular
    /// when ranked so). A flagged message is counted as blocked spam and as
    /// a violation, answered as `spec_moderation_reply` says, and goes no
    /// further; any other goes on to the command handlers.
    pub open spec fn intake_with(
        before: ChatBot, after: ChatBot, m: ChatMessage, now_ms: u64, r: Intake,
        u: UserPoints, newly: Seq<Achievement>, verdict: Option<ModerationAction>,
    ) -> bool {
        let id = user_key(m.platform@, m.username@);
        let now = seconds_of(now_ms);
        let st1 = before.points_after_message(m, now_ms);
        let key = channel_key(m.platform@, m.channel@);
        let c1 = received(before.analytics.channel_or_new(key), id);
        let ach0 = before.achievements.achievement_system;
        let ach1 = after.achievements.achievement_system;
        let h = spec_update_history(before.histories.messages_of(id),
            SentMessage { timestamp: m.timestamp, content: m.content }, now);
        let st2 = spec_awards(st1, id, newly, now);
        &&& if st1.users.dom().contains(id) {
            &&& u@ == st1.users[id]
            &&& ach1.users() == ach0.users().insert(u.user_id@, check_all(ach0.catalogue(), start_view(ach0.users(), u.user_id@), u, now).0)
            &&& newly == check_all(ach0.catalogue(), start_view(ach0.users(), u.user_id@), u, now).1
        } else {
            ach1.users() == ach0.users() && newly.len() == 0
        }
        &&& ach1.catalogue() == ach0.catalogue()
        &&& after.points.points_system.state() == st2
        &&& after.points.points_system.config_of() == before.points.points_system.config_of()
        &&& after.histories.messages() == before.histories.messages().insert(id, h)
        &&& after.histories.violations() == before.histories.violations().insert(id, after.histories.violations_of(id))
        &&& before.filters.moderation_system.checked(m, h, before.histories.violations_of(id), after.histories.violations_of(id),
            spec_exemptions(m, is_regular(st2, id)), now, verdict)
        &&& after.filters == before.filters
        &&& after.commands == before.commands
        &&& after.analytics.commands() == before.analytics.commands()
        &&& r.replies@.len() >= newly.len()
        &&& forall|i: int| 0 <= i < newly.len() ==> #[trigger] r.replies@[i]@ == announcement(newly[i], m.username@)
        &&& match verdict {
            Some(a) => {
                &&& after.total_violations == before.total_violations + 1
                &&& after.analytics.channels() == before.analytics.channels().insert(key, blocked(c1))
                &&& r.next == Step::Done
                &&& match spec_moderation_reply(a@, m.username@) {
                    Some(t) => r.replies@.len() == newly.len() + 1 && r.replies@[newly.len() as int]@ == t,
                    None => r.replies@.len() == newly.len(),
                }
            },
            None => {
                &&& after.total_violations == before.total_violations
                &&& after.analytics.channels() == before.analytics.channels().insert(key, c1)
                &&& r.next == spec_first_step(false, spec_parse_command(m.content@, before.commands.prefix()) is Some)
                &&& r.replies@.len() == newly.len()
            },
        }
    }

    /// Take in `message` at `now_ms` (milliseconds); see
    /// `intake_with`.
    pub fn handle_message_at(&mut self, message: &ChatMessage, now_ms: u64) -> (r: Intake)
        requires
            old(self).wf(),
            old(self).intake_fits(*message, now_ms),
        ensures
            final(self).wf(),
            exists|u: UserPoints, newly: Seq<Achievement>, verdict: Option<ModerationAction>|
                #[trigger] Self::intake_with(*old(self), *final(self), *message, now_ms, r, u, newly, verdict),
    {
        let ghost b = *self;
        let ghost id = user_key(message.platform@, message.username@);
        let now: i64 = (now_ms / 1000) as i64;
        self.analytics.process_message_event(message);
        let ghost ch1 = self.analytics.channels();
        self.points.points_system.process_message_at(message, now_ms);
        let ghost st1 = self.points.points_system.state();
        let mut replies: Vec<String> = Vec::new();
        let ghost mut ug: UserPoints = vstd::pervasive::arbitrary();
        let ghost mut newly_g: Seq<Achievement> = Seq::empty();
        match self.points.points_system.get_user_points(message.platform.as_str(), message.username.as_str()) {
            Some(user) => {
                proof {
                    ug = user;
                }
                let newly = self.achievements.achievement_system.check_achievements_at(&user, now);
                proof {
                    newly_g = newly@;
                }
                let ghost a1 = self.achievements;
                let ghost an1 = self.analytics;
                let mut k: usize = 0;
                while k < newly.len()
                    invariant
                        k <= newly@.len(),
                        newly_g == newly@,
                        self.points.points_system.wf(),
                        self.points.points_system.state() == spec_awards(st1, id, newly@.take(k as int), now),
                        self.points.points_system.config_of() == b.points.points_system.config_of(),
                        awards_fit(st1, id, newly@, now),
                        id == user_key(message.platform@, message.username@),
                        replies@.len() == k,
                        forall|i: int| 0 <= i < k ==> #[trigger] replies@[i]@ == announcement(newly@[i], message.username@),
                        self.achievements == a1,
                        self.analytics == an1,
                        self.filters == b.filters,
                        self.commands == b.commands,
                        self.histories == b.histories,
                        self.total_violations == b.total_violations,
                    decreases newly@.len() - k,
                {
                    proof {
                        lemma_awards_fit_prefix(st1, id, newly@, now, k + 1);
                        assert(newly@.take(k + 1).drop_last() =~= newly@.take(k as int));
                        assert(newly@.take(k + 1).last() == newly@[k as int]);
                    }
                    let reason = achievement_reason(&newly[k]);
                    self.points.points_system.grant_points_at(message.platform.as_str(), message.username.as_str(),
                        newly[k].reward_points, reason.as_str(), now);
                    let text = announce_achievement(&newly[k], message.username.as_str());
                    replies.push(text);
                    k = k + 1;
                }
                assert(newly@.take(newly@.len() as int) =~= newly@);
            },
            None => {},
        }
        let ghost st2 = self.points.points_system.state();
        let regular = match self.points.points_system.get_user_points(message.platform.as_str(), message.username.as_str()) {
            Some(u) => u.total_earned >= 1000,
            None => false,
        };
        assert(regular == is_regular(st2, id));
        let exemptions = exemptions_for(message, regular);
        let verdict = self.histories.record_and_check_at(&self.filters.moderation_system, message, &exemptions, now);
        let ghost vg = verdict;
        let r = match verdict {
            Some(action) => {
                self.total_violations = self.total_violations + 1;
                self.analytics.process_spam_event(message);
                proof {
                    let key = channel_key(message.platform@, message.channel@);
                    let c1 = received(b.analytics.channel_or_new(key), id);
                    assert(ch1 == b.analytics.channels().insert(key, c1));
                    assert(self.analytics.channels() =~= b.analytics.channels().insert(key, blocked(c1)));
                }
                match moderation_reply(&action, message) {
                    Some(t) => {
                        replies.push(t);
                    },
                    None => {},
                }
                Intake { replies, next: Step::Done }
            },
            None => {
                let parsed = parse_command(message.content.as_str(), self.commands.get_command_prefix());
                Intake { replies, next: first_step(false, parsed.is_some()) }
            },
        };
        assert(Self::intake_with(b, *self, *message, now_ms, r, ug, newly_g, vg));
        r
    }
}

/// Taking in a message: a flagged message is counted as received and then
/// as blocked spam, counted as one violation, and offered to no command
/// handler; any other message is counted as received only and goes on to
/// the command handlers.
pub proof fn lemma_intake_paths(
    before: ChatBot, after: ChatBot, m: ChatMessage, now_ms: u64, r: Intake,
    u: UserPoints, newly: Seq<Achievement>, verdict: Option<ModerationAction>,
)
    requires
        before.intake_fits(m, now_ms),
        ChatBot::intake_with(before, after, m, now_ms, r, u, newly, verdict),
    ensures
        ({
            let key = channel_key(m.platform@, m.channel@);
            let c = before.analytics.channel_or_new(key);
            &&& after.analytics.channels().dom().contains(key)
            &&& after.analytics.channels()[key].total_messages == c.total_messages + 1
            &&& verdict is Some ==> r.next == Step::Done
                && after.total_violations == before.total_violations + 1
                && after.analytics.channels()[key].spam_messages_blocked == c.spam_messages_blocked + 1
            &&& verdict is None ==> r.next != Step::Done
                && after.total_violations == before.total_violations
                && after.analytics.channels()[key].spam_messages_blocked == c.spam_messages_blocked
        }),
{
}

} // verus!
