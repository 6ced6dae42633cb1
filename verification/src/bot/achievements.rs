//! Achievements: their definitions, each user's unlocked achievements and
//! progress, and the system that checks a user's statistics against every
//! achievement and unlocks those whose requirement is met.

use vstd::prelude::*;
use crate::bot::points::UserPoints;
use crate::clock;
use crate::keyed::{keys_distinct, has_key, keyed_map, lemma_key_index_unique, lemma_keyed_update, lemma_keyed_push, lemma_keyed_empty};
use crate::text;

verus! {

/// Definition of an achievement.
pub struct Achievement {
    pub id: String,
    pub name: String,
    pub description: String,
    pub category: AchievementCategory,
    pub requirement: AchievementRequirement,
    pub reward_points: i64,
    pub badge_emoji: String,
    pub rarity: AchievementRarity,
    /// Hidden until unlocked.
    pub hidden: bool,
}

#[derive(Clone, Copy, Debug, PartialEq, Eq, Structural)]
pub enum AchievementCategory {
    Engagement,
    Loyalty,
    Social,
    Points,
    Special,
    Moderation,
}

/// What a user must do to unlock an achievement.
pub enum AchievementRequirement {
    MessageCount(u64),
    WatchTime(u64),
    PointsEarned(i64),
    PointsBalance(i64),
    CommandsUsed(u64),
    DaysActive(u64),
    TransferPoints(i64),
    ReceiveTransfer(i64),
    Streak(u64),
    LeaderboardPosition(u8),
    HelpNewcomers(u64),
    Custom(String),
}

/// How rare an achievement is, from common to mythic.
#[derive(Clone, Copy, Debug, PartialEq, Eq, PartialOrd, Ord, Structural)]
pub enum AchievementRarity {
    Common,
    Uncommon,
    Rare,
    Epic,
    Legendary,
    Mythic,
}

/// Position of a rarity in the order from common to mythic.
pub open spec fn rarity_rank(r: AchievementRarity) -> nat {
    match r {
        AchievementRarity::Common => 0,
        AchievementRarity::Uncommon => 1,
        AchievementRarity::Rare => 2,
        AchievementRarity::Epic => 3,
        AchievementRarity::Legendary => 4,
        AchievementRarity::Mythic => 5,
    }
}

impl AchievementRarity {
    /// Position in the order from common to mythic.
    pub fn rank(&self) -> (n: u8)
        ensures
            n == rarity_rank(*self),
    {
        match self {
            AchievementRarity::Common => 0,
            AchievementRarity::Uncommon => 1,
            AchievementRarity::Rare => 2,
            AchievementRarity::Epic => 3,
            AchievementRarity::Legendary => 4,
            AchievementRarity::Mythic => 5,
        }
    }
}

impl Clone for AchievementRequirement {
    fn clone(&self) -> (r: Self)
        ensures
            r == *self,
    {
        match self {
            AchievementRequirement::MessageCount(n) => AchievementRequirement::MessageCount(*n),
            AchievementRequirement::WatchTime(n) => AchievementRequirement::WatchTime(*n),
            AchievementRequirement::PointsEarned(n) => AchievementRequirement::PointsEarned(*n),
            AchievementRequirement::PointsBalance(n) => AchievementRequirement::PointsBalance(*n),
            AchievementRequirement::CommandsUsed(n) => AchievementRequirement::CommandsUsed(*n),
            AchievementRequirement::DaysActive(n) => AchievementRequirement::DaysActive(*n),
            AchievementRequirement::TransferPoints(n) => AchievementRequirement::TransferPoints(*n),
            AchievementRequirement::ReceiveTransfer(n) => AchievementRequirement::ReceiveTransfer(*n),
            AchievementRequirement::Streak(n) => AchievementRequirement::Streak(*n),
            AchievementRequirement::LeaderboardPosition(n) => AchievementRequirement::LeaderboardPosition(*n),
            AchievementRequirement::HelpNewcomers(n) => AchievementRequirement::HelpNewcomers(*n),
            AchievementRequirement::Custom(s) => AchievementRequirement::Custom(s.clone()),
        }
    }
}

impl Clone for Achievement {
    fn clone(&self) -> (r: Self)
        ensures
            r == *self,
    {
        Achievement {
            id: self.id.clone(),
            name: self.name.clone(),
            description: self.description.clone(),
            category: self.category,
            requirement: self.requirement.clone(),
            reward_points: self.reward_points,
            badge_emoji: self.badge_emoji.clone(),
            rarity: self.rarity,
            hidden: self.hidden,
        }
    }
}

/// Whole days between `from` and `to` (seconds), rounded toward zero.
pub open spec fn whole_days(from: i64, to: i64) -> int {
    let d = to - from;
    if d >= 0 { d / 86400 } else { -((-d) / 86400) }
}

/// Whether `user` meets `req` at `now` (seconds), and the progress value
/// shown for it. Requirements that need data not tracked are never met.
pub open spec fn requirement_result(req: AchievementRequirement, user: UserPoints, now: i64) -> (bool, u64) {
    match req {
        AchievementRequirement::MessageCount(t) => (user.messages_sent >= t, user.messages_sent),
        AchievementRequirement::WatchTime(t) => (user.minutes_watched >= t, user.minutes_watched),
        AchievementRequirement::PointsEarned(t) => (user.total_earned >= t, user.total_earned as u64),
        AchievementRequirement::PointsBalance(t) => (user.points >= t, user.points as u64),
        AchievementRequirement::CommandsUsed(t) => (user.commands_used >= t, user.commands_used),
        AchievementRequirement::DaysActive(t) => {
            let days = whole_days(user.first_seen, now) as i64 as u64;
            (days >= t, days)
        },
        _ => (false, 0),
    }
}

/// Whether `user` meets `req` at `now` (seconds), and the progress value for it.
pub fn check_requirement(requirement: &AchievementRequirement, user: &UserPoints, now: i64) -> (r: (bool, u64))
    ensures
        r == requirement_result(*requirement, *user, now),
{
    match requirement {
        AchievementRequirement::MessageCount(t) => (user.messages_sent >= *t, user.messages_sent),
        AchievementRequirement::WatchTime(t) => (user.minutes_watched >= *t, user.minutes_watched),
        AchievementRequirement::PointsEarned(t) => (user.total_earned >= *t, user.total_earned as u64),
        AchievementRequirement::PointsBalance(t) => (user.points >= *t, user.points as u64),
        AchievementRequirement::CommandsUsed(t) => (user.commands_used >= *t, user.commands_used),
        AchievementRequirement::DaysActive(t) => {
            let d: i128 = now as i128 - user.first_seen as i128;
            let days: i128 = if d >= 0 { d / 86400 } else { -((-d) / 86400) };
            assert(days == whole_days(user.first_seen, now));
            let days: u64 = days as i64 as u64;
            (days >= *t, days)
        },
        _ => (false, 0),
    }
}

// ---------------------------------------------------------------------------
// A user's achievements
// ---------------------------------------------------------------------------

/// Progress recorded toward an achievement.
pub struct AchievementProgress {
    pub achievement_id: String,
    pub value: u64,
}

/// When an achievement was unlocked (seconds since the epoch).
pub struct UnlockTime {
    pub achievement_id: String,
    pub at: i64,
}

/// A user's unlocked achievements and progress.
pub struct UserAchievements {
    pub user_id: String,
    pub unlocked: Vec<String>,
    pub progress: Vec<AchievementProgress>,
    pub unlock_timestamps: Vec<UnlockTime>,
    pub total_achievement_points: i64,
    pub rarest_achievement: Option<AchievementRarity>,
}

/// Mathematical view of a user's achievements.
pub struct UserAchievementsView {
    pub user_id: Seq<char>,
    pub unlocked: Set<Seq<char>>,
    /// The unlocked achievements in the order they were unlocked.
    pub unlock_order: Seq<Seq<char>>,
    pub progress: Map<Seq<char>, u64>,
    pub unlocked_at: Map<Seq<char>, i64>,
    pub total: i64,
    pub rarest: Option<AchievementRarity>,
}

pub open spec fn text_key() -> spec_fn(String) -> Seq<char> {
    |s: String| s@
}

pub open spec fn progress_key() -> spec_fn(AchievementProgress) -> Seq<char> {
    |p: AchievementProgress| p.achievement_id@
}

pub open spec fn unlock_key() -> spec_fn(UnlockTime) -> Seq<char> {
    |u: UnlockTime| u.achievement_id@
}

impl View for UserAchievements {
    type V = UserAchievementsView;

    open spec fn view(&self) -> UserAchievementsView {
        UserAchievementsView {
            user_id: self.user_id@,
            unlocked: keyed_map(self.unlocked@, text_key()).dom(),
            unlock_order: self.unlocked@.map_values(|s: String| s@),
            progress: keyed_map(self.progress@, progress_key()).map_values(|p: AchievementProgress| p.value),
            unlocked_at: keyed_map(self.unlock_timestamps@, unlock_key()).map_values(|u: UnlockTime| u.at),
            total: self.total_achievement_points,
            rarest: self.rarest_achievement,
        }
    }
}

/// The rarest of `current` and `r`.
pub open spec fn rarer(current: Option<AchievementRarity>, r: AchievementRarity) -> Option<AchievementRarity> {
    match current {
        None => Some(r),
        Some(c) => if rarity_rank(r) > rarity_rank(c) { Some(r) } else { current },
    }
}

/// A user's achievements after unlocking `a` at `now`.
pub open spec fn spec_unlock(u: UserAchievementsView, a: Achievement, now: i64) -> UserAchievementsView {
    UserAchievementsView {
        unlocked: u.unlocked.insert(a.id@),
        unlock_order: u.unlock_order.push(a.id@),
        unlocked_at: u.unlocked_at.insert(a.id@, now),
        total: (u.total + a.reward_points) as i64,
        rarest: rarer(u.rarest, a.rarity),
        ..u
    }
}

impl UserAchievements {
    /// Unique entries in each list, and a time for every unlocked achievement.
    pub open spec fn wf(&self) -> bool {
        &&& keys_distinct(self.unlocked@, text_key())
        &&& keys_distinct(self.progress@, progress_key())
        &&& keys_distinct(self.unlock_timestamps@, unlock_key())
        &&& self@.unlocked_at.dom() == self@.unlocked
    }

    /// A user with no achievement.
    pub fn new(user_id: String) -> (u: Self)
        ensures
            u.wf(),
            u@ == (UserAchievementsView {
                user_id: user_id@,
                unlocked: Set::empty(),
                unlock_order: Seq::empty(),
                progress: Map::empty(),
                unlocked_at: Map::empty(),
                total: 0,
                rarest: None,
            }),
    {
        let u = UserAchievements {
            user_id,
            unlocked: Vec::new(),
            progress: Vec::new(),
            unlock_timestamps: Vec::new(),
            total_achievement_points: 0,
            rarest_achievement: None,
        };
        proof {
            lemma_keyed_empty(text_key());
            lemma_keyed_empty(progress_key());
            lemma_keyed_empty(unlock_key());
        }
        assert(u@.unlocked =~= Set::<Seq<char>>::empty());
        assert(u@.progress =~= Map::<Seq<char>, u64>::empty());
        assert(u@.unlocked_at =~= Map::<Seq<char>, i64>::empty());
        assert(u@.unlock_order =~= Seq::<Seq<char>>::empty());
        u
    }

    /// Whether the achievement `achievement_id` is unlocked.
    pub fn has_achievement(&self, achievement_id: &str) -> (b: bool)
        requires
            self.wf(),
        ensures
            b == self@.unlocked.contains(achievement_id@),
    {
        let mut i: usize = 0;
        while i < self.unlocked.len()
            invariant
                i <= self.unlocked@.len(),
                forall|j: int| 0 <= j < i ==> self.unlocked@[j]@ != achievement_id@,
            decreases self.unlocked@.len() - i,
        {
            if text::same_text(self.unlocked[i].as_str(), achievement_id) {
                proof {
                    assert(text_key()(self.unlocked@[i as int]) == achievement_id@);
                }
                return true;
            }
            i = i + 1;
        }
        assert(!has_key(self.unlocked@, text_key(), achievement_id@));
        false
    }

    /// Progress recorded toward `achievement_id`, or 0.
    pub fn get_progress(&self, achievement_id: &str) -> (n: u64)
        requires
            self.wf(),
        ensures
            n == if self@.progress.dom().contains(achievement_id@) { self@.progress[achievement_id@] } else { 0 },
    {
        let mut i: usize = 0;
        while i < self.progress.len()
            invariant
                i <= self.progress@.len(),
                self.wf(),
                forall|j: int| 0 <= j < i ==> self.progress@[j].achievement_id@ != achievement_id@,
            decreases self.progress@.len() - i,
        {
            if text::same_text(self.progress[i].achievement_id.as_str(), achievement_id) {
                proof {
                    lemma_key_index_unique(self.progress@, progress_key(), i as int);
                }
                return self.progress[i].value;
            }
            i = i + 1;
        }
        assert(!has_key(self.progress@, progress_key(), achievement_id@));
        0
    }

    /// Record `value` as the progress toward `achievement_id`.
    pub fn set_progress(&mut self, achievement_id: String, value: u64)
        requires
            old(self).wf(),
        ensures
            final(self).wf(),
            final(self)@ == (UserAchievementsView {
                progress: old(self)@.progress.insert(achievement_id@, value),
                ..old(self)@
            }),
    {
        let ghost p0 = self.progress@;
        let mut i: usize = 0;
        while i < self.progress.len()
            invariant
                i <= self.progress@.len(),
                *self == *old(self),
                self.progress@ == p0,
                old(self).wf(),
                keys_distinct(p0, progress_key()),
                forall|j: int| 0 <= j < i ==> p0[j].achievement_id@ != achievement_id@,
            decreases self.progress@.len() - i,
        {
            if text::same_text(self.progress[i].achievement_id.as_str(), achievement_id.as_str()) {
                let e = AchievementProgress { achievement_id, value };
                let ghost ee = e;
                self.progress.set(i, e);
                proof {
                    lemma_keyed_update(p0, progress_key(), i as int, ee);
                }
                assert(self@.progress =~= old(self)@.progress.insert(ee.achievement_id@, value));
                return;
            }
            i = i + 1;
        }
        let e = AchievementProgress { achievement_id, value };
        let ghost ee = e;
        proof {
            assert(!has_key(p0, progress_key(), ee.achievement_id@));
        }
        self.progress.push(e);
        proof {
            lemma_keyed_push(p0, progress_key(), ee);
        }
        assert(self@.progress =~= old(self)@.progress.insert(ee.achievement_id@, value));
    }

    /// Unlock `achievement` at `now` (seconds): false, and no change, when it
    /// is already unlocked; otherwise its reward is added to the user's total
    /// and the rarest achievement is updated.
    pub fn unlock_achievement_at(&mut self, achievement: &Achievement, now: i64) -> (newly: bool)
        requires
            old(self).wf(),
            !old(self)@.unlocked.contains(achievement.id@) ==>
                i64::MIN <= old(self)@.total + achievement.reward_points <= i64::MAX,
        ensures
            final(self).wf(),
            newly == !old(self)@.unlocked.contains(achievement.id@),
            newly ==> final(self)@ == spec_unlock(old(self)@, *achievement, now),
            !newly ==> final(self)@ == old(self)@,
            unlock_done(old(self)@, final(self)@, *achievement, now, newly),
    {
        if self.has_achievement(achievement.id.as_str()) {
            return false;
        }
        let ghost u0 = self.unlocked@;
        let ghost t0 = self.unlock_timestamps@;
        let id = achievement.id.clone();
        let ghost idg = id;
        self.unlocked.push(id);
        proof {
            lemma_keyed_push(u0, text_key(), idg);
        }
        let stamp = UnlockTime { achievement_id: achievement.id.clone(), at: now };
        let ghost sg = stamp;
        proof {
            assert(!keyed_map(t0, unlock_key()).dom().contains(achievement.id@));
            assert(!has_key(t0, unlock_key(), sg.achievement_id@));
        }
        self.unlock_timestamps.push(stamp);
        proof {
            lemma_keyed_push(t0, unlock_key(), sg);
        }
        self.total_achievement_points = self.total_achievement_points + achievement.reward_points;
        let replace = match self.rarest_achievement {
            None => true,
            Some(r) => achievement.rarity.rank() > r.rank(),
        };
        if replace {
            self.rarest_achievement = Some(achievement.rarity);
        }
        assert(self@.unlocked_at =~= old(self)@.unlocked_at.insert(achievement.id@, now));
        assert(self@.unlocked =~= old(self)@.unlocked.insert(achievement.id@));
        assert(self@.unlock_order =~= old(self)@.unlock_order.push(achievement.id@));
        true
    }

    /// Unlock `achievement` now; see `unlock_achievement_at`.
    pub fn unlock_achievement(&mut self, achievement: &Achievement) -> (newly: bool)
        requires
            old(self).wf(),
            !old(self)@.unlocked.contains(achievement.id@) ==>
                i64::MIN <= old(self)@.total + achievement.reward_points <= i64::MAX,
        ensures
            final(self).wf(),
            newly == !old(self)@.unlocked.contains(achievement.id@),
            newly ==> exists|now: i64| final(self)@ == #[trigger] spec_unlock(old(self)@, *achievement, now),
            !newly ==> final(self)@ == old(self)@,
            exists|now: i64| #[trigger] unlock_done(old(self)@, final(self)@, *achievement, now, newly),
    {
        let now = clock::now_secs() as i64;
        let newly = self.unlock_achievement_at(achievement, now);
        assert(unlock_done(old(self)@, self@, *achievement, now, newly));
        if newly {
            assert(self@ == spec_unlock(old(self)@, *achievement, now));
        }
        newly
    }
}

/// What unlocking `a` at `now` did to a record: `newly` tells whether it
/// was locked; if so it is unlocked as `spec_unlock` says, else nothing
/// changed.
pub open spec fn unlock_done(u0: UserAchievementsView, u1: UserAchievementsView, a: Achievement, now: i64, newly: bool) -> bool {
    &&& newly == !u0.unlocked.contains(a.id@)
    &&& newly ==> u1 == spec_unlock(u0, a, now)
    &&& !newly ==> u1 == u0
}

/// Unlocking is idempotent: after a call unlocks an achievement (or finds
/// it unlocked), a second call reports nothing new and changes nothing.
pub proof fn lemma_unlock_idempotent(
    u0: UserAchievementsView, u1: UserAchievementsView, u2: UserAchievementsView,
    a: Achievement, t1: i64, t2: i64, n1: bool, n2: bool,
)
    requires
        unlock_done(u0, u1, a, t1, n1),
        unlock_done(u1, u2, a, t2, n2),
    ensures
        !n2,
        u2 == u1,
{
}

// ---------------------------------------------------------------------------
// The achievement system
// ---------------------------------------------------------------------------

/// One step of checking a user's achievements: an achievement not yet
/// unlocked records the user's progress and, if its requirement is met, is
/// unlocked and reported.
pub open spec fn check_step(
    acc: (UserAchievementsView, Seq<Achievement>),
    a: Achievement,
    user: UserPoints,
    now: i64,
) -> (UserAchievementsView, Seq<Achievement>) {
    let (u, newly) = acc;
    if u.unlocked.contains(a.id@) {
        acc
    } else {
        let (meets, prog) = requirement_result(a.requirement, user, now);
        let u1 = UserAchievementsView { progress: u.progress.insert(a.id@, prog), ..u };
        if meets {
            (spec_unlock(u1, a, now), newly.push(a))
        } else {
            (u1, newly)
        }
    }
}

/// Checking the achievements `achs`, in order: the user's achievements
/// afterwards and the achievements newly unlocked.
pub open spec fn check_all(achs: Seq<Achievement>, u: UserAchievementsView, user: UserPoints, now: i64)
    -> (UserAchievementsView, Seq<Achievement>)
    decreases achs.len(),
{
    if achs.len() == 0 {
        (u, Seq::empty())
    } else {
        check_step(check_all(achs.drop_last(), u, user, now), achs.last(), user, now)
    }
}

/// Whether every reward added while checking `achs` keeps the total in `i64`.
pub open spec fn check_fits(achs: Seq<Achievement>, u: UserAchievementsView, user: UserPoints, now: i64) -> bool
    decreases achs.len(),
{
    if achs.len() == 0 {
        true
    } else {
        let before = check_all(achs.drop_last(), u, user, now).0;
        let a = achs.last();
        &&& check_fits(achs.drop_last(), u, user, now)
        &&& (!before.unlocked.contains(a.id@) && requirement_result(a.requirement, user, now).0)
            ==> i64::MIN <= before.total + a.reward_points <= i64::MAX
    }
}

/// The achievements of a user not seen before.
pub open spec fn fresh_user(user_id: Seq<char>) -> UserAchievementsView {
    UserAchievementsView {
        user_id,
        unlocked: Set::empty(),
        unlock_order: Seq::empty(),
        progress: Map::empty(),
        unlocked_at: Map::empty(),
        total: 0,
        rarest: None,
    }
}

pub open spec fn achievement_key() -> spec_fn(Achievement) -> Seq<char> {
    |a: Achievement| a.id@
}

pub open spec fn record_key() -> spec_fn(UserAchievements) -> Seq<char> {
    |u: UserAchievements| u.user_id@
}

/// Whether a user sees an achievement in the list: it is not hidden, or the
/// user has unlocked it.
pub open spec fn visible_to(a: Achievement, u: Option<UserAchievementsView>) -> bool {
    !a.hidden || (u is Some && u->0.unlocked.contains(a.id@))
}

/// The entries a user sees, in catalogue order: each visible achievement,
/// whether the user has unlocked it, and the user's progress toward it.
pub open spec fn visible_entries(achs: Seq<Achievement>, u: Option<UserAchievementsView>) -> Seq<(Achievement, bool, u64)>
    decreases achs.len(),
{
    if achs.len() == 0 {
        Seq::empty()
    } else {
        let rest = visible_entries(achs.drop_last(), u);
        let a = achs.last();
        if visible_to(a, u) {
            let unlocked = u is Some && u->0.unlocked.contains(a.id@);
            let progress = if u is Some && u->0.progress.dom().contains(a.id@) { u->0.progress[a.id@] } else { 0 };
            rest.push((a, unlocked, progress))
        } else {
            rest
        }
    }
}

/// Ids of the default achievements, in catalogue order.
pub open spec fn default_achievement_ids() -> Seq<Seq<char>> {
    seq![
        "first_message"@,
        "chatterbox"@,
        "conversationalist"@,
        "chat_legend"@,
        "lurker"@,
        "devoted_viewer"@,
        "marathon_watcher"@,
        "point_collector"@,
        "point_hoarder"@,
        "millionaire"@,
        "command_curious"@,
        "power_user"@,
        "week_warrior"@,
        "monthly_regular"@,
        "veteran_member"@,
        "generous_giver"@,
        "crowd_favorite"@,
        "streak_keeper"@,
        "early_bird"@,
        "bot_whisperer"@,
    ]
}

/// Whether `a` is the `j`-th default achievement: its id, name,
/// description, category, requirement, reward, badge, rarity and whether
/// it is hidden.
pub open spec fn default_achievement_is(a: Achievement, j: int) -> bool {
    if j == 0 {
        a.id@ == "first_message"@ && a.name@ == "First Words"@ && a.description@ == "Send your first chat message"@ && a.category == AchievementCategory::Engagement
            && a.requirement == AchievementRequirement::MessageCount(1) && a.reward_points == 50 && a.badge_emoji@ == "\u{1f44b}"@
            && a.rarity == AchievementRarity::Common && a.hidden == false
    } else if j == 1 {
        a.id@ == "chatterbox"@ && a.name@ == "Chatterbox"@ && a.description@ == "Send 100 messages"@ && a.category == AchievementCategory::Engagement
            && a.requirement == AchievementRequirement::MessageCount(100) && a.reward_points == 250 && a.badge_emoji@ == "\u{1f4ac}"@
            && a.rarity == AchievementRarity::Common && a.hidden == false
    } else if j == 2 {
        a.id@ == "conversationalist"@ && a.name@ == "Conversationalist"@ && a.description@ == "Send 1,000 messages"@ && a.category == AchievementCategory::Engagement
            && a.requirement == AchievementRequirement::MessageCount(1000) && a.reward_points == 1000 && a.badge_emoji@ == "\u{1f5e3}\u{fe0f}"@
            && a.rarity == AchievementRarity::Uncommon && a.hidden == false
    } else if j == 3 {
        a.id@ == "chat_legend"@ && a.name@ == "Chat Legend"@ && a.description@ == "Send 10,000 messages"@ && a.category == AchievementCategory::Engagement
            && a.requirement == AchievementRequirement::MessageCount(10000) && a.reward_points == 5000 && a.badge_emoji@ == "\u{1f451}"@
            && a.rarity == AchievementRarity::Epic && a.hidden == false
    } else if j == 4 {
        a.id@ == "lurker"@ && a.name@ == "Dedicated Lurker"@ && a.description@ == "Watch for 60 minutes"@ && a.category == AchievementCategory::Loyalty
            && a.requirement == AchievementRequirement::WatchTime(60) && a.reward_points == 100 && a.badge_emoji@ == "\u{1f441}\u{fe0f}"@
            && a.rarity == AchievementRarity::Common && a.hidden == false
    } else if j == 5 {
        a.id@ == "devoted_viewer"@ && a.name@ == "Devoted Viewer"@ && a.description@ == "Watch for 10 hours"@ && a.category == AchievementCategory::Loyalty
            && a.requirement == AchievementRequirement::WatchTime(600) && a.reward_points == 500 && a.badge_emoji@ == "\u{1f4fa}"@
            && a.rarity == AchievementRarity::Uncommon && a.hidden == false
    } else if j == 6 {
        a.id@ == "marathon_watcher"@ && a.name@ == "Marathon Watcher"@ && a.description@ == "Watch for 100 hours"@ && a.category == AchievementCategory::Loyalty
            && a.requirement == AchievementRequirement::WatchTime(6000) && a.reward_points == 2500 && a.badge_emoji@ == "\u{1f3c3}"@
            && a.rarity == AchievementRarity::Rare && a.hidden == false
    } else if j == 7 {
        a.id@ == "point_collector"@ && a.name@ == "Point Collector"@ && a.description@ == "Earn 1,000 total points"@ && a.category == AchievementCategory::Points
            && a.requirement == AchievementRequirement::PointsEarned(1000) && a.reward_points == 200 && a.badge_emoji@ == "\u{1f4b0}"@
            && a.rarity == AchievementRarity::Common && a.hidden == false
    } else if j == 8 {
        a.id@ == "point_hoarder"@ && a.name@ == "Point Hoarder"@ && a.description@ == "Have 5,000 points at once"@ && a.category == AchievementCategory::Points
            && a.requirement == AchievementRequirement::PointsBalance(5000) && a.reward_points == 1000 && a.badge_emoji@ == "\u{1f48e}"@
            && a.rarity == AchievementRarity::Rare && a.hidden == false
    } else if j == 9 {
        a.id@ == "millionaire"@ && a.name@ == "Point Millionaire"@ && a.description@ == "Earn 1,000,000 total points"@ && a.category == AchievementCategory::Points
            && a.requirement == AchievementRequirement::PointsEarned(1000000) && a.reward_points == 50000 && a.badge_emoji@ == "\u{1f3c6}"@
            && a.rarity == AchievementRarity::Legendary && a.hidden == false
    } else if j == 10 {
        a.id@ == "command_curious"@ && a.name@ == "Command Curious"@ && a.description@ == "Use 50 commands"@ && a.category == AchievementCategory::Engagement
            && a.requirement == AchievementRequirement::CommandsUsed(50) && a.reward_points == 150 && a.badge_emoji@ == "\u{26a1}"@
            && a.rarity == AchievementRarity::Common && a.hidden == false
    } else if j == 11 {
        a.id@ == "power_user"@ && a.name@ == "Power User"@ && a.description@ == "Use 500 commands"@ && a.category == AchievementCategory::Engagement
            && a.requirement == AchievementRequirement::CommandsUsed(500) && a.reward_points == 750 && a.badge_emoji@ == "\u{1f527}"@
            && a.rarity == AchievementRarity::Uncommon && a.hidden == false
    } else if j == 12 {
        a.id@ == "week_warrior"@ && a.name@ == "Week Warrior"@ && a.description@ == "Be active for 7 days"@ && a.category == AchievementCategory::Loyalty
            && a.requirement == AchievementRequirement::DaysActive(7) && a.reward_points == 300 && a.badge_emoji@ == "\u{1f4c5}"@
            && a.rarity == AchievementRarity::Common && a.hidden == false
    } else if j == 13 {
        a.id@ == "monthly_regular"@ && a.name@ == "Monthly Regular"@ && a.description@ == "Be active for 30 days"@ && a.category == AchievementCategory::Loyalty
            && a.requirement == AchievementRequirement::DaysActive(30) && a.reward_points == 1500 && a.badge_emoji@ == "\u{1f5d3}\u{fe0f}"@
            && a.rarity == AchievementRarity::Uncommon && a.hidden == false
    } else if j == 14 {
        a.id@ == "veteran_member"@ && a.name@ == "Veteran Member"@ && a.description@ == "Be active for 365 days"@ && a.category == AchievementCategory::Loyalty
            && a.requirement == AchievementRequirement::DaysActive(365) && a.reward_points == 10000 && a.badge_emoji@ == "\u{1f396}\u{fe0f}"@
            && a.rarity == AchievementRarity::Epic && a.hidden == false
    } else if j == 15 {
        a.id@ == "generous_giver"@ && a.name@ == "Generous Giver"@ && a.description@ == "Give 1,000 points to other users"@ && a.category == AchievementCategory::Social
            && a.requirement == AchievementRequirement::TransferPoints(1000) && a.reward_points == 500 && a.badge_emoji@ == "\u{1f381}"@
            && a.rarity == AchievementRarity::Uncommon && a.hidden == false
    } else if j == 16 {
        a.id@ == "crowd_favorite"@ && a.name@ == "Crowd Favorite"@ && a.description@ == "Receive 1,000 points from other users"@ && a.category == AchievementCategory::Social
            && a.requirement == AchievementRequirement::ReceiveTransfer(1000) && a.reward_points == 500 && a.badge_emoji@ == "\u{1f31f}"@
            && a.rarity == AchievementRarity::Uncommon && a.hidden == false
    } else if j == 17 {
        a.id@ == "streak_keeper"@ && a.name@ == "Streak Keeper"@ && a.description@ == "Be active 7 days in a row"@ && a.category == AchievementCategory::Loyalty
            && a.requirement == AchievementRequirement::Streak(7) && a.reward_points == 700 && a.badge_emoji@ == "\u{1f525}"@
            && a.rarity == AchievementRarity::Rare && a.hidden == false
    } else if j == 18 {
        a.id@ == "early_bird"@ && a.name@ == "Early Bird"@ && a.description@ == "One of the first 100 users"@ && a.category == AchievementCategory::Special
            && (a.requirement matches AchievementRequirement::Custom(c) && c@ == "early_adopter"@) && a.reward_points == 2000 && a.badge_emoji@ == "\u{1f426}"@
            && a.rarity == AchievementRarity::Rare && a.hidden == true
    } else if j == 19 {
        a.id@ == "bot_whisperer"@ && a.name@ == "Bot Whisperer"@ && a.description@ == "Discover a hidden command"@ && a.category == AchievementCategory::Special
            && (a.requirement matches AchievementRequirement::Custom(c) && c@ == "secret_command"@) && a.reward_points == 500 && a.badge_emoji@ == "\u{1f916}"@
            && a.rarity == AchievementRarity::Rare && a.hidden == true
    } else {
        false
    }
}

fn achievement(
    id: &str,
    name: &str,
    description: &str,
    category: AchievementCategory,
    requirement: AchievementRequirement,
    reward_points: i64,
    badge_emoji: &str,
    rarity: AchievementRarity,
    hidden: bool,
) -> (a: Achievement)
    ensures
        a.id@ == id@,
        a.name@ == name@,
        a.description@ == description@,
        a.category == category,
        a.requirement == requirement,
        a.reward_points == reward_points,
        a.badge_emoji@ == badge_emoji@,
        a.rarity == rarity,
        a.hidden == hidden,
{
    Achievement {
        id: text::owned(id),
        name: text::owned(name),
        description: text::owned(description),
        category,
        requirement,
        reward_points,
        badge_emoji: text::owned(badge_emoji),
        rarity,
        hidden,
    }
}

impl AchievementSystem {
    /// The default achievements: message counts, watch time, points earned
    /// and held, commands used, days active, points given and received, an
    /// activity streak, and two hidden special ones; each is described by
    /// `default_achievement_is`.
    pub fn create_default_achievements(&self) -> (v: Vec<Achievement>)
        ensures
            v@.len() == default_achievement_ids().len(),
            v@.len() == 20,
            forall|j: int| 0 <= j < v@.len() ==> #[trigger] default_achievement_is(v@[j], j),
            forall|j: int| 0 <= j < v@.len() ==> #[trigger] v@[j].id@ == default_achievement_ids()[j],
    {
        let mut list: Vec<Achievement> = Vec::new();
        list.push(achievement(
            "first_message",
            "First Words",
            "Send your first chat message",
            AchievementCategory::Engagement,
            AchievementRequirement::MessageCount(1),
            50,
            "\u{1f44b}",
            AchievementRarity::Common,
            false,
        ));
        list.push(achievement(
            "chatterbox",
            "Chatterbox",
            "Send 100 messages",
            AchievementCategory::Engagement,
            AchievementRequirement::MessageCount(100),
            250,
            "\u{1f4ac}",
            AchievementRarity::Common,
            false,
        ));
        list.push(achievement(
            "conversationalist",
            "Conversationalist",
            "Send 1,000 messages",
            AchievementCategory::Engagement,
            AchievementRequirement::MessageCount(1000),
            1000,
            "\u{1f5e3}\u{fe0f}",
            AchievementRarity::Uncommon,
            false,
        ));
        list.push(achievement(
            "chat_legend",
            "Chat Legend",
            "Send 10,000 messages",
            AchievementCategory::Engagement,
            AchievementRequirement::MessageCount(10000),
            5000,
            "\u{1f451}",
            AchievementRarity::Epic,
            false,
        ));
        list.push(achievement(
            "lurker",
            "Dedicated Lurker",
            "Watch for 60 minutes",
            AchievementCategory::Loyalty,
            AchievementRequirement::WatchTime(60),
            100,
            "\u{1f441}\u{fe0f}",
            AchievementRarity::Common,
            false,
        ));
        list.push(achievement(
            "devoted_viewer",
            "Devoted Viewer",
            "Watch for 10 hours",
            AchievementCategory::Loyalty,
            AchievementRequirement::WatchTime(600),
            500,
            "\u{1f4fa}",
            AchievementRarity::Uncommon,
            false,
        ));
        list.push(achievement(
            "marathon_watcher",
            "Marathon Watcher",
            "Watch for 100 hours",
            AchievementCategory::Loyalty,
            AchievementRequirement::WatchTime(6000),
            2500,
            "\u{1f3c3}",
            AchievementRarity::Rare,
            false,
        ));
        list.push(achievement(
            "point_collector",
            "Point Collector",
            "Earn 1,000 total points",
            AchievementCategory::Points,
            AchievementRequirement::PointsEarned(1000),
            200,
            "\u{1f4b0}",
            AchievementRarity::Common,
            false,
        ));
        list.push(achievement(
            "point_hoarder",
            "Point Hoarder",
            "Have 5,000 points at once",
            AchievementCategory::Points,
            AchievementRequirement::PointsBalance(5000),
            1000,
            "\u{1f48e}",
            AchievementRarity::Rare,
            false,
        ));
        list.push(achievement(
            "millionaire",
            "Point Millionaire",
            "Earn 1,000,000 total points",
            AchievementCategory::Points,
            AchievementRequirement::PointsEarned(1000000),
            50000,
            "\u{1f3c6}",
            AchievementRarity::Legendary,
            false,
        ));
        list.push(achievement(
            "command_curious",
            "Command Curious",
            "Use 50 commands",
            AchievementCategory::Engagement,
            AchievementRequirement::CommandsUsed(50),
            150,
            "\u{26a1}",
            AchievementRarity::Common,
            false,
        ));
        list.push(achievement(
            "power_user",
            "Power User",
            "Use 500 commands",
            AchievementCategory::Engagement,
            AchievementRequirement::CommandsUsed(500),
            750,
            "\u{1f527}",
            AchievementRarity::Uncommon,
            false,
        ));
        list.push(achievement(
            "week_warrior",
            "Week Warrior",
            "Be active for 7 days",
            AchievementCategory::Loyalty,
            AchievementRequirement::DaysActive(7),
            300,
            "\u{1f4c5}",
            AchievementRarity::Common,
            false,
        ));
        list.push(achievement(
            "monthly_regular",
            "Monthly Regular",
            "Be active for 30 days",
            AchievementCategory::Loyalty,
            AchievementRequirement::DaysActive(30),
            1500,
            "\u{1f5d3}\u{fe0f}",
            AchievementRarity::Uncommon,
            false,
        ));
        list.push(achievement(
            "veteran_member",
            "Veteran Member",
            "Be active for 365 days",
            AchievementCategory::Loyalty,
            AchievementRequirement::DaysActive(365),
            10000,
            "\u{1f396}\u{fe0f}",
            AchievementRarity::Epic,
            false,
        ));
        list.push(achievement(
            "generous_giver",
            "Generous Giver",
            "Give 1,000 points to other users",
            AchievementCategory::Social,
            AchievementRequirement::TransferPoints(1000),
            500,
            "\u{1f381}",
            AchievementRarity::Uncommon,
            false,
        ));
        list.push(achievement(
            "crowd_favorite",
            "Crowd Favorite",
            "Receive 1,000 points from other users",
            AchievementCategory::Social,
            AchievementRequirement::ReceiveTransfer(1000),
            500,
            "\u{1f31f}",
            AchievementRarity::Uncommon,
            false,
        ));
        list.push(achievement(
            "streak_keeper",
            "Streak Keeper",
            "Be active 7 days in a row",
            AchievementCategory::Loyalty,
            AchievementRequirement::Streak(7),
            700,
            "\u{1f525}",
            AchievementRarity::Rare,
            false,
        ));
        list.push(achievement(
            "early_bird",
            "Early Bird",
            "One of the first 100 users",
            AchievementCategory::Special,
            AchievementRequirement::Custom(text::owned("early_adopter")),
            2000,
            "\u{1f426}",
            AchievementRarity::Rare,
            true,
        ));
        list.push(achievement(
            "bot_whisperer",
            "Bot Whisperer",
            "Discover a hidden command",
            AchievementCategory::Special,
            AchievementRequirement::Custom(text::owned("secret_command")),
            500,
            "\u{1f916}",
            AchievementRarity::Rare,
            true,
        ));
        proof {
            let v = list@;
            assert forall|j: int| 0 <= j < v.len() implies #[trigger] default_achievement_is(v[j], j) by {
                if j == 0 {
                    assert(default_achievement_is(v[0], 0));
                } else if j == 1 {
                    assert(default_achievement_is(v[1], 1));
                } else if j == 2 {
                    assert(default_achievement_is(v[2], 2));
                } else if j == 3 {
                    assert(default_achievement_is(v[3], 3));
                } else if j == 4 {
                    assert(default_achievement_is(v[4], 4));
                } else if j == 5 {
                    assert(default_achievement_is(v[5], 5));
                } else if j == 6 {
                    assert(default_achievement_is(v[6], 6));
                } else if j == 7 {
                    assert(default_achievement_is(v[7], 7));
                } else if j == 8 {
                    assert(default_achievement_is(v[8], 8));
                } else if j == 9 {
                    assert(default_achievement_is(v[9], 9));
                } else if j == 10 {
                    assert(default_achievement_is(v[10], 10));
                } else if j == 11 {
                    assert(default_achievement_is(v[11], 11));
                } else if j == 12 {
                    assert(default_achievement_is(v[12], 12));
                } else if j == 13 {
                    assert(default_achievement_is(v[13], 13));
                } else if j == 14 {
                    assert(default_achievement_is(v[14], 14));
                } else if j == 15 {
                    assert(default_achievement_is(v[15], 15));
                } else if j == 16 {
                    assert(default_achievement_is(v[16], 16));
                } else if j == 17 {
                    assert(default_achievement_is(v[17], 17));
                } else if j == 18 {
                    assert(default_achievement_is(v[18], 18));
                } else if j == 19 {
                    assert(default_achievement_is(v[19], 19));
                }
            }
        }
        list
    }
}

/// The catalogue of achievements and every user's achievements.
pub struct AchievementSystem {
    achievements: Vec<Achievement>,
    user_achievements: Vec<UserAchievements>,
}

impl AchievementSystem {
    /// The achievements, in catalogue order.
    pub closed spec fn catalogue(&self) -> Seq<Achievement> {
        self.achievements@
    }

    /// Users' achievements by user id.
    pub closed spec fn users(&self) -> Map<Seq<char>, UserAchievementsView> {
        keyed_map(self.user_achievements@, record_key()).map_values(|u: UserAchievements| u@)
    }

    /// The users' records, in the order they were first checked.
    pub closed spec fn records(&self) -> Seq<UserAchievements> {
        self.user_achievements@
    }

    pub closed spec fn wf(&self) -> bool {
        &&& keys_distinct(self.achievements@, achievement_key())
        &&& keys_distinct(self.user_achievements@, record_key())
        &&& forall|i: int| 0 <= i < self.user_achievements@.len() ==> #[trigger] self.user_achievements@[i].wf()
    }

    /// An empty system.
    pub fn new() -> (s: Self)
        ensures
            s.wf(),
            s.catalogue() == Seq::<Achievement>::empty(),
            s.users() == Map::<Seq<char>, UserAchievementsView>::empty(),
            s.records() == Seq::<UserAchievements>::empty(),
    {
        let s = AchievementSystem { achievements: Vec::new(), user_achievements: Vec::new() };
        proof {
            lemma_keyed_empty(achievement_key());
            lemma_keyed_empty(record_key());
        }
        assert(s.users() =~= Map::<Seq<char>, UserAchievementsView>::empty());
        s
    }

    /// Add `a` to the catalogue, replacing an achievement with the same id.
    pub fn insert_achievement(&mut self, a: Achievement)
        requires
            old(self).wf(),
        ensures
            final(self).wf(),
            final(self).users() == old(self).users(),
            final(self).records() == old(self).records(),
            keyed_map(final(self).catalogue(), achievement_key())
                == keyed_map(old(self).catalogue(), achievement_key()).insert(a.id@, a),
    {
        let ghost c0 = self.achievements@;
        let ghost ag = a;
        let mut i: usize = 0;
        while i < self.achievements.len()
            invariant
                i <= self.achievements@.len(),
                *self == *old(self),
                self.achievements@ == c0,
                ag == a,
                old(self).wf(),
                forall|j: int| 0 <= j < i ==> c0[j].id@ != ag.id@,
            decreases self.achievements@.len() - i,
        {
            if text::same_text(self.achievements[i].id.as_str(), a.id.as_str()) {
                self.achievements.set(i, a);
                proof {
                    lemma_keyed_update(c0, achievement_key(), i as int, ag);
                }
                return;
            }
            i = i + 1;
        }
        assert(!has_key(c0, achievement_key(), ag.id@));
        self.achievements.push(a);
        proof {
            lemma_keyed_push(c0, achievement_key(), ag);
        }
    }

    /// Add the default achievements to the catalogue.
    pub fn initialize_default_achievements(&mut self)
        requires
            old(self).wf(),
        ensures
            final(self).wf(),
            final(self).users() == old(self).users(),
            keyed_map(final(self).catalogue(), achievement_key()).dom()
                == keyed_map(old(self).catalogue(), achievement_key()).dom().union(default_achievement_ids().to_set()),
    {
        let defaults = self.create_default_achievements();
        let ghost ids = default_achievement_ids();
        let ghost d0 = keyed_map(self.achievements@, achievement_key()).dom();
        for a in it: defaults
            invariant
                self.wf(),
                self.users() == old(self).users(),
                it.seq().len() == ids.len(),
                forall|j: int| 0 <= j < ids.len() ==> #[trigger] it.seq()[j].id@ == ids[j],
                keyed_map(self.achievements@, achievement_key()).dom()
                    == d0.union(ids.take(it.index() as int).to_set()),
        {
            let ghost idx = it.index();
            proof {
                assert(ids.take(idx + 1).to_set() =~= ids.take(idx as int).to_set().insert(ids[idx as int])) by {
                    assert(ids.take(idx + 1) =~= ids.take(idx as int).push(ids[idx as int]));
                    ids.take(idx as int).lemma_push_to_set_commute(ids[idx as int]);
                }
            }
            self.insert_achievement(a);
        }
        assert(ids.take(ids.len() as int) =~= ids);
    }
}

/// The achievements a check starts from: the user's, or none for a user not seen before.
pub open spec fn start_view(users: Map<Seq<char>, UserAchievementsView>, id: Seq<char>) -> UserAchievementsView {
    if users.dom().contains(id) { users[id] } else { fresh_user(id) }
}

proof fn lemma_check_fits_prefix(achs: Seq<Achievement>, u: UserAchievementsView, user: UserPoints, now: i64, j: int)
    requires
        check_fits(achs, u, user, now),
        0 <= j <= achs.len(),
    ensures
        check_fits(achs.take(j), u, user, now),
    decreases achs.len() - j,
{
    if j < achs.len() {
        assert(achs.drop_last().take(j) =~= achs.take(j));
        lemma_check_fits_prefix(achs.drop_last(), u, user, now, j);
    } else {
        assert(achs.take(j) =~= achs);
    }
}

fn clone_record(u: &UserAchievements) -> (r: UserAchievements)
    ensures
        r.user_id == u.user_id,
        r.unlocked@ == u.unlocked@,
        r.progress@ == u.progress@,
        r.unlock_timestamps@ == u.unlock_timestamps@,
        r.total_achievement_points == u.total_achievement_points,
        r.rarest_achievement == u.rarest_achievement,
{
    let mut unlocked: Vec<String> = Vec::new();
    let mut i: usize = 0;
    while i < u.unlocked.len()
        invariant
            i <= u.unlocked@.len(),
            unlocked@ == u.unlocked@.take(i as int),
        decreases u.unlocked@.len() - i,
    {
        unlocked.push(u.unlocked[i].clone());
        assert(u.unlocked@.take(i + 1) =~= u.unlocked@.take(i as int).push(u.unlocked@[i as int]));
        i = i + 1;
    }
    let mut progress: Vec<AchievementProgress> = Vec::new();
    let mut i: usize = 0;
    while i < u.progress.len()
        invariant
            i <= u.progress@.len(),
            progress@ == u.progress@.take(i as int),
        decreases u.progress@.len() - i,
    {
        let p = &u.progress[i];
        progress.push(AchievementProgress { achievement_id: p.achievement_id.clone(), value: p.value });
        assert(u.progress@.take(i + 1) =~= u.progress@.take(i as int).push(u.progress@[i as int]));
        i = i + 1;
    }
    let mut stamps: Vec<UnlockTime> = Vec::new();
    let mut i: usize = 0;
    while i < u.unlock_timestamps.len()
        invariant
            i <= u.unlock_timestamps@.len(),
            stamps@ == u.unlock_timestamps@.take(i as int),
        decreases u.unlock_timestamps@.len() - i,
    {
        let t = &u.unlock_timestamps[i];
        stamps.push(UnlockTime { achievement_id: t.achievement_id.clone(), at: t.at });
        assert(u.unlock_timestamps@.take(i + 1) =~= u.unlock_timestamps@.take(i as int).push(u.unlock_timestamps@[i as int]));
        i = i + 1;
    }
    assert(u.unlocked@.take(u.unlocked@.len() as int) =~= u.unlocked@);
    assert(u.progress@.take(u.progress@.len() as int) =~= u.progress@);
    assert(u.unlock_timestamps@.take(u.unlock_timestamps@.len() as int) =~= u.unlock_timestamps@);
    UserAchievements {
        user_id: u.user_id.clone(),
        unlocked,
        progress,
        unlock_timestamps: stamps,
        total_achievement_points: u.total_achievement_points,
        rarest_achievement: u.rarest_achievement,
    }
}

impl AchievementSystem {
    fn find_record(&self, user_id: &str) -> (r: Option<usize>)
        requires
            self.wf(),
        ensures
            match r {
                Some(i) => i < self.user_achievements@.len() && self.user_achievements@[i as int].user_id@ == user_id@
                    && self.users().dom().contains(user_id@) && self.users()[user_id@] == self.user_achievements@[i as int]@,
                None => !self.users().dom().contains(user_id@),
            },
    {
        let mut i: usize = 0;
        while i < self.user_achievements.len()
            invariant
                i <= self.user_achievements@.len(),
                self.wf(),
                forall|j: int| 0 <= j < i ==> self.user_achievements@[j].user_id@ != user_id@,
            decreases self.user_achievements@.len() - i,
        {
            if text::same_text(self.user_achievements[i].user_id.as_str(), user_id) {
                proof {
                    lemma_key_index_unique(self.user_achievements@, record_key(), i as int);
                }
                return Some(i);
            }
            i = i + 1;
        }
        assert(!has_key(self.user_achievements@, record_key(), user_id@));
        None
    }

    /// Check `user_points` against every achievement at `now` (seconds):
    /// see `check_all`. The user's record is created if it did not exist, and
    /// the newly unlocked achievements are returned in catalogue order.
    pub fn check_achievements_at(&mut self, user_points: &UserPoints, now: i64) -> (newly: Vec<Achievement>)
        requires
            old(self).wf(),
            check_fits(old(self).catalogue(), start_view(old(self).users(), user_points.user_id@), *user_points, now),
        ensures
            final(self).wf(),
            final(self).catalogue() == old(self).catalogue(),
            ({
                let (u1, n) = check_all(old(self).catalogue(), start_view(old(self).users(), user_points.user_id@), *user_points, now);
                &&& final(self).users() == old(self).users().insert(user_points.user_id@, u1)
                &&& newly@ == n
            }),
    {
        let ghost recs0 = self.user_achievements@;
        let ghost cat = self.achievements@;
        let ghost u0 = start_view(self.users(), user_points.user_id@);
        let found = self.find_record(user_points.user_id.as_str());
        let mut ua = match found {
            Some(i) => self.user_achievements.remove(i),
            None => UserAchievements::new(user_points.user_id.clone()),
        };
        assert(ua.wf());
        assert(ua@ == u0);
        let ghost rest = self.user_achievements@;
        let mut newly: Vec<Achievement> = Vec::new();
        let mut j: usize = 0;
        assert(cat.take(0) =~= Seq::<Achievement>::empty());
        assert(newly@ =~= Seq::<Achievement>::empty());
        while j < self.achievements.len()
            invariant
                j <= cat.len(),
                self.achievements@ == cat,
                self.user_achievements@ == rest,
                ua.wf(),
                ua.user_id@ == user_points.user_id@,
                check_fits(cat, u0, *user_points, now),
                (ua@, newly@) == check_all(cat.take(j as int), u0, *user_points, now),
            decreases cat.len() - j,
        {
            proof {
                assert(cat.take(j + 1).drop_last() =~= cat.take(j as int));
                lemma_check_fits_prefix(cat, u0, *user_points, now, j + 1);
            }
            let a = &self.achievements[j];
            if !ua.has_achievement(a.id.as_str()) {
                let (meets, prog) = check_requirement(&a.requirement, user_points, now);
                ua.set_progress(a.id.clone(), prog);
                if meets {
                    if ua.unlock_achievement_at(a, now) {
                        newly.push(a.clone());
                    }
                }
            }
            j = j + 1;
        }
        assert(cat.take(cat.len() as int) =~= cat);
        let ghost uag = ua;
        match found {
            Some(i) => {
                self.user_achievements.insert(i, ua);
                proof {
                    assert(self.user_achievements@ =~= recs0.update(i as int, uag));
                    lemma_keyed_update(recs0, record_key(), i as int, uag);
                    assert forall|k: int| 0 <= k < self.user_achievements@.len() implies #[trigger] self.user_achievements@[k].wf() by {
                        if k != i {
                            assert(self.user_achievements@[k] == recs0[k]);
                        }
                    }
                }
            },
            None => {
                self.user_achievements.push(ua);
                proof {
                    assert(rest == recs0);
                    lemma_keyed_push(recs0, record_key(), uag);
                    assert forall|k: int| 0 <= k < self.user_achievements@.len() implies #[trigger] self.user_achievements@[k].wf() by {
                        if k < recs0.len() {
                            assert(self.user_achievements@[k] == recs0[k]);
                        }
                    }
                }
            },
        }
        assert(self.users() =~= old(self).users().insert(user_points.user_id@, uag@));
        newly
    }

    /// Check `user_points` against every achievement now; see `check_achievements_at`.
    pub fn check_achievements(&mut self, user_points: &UserPoints) -> (newly: Vec<Achievement>)
        requires
            old(self).wf(),
            forall|now: i64| #[trigger] check_fits(old(self).catalogue(), start_view(old(self).users(), user_points.user_id@), *user_points, now),
        ensures
            final(self).wf(),
            final(self).catalogue() == old(self).catalogue(),
            exists|now: i64| ({
                let (u1, n) = #[trigger] check_all(old(self).catalogue(), start_view(old(self).users(), user_points.user_id@), *user_points, now);
                &&& final(self).users() == old(self).users().insert(user_points.user_id@, u1)
                &&& newly@ == n
            }),
    {
        let now = clock::now_secs() as i64;
        assert(check_fits(old(self).catalogue(), start_view(old(self).users(), user_points.user_id@), *user_points, now));
        let r = self.check_achievements_at(user_points, now);
        let ghost res = check_all(old(self).catalogue(), start_view(old(self).users(), user_points.user_id@), *user_points, now);
        assert(self.users() == old(self).users().insert(user_points.user_id@, res.0) && r@ == res.1);
        r
    }

    /// The record of `user_id`, if the user was ever checked.
    pub fn get_user_achievements(&self, user_id: &str) -> (r: Option<UserAchievements>)
        requires
            self.wf(),
        ensures
            match r {
                Some(u) => self.users().dom().contains(user_id@) && u@ == self.users()[user_id@] && u.wf(),
                None => !self.users().dom().contains(user_id@),
            },
    {
        match self.find_record(user_id) {
            Some(i) => {
                let r = clone_record(&self.user_achievements[i]);
                assert(self.user_achievements@[i as int].wf());
                Some(r)
            },
            None => None,
        }
    }

    /// The achievements `user_id` sees, with whether each is unlocked and the
    /// progress toward it; hidden achievements appear only once unlocked.
    pub fn get_achievements_for_user(&self, user_id: &str) -> (r: Vec<(Achievement, bool, u64)>)
        requires
            self.wf(),
        ensures
            r@ == visible_entries(self.catalogue(),
                if self.users().dom().contains(user_id@) { Some(self.users()[user_id@]) } else { None }),
    {
        let found = self.find_record(user_id);
        let ghost u = if self.users().dom().contains(user_id@) { Some(self.users()[user_id@]) } else { None::<UserAchievementsView> };
        let ghost cat = self.achievements@;
        let mut out: Vec<(Achievement, bool, u64)> = Vec::new();
        let mut j: usize = 0;
        while j < self.achievements.len()
            invariant
                j <= cat.len(),
                self.wf(),
                self.achievements@ == cat,
                cat == self.catalogue(),
                u == if self.users().dom().contains(user_id@) { Some(self.users()[user_id@]) } else { None::<UserAchievementsView> },
                match found {
                    Some(i) => i < self.user_achievements@.len() && u == Some(self.user_achievements@[i as int]@),
                    None => u is None,
                },
                out@ == visible_entries(cat.take(j as int), u),
            decreases cat.len() - j,
        {
            assert(cat.take(j + 1).drop_last() =~= cat.take(j as int));
            let a = &self.achievements[j];
            let (unlocked, progress) = match found {
                Some(i) => {
                    assert(self.user_achievements@[i as int].wf());
                    (self.user_achievements[i].has_achievement(a.id.as_str()),
                     self.user_achievements[i].get_progress(a.id.as_str()))
                },
                None => (false, 0),
            };
            if !a.hidden || unlocked {
                out.push((a.clone(), unlocked, progress));
            }
            j = j + 1;
        }
        assert(cat.take(cat.len() as int) =~= cat);
        out
    }
}

/// Position of the first `:` at or after `i`, or -1.
pub open spec fn colon_from(s: Seq<char>, i: int) -> int
    decreases s.len() - i,
{
    if i >= s.len() || i < 0 {
        -1
    } else if s[i] == ':' {
        i
    } else {
        colon_from(s, i + 1)
    }
}

/// The second `:`-separated field of a user id (the user name), or
/// `Unknown` when there is none.
pub open spec fn leaderboard_name(id: Seq<char>) -> Seq<char> {
    let p = colon_from(id, 0);
    if p < 0 {
        "Unknown"@
    } else {
        let q = colon_from(id, p + 1);
        if q < 0 { id.subrange(p + 1, id.len() as int) } else { id.subrange(p + 1, q) }
    }
}

/// Leaderboard entry of a record: name, achievement points, unlocked count.
pub open spec fn board_entry(r: UserAchievements) -> (Seq<char>, i64, nat) {
    (leaderboard_name(r.user_id@), r.total_achievement_points, r.unlocked@.len())
}

/// Whether entry `x` ranks at least as high as `y`: more points, then more achievements.
pub open spec fn ranks_before(x: (Seq<char>, i64, nat), y: (Seq<char>, i64, nat)) -> bool {
    x.1 > y.1 || (x.1 == y.1 && x.2 >= y.2)
}

proof fn lemma_colon_from_range(s: Seq<char>, i: int)
    requires
        0 <= i,
    ensures
        colon_from(s, i) == -1 || (i <= colon_from(s, i) < s.len() && s[colon_from(s, i)] == ':'),
    decreases s.len() - i,
{
    if i < s.len() && s[i] != ':' {
        lemma_colon_from_range(s, i + 1);
    }
}

fn find_colon(s: &Vec<char>, from: usize) -> (r: Option<usize>)
    requires
        from <= s@.len(),
    ensures
        match r {
            Some(i) => i == colon_from(s@, from as int) && i < s@.len(),
            None => colon_from(s@, from as int) == -1,
        },
    decreases s@.len() - from,
{
    if from >= s.len() {
        None
    } else if s[from] == ':' {
        Some(from)
    } else {
        find_colon(s, from + 1)
    }
}

fn slice_string(s: &Vec<char>, a: usize, b: usize) -> (r: String)
    requires
        a <= b <= s@.len(),
    ensures
        r@ == s@.subrange(a as int, b as int),
{
    let mut v: Vec<char> = Vec::new();
    let mut i: usize = a;
    while i < b
        invariant
            a <= i <= b,
            b <= s@.len(),
            v@ == s@.subrange(a as int, i as int),
        decreases b - i,
    {
        v.push(s[i]);
        assert(s@.subrange(a as int, i + 1) =~= s@.subrange(a as int, i as int).push(s@[i as int]));
        i = i + 1;
    }
    text::string_from_chars(v.as_slice())
}

/// The user name part of a user id.
pub fn leaderboard_name_of(user_id: &str) -> (r: String)
    ensures
        r@ == leaderboard_name(user_id@),
{
    let s = text::chars_of(user_id);
    match find_colon(&s, 0) {
        None => text::owned("Unknown"),
        Some(p) => match {
            proof {
                lemma_colon_from_range(s@, (p + 1) as int);
            }
            find_colon(&s, p + 1)
        } {
            None => slice_string(&s, p + 1, s.len()),
            Some(q) => slice_string(&s, p + 1, q),
        },
    }
}

impl AchievementSystem {
    /// The users with the most achievement points (ties broken by number of
    /// achievements, then by the order users were first checked), at most
    /// `limit` of them: name, achievement points and number unlocked.
    pub fn get_achievement_leaderboard(&self, limit: usize) -> (r: Vec<(String, i64, usize)>)
        requires
            self.wf(),
        ensures
            r@.len() == if limit < self.records().len() { limit as nat } else { self.records().len() },
            forall|a: int, b: int| 0 <= a < b < r@.len() ==>
                ranks_before((r@[a].0@, r@[a].1, r@[a].2 as nat), (r@[b].0@, r@[b].1, r@[b].2 as nat)),
            exists|f: Seq<int>| #![trigger f.len()] f.len() == r@.len()
                && (forall|a: int| 0 <= a < r@.len() ==> 0 <= #[trigger] f[a] < self.records().len()
                    && (r@[a].0@, r@[a].1, r@[a].2 as nat) == board_entry(self.records()[f[a]]))
                && (forall|a: int, b: int| 0 <= a < r@.len() && 0 <= b < r@.len() && a != b ==> #[trigger] f[a] != #[trigger] f[b]),
    {
        let recs = &self.user_achievements;
        let mut board: Vec<(String, i64, usize)> = Vec::new();
        let ghost mut f: Seq<int> = Seq::empty();
        let mut k: usize = 0;
        while k < recs.len()
            invariant
                k <= recs@.len(),
                recs@ == self.records(),
                board@.len() == k,
                f.len() == k,
                forall|a: int, b: int| #![trigger board@[a], board@[b]] 0 <= a < b < board@.len() ==>
                    ranks_before((board@[a].0@, board@[a].1, board@[a].2 as nat), (board@[b].0@, board@[b].1, board@[b].2 as nat)),
                forall|a: int| 0 <= a < board@.len() ==> 0 <= #[trigger] f[a] < k
                    && (board@[a].0@, board@[a].1, board@[a].2 as nat) == board_entry(recs@[f[a]]),
                forall|a: int, b: int| 0 <= a < board@.len() && 0 <= b < board@.len() && a != b ==> #[trigger] f[a] != #[trigger] f[b],
            decreases recs@.len() - k,
        {
            let r = &recs[k];
            let e = (leaderboard_name_of(r.user_id.as_str()), r.total_achievement_points, r.unlocked.len());
            let mut p: usize = 0;
            while p < board.len() && (board[p].1 > e.1 || (board[p].1 == e.1 && board[p].2 >= e.2))
                invariant
                    p <= board@.len(),
                    forall|a: int| 0 <= a < p ==> ranks_before((board@[a].0@, board@[a].1, board@[a].2 as nat), (e.0@, e.1, e.2 as nat)),
                decreases board@.len() - p,
            {
                p = p + 1;
            }
            let ghost b0 = board@;
            let ghost f0 = f;
            proof {
                if p < board@.len() {
                    assert forall|a: int| p <= a < board@.len() implies
                        ranks_before((e.0@, e.1, e.2 as nat), (board@[a].0@, board@[a].1, board@[a].2 as nat)) by {
                        if a > p {
                            assert(ranks_before((board@[p as int].0@, board@[p as int].1, board@[p as int].2 as nat),
                                (board@[a].0@, board@[a].1, board@[a].2 as nat)));
                        }
                    }
                }
                f = f.insert(p as int, k as int);
            }
            board.insert(p, e);
            proof {
                assert forall|a: int| 0 <= a < board@.len() implies 0 <= #[trigger] f[a] < k + 1
                    && (board@[a].0@, board@[a].1, board@[a].2 as nat) == board_entry(recs@[f[a]]) by {
                    if a < p {
                        assert(board@[a] == b0[a] && f[a] == f0[a]);
                    } else if a > p {
                        assert(board@[a] == b0[a - 1] && f[a] == f0[a - 1]);
                    }
                }
                assert forall|a: int, b: int| 0 <= a < board@.len() && 0 <= b < board@.len() && a != b
                    implies #[trigger] f[a] != #[trigger] f[b] by {
                    if a != p && b != p {
                        let a0 = if a < p { a } else { a - 1 };
                        let b0i = if b < p { b } else { b - 1 };
                        assert(f[a] == f0[a0] && f[b] == f0[b0i]);
                    } else if a == p {
                        let b0i = if b < p { b } else { b - 1 };
                        assert(f[b] == f0[b0i]);
                    } else {
                        let a0 = if a < p { a } else { a - 1 };
                        assert(f[a] == f0[a0]);
                    }
                }
                assert forall|a: int, b: int| #![trigger board@[a], board@[b]] 0 <= a < b < board@.len() implies
                    ranks_before((board@[a].0@, board@[a].1, board@[a].2 as nat), (board@[b].0@, board@[b].1, board@[b].2 as nat)) by {
                    if b < p {
                        assert(board@[a] == b0[a] && board@[b] == b0[b]);
                    } else if b == p {
                        assert(board@[a] == b0[a]);
                    } else if a < p {
                        assert(board@[a] == b0[a] && board@[b] == b0[b - 1]);
                        if p < b0.len() {
                            assert(ranks_before((b0[a].0@, b0[a].1, b0[a].2 as nat), (e.0@, e.1, e.2 as nat)));
                        }
                    } else if a == p {
                        assert(board@[b] == b0[b - 1]);
                    } else {
                        assert(board@[a] == b0[a - 1] && board@[b] == b0[b - 1]);
                    }
                }
            }
            k = k + 1;
        }
        if limit < board.len() {
            board.truncate(limit);
            proof {
                f = f.take(limit as int);
            }
        }
        assert(f.len() == board@.len());
        board
    }
}

// ---------------------------------------------------------------------------
// Laws
// ---------------------------------------------------------------------------

/// Checking never takes an achievement away: the unlocked set only grows,
/// and the reported achievements are all unlocked afterwards.
pub proof fn lemma_check_only_adds(achs: Seq<Achievement>, u: UserAchievementsView, user: UserPoints, now: i64)
    ensures
        u.unlocked.subset_of(check_all(achs, u, user, now).0.unlocked),
        forall|k: int| 0 <= k < check_all(achs, u, user, now).1.len()
            ==> check_all(achs, u, user, now).0.unlocked.contains(#[trigger] check_all(achs, u, user, now).1[k].id@),
    decreases achs.len(),
{
    if achs.len() > 0 {
        lemma_check_only_adds(achs.drop_last(), u, user, now);
    }
}

/// After a check, every achievement whose requirement the user meets is unlocked.
pub proof fn lemma_check_unlocks_all_met(achs: Seq<Achievement>, u: UserAchievementsView, user: UserPoints, now: i64)
    ensures
        forall|k: int| 0 <= k < achs.len() && #[trigger] requirement_result(achs[k].requirement, user, now).0
            ==> check_all(achs, u, user, now).0.unlocked.contains(achs[k].id@),
    decreases achs.len(),
{
    if achs.len() > 0 {
        let pre = achs.drop_last();
        lemma_check_unlocks_all_met(pre, u, user, now);
        assert forall|k: int| 0 <= k < achs.len() && #[trigger] requirement_result(achs[k].requirement, user, now).0
            implies check_all(achs, u, user, now).0.unlocked.contains(achs[k].id@) by {
            if k < pre.len() {
                assert(pre[k] == achs[k]);
                assert(requirement_result(pre[k].requirement, user, now).0);
                assert(check_all(pre, u, user, now).0.unlocked.contains(pre[k].id@));
            }
        }
    }
}

/// A check in which every met requirement is already unlocked reports nothing.
pub proof fn lemma_check_nothing_new(achs: Seq<Achievement>, u: UserAchievementsView, user: UserPoints, now: i64)
    requires
        forall|k: int| 0 <= k < achs.len() && #[trigger] requirement_result(achs[k].requirement, user, now).0
            ==> u.unlocked.contains(achs[k].id@),
    ensures
        check_all(achs, u, user, now).1 == Seq::<Achievement>::empty(),
        check_all(achs, u, user, now).0.unlocked == u.unlocked,
    decreases achs.len(),
{
    if achs.len() > 0 {
        let pre = achs.drop_last();
        assert forall|k: int| 0 <= k < pre.len() && #[trigger] requirement_result(pre[k].requirement, user, now).0
            implies u.unlocked.contains(pre[k].id@) by {
            assert(pre[k] == achs[k]);
            assert(requirement_result(achs[k].requirement, user, now).0);
        }
        lemma_check_nothing_new(pre, u, user, now);
        let a = achs.last();
        assert(requirement_result(achs[achs.len() - 1].requirement, user, now).0 ==> u.unlocked.contains(a.id@));
    }
}

/// Checking the same statistics twice at the same time: the second check
/// unlocks and reports nothing.
pub proof fn lemma_second_check_reports_nothing(achs: Seq<Achievement>, u: UserAchievementsView, user: UserPoints, now: i64)
    ensures
        check_all(achs, check_all(achs, u, user, now).0, user, now).1 == Seq::<Achievement>::empty(),
{
    lemma_check_unlocks_all_met(achs, u, user, now);
    lemma_check_nothing_new(achs, check_all(achs, u, user, now).0, user, now);
}

/// A points-earned requirement is judged by the total ever earned: it is
/// met exactly when that total reaches the target and its progress is that
/// total; the current balance plays no part, so spending never revokes it.
pub proof fn lemma_points_earned_counts_total(t: i64, u: UserPoints, v: UserPoints, now: i64, later: i64, amount: i64)
    ensures
        requirement_result(AchievementRequirement::PointsEarned(t), u, now).0 == (u.total_earned >= t),
        requirement_result(AchievementRequirement::PointsEarned(t), u, now).1 == u.total_earned as u64,
        v.total_earned == u.total_earned ==> requirement_result(AchievementRequirement::PointsEarned(t), v, later)
            == requirement_result(AchievementRequirement::PointsEarned(t), u, now),
        requirement_result(AchievementRequirement::PointsEarned(t), crate::bot::points::spend_result(u, amount, later), later)
            == requirement_result(AchievementRequirement::PointsEarned(t), u, now),
{
}

} // verus!
