//! Loyalty points: per-user balances and statistics, and the points system
//! that awards them for chat activity, with an hourly earning limit, daily
//! and welcome bonuses, transfers and a bounded transaction log.

use vstd::prelude::*;
use crate::adaptive::parameters::trunc_div;
use crate::bot::types::{ChatMessage, user_key, make_user_key};
use crate::clock;
use crate::text;
use crate::keyed::{keys_distinct, has_key, keyed_map, lemma_key_index_unique, lemma_keyed_update, lemma_keyed_push, lemma_keyed_empty};

verus! {

// ---------------------------------------------------------------------------
// User points
// ---------------------------------------------------------------------------

/// Points and statistics of one user. Times are seconds since the epoch.
/// The points multiplier is held in quarters: 4 is ×1, 6 is ×1.5.
pub struct UserPoints {
    pub user_id: String,
    pub platform: String,
    pub username: String,
    pub display_name: Option<String>,
    pub points: i64,
    pub total_earned: i64,
    pub total_spent: i64,
    pub last_activity: i64,
    pub first_seen: i64,
    pub minutes_watched: u64,
    pub messages_sent: u64,
    pub commands_used: u64,
    pub is_subscriber: bool,
    pub is_moderator: bool,
    pub multiplier_quarters: u32,
}

/// `amount` multiplied by `quarters / 4`, truncated toward zero.
pub open spec fn scaled(amount: int, quarters: int) -> int {
    trunc_div(amount * quarters, 4)
}

/// Where scaling by the multiplier is exact in binary64 arithmetic: the
/// product of the amount and the multiplier's quarters is within 2^53.
pub open spec fn scaling_exact(amount: int, quarters: int) -> bool {
    -0x20_0000_0000_0000 <= amount * quarters <= 0x20_0000_0000_0000
}

/// Whether adding `amount` (scaled) keeps the balance and the total earned in `i64`.
pub open spec fn can_add(u: UserPoints, amount: int) -> bool {
    &&& scaling_exact(amount, u.multiplier_quarters as int)
    &&& i64::MIN <= u.points + scaled(amount, u.multiplier_quarters as int) <= i64::MAX
    &&& i64::MIN <= u.total_earned + scaled(amount, u.multiplier_quarters as int) <= i64::MAX
}

/// The user after earning `amount`, scaled by the multiplier, at `now`.
pub open spec fn spec_add_points(u: UserPoints, amount: int, now: i64) -> UserPoints {
    let s = scaled(amount, u.multiplier_quarters as int);
    UserPoints {
        points: (u.points + s) as i64,
        total_earned: (u.total_earned + s) as i64,
        last_activity: now,
        ..u
    }
}

/// Multiplier in quarters for a user's status: ×1, plus ×0.5 for a
/// subscriber, ×1 for a moderator and ×0.25 past 100000 points earned.
pub open spec fn multiplier_for(is_subscriber: bool, is_moderator: bool, total_earned: i64) -> u32 {
    (4 + (if is_subscriber { 2int } else { 0 }) + (if is_moderator { 4int } else { 0 })
        + (if total_earned > 100000 { 1int } else { 0 })) as u32
}

/// The user after spending `amount` at `now`: fewer points, more spent,
/// active at `now`, everything else as it was.
pub open spec fn spend_result(u: UserPoints, amount: i64, now: i64) -> UserPoints {
    UserPoints {
        points: (u.points - amount) as i64,
        total_spent: (u.total_spent + amount) as i64,
        last_activity: now,
        ..u
    }
}

/// Rank for a total of points earned: the ranks cover 0 to 999, 1000 to
/// 4999, 5000 to 19999, 20000 to 49999 and 50000 to 99999; any other total,
/// a negative one included, is Mythic.
pub open spec fn rank_name(total_earned: i64) -> Seq<char> {
    if 0 <= total_earned <= 999 {
        "Newcomer"@
    } else if 1000 <= total_earned <= 4999 {
        "Regular"@
    } else if 5000 <= total_earned <= 19999 {
        "Veteran"@
    } else if 20000 <= total_earned <= 49999 {
        "Champion"@
    } else if 50000 <= total_earned <= 99999 {
        "Legend"@
    } else {
        "Mythic"@
    }
}

/// `amount * quarters / 4`, truncated toward zero.
pub fn scale(amount: i64, quarters: u32) -> (r: i64)
    requires
        scaling_exact(amount as int, quarters as int),
    ensures
        r as int == scaled(amount as int, quarters as int),
{
    let p: i128 = amount as i128 * quarters as i128;
    let m: i128 = if p < 0 { -p } else { p };
    let q: i128 = m / 4;
    let r: i128 = if p < 0 { -q } else { q };
    assert(r == trunc_div(amount as int * quarters as int, 4));
    r as i64
}

impl UserPoints {
    /// A new user first seen at `now`, with no points and a ×1 multiplier.
    pub fn new_at(platform: String, username: String, display_name: Option<String>, now: i64) -> (u: Self)
        ensures
            u.user_id@ == user_key(platform@, username@),
            u.platform == platform,
            u.username == username,
            u.display_name == display_name,
            u.points == 0 && u.total_earned == 0 && u.total_spent == 0,
            u.last_activity == now && u.first_seen == now,
            u.minutes_watched == 0 && u.messages_sent == 0 && u.commands_used == 0,
            !u.is_subscriber && !u.is_moderator,
            u.multiplier_quarters == 4,
    {
        let user_id = make_user_key(platform.as_str(), username.as_str());
        UserPoints {
            user_id,
            platform,
            username,
            display_name,
            points: 0,
            total_earned: 0,
            total_spent: 0,
            last_activity: now,
            first_seen: now,
            minutes_watched: 0,
            messages_sent: 0,
            commands_used: 0,
            is_subscriber: false,
            is_moderator: false,
            multiplier_quarters: 4,
        }
    }

    /// A new user first seen now.
    pub fn new(platform: String, username: String, display_name: Option<String>) -> (u: Self)
        ensures
            u.user_id@ == user_key(platform@, username@),
            u.platform == platform,
            u.username == username,
            u.points == 0 && u.total_earned == 0 && u.total_spent == 0,
            u.last_activity == u.first_seen,
            u.multiplier_quarters == 4,
    {
        let now = clock::now_secs() as i64;
        UserPoints::new_at(platform, username, display_name, now)
    }

    /// Earn `amount` points, scaled by the multiplier, at `now`.
    pub fn add_points_at(&mut self, amount: i64, now: i64)
        requires
            can_add(*old(self), amount as int),
        ensures
            *final(self) == spec_add_points(*old(self), amount as int, now),
    {
        let adjusted = scale(amount, self.multiplier_quarters);
        self.points = self.points + adjusted;
        self.total_earned = self.total_earned + adjusted;
        self.last_activity = now;
    }

    /// Earn `amount` points now, scaled by the multiplier; `reason` is for the log.
    pub fn add_points(&mut self, amount: i64, reason: &str)
        requires
            can_add(*old(self), amount as int),
        ensures
            exists|now: i64| *final(self) == #[trigger] spec_add_points(*old(self), amount as int, now),
    {
        let now = clock::now_secs() as i64;
        self.add_points_at(amount, now);
        assert(*self == spec_add_points(*old(self), amount as int, now));
    }

    /// Spend `amount` points at `now` if the balance covers it; report whether it did.
    pub fn spend_points_at(&mut self, amount: i64, now: i64) -> (ok: bool)
        requires
            old(self).points >= amount ==> i64::MIN <= old(self).points - amount <= i64::MAX
                && old(self).total_spent + amount <= i64::MAX
                && i64::MIN <= old(self).total_spent + amount,
        ensures
            ok == (old(self).points >= amount),
            ok ==> *final(self) == (UserPoints {
                points: (old(self).points - amount) as i64,
                total_spent: (old(self).total_spent + amount) as i64,
                last_activity: now,
                ..*old(self)
            }),
            !ok ==> *final(self) == *old(self),
    {
        if self.points >= amount {
            self.points = self.points - amount;
            self.total_spent = self.total_spent + amount;
            self.last_activity = now;
            true
        } else {
            false
        }
    }

    /// Spend `amount` points now if the balance covers it; `reason` is for the log.
    pub fn spend_points(&mut self, amount: i64, reason: &str) -> (ok: bool)
        requires
            old(self).points >= amount ==> i64::MIN <= old(self).points - amount <= i64::MAX
                && old(self).total_spent + amount <= i64::MAX
                && i64::MIN <= old(self).total_spent + amount,
        ensures
            ok == (old(self).points >= amount),
            ok ==> exists|now: i64| *final(self) == #[trigger] spend_result(*old(self), amount, now),
            !ok ==> *final(self) == *old(self),
    {
        let now = clock::now_secs() as i64;
        let ok = self.spend_points_at(amount, now);
        proof {
            if ok {
                assert(*self == spend_result(*old(self), amount, now));
            }
        }
        ok
    }

    /// Update the user's status from a chat message and recompute the multiplier.
    pub fn update_from_message(&mut self, message: &ChatMessage)
        requires
            old(self).messages_sent < u64::MAX,
        ensures
            final(self).last_activity == message.timestamp,
            final(self).messages_sent == old(self).messages_sent + 1,
            final(self).is_subscriber == message.is_subscriber,
            final(self).is_moderator == message.is_mod,
            message.display_name is Some ==> final(self).display_name == message.display_name,
            message.display_name is None ==> final(self).display_name == old(self).display_name,
            final(self).multiplier_quarters == multiplier_for(message.is_subscriber, message.is_mod, old(self).total_earned),
            final(self).points == old(self).points,
            final(self).total_earned == old(self).total_earned,
            final(self).total_spent == old(self).total_spent,
            final(self).user_id == old(self).user_id,
            final(self).platform == old(self).platform,
            final(self).username == old(self).username,
            final(self).first_seen == old(self).first_seen,
            final(self).minutes_watched == old(self).minutes_watched,
            final(self).commands_used == old(self).commands_used,
    {
        self.last_activity = message.timestamp;
        self.messages_sent = self.messages_sent + 1;
        self.is_subscriber = message.is_subscriber;
        self.is_moderator = message.is_mod;
        if let Some(display) = &message.display_name {
            self.display_name = Some(display.clone());
        }
        self.update_multiplier();
    }

    /// Recompute the multiplier from the user's status.
    pub fn update_multiplier(&mut self)
        ensures
            *final(self) == (UserPoints {
                multiplier_quarters: multiplier_for(old(self).is_subscriber, old(self).is_moderator, old(self).total_earned),
                ..*old(self)
            }),
    {
        let mut m: u32 = 4;
        if self.is_subscriber {
            m = m + 2;
        }
        if self.is_moderator {
            m = m + 4;
        }
        if self.total_earned > 100000 {
            m = m + 1;
        }
        self.multiplier_quarters = m;
    }

    /// Rank by total points earned.
    pub fn get_rank(&self) -> (r: String)
        ensures
            r@ == rank_name(self.total_earned),
    {
        let t = self.total_earned;
        if 0 <= t && t <= 999 {
            text::owned("Newcomer")
        } else if 1000 <= t && t <= 4999 {
            text::owned("Regular")
        } else if 5000 <= t && t <= 19999 {
            text::owned("Veteran")
        } else if 20000 <= t && t <= 49999 {
            text::owned("Champion")
        } else if 50000 <= t && t <= 99999 {
            text::owned("Legend")
        } else {
            text::owned("Mythic")
        }
    }
}

// ---------------------------------------------------------------------------
// Configuration and transactions
// ---------------------------------------------------------------------------

/// How many points are earned for what.
#[derive(Clone, Copy, Debug, PartialEq, Eq, Structural)]
pub struct PointsConfig {
    pub watching_interval_minutes: u64,
    pub points_per_interval: i64,
    pub points_per_message: i64,
    pub points_per_command: i64,
    pub daily_bonus: i64,
    pub first_time_bonus: i64,
    pub max_points_per_hour: i64,
}

impl Default for PointsConfig {
    fn default() -> (c: Self)
        ensures
            c == (PointsConfig {
                watching_interval_minutes: 5,
                points_per_interval: 10,
                points_per_message: 1,
                points_per_command: 2,
                daily_bonus: 100,
                first_time_bonus: 500,
                max_points_per_hour: 200,
            }),
    {
        PointsConfig {
            watching_interval_minutes: 5,
            points_per_interval: 10,
            points_per_message: 1,
            points_per_command: 2,
            daily_bonus: 100,
            first_time_bonus: 500,
            max_points_per_hour: 200,
        }
    }
}

/// Kind of a points transaction.
#[derive(Clone, Copy, Debug, PartialEq, Eq, Structural)]
pub enum TransactionType {
    Earned,
    Spent,
    Bonus,
    Admin,
}

/// A change of a user's balance, as logged. Times are seconds since the epoch.
pub struct PointsTransaction {
    pub user_id: String,
    pub transaction_type: TransactionType,
    pub amount: i64,
    pub reason: String,
    pub timestamp: i64,
    pub balance_after: i64,
}

/// Mathematical view of a transaction.
pub struct TransactionView {
    pub user_id: Seq<char>,
    pub kind: TransactionType,
    pub amount: i64,
    pub reason: Seq<char>,
    pub timestamp: i64,
    pub balance_after: i64,
}

impl View for PointsTransaction {
    type V = TransactionView;

    open spec fn view(&self) -> TransactionView {
        TransactionView {
            user_id: self.user_id@,
            kind: self.transaction_type,
            amount: self.amount,
            reason: self.reason@,
            timestamp: self.timestamp,
            balance_after: self.balance_after,
        }
    }
}

/// Number of transactions the log keeps.
pub const MAX_TRANSACTIONS: usize = 10000;

/// The log after appending `t`, keeping only the newest `MAX_TRANSACTIONS`.
pub open spec fn log_append(log: Seq<TransactionView>, t: TransactionView) -> Seq<TransactionView> {
    let l = log.push(t);
    if l.len() > MAX_TRANSACTIONS {
        l.subrange(l.len() - MAX_TRANSACTIONS, l.len() as int)
    } else {
        l
    }
}

impl Clone for UserPoints {
    fn clone(&self) -> (r: Self)
        ensures
            r == *self,
    {
        UserPoints {
            user_id: self.user_id.clone(),
            platform: self.platform.clone(),
            username: self.username.clone(),
            display_name: match &self.display_name {
                Some(d) => Some(d.clone()),
                None => None,
            },
            points: self.points,
            total_earned: self.total_earned,
            total_spent: self.total_spent,
            last_activity: self.last_activity,
            first_seen: self.first_seen,
            minutes_watched: self.minutes_watched,
            messages_sent: self.messages_sent,
            commands_used: self.commands_used,
            is_subscriber: self.is_subscriber,
            is_moderator: self.is_moderator,
            multiplier_quarters: self.multiplier_quarters,
        }
    }
}

// ---------------------------------------------------------------------------
// The points system
// ---------------------------------------------------------------------------

/// Points a user has earned in the current hourly window (times in milliseconds).
pub struct HourlyWindow {
    pub user_id: String,
    pub window_start_ms: u64,
    pub earned: i64,
}

/// When a user was last seen chatting (milliseconds).
pub struct WatchMark {
    pub user_id: String,
    pub last_seen_ms: u64,
}

pub open spec fn user_id_of() -> spec_fn(UserPoints) -> Seq<char> {
    |u: UserPoints| u.user_id@
}

pub open spec fn window_id_of() -> spec_fn(HourlyWindow) -> Seq<char> {
    |w: HourlyWindow| w.user_id@
}

pub open spec fn mark_id_of() -> spec_fn(WatchMark) -> Seq<char> {
    |w: WatchMark| w.user_id@
}

/// One hour, in milliseconds.
pub const HOUR_MS: u64 = 3_600_000;

/// Whether a window that started at `start` is over at `now` (an earlier
/// `now` counts as no time elapsed).
pub open spec fn window_over(start: u64, now: u64) -> bool {
    now >= start && now - start >= HOUR_MS
}

/// The hourly windows after checking `id` at `now`: an expired window is
/// restarted empty, an absent one is opened empty.
pub open spec fn spec_hourly_checked(w: Map<Seq<char>, (u64, i64)>, id: Seq<char>, now: u64)
    -> Map<Seq<char>, (u64, i64)>
{
    if !w.dom().contains(id) || window_over(w[id].0, now) {
        w.insert(id, (now, 0i64))
    } else {
        w
    }
}

/// Whether `id` may still earn at `now`: a new id always may; otherwise
/// the points earned in its window (none, once the window is over) must be
/// below the hourly maximum.
pub open spec fn spec_under_limit(w: Map<Seq<char>, (u64, i64)>, id: Seq<char>, now: u64, max: i64) -> bool {
    if !w.dom().contains(id) {
        true
    } else if window_over(w[id].0, now) {
        0 < max
    } else {
        w[id].1 < max
    }
}

/// Users, their hourly earnings and watching marks, and the transaction log.
pub struct PointsSystem {
    users: Vec<UserPoints>,
    config: PointsConfig,
    transactions: Vec<PointsTransaction>,
    watching_tracker: Vec<WatchMark>,
    hourly_earnings: Vec<HourlyWindow>,
}

impl PointsSystem {
    /// The users by id.
    pub closed spec fn users(&self) -> Map<Seq<char>, UserPoints> {
        keyed_map(self.users@, user_id_of())
    }

    /// The users, in the order they joined.
    pub closed spec fn user_list(&self) -> Seq<UserPoints> {
        self.users@
    }

    /// The configuration.
    pub closed spec fn config_of(&self) -> PointsConfig {
        self.config
    }

    /// The transaction log, oldest first.
    pub closed spec fn log(&self) -> Seq<TransactionView> {
        self.transactions@.map_values(|t: PointsTransaction| t@)
    }

    /// The hourly earning windows by user id: start (milliseconds) and points earned.
    pub closed spec fn hourly(&self) -> Map<Seq<char>, (u64, i64)> {
        keyed_map(self.hourly_earnings@, window_id_of()).map_values(|w: HourlyWindow| (w.window_start_ms, w.earned))
    }

    /// When each user was last seen (milliseconds), by user id.
    pub closed spec fn watching(&self) -> Map<Seq<char>, u64> {
        keyed_map(self.watching_tracker@, mark_id_of()).map_values(|w: WatchMark| w.last_seen_ms)
    }

    /// User ids, window ids and mark ids are unique; the log is bounded.
    pub closed spec fn wf(&self) -> bool {
        &&& keys_distinct(self.users@, user_id_of())
        &&& keys_distinct(self.hourly_earnings@, window_id_of())
        &&& keys_distinct(self.watching_tracker@, mark_id_of())
        &&& self.transactions@.len() <= MAX_TRANSACTIONS
    }

    /// A points system with the default configuration and no users.
    pub fn new() -> (s: Self)
        ensures
            s.wf(),
            s.users() == Map::<Seq<char>, UserPoints>::empty(),
            s.hourly() == Map::<Seq<char>, (u64, i64)>::empty(),
            s.watching() == Map::<Seq<char>, u64>::empty(),
            s.log() == Seq::<TransactionView>::empty(),
            s.config_of() == (PointsConfig {
                watching_interval_minutes: 5,
                points_per_interval: 10,
                points_per_message: 1,
                points_per_command: 2,
                daily_bonus: 100,
                first_time_bonus: 500,
                max_points_per_hour: 200,
            }),
    {
        PointsSystem::with_config(PointsConfig::default())
    }

    /// A points system with the given configuration and no users.
    pub fn with_config(config: PointsConfig) -> (s: Self)
        ensures
            s.wf(),
            s.users() == Map::<Seq<char>, UserPoints>::empty(),
            s.hourly() == Map::<Seq<char>, (u64, i64)>::empty(),
            s.watching() == Map::<Seq<char>, u64>::empty(),
            s.log() == Seq::<TransactionView>::empty(),
            s.config_of() == config,
    {
        let s = PointsSystem {
            users: Vec::new(),
            config,
            transactions: Vec::new(),
            watching_tracker: Vec::new(),
            hourly_earnings: Vec::new(),
        };
        proof {
            lemma_keyed_empty(user_id_of());
            lemma_keyed_empty(window_id_of());
            lemma_keyed_empty(mark_id_of());
        }
        assert(s.log() =~= Seq::<TransactionView>::empty());
        assert(s.hourly() =~= Map::<Seq<char>, (u64, i64)>::empty());
        assert(s.watching() =~= Map::<Seq<char>, u64>::empty());
        s
    }

    fn find_user(&self, id: &str) -> (r: Option<usize>)
        requires
            self.wf(),
        ensures
            match r {
                Some(i) => i < self.users@.len() && self.users@[i as int].user_id@ == id@
                    && self.users().dom().contains(id@) && self.users()[id@] == self.users@[i as int],
                None => !self.users().dom().contains(id@),
            },
    {
        let mut i: usize = 0;
        while i < self.users.len()
            invariant
                i <= self.users@.len(),
                self.wf(),
                forall|j: int| 0 <= j < i ==> self.users@[j].user_id@ != id@,
            decreases self.users@.len() - i,
        {
            if text::same_text(self.users[i].user_id.as_str(), id) {
                proof {
                    lemma_key_index_unique(self.users@, user_id_of(), i as int);
                }
                return Some(i);
            }
            i = i + 1;
        }
        assert(!has_key(self.users@, user_id_of(), id@));
        None
    }

    fn find_window(&self, id: &str) -> (r: Option<usize>)
        requires
            self.wf(),
        ensures
            match r {
                Some(i) => i < self.hourly_earnings@.len() && self.hourly_earnings@[i as int].user_id@ == id@
                    && self.hourly().dom().contains(id@)
                    && self.hourly()[id@] == (self.hourly_earnings@[i as int].window_start_ms, self.hourly_earnings@[i as int].earned),
                None => !self.hourly().dom().contains(id@),
            },
    {
        let mut i: usize = 0;
        while i < self.hourly_earnings.len()
            invariant
                i <= self.hourly_earnings@.len(),
                self.wf(),
                forall|j: int| 0 <= j < i ==> self.hourly_earnings@[j].user_id@ != id@,
            decreases self.hourly_earnings@.len() - i,
        {
            if text::same_text(self.hourly_earnings[i].user_id.as_str(), id) {
                proof {
                    lemma_key_index_unique(self.hourly_earnings@, window_id_of(), i as int);
                }
                return Some(i);
            }
            i = i + 1;
        }
        assert(!has_key(self.hourly_earnings@, window_id_of(), id@));
        None
    }

    fn find_mark(&self, id: &str) -> (r: Option<usize>)
        requires
            self.wf(),
        ensures
            match r {
                Some(i) => i < self.watching_tracker@.len() && self.watching_tracker@[i as int].user_id@ == id@
                    && self.watching().dom().contains(id@),
                None => !self.watching().dom().contains(id@),
            },
    {
        let mut i: usize = 0;
        while i < self.watching_tracker.len()
            invariant
                i <= self.watching_tracker@.len(),
                self.wf(),
                forall|j: int| 0 <= j < i ==> self.watching_tracker@[j].user_id@ != id@,
            decreases self.watching_tracker@.len() - i,
        {
            if text::same_text(self.watching_tracker[i].user_id.as_str(), id) {
                proof {
                    lemma_key_index_unique(self.watching_tracker@, mark_id_of(), i as int);
                }
                return Some(i);
            }
            i = i + 1;
        }
        assert(!has_key(self.watching_tracker@, mark_id_of(), id@));
        None
    }

    /// The user `platform:username`, if known.
    pub fn get_user_points(&self, platform: &str, username: &str) -> (r: Option<UserPoints>)
        requires
            self.wf(),
        ensures
            match r {
                Some(u) => self.users().dom().contains(user_key(platform@, username@))
                    && u == self.users()[user_key(platform@, username@)],
                None => !self.users().dom().contains(user_key(platform@, username@)),
            },
            match r {
                Some(u) => self.state().users.dom().contains(user_key(platform@, username@))
                    && u@ == self.state().users[user_key(platform@, username@)],
                None => !self.state().users.dom().contains(user_key(platform@, username@)),
            },
    {
        let id = make_user_key(platform, username);
        match self.find_user(id.as_str()) {
            Some(i) => Some(self.users[i].clone()),
            None => None,
        }
    }

    /// Append a transaction, keeping only the newest `MAX_TRANSACTIONS`.
    fn add_transaction(&mut self, t: PointsTransaction)
        requires
            old(self).wf(),
        ensures
            final(self).wf(),
            final(self).log() == log_append(old(self).log(), t@),
            final(self).users() == old(self).users(),
            final(self).user_list() == old(self).user_list(),
            final(self).hourly() == old(self).hourly(),
            final(self).watching() == old(self).watching(),
            final(self).config_of() == old(self).config_of(),
    {
        let ghost l0 = self.log();
        self.transactions.push(t);
        assert(self.log() =~= l0.push(t@));
        let len = self.transactions.len();
        if len > MAX_TRANSACTIONS {
            let ghost l1 = self.transactions@;
            let mut kept: Vec<PointsTransaction> = Vec::new();
            let mut tmp: Vec<PointsTransaction> = Vec::new();
            std::mem::swap(&mut tmp, &mut self.transactions);
            let tail = tmp.split_off(len - MAX_TRANSACTIONS);
            self.transactions = tail;
            assert(self.transactions@ == l1.subrange(len - MAX_TRANSACTIONS, len as int));
            assert(self.log() =~= l0.push(t@).subrange(len - MAX_TRANSACTIONS, len as int));
        }
    }

    /// Check whether `id` may still earn points at `now_ms`, restarting an
    /// expired hourly window and opening one for a new id.
    fn check_hourly_limit(&mut self, id: &str, now_ms: u64) -> (ok: bool)
        requires
            old(self).wf(),
        ensures
            final(self).wf(),
            ok == spec_under_limit(old(self).hourly(), id@, now_ms, old(self).config_of().max_points_per_hour),
            final(self).hourly() == spec_hourly_checked(old(self).hourly(), id@, now_ms),
            final(self).users() == old(self).users(),
            final(self).user_list() == old(self).user_list(),
            final(self).log() == old(self).log(),
            final(self).watching() == old(self).watching(),
            final(self).config_of() == old(self).config_of(),
    {
        let ghost h0 = self.hourly_earnings@;
        match self.find_window(id) {
            Some(i) => {
                let start = self.hourly_earnings[i].window_start_ms;
                if now_ms >= start && now_ms - start >= HOUR_MS {
                    let w = HourlyWindow { user_id: self.hourly_earnings[i].user_id.clone(), window_start_ms: now_ms, earned: 0 };
                    self.hourly_earnings.set(i, w);
                    proof {
                        lemma_keyed_update(h0, window_id_of(), i as int, w);
                    }
                } else {
                }
                assert(self.hourly() =~= spec_hourly_checked(old(self).hourly(), id@, now_ms));
                self.hourly_earnings[i].earned < self.config.max_points_per_hour
            },
            None => {
                let w = HourlyWindow { user_id: text::owned(id), window_start_ms: now_ms, earned: 0 };
                self.hourly_earnings.push(w);
                proof {
                    lemma_keyed_push(h0, window_id_of(), w);
                }
                assert(self.hourly() =~= spec_hourly_checked(old(self).hourly(), id@, now_ms));
                true
            },
        }
    }
}

/// The transaction record for `amount` on `id`.
pub open spec fn tx(id: Seq<char>, kind: TransactionType, amount: i64, reason: Seq<char>, now: i64, balance: i64)
    -> TransactionView
{
    TransactionView { user_id: id, kind, amount, reason, timestamp: now, balance_after: balance }
}

/// The users after a transfer of `amount` from `from` to `to`: the sender
/// spends it, then the receiver earns it scaled by the receiver's multiplier.
pub open spec fn spec_after_transfer(users: Map<Seq<char>, UserPoints>, from: Seq<char>, to: Seq<char>, amount: i64, now: i64)
    -> Map<Seq<char>, UserPoints>
{
    let f = users[from];
    let m1 = users.insert(from, UserPoints {
        points: (f.points - amount) as i64,
        total_spent: (f.total_spent + amount) as i64,
        last_activity: now,
        ..f
    });
    m1.insert(to, spec_add_points(m1[to], amount as int, now))
}

/// Whether spending `amount` from `u` stays within `i64`.
pub open spec fn can_spend(u: UserPoints, amount: i64) -> bool {
    i64::MIN <= u.points - amount <= i64::MAX && i64::MIN <= u.total_spent + amount <= i64::MAX
}

impl PointsSystem {
    /// Add `amount` to the points earned in `id`'s window, if it has one.
    fn update_hourly_earnings(&mut self, id: &str, amount: i64)
        requires
            old(self).wf(),
            old(self).hourly().dom().contains(id@) ==> i64::MIN <= old(self).hourly()[id@].1 + amount <= i64::MAX,
        ensures
            final(self).wf(),
            final(self).hourly() == if old(self).hourly().dom().contains(id@) {
                old(self).hourly().insert(id@, (old(self).hourly()[id@].0, (old(self).hourly()[id@].1 + amount) as i64))
            } else {
                old(self).hourly()
            },
            final(self).users() == old(self).users(),
            final(self).user_list() == old(self).user_list(),
            final(self).log() == old(self).log(),
            final(self).watching() == old(self).watching(),
            final(self).config_of() == old(self).config_of(),
    {
        let ghost h0 = self.hourly_earnings@;
        if let Some(i) = self.find_window(id) {
            let w = HourlyWindow {
                user_id: self.hourly_earnings[i].user_id.clone(),
                window_start_ms: self.hourly_earnings[i].window_start_ms,
                earned: self.hourly_earnings[i].earned + amount,
            };
            self.hourly_earnings.set(i, w);
            proof {
                lemma_keyed_update(h0, window_id_of(), i as int, w);
            }
            assert(self.hourly() =~= old(self).hourly().insert(id@, (old(self).hourly()[id@].0, (old(self).hourly()[id@].1 + amount) as i64)));
        }
    }

    /// Remember that `id` was seen at `now_ms`.
    fn update_watching_time(&mut self, id: &str, now_ms: u64)
        requires
            old(self).wf(),
        ensures
            final(self).wf(),
            final(self).watching() == old(self).watching().insert(id@, now_ms),
            final(self).users() == old(self).users(),
            final(self).user_list() == old(self).user_list(),
            final(self).log() == old(self).log(),
            final(self).hourly() == old(self).hourly(),
            final(self).config_of() == old(self).config_of(),
    {
        let ghost w0 = self.watching_tracker@;
        match self.find_mark(id) {
            Some(i) => {
                let m = WatchMark { user_id: self.watching_tracker[i].user_id.clone(), last_seen_ms: now_ms };
                self.watching_tracker.set(i, m);
                proof {
                    lemma_keyed_update(w0, mark_id_of(), i as int, m);
                }
            },
            None => {
                let m = WatchMark { user_id: text::owned(id), last_seen_ms: now_ms };
                self.watching_tracker.push(m);
                proof {
                    lemma_keyed_push(w0, mark_id_of(), m);
                }
            },
        }
        assert(self.watching() =~= old(self).watching().insert(id@, now_ms));
    }

    /// Replace the user at `i` by `u`, of the same id.
    fn put_user(&mut self, i: usize, u: UserPoints)
        requires
            old(self).wf(),
            i < old(self).user_list().len(),
            u.user_id@ == old(self).user_list()[i as int].user_id@,
        ensures
            final(self).wf(),
            final(self).users() == old(self).users().insert(u.user_id@, u),
            final(self).user_list() == old(self).user_list().update(i as int, u),
            final(self).watching_tracker@ == old(self).watching_tracker@,
            final(self).log() == old(self).log(),
            final(self).hourly() == old(self).hourly(),
            final(self).watching() == old(self).watching(),
            final(self).config_of() == old(self).config_of(),
    {
        let ghost u0 = self.users@;
        let ghost uu = u;
        self.users.set(i, u);
        proof {
            lemma_keyed_update(u0, user_id_of(), i as int, uu);
        }
    }

    /// Admin grant at `now` (seconds): add `amount`, scaled by the user's
    /// multiplier, to `platform:username` and log it; false for an unknown user.
    pub fn add_points_at(&mut self, platform: &str, username: &str, amount: i64, reason: &str, now: i64) -> (ok: bool)
        requires
            old(self).wf(),
            old(self).users().dom().contains(user_key(platform@, username@))
                ==> can_add(old(self).users()[user_key(platform@, username@)], amount as int),
        ensures
            final(self).wf(),
            ok == old(self).users().dom().contains(user_key(platform@, username@)),
            ok ==> {
                let id = user_key(platform@, username@);
                let u = spec_add_points(old(self).users()[id], amount as int, now);
                &&& final(self).users() == old(self).users().insert(id, u)
                &&& final(self).log() == log_append(old(self).log(), tx(id, TransactionType::Admin, amount, reason@, now, u.points))
            },
            !ok ==> final(self).users() == old(self).users() && final(self).log() == old(self).log(),
            final(self).config_of() == old(self).config_of(),
            final(self).hourly() == old(self).hourly(),
            final(self).watching() == old(self).watching(),
    {
        let id = make_user_key(platform, username);
        let i = match self.find_user(id.as_str()) {
            Some(i) => i,
            None => return false,
        };
        let mut u = self.users[i].clone();
        u.add_points_at(amount, now);
        let t = PointsTransaction {
            user_id: u.user_id.clone(),
            transaction_type: TransactionType::Admin,
            amount,
            reason: text::owned(reason),
            timestamp: now,
            balance_after: u.points,
        };
        self.put_user(i, u);
        self.add_transaction(t);
        true
    }

    /// Spend `amount` of `platform:username`'s points at `now` (seconds) if
    /// the balance covers it, logging it; false for an unknown user or a
    /// balance that does not cover it.
    pub fn spend_points_at(&mut self, platform: &str, username: &str, amount: i64, reason: &str, now: i64) -> (ok: bool)
        requires
            old(self).wf(),
            old(self).users().dom().contains(user_key(platform@, username@))
                ==> can_spend(old(self).users()[user_key(platform@, username@)], amount),
        ensures
            final(self).wf(),
            ok == (old(self).users().dom().contains(user_key(platform@, username@))
                && old(self).users()[user_key(platform@, username@)].points >= amount),
            ok ==> {
                let id = user_key(platform@, username@);
                let f = old(self).users()[id];
                let u = UserPoints {
                    points: (f.points - amount) as i64,
                    total_spent: (f.total_spent + amount) as i64,
                    last_activity: now,
                    ..f
                };
                &&& final(self).users() == old(self).users().insert(id, u)
                &&& final(self).log() == log_append(old(self).log(), tx(id, TransactionType::Spent, amount, reason@, now, u.points))
            },
            !ok ==> final(self).users() == old(self).users() && final(self).log() == old(self).log(),
            final(self).hourly() == old(self).hourly(),
            final(self).watching() == old(self).watching(),
    {
        let id = make_user_key(platform, username);
        let i = match self.find_user(id.as_str()) {
            Some(i) => i,
            None => return false,
        };
        let mut u = self.users[i].clone();
        if !u.spend_points_at(amount, now) {
            return false;
        }
        let t = PointsTransaction {
            user_id: u.user_id.clone(),
            transaction_type: TransactionType::Spent,
            amount,
            reason: text::owned(reason),
            timestamp: now,
            balance_after: u.points,
        };
        self.put_user(i, u);
        self.add_transaction(t);
        true
    }

    /// Transfer `amount` points at `now` (seconds) from one user to another,
    /// if both are known and the sender's balance covers it. The sender
    /// spends the amount; the receiver earns it, scaled by the receiver's
    /// multiplier; both changes are logged.
    pub fn transfer_points_at(
        &mut self,
        from_platform: &str,
        from_user: &str,
        to_platform: &str,
        to_user: &str,
        amount: i64,
        now: i64,
    ) -> (ok: bool)
        requires
            old(self).wf(),
            ({
                let (from, to) = (user_key(from_platform@, from_user@), user_key(to_platform@, to_user@));
                let users = old(self).users();
                users.dom().contains(from) && users.dom().contains(to) && users[from].points >= amount ==> {
                    &&& can_spend(users[from], amount)
                    &&& can_add(users.insert(from, UserPoints {
                            points: (users[from].points - amount) as i64,
                            total_spent: (users[from].total_spent + amount) as i64,
                            last_activity: now,
                            ..users[from]
                        })[to], amount as int)
                }
            }),
        ensures
            final(self).wf(),
            ({
                let (from, to) = (user_key(from_platform@, from_user@), user_key(to_platform@, to_user@));
                let users = old(self).users();
                &&& ok == (users.dom().contains(from) && users.dom().contains(to) && users[from].points >= amount)
                &&& ok ==> {
                    let after = spec_after_transfer(users, from, to, amount, now);
                    let sender_balance = users.insert(from, UserPoints {
                            points: (users[from].points - amount) as i64,
                            total_spent: (users[from].total_spent + amount) as i64,
                            last_activity: now,
                            ..users[from]
                        })[from].points;
                    &&& final(self).users() == after
                    &&& final(self).log() == log_append(
                        log_append(old(self).log(), tx(from, TransactionType::Spent, amount, "Transfer to "@ + to_user@, now, sender_balance)),
                        tx(to, TransactionType::Earned, amount, "Transfer from "@ + from_user@, now, after[to].points))
                }
                &&& !ok ==> final(self).users() == users && final(self).log() == old(self).log()
            }),
            final(self).hourly() == old(self).hourly(),
            final(self).watching() == old(self).watching(),
    {
        let from_id = make_user_key(from_platform, from_user);
        let to_id = make_user_key(to_platform, to_user);
        let fi = match self.find_user(from_id.as_str()) {
            Some(i) => i,
            None => return false,
        };
        let ti = match self.find_user(to_id.as_str()) {
            Some(i) => i,
            None => return false,
        };
        if self.users[fi].points < amount {
            return false;
        }
        let mut f = self.users[fi].clone();
        f.spend_points_at(amount, now);
        let t1 = PointsTransaction {
            user_id: f.user_id.clone(),
            transaction_type: TransactionType::Spent,
            amount,
            reason: text::concat("Transfer to ", to_user),
            timestamp: now,
            balance_after: f.points,
        };
        self.put_user(fi, f);
        let ti2 = match self.find_user(to_id.as_str()) {
            Some(i) => i,
            None => return false,
        };
        let mut t = self.users[ti2].clone();
        t.add_points_at(amount, now);
        let t2 = PointsTransaction {
            user_id: t.user_id.clone(),
            transaction_type: TransactionType::Earned,
            amount,
            reason: text::concat("Transfer from ", from_user),
            timestamp: now,
            balance_after: t.points,
        };
        self.put_user(ti2, t);
        self.add_transaction(t1);
        self.add_transaction(t2);
        true
    }
}

// ---------------------------------------------------------------------------
// Chat activity
// ---------------------------------------------------------------------------

/// Mathematical view of a user's points and statistics.
pub struct UserView {
    pub user_id: Seq<char>,
    pub platform: Seq<char>,
    pub username: Seq<char>,
    pub display_name: Option<Seq<char>>,
    pub points: i64,
    pub total_earned: i64,
    pub total_spent: i64,
    pub last_activity: i64,
    pub first_seen: i64,
    pub minutes_watched: u64,
    pub messages_sent: u64,
    pub commands_used: u64,
    pub is_subscriber: bool,
    pub is_moderator: bool,
    pub multiplier_quarters: u32,
}

pub open spec fn opt_text(o: Option<String>) -> Option<Seq<char>> {
    match o {
        Some(s) => Some(s@),
        None => None,
    }
}

impl View for UserPoints {
    type V = UserView;

    open spec fn view(&self) -> UserView {
        UserView {
            user_id: self.user_id@,
            platform: self.platform@,
            username: self.username@,
            display_name: opt_text(self.display_name),
            points: self.points,
            total_earned: self.total_earned,
            total_spent: self.total_spent,
            last_activity: self.last_activity,
            first_seen: self.first_seen,
            minutes_watched: self.minutes_watched,
            messages_sent: self.messages_sent,
            commands_used: self.commands_used,
            is_subscriber: self.is_subscriber,
            is_moderator: self.is_moderator,
            multiplier_quarters: self.multiplier_quarters,
        }
    }
}

pub open spec fn view_can_add(v: UserView, amount: int) -> bool {
    &&& scaling_exact(amount, v.multiplier_quarters as int)
    &&& i64::MIN <= v.points + scaled(amount, v.multiplier_quarters as int) <= i64::MAX
    &&& i64::MIN <= v.total_earned + scaled(amount, v.multiplier_quarters as int) <= i64::MAX
}

pub open spec fn view_add_points(v: UserView, amount: int, now: i64) -> UserView {
    let s = scaled(amount, v.multiplier_quarters as int);
    UserView { points: (v.points + s) as i64, total_earned: (v.total_earned + s) as i64, last_activity: now, ..v }
}

/// The user after a chat message.
pub open spec fn view_from_message(v: UserView, m: ChatMessage) -> UserView {
    UserView {
        last_activity: m.timestamp,
        messages_sent: (v.messages_sent + 1) as u64,
        is_subscriber: m.is_subscriber,
        is_moderator: m.is_mod,
        display_name: match m.display_name {
            Some(d) => Some(d@),
            None => v.display_name,
        },
        multiplier_quarters: multiplier_for(m.is_subscriber, m.is_mod, v.total_earned),
        ..v
    }
}

/// A user first seen with message `m` at `now`.
pub open spec fn new_user_view(m: ChatMessage, now: i64) -> UserView {
    UserView {
        user_id: user_key(m.platform@, m.username@),
        platform: m.platform@,
        username: m.username@,
        display_name: opt_text(m.display_name),
        points: 0,
        total_earned: 0,
        total_spent: 0,
        last_activity: now,
        first_seen: now,
        minutes_watched: 0,
        messages_sent: 0,
        commands_used: 0,
        is_subscriber: false,
        is_moderator: false,
        multiplier_quarters: 4,
    }
}

/// Day number (UTC) of a time in seconds.
pub open spec fn day_of(t: i64) -> int {
    t as int / 86400
}

/// The observable state of a points system.
pub struct PointsState {
    pub users: Map<Seq<char>, UserView>,
    pub hourly: Map<Seq<char>, (u64, i64)>,
    pub watching: Map<Seq<char>, u64>,
    pub log: Seq<TransactionView>,
}

/// The state after the welcome bonus, for a user not seen before.
pub open spec fn stage_welcome(st: PointsState, c: PointsConfig, m: ChatMessage, now: i64) -> PointsState {
    let id = user_key(m.platform@, m.username@);
    if !st.users.dom().contains(id) {
        PointsState {
            users: st.users.insert(id, view_add_points(new_user_view(m, now), c.first_time_bonus as int, now)),
            log: log_append(st.log, tx(id, TransactionType::Bonus, c.first_time_bonus, "Welcome bonus"@, now, c.first_time_bonus)),
            ..st
        }
    } else {
        st
    }
}

/// Whether the known user `id` last chatted on an earlier day than `now`.
pub open spec fn needs_daily(st: PointsState, id: Seq<char>, now: i64) -> bool {
    st.users.dom().contains(id) && day_of(st.users[id].last_activity) < day_of(now)
}

/// The state after the daily bonus, when it is owed (decided on `before`).
pub open spec fn stage_daily(before: PointsState, st: PointsState, c: PointsConfig, id: Seq<char>, now: i64) -> PointsState {
    if needs_daily(before, id, now) {
        let u = view_add_points(st.users[id], c.daily_bonus as int, now);
        PointsState {
            users: st.users.insert(id, u),
            log: log_append(st.log, tx(id, TransactionType::Bonus, c.daily_bonus, "Daily bonus"@, now, u.points)),
            ..st
        }
    } else {
        st
    }
}

/// The state after the message itself is counted and, if the configuration
/// awards points per message, paid for.
pub open spec fn stage_message(st: PointsState, c: PointsConfig, m: ChatMessage, id: Seq<char>, now: i64) -> PointsState {
    let u1 = view_from_message(st.users[id], m);
    if c.points_per_message > 0 {
        let u2 = view_add_points(u1, c.points_per_message as int, now);
        PointsState {
            users: st.users.insert(id, u2),
            hourly: if st.hourly.dom().contains(id) {
                st.hourly.insert(id, (st.hourly[id].0, (st.hourly[id].1 + c.points_per_message) as i64))
            } else {
                st.hourly
            },
            log: log_append(st.log, tx(id, TransactionType::Earned, c.points_per_message, "Chat message"@, now, u2.points)),
            ..st
        }
    } else {
        PointsState { users: st.users.insert(id, u1), ..st }
    }
}

/// What processing a chat message at `now_ms` does: a welcome bonus for a
/// new user, a daily bonus for the first message of a day, then, unless the
/// hourly limit is reached, the message is counted and paid for and the user
/// is marked as watching.
pub open spec fn spec_process_message(st: PointsState, c: PointsConfig, m: ChatMessage, now_ms: u64) -> PointsState {
    let id = user_key(m.platform@, m.username@);
    let now = (now_ms / 1000) as i64;
    let s2 = stage_daily(st, stage_welcome(st, c, m, now), c, id, now);
    let s3 = PointsState { hourly: spec_hourly_checked(s2.hourly, id, now_ms), ..s2 };
    if !spec_under_limit(s2.hourly, id, now_ms, c.max_points_per_hour) {
        s3
    } else {
        let s4 = stage_message(s3, c, m, id, now);
        PointsState { watching: s4.watching.insert(id, now_ms), ..s4 }
    }
}

/// Whether every sum `spec_process_message` computes fits in `i64`.
pub open spec fn message_fits(st: PointsState, c: PointsConfig, m: ChatMessage, now_ms: u64) -> bool {
    let id = user_key(m.platform@, m.username@);
    let now = (now_ms / 1000) as i64;
    let s1 = stage_welcome(st, c, m, now);
    let s2 = stage_daily(st, s1, c, id, now);
    let s3 = PointsState { hourly: spec_hourly_checked(s2.hourly, id, now_ms), ..s2 };
    let u1 = view_from_message(s3.users[id], m);
    &&& !st.users.dom().contains(id) ==> view_can_add(new_user_view(m, now), c.first_time_bonus as int)
    &&& needs_daily(st, id, now) ==> view_can_add(s1.users[id], c.daily_bonus as int)
    &&& spec_under_limit(s2.hourly, id, now_ms, c.max_points_per_hour) ==> {
        &&& s3.users[id].messages_sent < u64::MAX
        &&& c.points_per_message > 0 ==> view_can_add(u1, c.points_per_message as int)
            && (s3.hourly.dom().contains(id) ==> i64::MIN <= s3.hourly[id].1 + c.points_per_message <= i64::MAX)
    }
}

impl PointsSystem {
    /// The observable state.
    pub closed spec fn state(&self) -> PointsState {
        PointsState {
            users: self.users().map_values(|u: UserPoints| u@),
            hourly: self.hourly(),
            watching: self.watching(),
            log: self.log(),
        }
    }
}

/// Day number (UTC) of a time in seconds, rounding toward the past.
fn day_number(t: i64) -> (d: i128)
    ensures
        d == day_of(t),
{
    let ti: i128 = t as i128;
    if ti >= 0 {
        ti / 86400
    } else {
        let m: i128 = -ti;
        let d: i128 = -((m + 86399) / 86400);
        assert(d == ti as int / 86400) by (nonlinear_arith)
            requires m == -ti, ti < 0, d == -((m + 86399) / 86400);
        d
    }
}

fn clone_opt(o: &Option<String>) -> (r: Option<String>)
    ensures
        r == *o,
{
    match o {
        Some(s) => Some(s.clone()),
        None => None,
    }
}

impl PointsSystem {
    /// Add a user whose id is not yet known.
    fn push_user(&mut self, u: UserPoints)
        requires
            old(self).wf(),
            !old(self).users().dom().contains(u.user_id@),
        ensures
            final(self).wf(),
            final(self).users() == old(self).users().insert(u.user_id@, u),
            final(self).log() == old(self).log(),
            final(self).hourly() == old(self).hourly(),
            final(self).watching() == old(self).watching(),
            final(self).config_of() == old(self).config_of(),
    {
        let ghost u0 = self.users@;
        let ghost uu = u;
        self.users.push(u);
        proof {
            lemma_keyed_push(u0, user_id_of(), uu);
        }
    }

    /// Process a chat message at `now_ms`: see `spec_process_message`.
    pub fn process_message_at(&mut self, message: &ChatMessage, now_ms: u64)
        requires
            old(self).wf(),
            message_fits(old(self).state(), old(self).config_of(), *message, now_ms),
        ensures
            final(self).wf(),
            final(self).state() == spec_process_message(old(self).state(), old(self).config_of(), *message, now_ms),
            final(self).config_of() == old(self).config_of(),
    {
        let id = make_user_key(message.platform.as_str(), message.username.as_str());
        let now: i64 = (now_ms / 1000) as i64;
        let ghost c = self.config;
        let ghost st0 = self.state();
        let idx0 = self.find_user(id.as_str());
        let needs = match idx0 {
            Some(i) => day_number(self.users[i].last_activity) < day_number(now),
            None => false,
        };
        assert(needs == needs_daily(st0, id@, now));
        if idx0.is_none() {
            let mut u = UserPoints::new_at(message.platform.clone(), message.username.clone(), clone_opt(&message.display_name), now);
            assert(u@ == new_user_view(*message, now));
            u.add_points_at(self.config.first_time_bonus, now);
            self.push_user(u);
            let t = PointsTransaction {
                user_id: id.clone(),
                transaction_type: TransactionType::Bonus,
                amount: self.config.first_time_bonus,
                reason: text::owned("Welcome bonus"),
                timestamp: now,
                balance_after: self.config.first_time_bonus,
            };
            self.add_transaction(t);
        }
        assert(self.state().users =~= stage_welcome(st0, c, *message, now).users);
        assert(self.state() == stage_welcome(st0, c, *message, now));
        let ghost st1 = self.state();
        if needs {
            let i = match self.find_user(id.as_str()) {
                Some(i) => i,
                None => return,
            };
            let mut u = self.users[i].clone();
            u.add_points_at(self.config.daily_bonus, now);
            let bal = u.points;
            self.put_user(i, u);
            let t = PointsTransaction {
                user_id: id.clone(),
                transaction_type: TransactionType::Bonus,
                amount: self.config.daily_bonus,
                reason: text::owned("Daily bonus"),
                timestamp: now,
                balance_after: bal,
            };
            self.add_transaction(t);
            assert(self.state().users =~= stage_daily(st0, st1, c, id@, now).users);
        }
        assert(self.state() == stage_daily(st0, st1, c, id@, now));
        let ghost st2 = self.state();
        let ok = self.check_hourly_limit(id.as_str(), now_ms);
        let ghost st3 = self.state();
        assert(st3 == (PointsState { hourly: spec_hourly_checked(st2.hourly, id@, now_ms), ..st2 }));
        if !ok {
            return;
        }
        let i = match self.find_user(id.as_str()) {
            Some(i) => i,
            None => return,
        };
        let mut u = self.users[i].clone();
        u.update_from_message(message);
        assert(u@ == view_from_message(st3.users[id@], *message));
        if self.config.points_per_message > 0 {
            u.add_points_at(self.config.points_per_message, now);
            let bal = u.points;
            self.put_user(i, u);
            self.update_hourly_earnings(id.as_str(), self.config.points_per_message);
            let t = PointsTransaction {
                user_id: id.clone(),
                transaction_type: TransactionType::Earned,
                amount: self.config.points_per_message,
                reason: text::owned("Chat message"),
                timestamp: now,
                balance_after: bal,
            };
            self.add_transaction(t);
        } else {
            self.put_user(i, u);
        }
        assert(self.state().users =~= stage_message(st3, c, *message, id@, now).users);
        assert(self.state() == stage_message(st3, c, *message, id@, now));
        self.update_watching_time(id.as_str(), now_ms);
    }
}

/// What processing a command at `now_ms` does for a known user: the command
/// is counted and, if the configuration awards points per command and the
/// hourly limit allows, paid for. An unknown user changes nothing.
pub open spec fn spec_process_command(st: PointsState, c: PointsConfig, m: ChatMessage, command: Seq<char>, now_ms: u64)
    -> PointsState
{
    let id = user_key(m.platform@, m.username@);
    let now = (now_ms / 1000) as i64;
    if !st.users.dom().contains(id) {
        st
    } else {
        let u1 = UserView { commands_used: (st.users[id].commands_used + 1) as u64, ..st.users[id] };
        if c.points_per_command > 0 {
            let h = spec_hourly_checked(st.hourly, id, now_ms);
            if spec_under_limit(st.hourly, id, now_ms, c.max_points_per_hour) {
                let u2 = view_add_points(u1, c.points_per_command as int, now);
                PointsState {
                    users: st.users.insert(id, u2),
                    hourly: h.insert(id, (h[id].0, (h[id].1 + c.points_per_command) as i64)),
                    log: log_append(st.log, tx(id, TransactionType::Earned, c.points_per_command, "Command: "@ + command, now, u2.points)),
                    ..st
                }
            } else {
                PointsState { users: st.users.insert(id, u1), hourly: h, ..st }
            }
        } else {
            PointsState { users: st.users.insert(id, u1), ..st }
        }
    }
}

/// Whether every sum `spec_process_command` computes fits in its type.
pub open spec fn command_fits(st: PointsState, c: PointsConfig, m: ChatMessage, now_ms: u64) -> bool {
    let id = user_key(m.platform@, m.username@);
    let h = spec_hourly_checked(st.hourly, id, now_ms);
    st.users.dom().contains(id) ==> {
        &&& st.users[id].commands_used < u64::MAX
        &&& c.points_per_command > 0 ==> view_can_add(st.users[id], c.points_per_command as int)
            && i64::MIN <= h[id].1 + c.points_per_command <= i64::MAX
    }
}

/// Whether the mark of a user seen at `seen_ms` is recent at `now_ms`: at
/// most one watching interval ago (an earlier `now_ms` counts as no time).
pub open spec fn recently_seen(seen_ms: u64, now_ms: u64, interval_minutes: u64) -> bool {
    now_ms < seen_ms || now_ms - seen_ms <= interval_minutes * 60000
}

/// A watching user after one more minute: every full interval is paid for.
pub open spec fn watched_minute(u: UserView, c: PointsConfig, now: i64) -> UserView {
    let m = (u.minutes_watched + 1) as u64;
    let u1 = UserView { minutes_watched: m, ..u };
    if m % c.watching_interval_minutes == 0 {
        view_add_points(u1, c.points_per_interval as int, now)
    } else {
        u1
    }
}

/// The users after a watching tick at `now_ms`: every known user whose
/// mark is recent watched one more minute.
pub open spec fn spec_watch_tick(st: PointsState, c: PointsConfig, now_ms: u64) -> Map<Seq<char>, UserView> {
    Map::new(|k: Seq<char>| st.users.dom().contains(k), |k: Seq<char>|
        if st.watching.dom().contains(k) && recently_seen(st.watching[k], now_ms, c.watching_interval_minutes) {
            watched_minute(st.users[k], c, (now_ms / 1000) as i64)
        } else {
            st.users[k]
        })
}

/// Whether a watching tick can be computed: a positive interval whose length
/// in milliseconds fits, and sums that fit.
pub open spec fn watch_tick_fits(st: PointsState, c: PointsConfig, now_ms: u64) -> bool {
    &&& c.watching_interval_minutes > 0
    &&& c.watching_interval_minutes * 60000 <= u64::MAX
    &&& forall|k: Seq<char>| #[trigger] st.users.dom().contains(k) && st.watching.dom().contains(k)
        ==> st.users[k].minutes_watched < u64::MAX
            && view_can_add(UserView { minutes_watched: (st.users[k].minutes_watched + 1) as u64, ..st.users[k] },
                c.points_per_interval as int)
}

impl PointsSystem {
    /// Process a command use at `now_ms`: see `spec_process_command`.
    pub fn process_command_at(&mut self, message: &ChatMessage, command: &str, now_ms: u64)
        requires
            old(self).wf(),
            command_fits(old(self).state(), old(self).config_of(), *message, now_ms),
        ensures
            final(self).wf(),
            final(self).state() == spec_process_command(old(self).state(), old(self).config_of(), *message, command@, now_ms),
            final(self).config_of() == old(self).config_of(),
    {
        let id = make_user_key(message.platform.as_str(), message.username.as_str());
        let now: i64 = (now_ms / 1000) as i64;
        let ghost st0 = self.state();
        let ghost c = self.config;
        let i = match self.find_user(id.as_str()) {
            Some(i) => i,
            None => return,
        };
        let mut u = self.users[i].clone();
        u.commands_used = u.commands_used + 1;
        if self.config.points_per_command > 0 && self.check_hourly_limit(id.as_str(), now_ms) {
            u.add_points_at(self.config.points_per_command, now);
            let bal = u.points;
            self.put_user(i, u);
            self.update_hourly_earnings(id.as_str(), self.config.points_per_command);
            let t = PointsTransaction {
                user_id: id.clone(),
                transaction_type: TransactionType::Earned,
                amount: self.config.points_per_command,
                reason: text::concat("Command: ", command),
                timestamp: now,
                balance_after: bal,
            };
            self.add_transaction(t);
        } else {
            self.put_user(i, u);
        }
        assert(self.state().users =~= spec_process_command(st0, c, *message, command@, now_ms).users);
        assert(self.state().hourly =~= spec_process_command(st0, c, *message, command@, now_ms).hourly);
    }

    /// One minute of watching at `now_ms`: see `spec_watch_tick`.
    pub fn watch_tick_at(&mut self, now_ms: u64)
        requires
            old(self).wf(),
            watch_tick_fits(old(self).state(), old(self).config_of(), now_ms),
        ensures
            final(self).wf(),
            final(self).state().users == spec_watch_tick(old(self).state(), old(self).config_of(), now_ms),
            final(self).state().hourly == old(self).state().hourly,
            final(self).state().watching == old(self).state().watching,
            final(self).state().log == old(self).state().log,
            final(self).config_of() == old(self).config_of(),
    {
        let ghost st0 = self.state();
        let ghost c = self.config;
        let ghost w0 = self.watching_tracker@;
        let now: i64 = (now_ms / 1000) as i64;
        let window: u64 = self.config.watching_interval_minutes * 60000;
        let mut j: usize = 0;
        while j < self.watching_tracker.len()
            invariant
                j <= self.watching_tracker@.len(),
                self.wf(),
                self.config == c,
                self.watching_tracker@ == w0,
                c == old(self).config_of(),
                st0 == old(self).state(),
                window == c.watching_interval_minutes * 60000,
                now == (now_ms / 1000) as i64,
                watch_tick_fits(st0, c, now_ms),
                self.state().hourly == st0.hourly,
                self.state().watching == st0.watching,
                self.state().log == st0.log,
                self.state().users.dom() == st0.users.dom(),
                forall|k: Seq<char>| #[trigger] self.state().users.dom().contains(k) ==>
                    self.state().users[k] == if (exists|q: int| 0 <= q < j && #[trigger] w0[q].user_id@ == k)
                        && recently_seen(st0.watching[k], now_ms, c.watching_interval_minutes) {
                        watched_minute(st0.users[k], c, now)
                    } else {
                        st0.users[k]
                    },
            decreases self.watching_tracker@.len() - j,
        {
            let ghost before = self.state();
            let ghost kj = w0[j as int].user_id@;
            proof {
                lemma_key_index_unique(w0, mark_id_of(), j as int);
                assert(st0.watching[kj] == w0[j as int].last_seen_ms);
                assert forall|q: int| 0 <= q < j implies #[trigger] w0[q].user_id@ != kj by {
                    assert(mark_id_of()(w0[q]) != mark_id_of()(w0[j as int]));
                }
            }
            let seen = self.watching_tracker[j].last_seen_ms;
            let recent = now_ms < seen || now_ms - seen <= window;
            if recent {
                let mid = self.watching_tracker[j].user_id.clone();
                match self.find_user(mid.as_str()) {
                    Some(i) => {
                        let mut u = self.users[i].clone();
                        assert(self.state().users.dom().contains(kj));
                        assert(!(exists|q: int| 0 <= q < j && #[trigger] w0[q].user_id@ == kj));
                        assert(self.state().users[kj] == st0.users[kj]);
                        assert(u@ == st0.users[kj]);
                        u.minutes_watched = u.minutes_watched + 1;
                        if u.minutes_watched % self.config.watching_interval_minutes == 0 {
                            u.add_points_at(self.config.points_per_interval, now);
                        }
                        assert(u@ == watched_minute(st0.users[kj], c, now));
                        self.put_user(i, u);
                    },
                    None => {
                        assert(!self.state().users.dom().contains(kj));
                    },
                }
            }
            proof {
                assert forall|k: Seq<char>| #[trigger] self.state().users.dom().contains(k) implies
                    self.state().users[k] == if (exists|q: int| 0 <= q < j + 1 && #[trigger] w0[q].user_id@ == k)
                        && recently_seen(st0.watching[k], now_ms, c.watching_interval_minutes) {
                        watched_minute(st0.users[k], c, now)
                    } else {
                        st0.users[k]
                    } by {
                    assert(before.users.dom().contains(k));
                    if k == kj {
                        assert(w0[j as int].user_id@ == k);
                        assert(!(exists|q: int| 0 <= q < j && #[trigger] w0[q].user_id@ == k));
                        assert(before.users[k] == st0.users[k]);
                    } else {
                        if exists|q: int| 0 <= q < j + 1 && #[trigger] w0[q].user_id@ == k {
                            let q = choose|q: int| 0 <= q < j + 1 && #[trigger] w0[q].user_id@ == k;
                            assert(q < j);
                        }
                        assert(before.users[k] == self.state().users[k]);
                    }
                }
            }
            j = j + 1;
        }
        proof {
            let target = spec_watch_tick(st0, c, now_ms);
            assert forall|k: Seq<char>| #[trigger] self.state().users.dom().contains(k) implies
                self.state().users[k] == target[k] by {
                if st0.watching.dom().contains(k) {
                    let q = choose|q: int| 0 <= q < w0.len() && #[trigger] mark_id_of()(w0[q]) == k;
                    assert(w0[q].user_id@ == k);
                } else {
                    if exists|q: int| 0 <= q < j && #[trigger] w0[q].user_id@ == k {
                        let q = choose|q: int| 0 <= q < j && #[trigger] w0[q].user_id@ == k;
                        assert(mark_id_of()(w0[q]) == k);
                        assert(has_key(w0, mark_id_of(), k));
                    }
                }
            }
            assert(self.state().users =~= target);
        }
    }
}

/// Totals over all users.
pub struct PointsStatistics {
    pub total_users: usize,
    pub total_points_circulating: i128,
    pub total_points_earned: i128,
    pub total_points_spent: i128,
    pub active_users_24h: usize,
    pub total_transactions: usize,
}

pub open spec fn sum_points(us: Seq<UserPoints>) -> int
    decreases us.len(),
{
    if us.len() == 0 { 0 } else { sum_points(us.drop_last()) + us.last().points }
}

pub open spec fn sum_earned(us: Seq<UserPoints>) -> int
    decreases us.len(),
{
    if us.len() == 0 { 0 } else { sum_earned(us.drop_last()) + us.last().total_earned }
}

pub open spec fn sum_spent(us: Seq<UserPoints>) -> int
    decreases us.len(),
{
    if us.len() == 0 { 0 } else { sum_spent(us.drop_last()) + us.last().total_spent }
}

/// Number of users active after `since` (seconds).
pub open spec fn count_active(us: Seq<UserPoints>, since: int) -> nat
    decreases us.len(),
{
    if us.len() == 0 { 0 } else { count_active(us.drop_last(), since) + if us.last().last_activity > since { 1nat } else { 0nat } }
}

proof fn lemma_sums_bounded(us: Seq<UserPoints>)
    ensures
        -(us.len() as int) * 0x8000_0000_0000_0000 <= sum_points(us) <= (us.len() as int) * 0x8000_0000_0000_0000,
        -(us.len() as int) * 0x8000_0000_0000_0000 <= sum_earned(us) <= (us.len() as int) * 0x8000_0000_0000_0000,
        -(us.len() as int) * 0x8000_0000_0000_0000 <= sum_spent(us) <= (us.len() as int) * 0x8000_0000_0000_0000,
        count_active(us, 0) <= us.len(),
    decreases us.len(),
{
    if us.len() > 0 {
        lemma_sums_bounded(us.drop_last());
    }
}

impl PointsSystem {
    /// Totals at `now` (seconds): users, points held, earned and spent,
    /// users active in the last 24 hours, and transactions logged.
    pub fn get_statistics_at(&self, now: i64) -> (r: PointsStatistics)
        requires
            self.wf(),
        ensures
            r.total_users == self.user_list().len(),
            r.total_points_circulating == sum_points(self.user_list()),
            r.total_points_earned == sum_earned(self.user_list()),
            r.total_points_spent == sum_spent(self.user_list()),
            r.active_users_24h == count_active(self.user_list(), now - 86400),
            r.total_transactions == self.log().len(),
    {
        let mut points: i128 = 0;
        let mut earned: i128 = 0;
        let mut spent: i128 = 0;
        let mut active: usize = 0;
        let since: i128 = now as i128 - 86400;
        let mut i: usize = 0;
        while i < self.users.len()
            invariant
                i <= self.users@.len(),
                points == sum_points(self.users@.take(i as int)),
                earned == sum_earned(self.users@.take(i as int)),
                spent == sum_spent(self.users@.take(i as int)),
                active == count_active(self.users@.take(i as int), since as int),
                active <= i,
                -(i as int) * 0x8000_0000_0000_0000 <= points <= (i as int) * 0x8000_0000_0000_0000,
                -(i as int) * 0x8000_0000_0000_0000 <= earned <= (i as int) * 0x8000_0000_0000_0000,
                -(i as int) * 0x8000_0000_0000_0000 <= spent <= (i as int) * 0x8000_0000_0000_0000,
            decreases self.users@.len() - i,
        {
            assert(self.users@.take(i + 1).drop_last() =~= self.users@.take(i as int));
            assert(i < 0x1_0000_0000_0000_0000);
            let u = &self.users[i];
            points = points + u.points as i128;
            earned = earned + u.total_earned as i128;
            spent = spent + u.total_spent as i128;
            if (u.last_activity as i128) > since {
                active = active + 1;
            }
            i = i + 1;
        }
        assert(self.users@.take(self.users@.len() as int) =~= self.users@);
        PointsStatistics {
            total_users: self.users.len(),
            total_points_circulating: points,
            total_points_earned: earned,
            total_points_spent: spent,
            active_users_24h: active,
            total_transactions: self.transactions.len(),
        }
    }

    /// The users with the most points, most first (users with equal points
    /// keep the order in which they joined), at most `limit` of them.
    #[verifier::spinoff_prover]
    #[verifier::rlimit(80)]
    pub fn get_leaderboard(&self, limit: usize) -> (r: Vec<UserPoints>)
        requires
            self.wf(),
        ensures
            r@.len() == if limit < self.user_list().len() { limit as nat } else { self.user_list().len() },
            forall|a: int, b: int| 0 <= a < b < r@.len() ==> r@[a].points >= r@[b].points,
            forall|a: int| 0 <= a < r@.len() ==> self.users().dom().contains(#[trigger] r@[a].user_id@)
                && r@[a] == self.users()[r@[a].user_id@],
            forall|a: int, b: int| 0 <= a < r@.len() && 0 <= b < r@.len() && a != b
                ==> #[trigger] r@[a].user_id@ != #[trigger] r@[b].user_id@,
            r@.len() > 0 ==> forall|id: Seq<char>| #[trigger] self.users().dom().contains(id)
                && (forall|a: int| 0 <= a < r@.len() ==> r@[a].user_id@ != id)
                ==> self.users()[id].points <= r@.last().points,
    {
        let mut sorted: Vec<UserPoints> = Vec::new();
        let ghost mut pos: Seq<int> = Seq::empty();
        let mut k: usize = 0;
        while k < self.users.len()
            invariant
                k <= self.users@.len(),
                self.wf(),
                sorted@.len() == k,
                forall|a: int, b: int| #![trigger sorted@[a], sorted@[b]] 0 <= a < b < sorted@.len() ==> sorted@[a].points >= sorted@[b].points,
                forall|a: int| #![trigger sorted@[a]] 0 <= a < sorted@.len() ==> exists|m: int| 0 <= m < k && #[trigger] self.users@[m] == sorted@[a],
                pos.len() == k,
                forall|m: int| 0 <= m < k ==> 0 <= #[trigger] pos[m] < sorted@.len() && sorted@[pos[m]] == self.users@[m],
                forall|a: int, b: int| 0 <= a < sorted@.len() && 0 <= b < sorted@.len() && a != b
                    ==> #[trigger] sorted@[a].user_id@ != #[trigger] sorted@[b].user_id@,
            decreases self.users@.len() - k,
        {
            let u = self.users[k].clone();
            let mut p: usize = 0;
            while p < sorted.len() && sorted[p].points >= u.points
                invariant
                    p <= sorted@.len(),
                    forall|a: int| 0 <= a < p ==> sorted@[a].points >= u.points,
                decreases sorted@.len() - p,
            {
                p = p + 1;
            }
            proof {
                assert forall|a: int| 0 <= a < sorted@.len() implies #[trigger] sorted@[a].user_id@ != u.user_id@ by {
                    let m = choose|m: int| 0 <= m < k && #[trigger] self.users@[m] == sorted@[a];
                    assert(user_id_of()(self.users@[m]) != user_id_of()(self.users@[k as int]));
                }
                if p < sorted@.len() {
                    assert forall|a: int| p <= a < sorted@.len() implies sorted@[a].points < u.points by {
                        assert(sorted@[p as int].points >= sorted@[a].points || a == p);
                    }
                }
            }
            let ghost s0 = sorted@;
            sorted.insert(p, u);
            proof {
                assert forall|a: int| #![trigger sorted@[a]] 0 <= a < sorted@.len() implies exists|m: int| 0 <= m < k + 1 && #[trigger] self.users@[m] == sorted@[a] by {
                    if a < p {
                        assert(sorted@[a] == s0[a]);
                    } else if a == p {
                        assert(self.users@[k as int] == sorted@[a]);
                    } else {
                        assert(sorted@[a] == s0[a - 1]);
                    }
                }
                let np = pos.map_values(|q: int| if q >= p { q + 1 } else { q }).push(p as int);
                assert forall|m: int| 0 <= m < k + 1 implies 0 <= #[trigger] np[m] < sorted@.len()
                    && sorted@[np[m]] == self.users@[m] by {
                    if m < k {
                        let q = pos[m];
                        if q >= p {
                            assert(sorted@[q + 1] == s0[q]);
                        } else {
                            assert(sorted@[q] == s0[q]);
                        }
                    }
                }
                pos = np;
            }
            k = k + 1;
        }
        let ghost full = sorted@;
        assert(pos.len() == self.users@.len());
        if limit < sorted.len() {
            sorted.truncate(limit);
        }
        proof {
            assert(sorted@ == full.take(sorted@.len() as int));
            if sorted@.len() > 0 {
                let r = sorted@;
                assert forall|id: Seq<char>| #[trigger] self.users().dom().contains(id)
                    && (forall|a: int| 0 <= a < r.len() ==> r[a].user_id@ != id)
                    implies self.users()[id].points <= r.last().points by {
                    let m = choose|m: int| 0 <= m < self.users@.len() && #[trigger] user_id_of()(self.users@[m]) == id;
                    lemma_key_index_unique(self.users@, user_id_of(), m);
                    let a = pos[m];
                    if a < r.len() {
                        assert(r[a] == full[a]);
                        assert(r[a].user_id@ == id);
                    }
                    assert(r.last() == full[r.len() - 1]);
                    assert(full[r.len() - 1].points >= full[a].points || a == r.len() - 1);
                }
            }
        }
        proof {
            assert forall|a: int| 0 <= a < sorted@.len() implies self.users().dom().contains(#[trigger] sorted@[a].user_id@)
                && sorted@[a] == self.users()[sorted@[a].user_id@] by {
                let m = choose|m: int| 0 <= m < self.users@.len() && #[trigger] self.users@[m] == sorted@[a];
                lemma_key_index_unique(self.users@, user_id_of(), m);
            }
        }
        sorted
    }
}

impl PointsSystem {
    /// Process a chat message now; see `spec_process_message`.
    pub fn process_message(&mut self, message: &ChatMessage)
        requires
            old(self).wf(),
            forall|now_ms: u64| #[trigger] message_fits(old(self).state(), old(self).config_of(), *message, now_ms),
        ensures
            final(self).wf(),
            exists|now_ms: u64| final(self).state() == #[trigger] spec_process_message(old(self).state(), old(self).config_of(), *message, now_ms),
    {
        let now_ms = clock::now_millis();
        assert(message_fits(old(self).state(), old(self).config_of(), *message, now_ms));
        self.process_message_at(message, now_ms);
    }

    /// Process a command use now; see `spec_process_command`.
    pub fn process_command(&mut self, message: &ChatMessage, command: &str)
        requires
            old(self).wf(),
            forall|now_ms: u64| #[trigger] command_fits(old(self).state(), old(self).config_of(), *message, now_ms),
        ensures
            final(self).wf(),
            exists|now_ms: u64| final(self).state() == #[trigger] spec_process_command(old(self).state(), old(self).config_of(), *message, command@, now_ms),
    {
        let now_ms = clock::now_millis();
        assert(command_fits(old(self).state(), old(self).config_of(), *message, now_ms));
        self.process_command_at(message, command, now_ms);
    }

    /// One minute of watching, now; see `spec_watch_tick`.
    pub fn watch_tick(&mut self)
        requires
            old(self).wf(),
            forall|now_ms: u64| #[trigger] watch_tick_fits(old(self).state(), old(self).config_of(), now_ms),
        ensures
            final(self).wf(),
            exists|now_ms: u64| final(self).state().users == #[trigger] spec_watch_tick(old(self).state(), old(self).config_of(), now_ms),
    {
        let now_ms = clock::now_millis();
        assert(watch_tick_fits(old(self).state(), old(self).config_of(), now_ms));
        self.watch_tick_at(now_ms);
    }
}

// ---------------------------------------------------------------------------
// Laws
// ---------------------------------------------------------------------------

/// With a ×1 multiplier an amount is earned unchanged.
pub proof fn lemma_unit_multiplier(amount: int)
    ensures
        scaled(amount, 4) == amount,
{
}

/// A transfer between two different users, the receiver earning at ×1,
/// moves points without creating or destroying any.
pub proof fn lemma_transfer_conserves_points(
    users: Map<Seq<char>, UserPoints>,
    from: Seq<char>,
    to: Seq<char>,
    amount: i64,
    now: i64,
)
    requires
        users.dom().contains(from),
        users.dom().contains(to),
        from != to,
        users[to].multiplier_quarters == 4,
        users[from].points >= amount,
        can_spend(users[from], amount),
        can_add(users[to], amount as int),
    ensures
        spec_after_transfer(users, from, to, amount, now)[from].points
            + spec_after_transfer(users, from, to, amount, now)[to].points
            == users[from].points + users[to].points,
        spec_after_transfer(users, from, to, amount, now).dom() == users.dom(),
{
    assert(spec_after_transfer(users, from, to, amount, now).dom() =~= users.dom());
}

/// The transaction log never exceeds `MAX_TRANSACTIONS` entries and its
/// newest entry is the one just appended.
pub proof fn lemma_log_bounded(log: Seq<TransactionView>, t: TransactionView)
    requires
        log.len() <= MAX_TRANSACTIONS,
    ensures
        log_append(log, t).len() <= MAX_TRANSACTIONS,
        log_append(log, t).last() == t,
{
}

/// A multiplier is always between ×1 and ×2.75.
pub proof fn lemma_multiplier_range(is_subscriber: bool, is_moderator: bool, total_earned: i64)
    ensures
        4 <= multiplier_for(is_subscriber, is_moderator, total_earned) <= 11,
{
}

/// A user over the hourly limit earns nothing for a message: only the
/// bonuses owed and the hourly window change.
pub proof fn lemma_limit_blocks_message_points(st: PointsState, c: PointsConfig, m: ChatMessage, now_ms: u64)
    requires
        ({
            let id = user_key(m.platform@, m.username@);
            let now = (now_ms / 1000) as i64;
            let s2 = stage_daily(st, stage_welcome(st, c, m, now), c, id, now);
            !spec_under_limit(s2.hourly, id, now_ms, c.max_points_per_hour)
        }),
    ensures
        ({
            let id = user_key(m.platform@, m.username@);
            let now = (now_ms / 1000) as i64;
            let s2 = stage_daily(st, stage_welcome(st, c, m, now), c, id, now);
            &&& spec_process_message(st, c, m, now_ms).users == s2.users
            &&& spec_process_message(st, c, m, now_ms).log == s2.log
            &&& spec_process_message(st, c, m, now_ms).watching == st.watching
        }),
{
}

/// The state after an admin grant of `amount` to user `id` at `now`, logged
/// with `reason`; an unknown user changes nothing.
pub open spec fn spec_grant(st: PointsState, id: Seq<char>, amount: i64, reason: Seq<char>, now: i64) -> PointsState {
    if st.users.dom().contains(id) {
        let u = view_add_points(st.users[id], amount as int, now);
        PointsState {
            users: st.users.insert(id, u),
            log: log_append(st.log, tx(id, TransactionType::Admin, amount, reason, now, u.points)),
            ..st
        }
    } else {
        st
    }
}

impl PointsSystem {
    /// `add_points_at`, stated over the observable state; see `spec_grant`.
    pub fn grant_points_at(&mut self, platform: &str, username: &str, amount: i64, reason: &str, now: i64) -> (ok: bool)
        requires
            old(self).wf(),
            old(self).state().users.dom().contains(user_key(platform@, username@))
                ==> view_can_add(old(self).state().users[user_key(platform@, username@)], amount as int),
        ensures
            final(self).wf(),
            ok == old(self).state().users.dom().contains(user_key(platform@, username@)),
            final(self).state() == spec_grant(old(self).state(), user_key(platform@, username@), amount, reason@, now),
            final(self).config_of() == old(self).config_of(),
    {
        let ghost id = user_key(platform@, username@);
        let ok = self.add_points_at(platform, username, amount, reason, now);
        proof {
            if ok {
                let u = spec_add_points(old(self).users()[id], amount as int, now);
                assert(u@ == view_add_points(old(self).state().users[id], amount as int, now));
                assert(self.state().users =~= old(self).state().users.insert(id, u@));
            } else {
                assert(self.state().users =~= old(self).state().users);
            }
        }
        ok
    }
}

/// The multiplier's parts: a subscriber gets exactly half a point (two
/// quarters) more per point than a non-subscriber of the same moderator
/// status and total earned, a moderator exactly one point (four quarters)
/// more, and a total earned above 100000 a quarter more; a plain viewer
/// earns one point per point.
pub proof fn lemma_multiplier_parts(is_moderator: bool, is_subscriber: bool, total_earned: i64)
    ensures
        multiplier_for(true, is_moderator, total_earned) == multiplier_for(false, is_moderator, total_earned) + 2,
        multiplier_for(is_subscriber, true, total_earned) == multiplier_for(is_subscriber, false, total_earned) + 4,
        total_earned <= 100000 ==> multiplier_for(false, false, total_earned) == 4,
        total_earned > 100000 ==> multiplier_for(false, false, total_earned) == 5,
        total_earned <= 100000 ==> multiplier_for(true, false, total_earned) == 6,
{
}

/// A non-moderator subscriber with at most 100000 points earned earns one
/// and a half points per point: an even amount is scaled by exactly half
/// as much again.
pub proof fn lemma_subscriber_earns_half_again(total_earned: i64, amount: int)
    requires
        total_earned <= 100000,
        amount >= 0,
        amount % 2 == 0,
    ensures
        scaled(amount, multiplier_for(true, false, total_earned) as int) == amount + amount / 2,
{
    assert(multiplier_for(true, false, total_earned) == 6);
    assert(amount * 6 == 4 * (amount + amount / 2)) by (nonlinear_arith)
        requires amount % 2 == 0;
}

} // verus!
