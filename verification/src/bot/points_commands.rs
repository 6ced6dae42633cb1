//! Chat commands of the points system: balances, ranks, the leaderboard,
//! transfers between users, moderator grants and statistics. Each command
//! yields the one reply the bot sends back.

use vstd::prelude::*;
use crate::bot::points::{PointsSystem, UserPoints, TransactionType, rank_name, can_add, can_spend, sum_points, sum_earned, sum_spent, count_active,
    spec_after_transfer, spec_add_points, log_append, tx};
use crate::bot::types::{ChatMessage, user_key, texts};
use crate::bot::moderation::opt_view;
use crate::text;

verus! {

/// The name a user is shown under: the display name, or `fallback`.
pub open spec fn shown_name(u: UserPoints, fallback: Seq<char>) -> Seq<char> {
    match u.display_name {
        Some(d) => d@,
        None => fallback,
    }
}

fn shown_name_of(u: &UserPoints, fallback: &str) -> (r: String)
    ensures
        r@ == shown_name(*u, fallback@),
{
    match &u.display_name {
        Some(d) => d.clone(),
        None => text::owned(fallback),
    }
}

/// A multiplier held in quarters, written as a number (`1`, `1.25`, `1.5`, `1.75`, …).
pub open spec fn multiplier_text(q: u32) -> Seq<char> {
    text::nat_digits((q / 4) as nat) + if q % 4 == 1 {
        ".25"@
    } else if q % 4 == 2 {
        ".5"@
    } else if q % 4 == 3 {
        ".75"@
    } else {
        Seq::empty()
    }
}

fn multiplier_text_of(q: u32) -> (r: String)
    ensures
        r@ == multiplier_text(q),
{
    let whole = text::nat_decimal((q / 4) as u64);
    if q % 4 == 1 {
        text::concat(whole.as_str(), ".25")
    } else if q % 4 == 2 {
        text::concat(whole.as_str(), ".5")
    } else if q % 4 == 3 {
        text::concat(whole.as_str(), ".75")
    } else {
        proof {
            reveal_strlit("");
        }
        text::concat(whole.as_str(), "")
    }
}

/// The reply to `!points [user]`: the user's balance (more detail when it is
/// the sender's own), or that the user is unknown.
pub open spec fn points_reply(u: Option<UserPoints>, username: Seq<char>, own: bool) -> Seq<char> {
    match u {
        Some(u) => if own {
            "💰 "@ + shown_name(u, username) + ", you have "@ + text::int_text(u.points as int) + " points! Rank: "@
                + rank_name(u.total_earned) + " | Total earned: "@ + text::int_text(u.total_earned as int)
                + " | Messages: "@ + text::nat_digits(u.messages_sent as nat) + " ⭐"@
        } else {
            "💰 "@ + shown_name(u, username) + " has "@ + text::int_text(u.points as int) + " points! Rank: "@
                + rank_name(u.total_earned) + " | Total earned: "@ + text::int_text(u.total_earned as int) + " ⭐"@
        },
        None => "❌ User "@ + username + " not found. Users earn points by chatting and watching!"@,
    }
}

/// The reply to `!rank`.
pub open spec fn rank_reply(u: Option<UserPoints>, username: Seq<char>) -> Seq<char> {
    match u {
        Some(u) => "🎖️ "@ + shown_name(u, username) + ", your rank is: "@ + rank_name(u.total_earned) + " | Points: "@
            + text::int_text(u.points as int) + " | Watch time: "@ + text::nat_digits((u.minutes_watched / 60) as nat)
            + "h | Multiplier: "@ + multiplier_text(u.multiplier_quarters) + "x ⚡"@,
        None => "❌ You haven't earned any points yet! Start chatting to begin! 🚀"@,
    }
}

/// The medal of a leaderboard position.
pub open spec fn medal(i: int) -> Seq<char> {
    if i == 0 { "🥇"@ } else if i == 1 { "🥈"@ } else if i == 2 { "🥉"@ } else { "⭐"@ }
}

/// The leaderboard entries, in order.
pub open spec fn leaderboard_entries(l: Seq<UserPoints>) -> Seq<char>
    decreases l.len(),
{
    if l.len() == 0 {
        Seq::empty()
    } else {
        let i = l.len() - 1;
        let u = l.last();
        leaderboard_entries(l.drop_last()) + medal(i) + text::nat_digits((i + 1) as nat) + ". "@
            + shown_name(u, u.username@) + " ("@ + text::int_text(u.points as int) + " pts) "@
    }
}

/// The reply to `!leaderboard` showing `l` for a limit of `limit`.
pub open spec fn leaderboard_reply(limit: nat, l: Seq<UserPoints>) -> Seq<char> {
    if l.len() == 0 {
        "📊 No users found! Start chatting to earn points! 💫"@
    } else {
        "🏆 TOP "@ + text::nat_digits(limit) + " POINTS LEADERBOARD 🏆 | "@ + leaderboard_entries(l)
    }
}

/// Whether `l` is a leaderboard of at most `limit` users of `s`: the users
/// with the most points, most first, each once.
pub open spec fn is_leaderboard(s: PointsSystem, limit: nat, l: Seq<UserPoints>) -> bool {
    &&& l.len() == if limit < s.user_list().len() { limit } else { s.user_list().len() }
    &&& forall|a: int, b: int| 0 <= a < b < l.len() ==> l[a].points >= l[b].points
    &&& forall|a: int| 0 <= a < l.len() ==> s.users().dom().contains(#[trigger] l[a].user_id@)
        && l[a] == s.users()[l[a].user_id@]
    &&& forall|a: int, b: int| 0 <= a < l.len() && 0 <= b < l.len() && a != b
        ==> #[trigger] l[a].user_id@ != #[trigger] l[b].user_id@
}

/// The number of users `!leaderboard [n]` shows: `n` (at most 10), or 5.
pub open spec fn leaderboard_limit(args: Seq<Seq<char>>) -> nat {
    if args.len() > 0 {
        match text::parse_unsigned(args[0], usize::MAX as int) {
            Some(v) => if v < 10 { v as nat } else { 10 },
            None => 5,
        }
    } else {
        5
    }
}

/// The amount a transfer asks for, when it is a positive number.
pub open spec fn positive_amount(a: Seq<char>) -> Option<i64> {
    match text::parse_signed(a) {
        Some(v) => if v > 0 { Some(v as i64) } else { None },
        None => None,
    }
}

/// Whether a transfer of `amount` at `now` from `from` to `to` stays within
/// the integer range where it happens.
pub open spec fn transfer_fits(users: Map<Seq<char>, UserPoints>, from: Seq<char>, to: Seq<char>, amount: i64, now: i64) -> bool {
    users.dom().contains(from) && users.dom().contains(to) && users[from].points >= amount ==> {
        &&& can_spend(users[from], amount)
        &&& can_add(users.insert(from, UserPoints {
                points: (users[from].points - amount) as i64,
                total_spent: (users[from].total_spent + amount) as i64,
                last_activity: now,
                ..users[from]
            })[to], amount as int)
    }
}

/// The reason recorded for a moderator's grant: the words after the amount,
/// or who granted it.
pub open spec fn grant_reason(args: Seq<Seq<char>>, granter: Seq<char>) -> Seq<char> {
    if args.len() > 2 { joined_words(args.subrange(2, args.len() as int)) } else { "Admin bonus from "@ + granter }
}

/// Words joined by single spaces.
pub open spec fn joined_words(ws: Seq<Seq<char>>) -> Seq<char>
    decreases ws.len(),
{
    if ws.len() == 0 {
        Seq::empty()
    } else if ws.len() == 1 {
        ws[0]
    } else {
        joined_words(ws.drop_last()) + " "@ + ws.last()
    }
}

/// Whether the integers stay in range for every command `args` could run.
pub open spec fn command_fits(s: PointsSystem, command: Seq<char>, args: Seq<Seq<char>>, m: ChatMessage, now: i64) -> bool {
    &&& (command == "give"@ || command == "transfer"@) && args.len() >= 2 ==> match positive_amount(args[1]) {
        Some(a) => transfer_fits(s.users(), user_key(m.platform@, m.username@), user_key(m.platform@, args[0]), a, now),
        None => true,
    }
    &&& command == "addpoints"@ && args.len() >= 2 ==> match text::parse_signed(args[1]) {
        Some(a) => s.users().dom().contains(user_key(m.platform@, args[0]))
            ==> can_add(s.users()[user_key(m.platform@, args[0])], a),
        None => true,
    }
    &&& command == "pointstats"@ ==> {
        &&& i64::MIN <= sum_points(s.user_list()) <= i64::MAX
        &&& i64::MIN <= sum_earned(s.user_list()) <= i64::MAX
        &&& i64::MIN <= sum_spent(s.user_list()) <= i64::MAX
    }
}

#[verifier::spinoff_prover]
fn entries_text(board: &Vec<UserPoints>) -> (r: String)
    ensures
        r@ == leaderboard_entries(board@),
{
    proof {
        reveal_strlit("");
    }
    let mut out = text::owned("");
    let mut i: usize = 0;
    while i < board.len()
        invariant
            i <= board@.len(),
            out@ == leaderboard_entries(board@.take(i as int)),
        decreases board@.len() - i,
    {
        let u = &board[i];
        let m = if i == 0 { "🥇" } else if i == 1 { "🥈" } else if i == 2 { "🥉" } else { "⭐" };
        let a = text::concat(out.as_str(), m);
        let b = text::concat(a.as_str(), text::nat_decimal((i as u64) + 1).as_str());
        let c = text::concat(b.as_str(), ". ");
        let d = text::concat(c.as_str(), shown_name_of(u, u.username.as_str()).as_str());
        let e = text::concat(d.as_str(), " (");
        let f = text::concat(e.as_str(), text::int_decimal(u.points).as_str());
        out = text::concat(f.as_str(), " pts) ");
        assert(board@.take(i + 1).drop_last() =~= board@.take(i as int));
        assert(board@.take(i + 1).last() == board@[i as int]);
        i = i + 1;
    }
    assert(board@.take(board@.len() as int) =~= board@);
    out
}

/// The points commands and the points they manage.
pub struct PointsCommands {
    pub points_system: PointsSystem,
}

impl PointsCommands {
    pub fn new(points_system: PointsSystem) -> (r: Self)
        ensures
            r.points_system == points_system,
    {
        PointsCommands { points_system }
    }

    fn lookup(&self, platform: &str, username: &str) -> (r: Option<UserPoints>)
        requires
            self.points_system.wf(),
        ensures
            r == (if self.points_system.users().dom().contains(user_key(platform@, username@)) {
                Some(self.points_system.users()[user_key(platform@, username@)])
            } else {
                None
            }),
    {
        self.points_system.get_user_points(platform, username)
    }

    /// The reply to `!points [user]`: the sender's balance, or that of the
    /// user named (on the sender's platform).
    pub fn handle_points_command(&self, args: &Vec<String>, message: &ChatMessage) -> (reply: String)
        requires
            self.points_system.wf(),
        ensures
            ({
                let name = if args@.len() == 0 { message.username@ } else { args@[0]@ };
                let key = user_key(message.platform@, name);
                let u = if self.points_system.users().dom().contains(key) { Some(self.points_system.users()[key]) } else { None };
                reply@ == points_reply(u, name, name == message.username@)
            }),
    {
        let name: &str = if args.len() == 0 { message.username.as_str() } else { args[0].as_str() };
        match self.lookup(message.platform.as_str(), name) {
            Some(u) => {
                let shown = shown_name_of(&u, name);
                let own = text::same_text(name, message.username.as_str());
                let pts = text::int_decimal(u.points);
                let rank = u.get_rank();
                let earned = text::int_decimal(u.total_earned);
                let a = text::concat("💰 ", shown.as_str());
                if own {
                    let b = text::concat(a.as_str(), ", you have ");
                    let c = text::concat(b.as_str(), pts.as_str());
                    let d = text::concat(c.as_str(), " points! Rank: ");
                    let e = text::concat(d.as_str(), rank.as_str());
                    let f = text::concat(e.as_str(), " | Total earned: ");
                    let g = text::concat(f.as_str(), earned.as_str());
                    let h = text::concat(g.as_str(), " | Messages: ");
                    let i = text::concat(h.as_str(), text::nat_decimal(u.messages_sent).as_str());
                    text::concat(i.as_str(), " ⭐")
                } else {
                    let b = text::concat(a.as_str(), " has ");
                    let c = text::concat(b.as_str(), pts.as_str());
                    let d = text::concat(c.as_str(), " points! Rank: ");
                    let e = text::concat(d.as_str(), rank.as_str());
                    let f = text::concat(e.as_str(), " | Total earned: ");
                    let g = text::concat(f.as_str(), earned.as_str());
                    text::concat(g.as_str(), " ⭐")
                }
            },
            None => {
                let a = text::concat("❌ User ", name);
                text::concat(a.as_str(), " not found. Users earn points by chatting and watching!")
            },
        }
    }

    /// The reply to `!rank`: the sender's rank and standing.
    pub fn handle_rank_command(&self, message: &ChatMessage) -> (reply: String)
        requires
            self.points_system.wf(),
        ensures
            ({
                let key = user_key(message.platform@, message.username@);
                let u = if self.points_system.users().dom().contains(key) { Some(self.points_system.users()[key]) } else { None };
                reply@ == rank_reply(u, message.username@)
            }),
    {
        match self.lookup(message.platform.as_str(), message.username.as_str()) {
            Some(u) => {
                let shown = shown_name_of(&u, message.username.as_str());
                let a = text::concat("🎖️ ", shown.as_str());
                let b = text::concat(a.as_str(), ", your rank is: ");
                let c = text::concat(b.as_str(), u.get_rank().as_str());
                let d = text::concat(c.as_str(), " | Points: ");
                let e = text::concat(d.as_str(), text::int_decimal(u.points).as_str());
                let f = text::concat(e.as_str(), " | Watch time: ");
                let g = text::concat(f.as_str(), text::nat_decimal(u.minutes_watched / 60).as_str());
                let h = text::concat(g.as_str(), "h | Multiplier: ");
                let i = text::concat(h.as_str(), multiplier_text_of(u.multiplier_quarters).as_str());
                text::concat(i.as_str(), "x ⚡")
            },
            None => text::owned("❌ You haven't earned any points yet! Start chatting to begin! 🚀"),
        }
    }

    /// The reply to `!leaderboard [n]`: the top users (see `leaderboard_limit`).
    pub fn handle_leaderboard_command(&self, args: &Vec<String>) -> (reply: String)
        requires
            self.points_system.wf(),
        ensures
            exists|l: Seq<UserPoints>| #[trigger] is_leaderboard(self.points_system, leaderboard_limit(texts(args@)), l)
                && reply@ == leaderboard_reply(leaderboard_limit(texts(args@)), l),
    {
        let limit: usize = if args.len() > 0 {
            assert(texts(args@)[0] == args@[0]@);
            match text::parse_uint(args[0].as_str(), usize::MAX as u64) {
                Some(v) => if v < 10 { v as usize } else { 10 },
                None => 5,
            }
        } else {
            5
        };
        assert(limit as nat == leaderboard_limit(texts(args@)));
        let board = self.points_system.get_leaderboard(limit);
        assert(is_leaderboard(self.points_system, limit as nat, board@));
        if board.len() == 0 {
            let r = text::owned("📊 No users found! Start chatting to earn points! 💫");
            assert(r@ == leaderboard_reply(leaderboard_limit(texts(args@)), board@));
            return r;
        }
        let head1 = text::concat("🏆 TOP ", text::nat_decimal(limit as u64).as_str());
        let head = text::concat(head1.as_str(), " POINTS LEADERBOARD 🏆 | ");
        let entries = entries_text(&board);
        let out = text::concat(head.as_str(), entries.as_str());
        assert(out@ == leaderboard_reply(leaderboard_limit(texts(args@)), board@));
        out
    }

    /// The reply to `!pointstats`: totals, for moderators only.
    pub fn handle_points_stats(&self, message: &ChatMessage, now: i64) -> (reply: String)
        requires
            self.points_system.wf(),
            message.is_mod ==> i64::MIN <= sum_points(self.points_system.user_list()) <= i64::MAX,
            message.is_mod ==> i64::MIN <= sum_earned(self.points_system.user_list()) <= i64::MAX,
            message.is_mod ==> i64::MIN <= sum_spent(self.points_system.user_list()) <= i64::MAX,
        ensures
            !message.is_mod ==> reply@ == "❌ This command is for moderators only!"@,
            message.is_mod ==> reply@ == "📊 POINTS STATS: "@ + text::nat_digits(self.points_system.user_list().len())
                + " users | "@ + text::int_text(sum_points(self.points_system.user_list())) + " points circulating | "@
                + text::int_text(sum_earned(self.points_system.user_list())) + " earned | "@
                + text::int_text(sum_spent(self.points_system.user_list())) + " spent | "@
                + text::nat_digits(count_active(self.points_system.user_list(), now - 86400)) + " active (24h) 💰"@,
    {
        if !message.is_mod {
            return text::owned("❌ This command is for moderators only!");
        }
        let st = self.points_system.get_statistics_at(now);
        let a = text::concat("📊 POINTS STATS: ", text::nat_decimal(st.total_users as u64).as_str());
        let b = text::concat(a.as_str(), " users | ");
        let c = text::concat(b.as_str(), text::int_decimal(st.total_points_circulating as i64).as_str());
        let d = text::concat(c.as_str(), " points circulating | ");
        let e = text::concat(d.as_str(), text::int_decimal(st.total_points_earned as i64).as_str());
        let f = text::concat(e.as_str(), " earned | ");
        let g = text::concat(f.as_str(), text::int_decimal(st.total_points_spent as i64).as_str());
        let h = text::concat(g.as_str(), " spent | ");
        let i = text::concat(h.as_str(), text::nat_decimal(st.active_users_24h as u64).as_str());
        text::concat(i.as_str(), " active (24h) 💰")
    }

    /// What a transfer of `amount` at `now` between two users does to the
    /// points (see `PointsSystem::transfer_points_at`), `ok` telling whether
    /// it happened.
    pub open spec fn transferred(
        before: PointsSystem,
        after: PointsSystem,
        platform: Seq<char>,
        from_user: Seq<char>,
        to_user: Seq<char>,
        amount: i64,
        now: i64,
        ok: bool,
    ) -> bool {
        let (from, to) = (user_key(platform, from_user), user_key(platform, to_user));
        let users = before.users();
        &&& after.wf()
        &&& ok == (users.dom().contains(from) && users.dom().contains(to) && users[from].points >= amount)
        &&& ok ==> {
            let fin = spec_after_transfer(users, from, to, amount, now);
            let sender_balance = (users[from].points - amount) as i64;
            &&& after.users() == fin
            &&& after.log() == log_append(
                log_append(before.log(), tx(from, TransactionType::Spent, amount, "Transfer to "@ + to_user, now, sender_balance)),
                tx(to, TransactionType::Earned, amount, "Transfer from "@ + from_user, now, fin[to].points))
        }
        &&& !ok ==> after.users() == users && after.log() == before.log()
    }

    /// What `!give <user> <amount>` from `m` at `now` does: usage help, a
    /// refusal of an amount that is not a positive number or is under ten
    /// or of a transfer to oneself (names compared without case), else the
    /// transfer and whether it went through.
    pub open spec fn transfer_outcome(before: PointsSystem, after: PointsSystem, args: Seq<Seq<char>>, m: ChatMessage,
        now: i64, reply: Seq<char>) -> bool {
        if args.len() < 2 {
            reply == "Usage: !give <username> <amount> - Transfer points to another user 💸"@ && after == before
        } else {
            match positive_amount(args[1]) {
                None => reply == "❌ Please enter a valid positive amount!"@ && after == before,
                Some(a) => if a < 10 {
                    reply == "❌ Minimum transfer amount is 10 points!"@ && after == before
                } else if text::lowercase(args[0]) == text::lowercase(m.username@) {
                    reply == "❌ You can't transfer points to yourself! 🤷"@ && after == before
                } else {
                    exists|ok: bool| {
                        &&& #[trigger] Self::transferred(before, after, m.platform@, m.username@, args[0], a, now, ok)
                        &&& reply == if ok {
                            "✅ "@ + m.username@ + " successfully transferred "@ + text::int_text(a as int) + " points to "@
                                + args[0] + "! 💝"@
                        } else {
                            "❌ Transfer failed! You might not have enough points or "@ + args[0] + " doesn't exist."@
                        }
                    }
                },
            }
        }
    }

    /// Run `!give <user> <amount>` from `message` at `now` (seconds); see `transfer_outcome`.
    pub fn handle_transfer_command_at(&mut self, args: &Vec<String>, message: &ChatMessage, now: i64) -> (reply: String)
        requires
            old(self).points_system.wf(),
            args@.len() >= 2 ==> match positive_amount(args@[1]@) {
                Some(a) => transfer_fits(old(self).points_system.users(), user_key(message.platform@, message.username@),
                    user_key(message.platform@, args@[0]@), a, now),
                None => true,
            },
        ensures
            final(self).points_system.wf(),
            Self::transfer_outcome(old(self).points_system, final(self).points_system, texts(args@), *message, now, reply@),
    {
        if args.len() < 2 {
            return text::owned("Usage: !give <username> <amount> - Transfer points to another user 💸");
        }
        assert(texts(args@)[0] == args@[0]@);
        assert(texts(args@)[1] == args@[1]@);
        let amount = match text::parse_int(args[1].as_str()) {
            Some(v) => {
                if v > 0 {
                    v
                } else {
                    return text::owned("❌ Please enter a valid positive amount!");
                }
            },
            None => {
                return text::owned("❌ Please enter a valid positive amount!");
            },
        };
        if amount < 10 {
            return text::owned("❌ Minimum transfer amount is 10 points!");
        }
        let target = args[0].as_str();
        let lt = text::to_lowercase(target);
        let lu = text::to_lowercase(message.username.as_str());
        if text::same_text(lt.as_str(), lu.as_str()) {
            return text::owned("❌ You can't transfer points to yourself! 🤷");
        }
        let ok = self.points_system.transfer_points_at(message.platform.as_str(), message.username.as_str(),
            message.platform.as_str(), target, amount, now);
        let reply = if ok {
            let a = text::concat("✅ ", message.username.as_str());
            let b = text::concat(a.as_str(), " successfully transferred ");
            let c = text::concat(b.as_str(), text::int_decimal(amount).as_str());
            let d = text::concat(c.as_str(), " points to ");
            let e = text::concat(d.as_str(), target);
            text::concat(e.as_str(), "! 💝")
        } else {
            let a = text::concat("❌ Transfer failed! You might not have enough points or ", target);
            text::concat(a.as_str(), " doesn't exist.")
        };
        assert(Self::transferred(old(self).points_system, self.points_system, message.platform@, message.username@,
            texts(args@)[0], amount, now, ok));
        reply
    }

    /// What a moderator's grant of `amount` to `id` at `now` does to the
    /// points (see `PointsSystem::add_points_at`), `ok` telling whether the
    /// user exists.
    pub open spec fn granted(before: PointsSystem, after: PointsSystem, id: Seq<char>, amount: i64, reason: Seq<char>,
        now: i64, ok: bool) -> bool {
        &&& after.wf()
        &&& ok == before.users().dom().contains(id)
        &&& ok ==> {
            let u = spec_add_points(before.users()[id], amount as int, now);
            &&& after.users() == before.users().insert(id, u)
            &&& after.log() == log_append(before.log(), tx(id, TransactionType::Admin, amount, reason, now, u.points))
        }
        &&& !ok ==> after.users() == before.users() && after.log() == before.log()
    }

    /// What `!addpoints <user> <amount> [reason…]` from `m` at `now` does:
    /// refused to non-moderators, usage help, a refusal of an amount that is
    /// no integer, else the grant and whether the user exists.
    pub open spec fn grant_outcome(before: PointsSystem, after: PointsSystem, args: Seq<Seq<char>>, m: ChatMessage,
        now: i64, reply: Seq<char>) -> bool {
        if !m.is_mod {
            reply == "❌ This command is for moderators only!"@ && after == before
        } else if args.len() < 2 {
            reply == "Usage: !addpoints <username> <amount> [reason] - Add points to user (mod only)"@ && after == before
        } else {
            match text::parse_signed(args[1]) {
                None => reply == "❌ Please enter a valid amount!"@ && after == before,
                Some(a) => exists|ok: bool| {
                    &&& #[trigger] Self::granted(before, after, user_key(m.platform@, args[0]), a as i64,
                        grant_reason(args, m.username@), now, ok)
                    &&& reply == if ok {
                        "✅ Added "@ + text::int_text(a) + " points to "@ + args[0] + "! Reason: "@
                            + grant_reason(args, m.username@) + " 🎁"@
                    } else {
                        "❌ Failed to add points to "@ + args[0] + ". User might not exist."@
                    }
                },
            }
        }
    }

    /// Run `!addpoints <user> <amount> [reason…]` from `message` at `now`
    /// (seconds); see `grant_outcome`.
    pub fn handle_admin_add_points_at(&mut self, args: &Vec<String>, message: &ChatMessage, now: i64) -> (reply: String)
        requires
            old(self).points_system.wf(),
            args@.len() >= 2 ==> match text::parse_signed(args@[1]@) {
                Some(a) => old(self).points_system.users().dom().contains(user_key(message.platform@, args@[0]@))
                    ==> can_add(old(self).points_system.users()[user_key(message.platform@, args@[0]@)], a),
                None => true,
            },
        ensures
            final(self).points_system.wf(),
            Self::grant_outcome(old(self).points_system, final(self).points_system, texts(args@), *message, now, reply@),
    {
        if !message.is_mod {
            return text::owned("❌ This command is for moderators only!");
        }
        if args.len() < 2 {
            return text::owned("Usage: !addpoints <username> <amount> [reason] - Add points to user (mod only)");
        }
        assert(texts(args@)[0] == args@[0]@);
        assert(texts(args@)[1] == args@[1]@);
        let amount = match text::parse_int(args[1].as_str()) {
            Some(v) => v,
            None => {
                return text::owned("❌ Please enter a valid amount!");
            },
        };
        let target = args[0].as_str();
        let reason = if args.len() > 2 {
            let mut r = args[2].clone();
            let ghost ws = texts(args@).subrange(2, args@.len() as int);
            assert(texts(args@)[2] == args@[2]@);
            assert(ws.take(1) =~= seq![ws[0]]);
            let mut k: usize = 3;
            while k < args.len()
                invariant
                    3 <= k <= args@.len(),
                    ws == texts(args@).subrange(2, args@.len() as int),
                    r@ == joined_words(ws.take(k - 2)),
                decreases args@.len() - k,
            {
                let sp = text::concat(r.as_str(), " ");
                r = text::concat(sp.as_str(), args[k].as_str());
                assert(ws.take(k - 1).drop_last() =~= ws.take(k - 2));
                assert(ws.take(k - 1).last() == args@[k as int]@);
                k = k + 1;
            }
            assert(ws.take(ws.len() as int) =~= ws);
            r
        } else {
            text::concat("Admin bonus from ", message.username.as_str())
        };
        assert(reason@ == grant_reason(texts(args@), message.username@));
        let ok = self.points_system.add_points_at(message.platform.as_str(), target, amount, reason.as_str(), now);
        let reply = if ok {
            let a = text::concat("✅ Added ", text::int_decimal(amount).as_str());
            let b = text::concat(a.as_str(), " points to ");
            let c = text::concat(b.as_str(), target);
            let d = text::concat(c.as_str(), "! Reason: ");
            let e = text::concat(d.as_str(), reason.as_str());
            text::concat(e.as_str(), " 🎁")
        } else {
            let a = text::concat("❌ Failed to add points to ", target);
            text::concat(a.as_str(), ". User might not exist.")
        };
        assert(Self::granted(old(self).points_system, self.points_system, user_key(message.platform@, texts(args@)[0]),
            amount, grant_reason(texts(args@), message.username@), now, ok));
        reply
    }

    /// What a points command from `m` at `now` does and the reply to it;
    /// `None`, with nothing changed, for another command.
    pub open spec fn command_outcome(before: PointsSystem, after: PointsSystem, command: Seq<char>, args: Seq<Seq<char>>,
        m: ChatMessage, now: i64, reply: Option<Seq<char>>) -> bool {
        if command == "points"@ || command == "balance"@ {
            let name = if args.len() == 0 { m.username@ } else { args[0] };
            let key = user_key(m.platform@, name);
            let u = if before.users().dom().contains(key) { Some(before.users()[key]) } else { None };
            reply == Some(points_reply(u, name, name == m.username@)) && after == before
        } else if command == "leaderboard"@ || command == "top"@ {
            &&& after == before
            &&& exists|l: Seq<UserPoints>| #[trigger] is_leaderboard(before, leaderboard_limit(args), l)
                && reply == Some(leaderboard_reply(leaderboard_limit(args), l))
        } else if command == "rank"@ {
            let key = user_key(m.platform@, m.username@);
            let u = if before.users().dom().contains(key) { Some(before.users()[key]) } else { None };
            reply == Some(rank_reply(u, m.username@)) && after == before
        } else if command == "give"@ || command == "transfer"@ {
            reply is Some && Self::transfer_outcome(before, after, args, m, now, reply->0)
        } else if command == "addpoints"@ {
            reply is Some && Self::grant_outcome(before, after, args, m, now, reply->0)
        } else if command == "pointstats"@ {
            &&& after == before
            &&& reply == Some(if !m.is_mod {
                "❌ This command is for moderators only!"@
            } else {
                "📊 POINTS STATS: "@ + text::nat_digits(before.user_list().len())
                    + " users | "@ + text::int_text(sum_points(before.user_list())) + " points circulating | "@
                    + text::int_text(sum_earned(before.user_list())) + " earned | "@
                    + text::int_text(sum_spent(before.user_list())) + " spent | "@
                    + text::nat_digits(count_active(before.user_list(), now - 86400)) + " active (24h) 💰"@
            })
        } else {
            reply is None && after == before
        }
    }

    /// Run a points command from `message` at `now` (seconds); see `command_outcome`.
    pub fn process_command_at(&mut self, command: &str, args: &Vec<String>, message: &ChatMessage, now: i64)
        -> (reply: Option<String>)
        requires
            old(self).points_system.wf(),
            command_fits(old(self).points_system, command@, texts(args@), *message, now),
        ensures
            final(self).points_system.wf(),
            Self::command_outcome(old(self).points_system, final(self).points_system, command@, texts(args@), *message,
                now, opt_view(reply)),
    {
        if args.len() >= 2 {
            assert(texts(args@)[0] == args@[0]@);
            assert(texts(args@)[1] == args@[1]@);
        }
        if args.len() > 0 {
            assert(texts(args@)[0] == args@[0]@);
        }
        if text::same_text(command, "points") || text::same_text(command, "balance") {
            Some(self.handle_points_command(args, message))
        } else if text::same_text(command, "leaderboard") || text::same_text(command, "top") {
            Some(self.handle_leaderboard_command(args))
        } else if text::same_text(command, "rank") {
            Some(self.handle_rank_command(message))
        } else if text::same_text(command, "give") || text::same_text(command, "transfer") {
            Some(self.handle_transfer_command_at(args, message, now))
        } else if text::same_text(command, "addpoints") {
            Some(self.handle_admin_add_points_at(args, message, now))
        } else if text::same_text(command, "pointstats") {
            Some(self.handle_points_stats(message, now))
        } else {
            None
        }
    }
}

impl PointsCommands {
    /// A user's balance as `<points> points`, or `0 points` for a user never seen.
    pub fn get_user_points_string(&self, platform: &str, username: &str) -> (r: String)
        requires
            self.points_system.wf(),
        ensures
            r@ == (if self.points_system.users().dom().contains(user_key(platform@, username@)) {
                text::int_text(self.points_system.users()[user_key(platform@, username@)].points as int)
            } else {
                "0"@
            }) + " points"@,
    {
        match self.lookup(platform, username) {
            Some(u) => text::concat(text::int_decimal(u.points).as_str(), " points"),
            None => {
                proof {
                    reveal_strlit("0 points");
                    reveal_strlit("0");
                    reveal_strlit(" points");
                }
                text::owned("0 points")
            },
        }
    }

    /// Whether a user has at least `amount` points; a user never seen has none.
    pub fn user_has_points(&self, platform: &str, username: &str, amount: i64) -> (b: bool)
        requires
            self.points_system.wf(),
        ensures
            b == (self.points_system.users().dom().contains(user_key(platform@, username@))
                && self.points_system.users()[user_key(platform@, username@)].points >= amount),
    {
        match self.lookup(platform, username) {
            Some(u) => u.points >= amount,
            None => false,
        }
    }

    /// Spend `amount` of a user's points on `reason` at `now` (see
    /// `PointsSystem::spend_points_at`), with the reply announcing it or
    /// that the user lacks the points.
    pub fn spend_user_points_at(&mut self, platform: &str, username: &str, amount: i64, reason: &str, now: i64)
        -> (r: (bool, String))
        requires
            old(self).points_system.wf(),
            old(self).points_system.users().dom().contains(user_key(platform@, username@))
                ==> can_spend(old(self).points_system.users()[user_key(platform@, username@)], amount),
        ensures
            final(self).points_system.wf(),
            r.0 == (old(self).points_system.users().dom().contains(user_key(platform@, username@))
                && old(self).points_system.users()[user_key(platform@, username@)].points >= amount),
            r.1@ == if r.0 {
                "✅ "@ + username@ + " spent "@ + text::int_text(amount as int) + " points on "@ + reason@ + "! 💸"@
            } else {
                "❌ "@ + username@ + " doesn't have enough points! Need: "@ + text::int_text(amount as int) + " 💔"@
            },
            r.0 ==> {
                let id = user_key(platform@, username@);
                let f = old(self).points_system.users()[id];
                final(self).points_system.users() == old(self).points_system.users().insert(id, UserPoints {
                    points: (f.points - amount) as i64,
                    total_spent: (f.total_spent + amount) as i64,
                    last_activity: now,
                    ..f
                })
            },
            !r.0 ==> final(self).points_system.users() == old(self).points_system.users(),
    {
        let ok = self.points_system.spend_points_at(platform, username, amount, reason, now);
        let n = text::int_decimal(amount);
        let reply = if ok {
            let a = text::concat("✅ ", username);
            let b = text::concat(a.as_str(), " spent ");
            let c = text::concat(b.as_str(), n.as_str());
            let d = text::concat(c.as_str(), " points on ");
            let e = text::concat(d.as_str(), reason);
            text::concat(e.as_str(), "! 💸")
        } else {
            let a = text::concat("❌ ", username);
            let b = text::concat(a.as_str(), " doesn't have enough points! Need: ");
            let c = text::concat(b.as_str(), n.as_str());
            text::concat(c.as_str(), " 💔")
        };
        (ok, reply)
    }

    /// Award `amount` bonus points to a user for `reason` at `now` (see
    /// `PointsSystem::add_points_at`): the announcement, or nothing for a
    /// user never seen.
    pub fn award_bonus_points_at(&mut self, platform: &str, username: &str, amount: i64, reason: &str, now: i64)
        -> (r: Option<String>)
        requires
            old(self).points_system.wf(),
            old(self).points_system.users().dom().contains(user_key(platform@, username@))
                ==> can_add(old(self).points_system.users()[user_key(platform@, username@)], amount as int),
        ensures
            final(self).points_system.wf(),
            match r {
                Some(t) => old(self).points_system.users().dom().contains(user_key(platform@, username@))
                    && t@ == "🎉 "@ + username@ + " earned "@ + text::int_text(amount as int) + " bonus points for "@
                        + reason@ + "! 🌟"@
                    && final(self).points_system.users() == old(self).points_system.users().insert(
                        user_key(platform@, username@),
                        spec_add_points(old(self).points_system.users()[user_key(platform@, username@)], amount as int, now)),
                None => !old(self).points_system.users().dom().contains(user_key(platform@, username@))
                    && final(self).points_system.users() == old(self).points_system.users(),
            },
    {
        if self.points_system.add_points_at(platform, username, amount, reason, now) {
            let a = text::concat("🎉 ", username);
            let b = text::concat(a.as_str(), " earned ");
            let c = text::concat(b.as_str(), text::int_decimal(amount).as_str());
            let d = text::concat(c.as_str(), " bonus points for ");
            let e = text::concat(d.as_str(), reason);
            Some(text::concat(e.as_str(), "! 🌟"))
        } else {
            None
        }
    }
}

} // verus!
