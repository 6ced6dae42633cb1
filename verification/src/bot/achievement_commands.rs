//! Chat commands of the achievement system: details of one achievement and
//! the achievement leaderboard, with the replies the bot sends back.

use vstd::prelude::*;
use crate::bot::achievements::{
    Achievement, AchievementRarity, AchievementRequirement, AchievementSystem, UserAchievementsView,
    visible_entries, board_entry, ranks_before, rarity_rank,
};
use crate::bot::points_commands::{joined_words, medal, leaderboard_limit};
use crate::bot::types::{ChatMessage, user_key, texts};
use crate::text;

verus! {

/// The achievement commands.
#[derive(Clone, Copy, Debug, PartialEq, Eq, Structural)]
pub enum AchievementCommand {
    Achievements,
    Achievement,
    Progress,
    Leaderboard,
    Stats,
}

/// The achievement command a chat command names, if it is one.
pub open spec fn achievement_command_named(c: Seq<char>) -> Option<AchievementCommand> {
    if c == "achievements"@ || c == "achieve"@ {
        Some(AchievementCommand::Achievements)
    } else if c == "achievement"@ {
        Some(AchievementCommand::Achievement)
    } else if c == "progress"@ {
        Some(AchievementCommand::Progress)
    } else if c == "achievementleaderboard"@ || c == "achievetop"@ {
        Some(AchievementCommand::Leaderboard)
    } else if c == "achievementstats"@ {
        Some(AchievementCommand::Stats)
    } else {
        None
    }
}

/// The achievement command a chat command names; see `achievement_command_named`.
pub fn classify_command(c: &str) -> (r: Option<AchievementCommand>)
    ensures
        r == achievement_command_named(c@),
{
    if text::same_text(c, "achievements") || text::same_text(c, "achieve") {
        Some(AchievementCommand::Achievements)
    } else if text::same_text(c, "achievement") {
        Some(AchievementCommand::Achievement)
    } else if text::same_text(c, "progress") {
        Some(AchievementCommand::Progress)
    } else if text::same_text(c, "achievementleaderboard") || text::same_text(c, "achievetop") {
        Some(AchievementCommand::Leaderboard)
    } else if text::same_text(c, "achievementstats") {
        Some(AchievementCommand::Stats)
    } else {
        None
    }
}

/// Position of the first entry whose name or id, lowercased, holds `query`.
pub open spec fn first_named(entries: Seq<(Achievement, bool, u64)>, query: Seq<char>, from: int) -> Option<int>
    decreases entries.len() - from,
{
    if from < 0 || from >= entries.len() {
        None
    } else if text::seq_contains(text::lowercase(entries[from].0.name@), query)
        || text::seq_contains(text::lowercase(entries[from].0.id@), query) {
        Some(from)
    } else {
        first_named(entries, query, from + 1)
    }
}

/// The colour dot of a rarity.
pub open spec fn rarity_color(r: AchievementRarity) -> Seq<char> {
    match r {
        AchievementRarity::Common => "⚪"@,
        AchievementRarity::Uncommon => "🟢"@,
        AchievementRarity::Rare => "🔵"@,
        AchievementRarity::Epic => "🟣"@,
        AchievementRarity::Legendary => "🟠"@,
        AchievementRarity::Mythic => "🔴"@,
    }
}

/// The name of a rarity.
pub open spec fn rarity_name(r: AchievementRarity) -> Seq<char> {
    match r {
        AchievementRarity::Common => "Common"@,
        AchievementRarity::Uncommon => "Uncommon"@,
        AchievementRarity::Rare => "Rare"@,
        AchievementRarity::Epic => "Epic"@,
        AchievementRarity::Legendary => "Legendary"@,
        AchievementRarity::Mythic => "Mythic"@,
    }
}

/// The progress shown for a locked achievement.
pub open spec fn progress_info(req: AchievementRequirement, progress: u64) -> Seq<char> {
    match req {
        AchievementRequirement::MessageCount(t) =>
            " | Progress: "@ + text::nat_digits(progress as nat) + "/"@ + text::nat_digits(t as nat) + " messages"@,
        AchievementRequirement::WatchTime(t) =>
            " | Progress: "@ + text::nat_digits(progress as nat) + "/"@ + text::nat_digits(t as nat) + " minutes"@,
        AchievementRequirement::PointsEarned(t) =>
            " | Progress: "@ + text::nat_digits(progress as nat) + "/"@ + text::int_text(t as int) + " points"@,
        AchievementRequirement::CommandsUsed(t) =>
            " | Progress: "@ + text::nat_digits(progress as nat) + "/"@ + text::nat_digits(t as nat) + " commands"@,
        _ => " | Progress: Hidden"@,
    }
}

/// The details of an achievement as `!achievement` shows them.
pub open spec fn details(a: Achievement, unlocked: bool, progress: u64) -> Seq<char> {
    a.badge_emoji@ + " "@ + a.name@ + " "@ + (if unlocked { "✅ UNLOCKED"@ } else { "🔒 Locked"@ }) + " | "@
        + a.description@ + " | Reward: "@ + text::int_text(a.reward_points as int) + " pts | "@ + rarity_color(a.rarity)
        + " "@ + rarity_name(a.rarity) + (if unlocked { Seq::empty() } else { progress_info(a.requirement, progress) })
}

/// The reply to `!achievement <words…>` for a user who sees `entries`:
/// usage help without words; otherwise the details of the first
/// achievement whose name or id holds the words (lowercased, joined by
/// spaces), or that none does.
pub open spec fn single_reply(entries: Seq<(Achievement, bool, u64)>, args: Seq<Seq<char>>) -> Seq<char> {
    if args.len() == 0 {
        "Usage: !achievement <name> - View details about a specific achievement 🏆"@
    } else {
        let q = text::lowercase(joined_words(args));
        match first_named(entries, q, 0) {
            Some(i) => details(entries[i].0, entries[i].1, entries[i].2),
            None => "❌ Achievement '"@ + q + "' not found! Use !achievements to see all available achievements."@,
        }
    }
}

fn progress_info_of(req: &AchievementRequirement, progress: u64) -> (r: String)
    ensures
        r@ == progress_info(*req, progress),
{
    let (target, unit): (String, &str) = match req {
        AchievementRequirement::MessageCount(t) => (text::nat_decimal(*t), " messages"),
        AchievementRequirement::WatchTime(t) => (text::nat_decimal(*t), " minutes"),
        AchievementRequirement::PointsEarned(t) => (text::int_decimal(*t), " points"),
        AchievementRequirement::CommandsUsed(t) => (text::nat_decimal(*t), " commands"),
        _ => {
            return text::owned(" | Progress: Hidden");
        },
    };
    let a = text::concat(" | Progress: ", text::nat_decimal(progress).as_str());
    let b = text::concat(a.as_str(), "/");
    let c = text::concat(b.as_str(), target.as_str());
    text::concat(c.as_str(), unit)
}

fn details_of(a: &Achievement, unlocked: bool, progress: u64) -> (r: String)
    ensures
        r@ == details(*a, unlocked, progress),
{
    let (color, name) = match a.rarity {
        AchievementRarity::Common => ("⚪", "Common"),
        AchievementRarity::Uncommon => ("🟢", "Uncommon"),
        AchievementRarity::Rare => ("🔵", "Rare"),
        AchievementRarity::Epic => ("🟣", "Epic"),
        AchievementRarity::Legendary => ("🟠", "Legendary"),
        AchievementRarity::Mythic => ("🔴", "Mythic"),
    };
    let s1 = text::concat(a.badge_emoji.as_str(), " ");
    let s2 = text::concat(s1.as_str(), a.name.as_str());
    let s3 = text::concat(s2.as_str(), " ");
    let s4 = text::concat(s3.as_str(), if unlocked { "✅ UNLOCKED" } else { "🔒 Locked" });
    let s5 = text::concat(s4.as_str(), " | ");
    let s6 = text::concat(s5.as_str(), a.description.as_str());
    let s7 = text::concat(s6.as_str(), " | Reward: ");
    let s8 = text::concat(s7.as_str(), text::int_decimal(a.reward_points).as_str());
    let s9 = text::concat(s8.as_str(), " pts | ");
    let s10 = text::concat(s9.as_str(), color);
    let s11 = text::concat(s10.as_str(), " ");
    let s12 = text::concat(s11.as_str(), name);
    if unlocked {
        proof {
            reveal_strlit("");
        }
        text::concat(s12.as_str(), "")
    } else {
        text::concat(s12.as_str(), progress_info_of(&a.requirement, progress).as_str())
    }
}

/// `args` joined by single spaces.
pub fn join_words(args: &Vec<String>) -> (r: String)
    ensures
        r@ == joined_words(texts(args@)),
{
    if args.len() == 0 {
        proof {
            reveal_strlit("");
        }
        return text::owned("");
    }
    let ghost ws = texts(args@);
    let mut r = args[0].clone();
    assert(ws.take(1) =~= seq![ws[0]]);
    let mut k: usize = 1;
    while k < args.len()
        invariant
            1 <= k <= args@.len(),
            ws == texts(args@),
            r@ == joined_words(ws.take(k as int)),
        decreases args@.len() - k,
    {
        let sp = text::concat(r.as_str(), " ");
        r = text::concat(sp.as_str(), args[k].as_str());
        assert(ws.take(k + 1).drop_last() =~= ws.take(k as int));
        assert(ws.take(k + 1).last() == args@[k as int]@);
        k = k + 1;
    }
    assert(ws.take(ws.len() as int) =~= ws);
    r
}

/// Whether `l` is an achievement leaderboard of at most `limit` users of
/// `s`: their entries (name, points, number unlocked), highest first, each
/// user once.
pub open spec fn is_achievement_board(s: AchievementSystem, limit: nat, l: Seq<(String, i64, usize)>) -> bool {
    &&& l.len() == if limit < s.records().len() { limit } else { s.records().len() }
    &&& forall|a: int, b: int| 0 <= a < b < l.len() ==>
        ranks_before((l[a].0@, l[a].1, l[a].2 as nat), (l[b].0@, l[b].1, l[b].2 as nat))
    &&& exists|f: Seq<int>| #![trigger f.len()] f.len() == l.len()
        && (forall|a: int| 0 <= a < l.len() ==> 0 <= #[trigger] f[a] < s.records().len()
            && (l[a].0@, l[a].1, l[a].2 as nat) == board_entry(s.records()[f[a]]))
        && (forall|a: int, b: int| 0 <= a < l.len() && 0 <= b < l.len() && a != b ==> #[trigger] f[a] != #[trigger] f[b])
}

/// The entries of the achievement leaderboard, in order.
pub open spec fn board_entries(l: Seq<(String, i64, usize)>) -> Seq<char>
    decreases l.len(),
{
    if l.len() == 0 {
        Seq::empty()
    } else {
        let i = l.len() - 1;
        board_entries(l.drop_last()) + medal(i) + text::nat_digits((i + 1) as nat) + ". "@ + l.last().0@ + " ("@
            + text::int_text(l.last().1 as int) + " pts, "@ + text::nat_digits(l.last().2 as nat) + " achievements) "@
    }
}

/// The reply to `!achievementleaderboard` showing `l` for a limit of `limit`.
pub open spec fn board_reply(limit: nat, l: Seq<(String, i64, usize)>) -> Seq<char> {
    if l.len() == 0 {
        "🏆 No achievements unlocked yet! Be the first to start earning! ⭐"@
    } else {
        "🏆 TOP "@ + text::nat_digits(limit) + " ACHIEVEMENT HUNTERS 🏆 | "@ + board_entries(l)
    }
}

#[verifier::spinoff_prover]
fn board_entries_text(l: &Vec<(String, i64, usize)>) -> (r: String)
    ensures
        r@ == board_entries(l@),
{
    proof {
        reveal_strlit("");
    }
    let mut out = text::owned("");
    let mut i: usize = 0;
    while i < l.len()
        invariant
            i <= l@.len(),
            out@ == board_entries(l@.take(i as int)),
        decreases l@.len() - i,
    {
        let m = if i == 0 { "🥇" } else if i == 1 { "🥈" } else if i == 2 { "🥉" } else { "⭐" };
        let a = text::concat(out.as_str(), m);
        let b = text::concat(a.as_str(), text::nat_decimal((i as u64) + 1).as_str());
        let c = text::concat(b.as_str(), ". ");
        let d = text::concat(c.as_str(), l[i].0.as_str());
        let e = text::concat(d.as_str(), " (");
        let f = text::concat(e.as_str(), text::int_decimal(l[i].1).as_str());
        let g = text::concat(f.as_str(), " pts, ");
        let h = text::concat(g.as_str(), text::nat_decimal(l[i].2 as u64).as_str());
        out = text::concat(h.as_str(), " achievements) ");
        assert(l@.take(i + 1).drop_last() =~= l@.take(i as int));
        assert(l@.take(i + 1).last() == l@[i as int]);
        i = i + 1;
    }
    assert(l@.take(l@.len() as int) =~= l@);
    out
}

/// The unlocked entries of rarity rank `r`, in order.
pub open spec fn unlocked_of_rank(s: Seq<(Achievement, bool, u64)>, r: nat) -> Seq<(Achievement, bool, u64)>
    decreases s.len(),
{
    if s.len() == 0 {
        Seq::empty()
    } else {
        unlocked_of_rank(s.drop_last(), r) + if s.last().1 && rarity_rank(s.last().0.rarity) == r {
            seq![s.last()]
        } else {
            Seq::empty()
        }
    }
}

/// The unlocked entries of the `k` rarest ranks, rarest first, each rank
/// in order.
pub open spec fn rarest_ranks(s: Seq<(Achievement, bool, u64)>, k: nat) -> Seq<(Achievement, bool, u64)>
    decreases k,
{
    if k == 0 {
        Seq::empty()
    } else {
        rarest_ranks(s, (k - 1) as nat) + unlocked_of_rank(s, (6 - k) as nat)
    }
}

/// The unlocked entries, rarest first, each rarity in order.
pub open spec fn rarest_first(s: Seq<(Achievement, bool, u64)>) -> Seq<(Achievement, bool, u64)> {
    rarest_ranks(s, 6)
}

/// How many entries are unlocked.
pub open spec fn unlocked_count(s: Seq<(Achievement, bool, u64)>) -> nat
    decreases s.len(),
{
    if s.len() == 0 {
        0
    } else {
        unlocked_count(s.drop_last()) + if s.last().1 { 1nat } else { 0nat }
    }
}

/// An achievement as the list of achievements shows it: badge and name.
pub open spec fn badge_label(e: (Achievement, bool, u64)) -> Seq<char> {
    e.0.badge_emoji@ + " "@ + e.0.name@
}

/// The labels of some entries.
pub open spec fn badge_labels(s: Seq<(Achievement, bool, u64)>) -> Seq<Seq<char>> {
    s.map_values(|e: (Achievement, bool, u64)| badge_label(e))
}

/// At most the first three of `s`.
pub open spec fn first_three<T>(s: Seq<T>) -> Seq<T> {
    s.take(if s.len() < 3 { s.len() as int } else { 3 })
}

/// `items` joined by ` | `.
pub open spec fn joined_by_bars(items: Seq<Seq<char>>) -> Seq<char>
    decreases items.len(),
{
    if items.len() == 0 {
        Seq::empty()
    } else if items.len() == 1 {
        items[0]
    } else {
        joined_by_bars(items.drop_last()) + " | "@ + items.last()
    }
}

/// The reply to `!achievements` about `target`, who sees `entries`: that
/// there are none yet; that the user has none unlocked of how many; or how
/// many of how many, with the three rarest unlocked (rarest first, ties in
/// catalogue order).
pub open spec fn achievements_reply(target: Seq<char>, entries: Seq<(Achievement, bool, u64)>) -> Seq<char> {
    if entries.len() == 0 {
        "🏆 No achievements available yet! Start chatting and watching to unlock them! ✨"@
    } else if unlocked_count(entries) == 0 {
        "🏆 "@ + target + " has 0/"@ + text::nat_digits(entries.len()) + " achievements unlocked! Start participating to earn your first achievement! 🌟"@
    } else {
        let shown = badge_labels(first_three(rarest_first(entries)));
        "🏆 "@ + target + " has "@ + text::nat_digits(unlocked_count(entries)) + "/"@ + text::nat_digits(entries.len())
            + " achievements! Recent: "@ + joined_by_bars(shown) + " ✨ (!achievement <name> for details)"@
    }
}

fn unlocked_count_of(entries: &Vec<(Achievement, bool, u64)>) -> (n: usize)
    ensures
        n == unlocked_count(entries@),
{
    let mut n: usize = 0;
    let mut i: usize = 0;
    while i < entries.len()
        invariant
            i <= entries@.len(),
            n == unlocked_count(entries@.take(i as int)),
            n <= i,
        decreases entries@.len() - i,
    {
        assert(entries@.take(i + 1).drop_last() =~= entries@.take(i as int));
        assert(entries@.take(i + 1).last() == entries@[i as int]);
        if entries[i].1 {
            n = n + 1;
        }
        i = i + 1;
    }
    assert(entries@.take(entries@.len() as int) =~= entries@);
    n
}

fn badge_label_of(e: &(Achievement, bool, u64)) -> (r: String)
    ensures
        r@ == badge_label(*e),
{
    let a = text::concat(e.0.badge_emoji.as_str(), " ");
    text::concat(a.as_str(), e.0.name.as_str())
}

/// The labels of the unlocked entries, rarest first.
fn rarest_labels(entries: &Vec<(Achievement, bool, u64)>) -> (labels: Vec<String>)
    ensures
        texts(labels@) == badge_labels(rarest_first(entries@)),
{
    let ghost s = entries@;
    let ghost lab = |e: (Achievement, bool, u64)| badge_label(e);
    let mut labels: Vec<String> = Vec::new();
    let mut k: u8 = 0;
    while k < 6
        invariant
            k <= 6,
            s == entries@,
            lab == (|e: (Achievement, bool, u64)| badge_label(e)),
            texts(labels@) == rarest_ranks(s, k as nat).map_values(lab),
        decreases 6 - k,
    {
        let rank: u8 = 5 - k;
        let ghost before = rarest_ranks(s, k as nat);
        let mut i: usize = 0;
        while i < entries.len()
            invariant
                k < 6,
                rank == 5 - k,
                i <= s.len(),
                s == entries@,
                lab == (|e: (Achievement, bool, u64)| badge_label(e)),
                before == rarest_ranks(s, k as nat),
                texts(labels@) == (before + unlocked_of_rank(s.take(i as int), rank as nat)).map_values(lab),
            decreases s.len() - i,
        {
            assert(s.take(i + 1).drop_last() =~= s.take(i as int));
            assert(s.take(i + 1).last() == s[i as int]);
            if entries[i].1 && entries[i].0.rarity.rank() == rank {
                let l = badge_label_of(&entries[i]);
                let ghost old_labels = labels@;
                labels.push(l);
                assert(texts(labels@) =~= texts(old_labels).push(l@));
                assert((before + unlocked_of_rank(s.take(i + 1), rank as nat)).map_values(lab)
                    =~= (before + unlocked_of_rank(s.take(i as int), rank as nat)).map_values(lab).push(lab(s[i as int])));
            } else {
                assert(unlocked_of_rank(s.take(i + 1), rank as nat) =~= unlocked_of_rank(s.take(i as int), rank as nat));
            }
            i = i + 1;
        }
        assert(s.take(s.len() as int) =~= s);
        assert(rarest_ranks(s, (k + 1) as nat) == before + unlocked_of_rank(s, rank as nat));
        k = k + 1;
    }
    labels
}

/// The first `n` labels joined by ` | `.
fn join_first_by_bars(labels: &Vec<String>, n: usize) -> (r: String)
    requires
        n <= labels@.len(),
    ensures
        r@ == joined_by_bars(texts(labels@).take(n as int)),
{
    if n == 0 {
        proof {
            reveal_strlit("");
            assert(texts(labels@).take(0) =~= Seq::<Seq<char>>::empty());
        }
        return text::owned("");
    }
    let mut out = labels[0].clone();
    let mut i: usize = 1;
    assert(texts(labels@).take(1) =~= seq![labels@[0]@]);
    while i < n
        invariant
            1 <= i <= n,
            n <= labels@.len(),
            out@ == joined_by_bars(texts(labels@).take(i as int)),
        decreases n - i,
    {
        let a = text::concat(out.as_str(), " | ");
        out = text::concat(a.as_str(), labels[i].as_str());
        assert(texts(labels@).take(i + 1).drop_last() =~= texts(labels@).take(i as int));
        i = i + 1;
    }
    out
}

/// What an achievement command comes to.
pub enum AchievementCommandOutcome {
    /// The reply to send.
    Reply(String),
    /// The sender's closest achievements are to be shown, of the user named
    /// or of the sender.
    ShowProgress,
    /// The statistics are to be shown to a moderator.
    ShowStatistics,
    /// Not an achievement command.
    NotHandled,
}

/// The text of a reply.
pub open spec fn outcome_text(out: AchievementCommandOutcome) -> Seq<char> {
    match out {
        AchievementCommandOutcome::Reply(r) => r@,
        _ => Seq::empty(),
    }
}

/// The achievement commands and the achievements they show.
pub struct AchievementCommands {
    pub achievement_system: AchievementSystem,
}

impl AchievementCommands {
    pub fn new(achievement_system: AchievementSystem) -> (r: Self)
        ensures
            r.achievement_system == achievement_system,
    {
        AchievementCommands { achievement_system }
    }

    /// The reply to `!achievement <words…>` from `message`; see `single_reply`.
    pub fn handle_single_achievement_command(&self, args: &Vec<String>, message: &ChatMessage) -> (reply: String)
        requires
            self.achievement_system.wf(),
        ensures
            ({
                let id = user_key(message.platform@, message.username@);
                let u = if self.achievement_system.users().dom().contains(id) {
                    Some(self.achievement_system.users()[id])
                } else {
                    None::<UserAchievementsView>
                };
                reply@ == single_reply(visible_entries(self.achievement_system.catalogue(), u), texts(args@))
            }),
    {
        if args.len() == 0 {
            return text::owned("Usage: !achievement <name> - View details about a specific achievement 🏆");
        }
        let joined = join_words(args);
        let query = text::to_lowercase(joined.as_str());
        let q = text::chars_of(query.as_str());
        let id = crate::bot::types::make_user_key(message.platform.as_str(), message.username.as_str());
        let entries = self.achievement_system.get_achievements_for_user(id.as_str());
        let ghost es = entries@;
        let mut i: usize = 0;
        assert(first_named(es, q@, 0) == first_named(es, q@, i as int));
        while i < entries.len()
            invariant
                i <= es.len(),
                es == entries@,
                q@ == query@,
                query@ == text::lowercase(joined_words(texts(args@))),
                args@.len() > 0,
                es == visible_entries(self.achievement_system.catalogue(),
                    if self.achievement_system.users().dom().contains(user_key(message.platform@, message.username@)) {
                        Some(self.achievement_system.users()[user_key(message.platform@, message.username@)])
                    } else {
                        None::<UserAchievementsView>
                    }),
                first_named(es, q@, 0) == first_named(es, q@, i as int),
            decreases es.len() - i,
        {
            let name = text::lowercase_chars(text::chars_of(entries[i].0.name.as_str()).as_slice());
            let aid = text::lowercase_chars(text::chars_of(entries[i].0.id.as_str()).as_slice());
            if text::contains(name.as_slice(), q.as_slice()) || text::contains(aid.as_slice(), q.as_slice()) {
                return details_of(&entries[i].0, entries[i].1, entries[i].2);
            }
            i = i + 1;
        }
        let a = text::concat("❌ Achievement '", query.as_str());
        text::concat(a.as_str(), "' not found! Use !achievements to see all available achievements.")
    }

    /// The reply to `!achievements [user]` from `message`, about the user
    /// named or the sender; see `achievements_reply`.
    pub fn handle_achievements_command(&self, args: &Vec<String>, message: &ChatMessage) -> (reply: String)
        requires
            self.achievement_system.wf(),
        ensures
            ({
                let target = if args@.len() == 0 { message.username@ } else { args@[0]@ };
                let id = user_key(message.platform@, target);
                let u = if self.achievement_system.users().dom().contains(id) {
                    Some(self.achievement_system.users()[id])
                } else {
                    None::<UserAchievementsView>
                };
                reply@ == achievements_reply(target, visible_entries(self.achievement_system.catalogue(), u))
            }),
    {
        let target = if args.len() == 0 { message.username.as_str() } else { args[0].as_str() };
        let id = crate::bot::types::make_user_key(message.platform.as_str(), target);
        let entries = self.achievement_system.get_achievements_for_user(id.as_str());
        if entries.len() == 0 {
            return text::owned("🏆 No achievements available yet! Start chatting and watching to unlock them! ✨");
        }
        let unlocked = unlocked_count_of(&entries);
        let total = text::nat_decimal(entries.len() as u64);
        let a = text::concat("🏆 ", target);
        if unlocked == 0 {
            let b = text::concat(a.as_str(), " has 0/");
            let c = text::concat(b.as_str(), total.as_str());
            return text::concat(c.as_str(),
                " achievements unlocked! Start participating to earn your first achievement! 🌟");
        }
        let labels = rarest_labels(&entries);
        let shown = if labels.len() < 3 { labels.len() } else { 3 };
        let listed = join_first_by_bars(&labels, shown);
        proof {
            let rf = rarest_first(entries@);
            assert(texts(labels@) == badge_labels(rf));
            assert(labels@.len() == rf.len());
            assert(first_three(rf).len() == shown);
            assert forall|j: int| 0 <= j < shown implies
                #[trigger] texts(labels@).take(shown as int)[j] == badge_labels(first_three(rf))[j] by {
                assert(texts(labels@)[j] == badge_labels(rf)[j]);
                assert(first_three(rf)[j] == rf[j]);
            }
            assert(texts(labels@).take(shown as int) =~= badge_labels(first_three(rf)));
        }
        let b = text::concat(a.as_str(), " has ");
        let c = text::concat(b.as_str(), text::nat_decimal(unlocked as u64).as_str());
        let d = text::concat(c.as_str(), "/");
        let e = text::concat(d.as_str(), total.as_str());
        let f = text::concat(e.as_str(), " achievements! Recent: ");
        let g = text::concat(f.as_str(), listed.as_str());
        text::concat(g.as_str(), " ✨ (!achievement <name> for details)")
    }

    /// Run achievement command `command` with `args` from `message`: the
    /// list of achievements, one achievement's details and the leaderboard
    /// are answered here; progress, and statistics for moderators, are left
    /// to the caller; the statistics are refused to others.
    pub fn process_command(&self, command: &str, args: &Vec<String>, message: &ChatMessage)
        -> (out: AchievementCommandOutcome)
        requires
            self.achievement_system.wf(),
        ensures
            match achievement_command_named(command@) {
                None => out is NotHandled,
                Some(AchievementCommand::Achievements) => out is Reply && ({
                    let target = if args@.len() == 0 { message.username@ } else { args@[0]@ };
                    let id = user_key(message.platform@, target);
                    let u = if self.achievement_system.users().dom().contains(id) {
                        Some(self.achievement_system.users()[id])
                    } else {
                        None::<UserAchievementsView>
                    };
                    outcome_text(out) == achievements_reply(target, visible_entries(self.achievement_system.catalogue(), u))
                }),
                Some(AchievementCommand::Achievement) => out is Reply && ({
                    let id = user_key(message.platform@, message.username@);
                    let u = if self.achievement_system.users().dom().contains(id) {
                        Some(self.achievement_system.users()[id])
                    } else {
                        None::<UserAchievementsView>
                    };
                    outcome_text(out) == single_reply(visible_entries(self.achievement_system.catalogue(), u), texts(args@))
                }),
                Some(AchievementCommand::Progress) => out is ShowProgress,
                Some(AchievementCommand::Leaderboard) => out is Reply && exists|l: Seq<(String, i64, usize)>|
                    #[trigger] is_achievement_board(self.achievement_system, leaderboard_limit(texts(args@)), l)
                    && outcome_text(out) == board_reply(leaderboard_limit(texts(args@)), l),
                Some(AchievementCommand::Stats) => if message.is_mod {
                    out is ShowStatistics
                } else {
                    out is Reply && outcome_text(out) == "❌ This command is for moderators only!"@
                },
            },
    {
        match classify_command(command) {
            None => AchievementCommandOutcome::NotHandled,
            Some(AchievementCommand::Achievements) =>
                AchievementCommandOutcome::Reply(self.handle_achievements_command(args, message)),
            Some(AchievementCommand::Achievement) =>
                AchievementCommandOutcome::Reply(self.handle_single_achievement_command(args, message)),
            Some(AchievementCommand::Progress) => AchievementCommandOutcome::ShowProgress,
            Some(AchievementCommand::Leaderboard) => {
                let r = self.handle_achievement_leaderboard_command(args);
                proof {
                    let l = choose|l: Seq<(String, i64, usize)>|
                        #[trigger] is_achievement_board(self.achievement_system, leaderboard_limit(texts(args@)), l)
                        && r@ == board_reply(leaderboard_limit(texts(args@)), l);
                    assert(is_achievement_board(self.achievement_system, leaderboard_limit(texts(args@)), l));
                    assert(outcome_text(AchievementCommandOutcome::Reply(r)) == r@);
                }
                AchievementCommandOutcome::Reply(r)
            },
            Some(AchievementCommand::Stats) => if message.is_mod {
                AchievementCommandOutcome::ShowStatistics
            } else {
                AchievementCommandOutcome::Reply(text::owned("❌ This command is for moderators only!"))
            },
        }
    }

    /// The reply to `!achievementleaderboard [n]` (see `leaderboard_limit`).
    pub fn handle_achievement_leaderboard_command(&self, args: &Vec<String>) -> (reply: String)
        requires
            self.achievement_system.wf(),
        ensures
            exists|l: Seq<(String, i64, usize)>|
                #[trigger] is_achievement_board(self.achievement_system, leaderboard_limit(texts(args@)), l)
                && reply@ == board_reply(leaderboard_limit(texts(args@)), l),
    {
        let limit: usize = if args.len() > 0 {
            assert(texts(args@)[0] == args@[0]@);
            match text::parse_uint(args[0].as_str(), usize::MAX as u64) {
                Some(v) => if v < 10 { v as usize } else { 10 },
                None => 5,
            }
        } else {
            5
        };
        assert(limit as nat == leaderboard_limit(texts(args@)));
        let board = self.achievement_system.get_achievement_leaderboard(limit);
        assert(is_achievement_board(self.achievement_system, limit as nat, board@));
        if board.len() == 0 {
            let r = text::owned("🏆 No achievements unlocked yet! Be the first to start earning! ⭐");
            assert(r@ == board_reply(leaderboard_limit(texts(args@)), board@));
            return r;
        }
        let h1 = text::concat("🏆 TOP ", text::nat_decimal(limit as u64).as_str());
        let head = text::concat(h1.as_str(), " ACHIEVEMENT HUNTERS 🏆 | ");
        let body = board_entries_text(&board);
        let out = text::concat(head.as_str(), body.as_str());
        assert(out@ == board_reply(leaderboard_limit(texts(args@)), board@));
        out
    }
}

} // verus!
