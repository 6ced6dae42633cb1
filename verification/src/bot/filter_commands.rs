//! Moderator chat commands that manage the spam filters: `!filters`,
//! `!blacklist`, `!filterlist` and `!filterstats`. Each command changes the
//! filter registry as it asks and yields the one reply the bot sends back.

use vstd::prelude::*;
use crate::bot::moderation::{ModerationSystem, opt_view};
use crate::bot::types::{ChatMessage, ExemptionLevel, ModerationAction, ModerationEscalation, SpamFilter, SpamFilterType, ActionView, texts, copy_texts};
use crate::text;

verus! {

// ---------------------------------------------------------------------------
// Filter names
// ---------------------------------------------------------------------------

/// Every character that is not alphanumeric replaced by `_`.
pub open spec fn underscored(s: Seq<char>) -> Seq<char> {
    s.map_values(|c: char| if text::unicode_alphanumeric(c) { c } else { '_' })
}

/// `s` without its leading underscores.
pub open spec fn trim_start_underscores(s: Seq<char>) -> Seq<char>
    decreases s.len(),
{
    if s.len() > 0 && s[0] == '_' { trim_start_underscores(s.drop_first()) } else { s }
}

/// `s` without its trailing underscores.
pub open spec fn trim_end_underscores(s: Seq<char>) -> Seq<char>
    decreases s.len(),
{
    if s.len() > 0 && s.last() == '_' { trim_end_underscores(s.drop_last()) } else { s }
}

/// A pattern made fit for a filter name: non-alphanumeric characters become
/// `_`, and underscores at either end are dropped.
pub open spec fn sanitized(s: Seq<char>) -> Seq<char> {
    trim_end_underscores(trim_start_underscores(underscored(s)))
}

/// Make `pattern` fit for a filter name; see `sanitized`.
pub fn sanitize_filter_name(pattern: &str) -> (r: String)
    ensures
        r@ == sanitized(pattern@),
{
    let cs = text::chars_of(pattern);
    let mut m: Vec<char> = Vec::new();
    let mut i: usize = 0;
    while i < cs.len()
        invariant
            i <= cs@.len(),
            m@ == underscored(cs@.take(i as int)),
        decreases cs@.len() - i,
    {
        let c = cs[i];
        let d = if text::is_alphanumeric(c) { c } else { '_' };
        m.push(d);
        assert(underscored(cs@.take(i + 1)) =~= underscored(cs@.take(i as int)).push(d));
        i = i + 1;
    }
    assert(cs@.take(cs@.len() as int) =~= cs@);
    let ghost u = m@;
    let mut a: usize = 0;
    assert(u.subrange(0, u.len() as int) =~= u);
    while a < m.len() && m[a] == '_'
        invariant
            a <= m@.len(),
            u == m@,
            trim_start_underscores(u) == trim_start_underscores(u.subrange(a as int, u.len() as int)),
        decreases m@.len() - a,
    {
        assert(u.subrange(a as int, u.len() as int).drop_first() =~= u.subrange(a + 1, u.len() as int));
        a = a + 1;
    }
    let ghost t = u.subrange(a as int, u.len() as int);
    assert(trim_start_underscores(t) == t);
    let mut b: usize = m.len();
    assert(t.subrange(0, t.len() as int) =~= t);
    while b > a && m[b - 1] == '_'
        invariant
            a <= b <= m@.len(),
            u == m@,
            t == u.subrange(a as int, u.len() as int),
            trim_end_underscores(t) == trim_end_underscores(u.subrange(a as int, b as int)),
        decreases b,
    {
        assert(u.subrange(a as int, b as int).drop_last() =~= u.subrange(a as int, b - 1));
        b = b - 1;
    }
    let out = text::slice(&m, a, b);
    text::string_from_chars(out.as_slice())
}

/// The name of the blacklist filter for a pattern.
pub open spec fn blacklist_name(pattern: Seq<char>) -> Seq<char> {
    "blacklist_"@ + sanitized(pattern)
}

/// The filter a `!blacklist remove` argument names: itself when it starts
/// with `blacklist_`, else the blacklist filter of that pattern.
pub open spec fn blacklist_target(id: Seq<char>) -> Seq<char> {
    if text::seq_starts_with(id, "blacklist_"@) { id } else { blacklist_name(id) }
}

fn blacklist_name_of(pattern: &str) -> (r: String)
    ensures
        r@ == blacklist_name(pattern@),
{
    let s = sanitize_filter_name(pattern);
    text::concat("blacklist_", s.as_str())
}

// ---------------------------------------------------------------------------
// Arguments
// ---------------------------------------------------------------------------

/// The exemption level an argument names (`none`, `sub`/`subscriber`,
/// `regular`, `mod`/`moderator`, `owner`, in any case); anything else is
/// `Moderator`.
pub open spec fn exemption_from_arg(a: Seq<char>) -> ExemptionLevel {
    let l = text::lowercase(a);
    if l == "none"@ {
        ExemptionLevel::NoOne
    } else if l == "subscriber"@ || l == "sub"@ {
        ExemptionLevel::Subscriber
    } else if l == "regular"@ {
        ExemptionLevel::Regular
    } else if l == "moderator"@ || l == "mod"@ {
        ExemptionLevel::Moderator
    } else if l == "owner"@ {
        ExemptionLevel::Owner
    } else {
        ExemptionLevel::Moderator
    }
}

/// The exemption level an argument names; see `exemption_from_arg`.
pub fn parse_exemption(a: &str) -> (e: ExemptionLevel)
    ensures
        e == exemption_from_arg(a@),
{
    let l = text::to_lowercase(a);
    let s = l.as_str();
    if text::same_text(s, "none") {
        ExemptionLevel::NoOne
    } else if text::same_text(s, "subscriber") || text::same_text(s, "sub") {
        ExemptionLevel::Subscriber
    } else if text::same_text(s, "regular") {
        ExemptionLevel::Regular
    } else if text::same_text(s, "moderator") || text::same_text(s, "mod") {
        ExemptionLevel::Moderator
    } else if text::same_text(s, "owner") {
        ExemptionLevel::Owner
    } else {
        ExemptionLevel::Moderator
    }
}

/// Argument `i` read as an unsigned number no greater than `max`, or
/// `default` when it is missing or is no such number.
pub open spec fn number_arg(args: Seq<Seq<char>>, i: int, max: int, default: int) -> int {
    if i < args.len() {
        match text::parse_unsigned(args[i], max) {
            Some(v) => v,
            None => default,
        }
    } else {
        default
    }
}

fn number_arg_of(args: &Vec<String>, i: usize, max: u64, default: u64) -> (v: u64)
    requires
        default <= max,
    ensures
        v == number_arg(texts(args@), i as int, max as int, default as int),
{
    if i < args.len() {
        assert(texts(args@)[i as int] == args@[i as int]@);
        match text::parse_uint(args[i].as_str(), max) {
            Some(v) => v,
            None => default,
        }
    } else {
        default
    }
}

// ---------------------------------------------------------------------------
// Listings
// ---------------------------------------------------------------------------

/// `✅ name` or `❌ name`.
pub open spec fn status_entry(name: Seq<char>, enabled: bool) -> Seq<char> {
    (if enabled { "✅"@ } else { "❌"@ }) + " "@ + name
}

/// The entries of a listing, joined by ` | `.
pub open spec fn joined_entries(l: Seq<(Seq<char>, bool)>) -> Seq<char>
    decreases l.len(),
{
    if l.len() == 0 {
        Seq::empty()
    } else if l.len() == 1 {
        status_entry(l[0].0, l[0].1)
    } else {
        joined_entries(l.drop_last()) + " | "@ + status_entry(l.last().0, l.last().1)
    }
}

fn joined_entries_of(l: &Vec<(String, bool)>) -> (r: String)
    ensures
        r@ == joined_entries(l@.map_values(|e: (String, bool)| (e.0@, e.1))),
{
    let ghost lv = l@.map_values(|e: (String, bool)| (e.0@, e.1));
    proof {
        reveal_strlit("");
    }
    let mut r = text::owned("");
    let mut i: usize = 0;
    while i < l.len()
        invariant
            i <= l@.len(),
            lv == l@.map_values(|e: (String, bool)| (e.0@, e.1)),
            r@ == joined_entries(lv.take(i as int)),
        decreases l@.len() - i,
    {
        let mark = if l[i].1 { "✅" } else { "❌" };
        let e1 = text::concat(mark, " ");
        let entry = text::concat(e1.as_str(), l[i].0.as_str());
        assert(lv.take(i + 1).drop_last() =~= lv.take(i as int));
        assert(lv.take(i + 1).last() == lv[i as int]);
        if i == 0 {
            r = entry;
        } else {
            let r1 = text::concat(r.as_str(), " | ");
            r = text::concat(r1.as_str(), entry.as_str());
        }
        i = i + 1;
    }
    assert(lv.take(l@.len() as int) =~= lv);
    r
}

/// The reply to `!filterlist`: every filter with its state.
pub open spec fn filter_list_reply(l: Seq<(Seq<char>, bool)>) -> Seq<char> {
    if l.len() == 0 {
        "📝 No spam filters configured"@
    } else {
        "🛡️ Spam Filters ("@ + text::nat_digits(l.len()) + "): "@ + joined_entries(l)
    }
}

/// The blacklist filters of a listing, named without the `blacklist_` prefix.
pub open spec fn blacklist_listing(l: Seq<(Seq<char>, bool)>) -> Seq<(Seq<char>, bool)>
    decreases l.len(),
{
    if l.len() == 0 {
        Seq::empty()
    } else {
        let rest = blacklist_listing(l.drop_last());
        let e = l.last();
        if text::seq_starts_with(e.0, "blacklist_"@) {
            rest.push((e.0.subrange(10, e.0.len() as int), e.1))
        } else {
            rest
        }
    }
}

/// The reply to `!blacklist list`.
pub open spec fn blacklist_list_reply(l: Seq<(Seq<char>, bool)>) -> Seq<char> {
    let b = blacklist_listing(l);
    if b.len() == 0 {
        "📝 No blacklist filters configured"@
    } else {
        "🚫 Blacklist Filters ("@ + text::nat_digits(b.len()) + "): "@ + joined_entries(b)
    }
}

fn listing_reply(l: &Vec<(String, bool)>, blacklist_only: bool) -> (r: String)
    ensures
        blacklist_only ==> r@ == blacklist_list_reply(l@.map_values(|e: (String, bool)| (e.0@, e.1))),
        !blacklist_only ==> r@ == filter_list_reply(l@.map_values(|e: (String, bool)| (e.0@, e.1))),
{
    let ghost lv = l@.map_values(|e: (String, bool)| (e.0@, e.1));
    proof {
        reveal_strlit("blacklist_");
    }
    let chosen: Vec<(String, bool)> = if blacklist_only {
        let mut b: Vec<(String, bool)> = Vec::new();
        let mut i: usize = 0;
        let prefix = text::chars_of("blacklist_");
        while i < l.len()
            invariant
                i <= l@.len(),
                prefix@ == "blacklist_"@,
                prefix@.len() == 10,
                lv == l@.map_values(|e: (String, bool)| (e.0@, e.1)),
                b@.map_values(|e: (String, bool)| (e.0@, e.1)) == blacklist_listing(lv.take(i as int)),
            decreases l@.len() - i,
        {
            assert(lv.take(i + 1).drop_last() =~= lv.take(i as int));
            assert(lv.take(i + 1).last() == lv[i as int]);
            let name = text::chars_of(l[i].0.as_str());
            if text::starts_with(name.as_slice(), prefix.as_slice()) {
                let shown = text::slice(&name, 10, name.len());
                let ghost before = b@;
                b.push((text::string_from_chars(shown.as_slice()), l[i].1));
                assert(b@.map_values(|e: (String, bool)| (e.0@, e.1))
                    =~= before.map_values(|e: (String, bool)| (e.0@, e.1)).push((shown@, l@[i as int].1)));
            }
            i = i + 1;
        }
        assert(lv.take(l@.len() as int) =~= lv);
        b
    } else {
        let mut c: Vec<(String, bool)> = Vec::new();
        let mut i: usize = 0;
        while i < l.len()
            invariant
                i <= l@.len(),
                lv == l@.map_values(|e: (String, bool)| (e.0@, e.1)),
                c@.map_values(|e: (String, bool)| (e.0@, e.1)) == lv.take(i as int),
            decreases l@.len() - i,
        {
            let ghost before = c@;
            c.push((l[i].0.clone(), l[i].1));
            assert(c@.map_values(|e: (String, bool)| (e.0@, e.1))
                =~= before.map_values(|e: (String, bool)| (e.0@, e.1)).push(lv[i as int]));
            assert(lv.take(i + 1) =~= lv.take(i as int).push(lv[i as int]));
            i = i + 1;
        }
        assert(lv.take(l@.len() as int) =~= lv);
        c
    };
    if chosen.len() == 0 {
        if blacklist_only {
            text::owned("📝 No blacklist filters configured")
        } else {
            text::owned("📝 No spam filters configured")
        }
    } else {
        let head = if blacklist_only { "🚫 Blacklist Filters (" } else { "🛡️ Spam Filters (" };
        let n = text::nat_decimal(chosen.len() as u64);
        let h1 = text::concat(head, n.as_str());
        let h2 = text::concat(h1.as_str(), "): ");
        let body = joined_entries_of(&chosen);
        text::concat(h2.as_str(), body.as_str())
    }
}

// ---------------------------------------------------------------------------
// Replies
// ---------------------------------------------------------------------------

/// What kind of blacklist entry a pattern is, as the reply names it.
pub open spec fn pattern_kind(p: Seq<char>) -> Seq<char> {
    if text::seq_starts_with(p, "~/"@) { "regex"@ } else if p.contains('*') { "wildcard"@ } else { "literal"@ }
}

/// The reply to a blacklist entry added.
pub open spec fn blacklist_added_reply(pattern: Seq<char>, timeout: u64, name: Seq<char>) -> Seq<char> {
    "✅ Added "@ + pattern_kind(pattern) + " blacklist pattern: '"@ + pattern + "' | Timeout: "@
        + text::nat_digits(timeout as nat) + "s | Filter: '"@ + name + "'"@
}

/// `prefix`, a name in quotes, then `suffix`.
pub open spec fn quoted(prefix: Seq<char>, name: Seq<char>, suffix: Seq<char>) -> Seq<char> {
    prefix + "'"@ + name + "'"@ + suffix
}

fn quoted_of(prefix: &str, name: &str, suffix: &str) -> (r: String)
    ensures
        r@ == quoted(prefix@, name@, suffix@),
{
    let a = text::concat(prefix, "'");
    let b = text::concat(a.as_str(), name);
    let c = text::concat(b.as_str(), "'");
    text::concat(c.as_str(), suffix)
}

/// The reply to `!filterstats`.
pub open spec fn filter_stats_reply(total: nat, enabled: nat, violations: nat, global: bool) -> Seq<char> {
    "📊 Filter Stats: "@ + text::nat_digits(total) + " total | "@ + text::nat_digits(enabled) + " enabled | "@
        + text::nat_digits(violations) + " violations | Global: "@ + (if global { "ON"@ } else { "OFF"@ })
        + " | Use !filterlist for details"@
}

// ---------------------------------------------------------------------------
// Requested filters
// ---------------------------------------------------------------------------

/// Whether `!filters add` knows the filter kind.
pub open spec fn known_filter_kind(kind: Seq<char>) -> bool {
    kind == "caps"@ || kind == "links"@ || kind == "length"@ || kind == "emotes"@ || kind == "symbols"@
        || kind == "rate"@ || kind == "repeat"@
}

/// Whether `t` is the rule that `!filters add <kind> <args…>` asks for
/// (`args[0]` is the kind): each kind reads its numbers from the arguments
/// that follow, with a default for a missing or unreadable one; a link
/// filter lets moderators through unless its first argument is `false`,
/// and allows the hosts given, or `discord.gg` and `youtube.com`.
pub open spec fn is_requested_filter_type(t: SpamFilterType, kind: Seq<char>, args: Seq<Seq<char>>) -> bool {
    if kind == "caps"@ {
        t == SpamFilterType::ExcessiveCaps { max_percentage: number_arg(args, 1, 255, 70) as u8 }
    } else if kind == "links"@ {
        match t {
            SpamFilterType::LinkBlocking { allow_mods, whitelist } =>
                allow_mods == !(args.len() > 1 && args[1] == "false"@)
                && texts(whitelist@) == (if args.len() > 2 {
                    args.subrange(2, args.len() as int)
                } else {
                    seq!["discord.gg"@, "youtube.com"@]
                }),
            _ => false,
        }
    } else if kind == "length"@ {
        t == SpamFilterType::MessageLength { max_length: number_arg(args, 1, usize::MAX as int, 500) as usize }
    } else if kind == "emotes"@ {
        t == SpamFilterType::ExcessiveEmotes { max_count: number_arg(args, 1, 255, 10) as u8 }
    } else if kind == "symbols"@ {
        t == SpamFilterType::SymbolSpam { max_percentage: number_arg(args, 1, 255, 50) as u8 }
    } else if kind == "rate"@ {
        t == SpamFilterType::RateLimit {
            max_messages: number_arg(args, 1, 255, 5) as u8,
            window_seconds: number_arg(args, 2, u64::MAX as int, 30) as u64,
        }
    } else {
        t == SpamFilterType::RepeatedMessages {
            max_repeats: number_arg(args, 1, 255, 3) as u8,
            window_seconds: number_arg(args, 2, u64::MAX as int, 300) as u64,
        }
    }
}

/// `after` is `before` with the filter `name` added (or put in place of
/// one of that name): enabled, of rule `kind` as `args` ask, exempting
/// moderators, not silent, warning first and then timing out for ten
/// minutes, within one hour.
pub open spec fn added_requested_filter(
    before: ModerationSystem,
    after: ModerationSystem,
    name: Seq<char>,
    kind: Seq<char>,
    args: Seq<Seq<char>>,
) -> bool {
    &&& after.wf()
    &&& after.protection_enabled() == before.protection_enabled()
    &&& after.filters().dom() == before.filters().dom().insert(name)
    &&& forall|k: Seq<char>| k != name && #[trigger] before.filters().dom().contains(k)
        ==> after.filters()[k] == before.filters()[k]
    &&& ({
        let f = after.filters()[name];
        &&& f.name@ == name
        &&& f.enabled
        &&& f.exemption_level == ExemptionLevel::Moderator
        &&& !f.silent_mode
        &&& f.custom_message is None
        &&& f.escalation.first_offense@ == ActionView::WarnUser("Please follow chat rules (first warning)"@)
        &&& f.escalation.repeat_offense@ == ActionView::TimeoutUser(600)
        &&& f.escalation.offense_window_seconds == 3600
        &&& is_requested_filter_type(f.filter_type, kind, args)
    })
}

/// What `!filters add <args…>` at `now` does: usage help without
/// arguments, a refusal for an unknown kind, else the filter
/// `kind_now` added.
pub open spec fn add_filter_outcome(
    before: ModerationSystem,
    after: ModerationSystem,
    args: Seq<Seq<char>>,
    now: u64,
    reply: Seq<char>,
) -> bool {
    if args.len() == 0 {
        reply == "Usage: !filters add <type> [options] | Types: caps, links, length, emotes, symbols, rate, repeat"@
            && after == before
    } else {
        let kind = text::lowercase(args[0]);
        let name = kind + "_"@ + text::nat_digits(now as nat);
        if !known_filter_kind(kind) {
            reply == "❌ Unknown filter type. Available: caps, links, length, emotes, symbols, rate, repeat"@
                && after == before
        } else {
            added_requested_filter(before, after, name, kind, args)
                && reply == "✅ Added "@ + kind + " filter: '"@ + name + "'"@
        }
    }
}

/// What `!blacklist <args…>` does.
pub open spec fn blacklist_outcome(
    before: ModerationSystem,
    after: ModerationSystem,
    args: Seq<Seq<char>>,
    reply: Seq<char>,
) -> bool {
    if args.len() == 0 {
        reply == "🚫 Blacklist Commands: !blacklist <add|remove|list> <pattern> | Supports: literal, wild*cards, ~/regex/flags"@
            && after == before
    } else {
        let sub = text::lowercase(args[0]);
        if sub == "add"@ {
            if args.len() < 2 {
                reply == "Usage: !blacklist add <pattern> [timeout_seconds] [exemption_level]"@ && after == before
            } else {
                let p = args[1];
                let t = number_arg(args, 2, u64::MAX as int, 600) as u64;
                let e = if args.len() > 3 { exemption_from_arg(args[3]) } else { ExemptionLevel::Moderator };
                let name = blacklist_name(p);
                &&& ModerationSystem::added_blacklist(before, after, name, seq![p], false, false, e, t,
                    Some("Blacklisted word/phrase detected"@))
                &&& reply == blacklist_added_reply(p, t, name)
            }
        } else if sub == "remove"@ {
            if args.len() < 2 {
                reply == "Usage: !blacklist remove <filter_name_or_pattern>"@ && after == before
            } else {
                let name = blacklist_target(args[1]);
                &&& after.wf()
                &&& after.filters() == before.filters().remove(name)
                &&& after.protection_enabled() == before.protection_enabled()
                &&& reply == (if before.filters().dom().contains(name) {
                    quoted("🗑️ Removed blacklist filter: "@, name, ""@)
                } else {
                    quoted("❌ Blacklist filter "@, name, " not found"@)
                })
            }
        } else if sub == "list"@ {
            reply == blacklist_list_reply(before.listing()) && after == before
        } else {
            reply == "❌ Unknown subcommand. Use: add, remove, list"@ && after == before
        }
    }
}

/// What `!filters enable|disable [name]` does.
pub open spec fn switch_outcome(
    before: ModerationSystem,
    after: ModerationSystem,
    args: Seq<Seq<char>>,
    on: bool,
    reply: Seq<char>,
) -> bool {
    if args.len() < 2 {
        &&& after.protection_enabled() == on
        &&& after.filters() == before.filters()
        &&& after.wf()
        &&& reply == (if on { "✅ Global spam protection enabled"@ } else { "⏸️ Global spam protection disabled"@ })
    } else {
        let name = args[1];
        &&& after.wf()
        &&& after.protection_enabled() == before.protection_enabled()
        &&& if before.filters().dom().contains(name) {
            &&& after.filters() == before.filters().insert(name, SpamFilter { enabled: on, ..before.filters()[name] })
            &&& reply == quoted(if on { "✅ Filter "@ } else { "⏸️ Filter "@ }, name, if on { " enabled"@ } else { " disabled"@ })
        } else {
            &&& after.filters() == before.filters()
            &&& reply == quoted("❌ Filter "@, name, " not found"@)
        }
    }
}

/// What `!filters <args…>` at `now` does.
pub open spec fn filters_outcome(
    before: ModerationSystem,
    after: ModerationSystem,
    args: Seq<Seq<char>>,
    now: u64,
    reply: Seq<char>,
) -> bool {
    if args.len() == 0 {
        reply == "🛡️ Filter Commands: !filters <enable|disable|add|remove|list> | !blacklist <add|remove|list> <pattern> | !filterstats"@
            && after == before
    } else {
        let sub = text::lowercase(args[0]);
        if sub == "enable"@ {
            switch_outcome(before, after, args, true, reply)
        } else if sub == "disable"@ {
            switch_outcome(before, after, args, false, reply)
        } else if sub == "add"@ {
            add_filter_outcome(before, after, args.drop_first(), now, reply)
        } else if sub == "remove"@ {
            if args.len() < 2 {
                reply == "Usage: !filters remove <filter_name>"@ && after == before
            } else {
                let name = args[1];
                &&& after.wf()
                &&& after.filters() == before.filters().remove(name)
                &&& after.protection_enabled() == before.protection_enabled()
                &&& reply == (if before.filters().dom().contains(name) {
                    quoted("🗑️ Filter "@, name, " removed"@)
                } else {
                    quoted("❌ Filter "@, name, " not found"@)
                })
            }
        } else if sub == "list"@ {
            reply == filter_list_reply(before.listing()) && after == before
        } else {
            reply == "❌ Unknown subcommand. Use: enable, disable, add, remove, list"@ && after == before
        }
    }
}

/// The arguments from position `start` on.
fn args_from(args: &Vec<String>, start: usize) -> (r: Vec<String>)
    requires
        start <= args@.len(),
    ensures
        texts(r@) == texts(args@).subrange(start as int, args@.len() as int),
{
    let mut r: Vec<String> = Vec::new();
    let mut i: usize = start;
    while i < args.len()
        invariant
            start <= i <= args@.len(),
            texts(r@) == texts(args@).subrange(start as int, i as int),
        decreases args@.len() - i,
    {
        let ghost before = texts(r@);
        r.push(args[i].clone());
        assert(texts(r@) =~= before.push(args@[i as int]@));
        assert(texts(args@).subrange(start as int, i + 1) =~= texts(args@).subrange(start as int, i as int).push(args@[i as int]@));
        i = i + 1;
    }
    r
}

/// Number of enabled filters in a listing.
pub open spec fn count_enabled(l: Seq<(Seq<char>, bool)>) -> nat
    decreases l.len(),
{
    if l.len() == 0 { 0 } else { count_enabled(l.drop_last()) + if l.last().1 { 1nat } else { 0nat } }
}

/// Which filter command a chat command is.
pub enum FilterCommand {
    Filters,
    Blacklist,
    FilterList,
    FilterStats,
}

/// The filter command named `command`, if it is one.
pub open spec fn filter_command_named(command: Seq<char>) -> Option<FilterCommand> {
    if command == "filters"@ {
        Some(FilterCommand::Filters)
    } else if command == "blacklist"@ {
        Some(FilterCommand::Blacklist)
    } else if command == "filterlist"@ {
        Some(FilterCommand::FilterList)
    } else if command == "filterstats"@ {
        Some(FilterCommand::FilterStats)
    } else {
        None
    }
}

/// The filter commands and the registry of filters they manage.
pub struct FilterCommands {
    pub moderation_system: ModerationSystem,
}

impl FilterCommands {
    pub fn new(moderation_system: ModerationSystem) -> (r: Self)
        ensures
            r.moderation_system == moderation_system,
    {
        FilterCommands { moderation_system }
    }

    /// What a moderator's filter command at `now` does and the reply to it;
    /// `None`, with nothing changed, for a non-moderator or another command.
    /// `total_violations` is the number of violations recorded so far.
    pub open spec fn command_outcome(
        before: ModerationSystem,
        after: ModerationSystem,
        command: Seq<char>,
        args: Seq<Seq<char>>,
        is_mod: bool,
        now: u64,
        total_violations: u64,
        reply: Option<Seq<char>>,
    ) -> bool {
        if !is_mod {
            reply is None && after == before
        } else {
            match filter_command_named(command) {
                None => reply is None && after == before,
                Some(FilterCommand::Filters) => reply is Some && filters_outcome(before, after, args, now, reply->0),
                Some(FilterCommand::Blacklist) => reply is Some && blacklist_outcome(before, after, args, reply->0),
                Some(FilterCommand::FilterList) =>
                    reply == Some(filter_list_reply(before.listing())) && after == before,
                Some(FilterCommand::FilterStats) => reply == Some(filter_stats_reply(before.listing().len(),
                    count_enabled(before.listing()), total_violations as nat, before.protection_enabled()))
                    && after == before,
            }
        }
    }

    /// Run a filter command from `message` at `now`; see `command_outcome`.
    pub fn process_command_at(
        &mut self,
        command: &str,
        args: &Vec<String>,
        message: &ChatMessage,
        now: u64,
        total_violations: u64,
    ) -> (reply: Option<String>)
        requires
            old(self).moderation_system.wf(),
        ensures
            final(self).moderation_system.wf(),
            Self::command_outcome(old(self).moderation_system, final(self).moderation_system, command@, texts(args@),
                message.is_mod, now, total_violations, opt_view(reply)),
    {
        if !message.is_mod {
            return None;
        }
        if text::same_text(command, "filters") {
            Some(self.handle_filters_command_at(args, now))
        } else if text::same_text(command, "blacklist") {
            Some(self.handle_blacklist_command(args))
        } else if text::same_text(command, "filterlist") {
            Some(self.handle_filter_list_command())
        } else if text::same_text(command, "filterstats") {
            Some(self.handle_filter_stats_command(total_violations))
        } else {
            None
        }
    }

    /// Run a filter command from `message` now, by the wall clock.
    pub fn process_command(&mut self, command: &str, args: &Vec<String>, message: &ChatMessage, total_violations: u64)
        -> (reply: Option<String>)
        requires
            old(self).moderation_system.wf(),
        ensures
            final(self).moderation_system.wf(),
            exists|now: u64| #[trigger] Self::command_outcome(old(self).moderation_system, final(self).moderation_system,
                command@, texts(args@), message.is_mod, now, total_violations, opt_view(reply)),
    {
        let now = crate::clock::now_secs();
        self.process_command_at(command, args, message, now, total_violations)
    }

    /// The reply to `!filterlist`.
    pub fn handle_filter_list_command(&self) -> (reply: String)
        requires
            self.moderation_system.wf(),
        ensures
            reply@ == filter_list_reply(self.moderation_system.listing()),
    {
        let l = self.moderation_system.list_filters();
        listing_reply(&l, false)
    }

    /// The reply to `!filterstats`, given the violations recorded so far.
    pub fn handle_filter_stats_command(&self, total_violations: u64) -> (reply: String)
        requires
            self.moderation_system.wf(),
        ensures
            reply@ == filter_stats_reply(self.moderation_system.listing().len(),
                count_enabled(self.moderation_system.listing()), total_violations as nat,
                self.moderation_system.protection_enabled()),
    {
        let l = self.moderation_system.list_filters();
        let ghost lv = l@.map_values(|e: (String, bool)| (e.0@, e.1));
        let mut enabled: u64 = 0;
        let mut i: usize = 0;
        while i < l.len()
            invariant
                i <= l@.len(),
                lv == l@.map_values(|e: (String, bool)| (e.0@, e.1)),
                enabled == count_enabled(lv.take(i as int)),
                enabled <= i,
            decreases l@.len() - i,
        {
            assert(lv.take(i + 1).drop_last() =~= lv.take(i as int));
            assert(lv.take(i + 1).last() == lv[i as int]);
            if l[i].1 {
                enabled = enabled + 1;
            }
            i = i + 1;
        }
        assert(lv.take(l@.len() as int) =~= lv);
        let global = self.moderation_system.is_protection_enabled();
        let a = text::concat("📊 Filter Stats: ", text::nat_decimal(l.len() as u64).as_str());
        let b = text::concat(a.as_str(), " total | ");
        let c = text::concat(b.as_str(), text::nat_decimal(enabled).as_str());
        let d = text::concat(c.as_str(), " enabled | ");
        let e = text::concat(d.as_str(), text::nat_decimal(total_violations).as_str());
        let f = text::concat(e.as_str(), " violations | Global: ");
        let g = text::concat(f.as_str(), if global { "ON" } else { "OFF" });
        text::concat(g.as_str(), " | Use !filterlist for details")
    }

    /// Run `!blacklist <args…>`; see `blacklist_outcome`.
    pub fn handle_blacklist_command(&mut self, args: &Vec<String>) -> (reply: String)
        requires
            old(self).moderation_system.wf(),
        ensures
            final(self).moderation_system.wf(),
            blacklist_outcome(old(self).moderation_system, final(self).moderation_system, texts(args@), reply@),
    {
        if args.len() == 0 {
            return text::owned("🚫 Blacklist Commands: !blacklist <add|remove|list> <pattern> | Supports: literal, wild*cards, ~/regex/flags");
        }
        assert(texts(args@)[0] == args@[0]@);
        let sub = text::to_lowercase(args[0].as_str());
        if text::same_text(sub.as_str(), "add") {
            if args.len() < 2 {
                return text::owned("Usage: !blacklist add <pattern> [timeout_seconds] [exemption_level]");
            }
            assert(texts(args@)[1] == args@[1]@);
            let pattern = args[1].clone();
            let timeout = number_arg_of(args, 2, u64::MAX, 600);
            let exemption = if args.len() > 3 {
                assert(texts(args@)[3] == args@[3]@);
                parse_exemption(args[3].as_str())
            } else {
                ExemptionLevel::Moderator
            };
            let name = blacklist_name_of(pattern.as_str());
            let mut patterns: Vec<String> = Vec::new();
            patterns.push(pattern.clone());
            assert(texts(patterns@) =~= seq![pattern@]);
            self.moderation_system.add_blacklist_filter(name.clone(), patterns, false, false, exemption, timeout,
                Some(text::owned("Blacklisted word/phrase detected")));
            let pc = text::chars_of(pattern.as_str());
            let tilde = text::chars_of("~/");
            let kind = if text::starts_with(pc.as_slice(), tilde.as_slice()) {
                "regex"
            } else if text::contains_char(pc.as_slice(), '*') {
                "wildcard"
            } else {
                "literal"
            };
            let a = text::concat("✅ Added ", kind);
            let b = text::concat(a.as_str(), " blacklist pattern: '");
            let c = text::concat(b.as_str(), pattern.as_str());
            let d = text::concat(c.as_str(), "' | Timeout: ");
            let e = text::concat(d.as_str(), text::nat_decimal(timeout).as_str());
            let f = text::concat(e.as_str(), "s | Filter: '");
            let g = text::concat(f.as_str(), name.as_str());
            text::concat(g.as_str(), "'")
        } else if text::same_text(sub.as_str(), "remove") {
            if args.len() < 2 {
                return text::owned("Usage: !blacklist remove <filter_name_or_pattern>");
            }
            assert(texts(args@)[1] == args@[1]@);
            let id = text::chars_of(args[1].as_str());
            let prefix = text::chars_of("blacklist_");
            let name = if text::starts_with(id.as_slice(), prefix.as_slice()) {
                args[1].clone()
            } else {
                blacklist_name_of(args[1].as_str())
            };
            if self.moderation_system.remove_filter(name.as_str()) {
                quoted_of("🗑️ Removed blacklist filter: ", name.as_str(), "")
            } else {
                quoted_of("❌ Blacklist filter ", name.as_str(), " not found")
            }
        } else if text::same_text(sub.as_str(), "list") {
            let l = self.moderation_system.list_filters();
            listing_reply(&l, true)
        } else {
            text::owned("❌ Unknown subcommand. Use: add, remove, list")
        }
    }

    /// Run `!filters <args…>` at `now`; see `filters_outcome`.
    pub fn handle_filters_command_at(&mut self, args: &Vec<String>, now: u64) -> (reply: String)
        requires
            old(self).moderation_system.wf(),
        ensures
            final(self).moderation_system.wf(),
            filters_outcome(old(self).moderation_system, final(self).moderation_system, texts(args@), now, reply@),
    {
        if args.len() == 0 {
            return text::owned("🛡️ Filter Commands: !filters <enable|disable|add|remove|list> | !blacklist <add|remove|list> <pattern> | !filterstats");
        }
        assert(texts(args@)[0] == args@[0]@);
        let sub = text::to_lowercase(args[0].as_str());
        let enable = text::same_text(sub.as_str(), "enable");
        if enable || text::same_text(sub.as_str(), "disable") {
            if args.len() < 2 {
                self.moderation_system.set_spam_protection_enabled(enable);
                if enable {
                    text::owned("✅ Global spam protection enabled")
                } else {
                    text::owned("⏸️ Global spam protection disabled")
                }
            } else {
                assert(texts(args@)[1] == args@[1]@);
                let name = args[1].as_str();
                if self.moderation_system.set_filter_enabled(name, enable) {
                    quoted_of(if enable { "✅ Filter " } else { "⏸️ Filter " }, name, if enable { " enabled" } else { " disabled" })
                } else {
                    quoted_of("❌ Filter ", name, " not found")
                }
            }
        } else if text::same_text(sub.as_str(), "add") {
            let rest = args_from(args, 1);
            assert(texts(args@).subrange(1, args@.len() as int) =~= texts(args@).drop_first());
            self.handle_add_filter_command_at(&rest, now)
        } else if text::same_text(sub.as_str(), "remove") {
            if args.len() < 2 {
                return text::owned("Usage: !filters remove <filter_name>");
            }
            assert(texts(args@)[1] == args@[1]@);
            let name = args[1].as_str();
            if self.moderation_system.remove_filter(name) {
                quoted_of("🗑️ Filter ", name, " removed")
            } else {
                quoted_of("❌ Filter ", name, " not found")
            }
        } else if text::same_text(sub.as_str(), "list") {
            self.handle_filter_list_command()
        } else {
            text::owned("❌ Unknown subcommand. Use: enable, disable, add, remove, list")
        }
    }

    /// Run `!filters add <args…>` at `now`; see `add_filter_outcome`.
    pub fn handle_add_filter_command_at(&mut self, args: &Vec<String>, now: u64) -> (reply: String)
        requires
            old(self).moderation_system.wf(),
        ensures
            final(self).moderation_system.wf(),
            add_filter_outcome(old(self).moderation_system, final(self).moderation_system, texts(args@), now, reply@),
    {
        if args.len() == 0 {
            return text::owned("Usage: !filters add <type> [options] | Types: caps, links, length, emotes, symbols, rate, repeat");
        }
        assert(texts(args@)[0] == args@[0]@);
        let kind = text::to_lowercase(args[0].as_str());
        let k = kind.as_str();
        let n1 = text::concat(k, "_");
        let name = text::concat(n1.as_str(), text::nat_decimal(now).as_str());
        let filter_type = if text::same_text(k, "caps") {
            SpamFilterType::ExcessiveCaps { max_percentage: number_arg_of(args, 1, 255, 70) as u8 }
        } else if text::same_text(k, "links") {
            let allow_mods = if args.len() > 1 {
                assert(texts(args@)[1] == args@[1]@);
                !text::same_text(args[1].as_str(), "false")
            } else {
                true
            };
            let whitelist = if args.len() > 2 {
                args_from(args, 2)
            } else {
                let w = vec![text::owned("discord.gg"), text::owned("youtube.com")];
                assert(texts(w@) =~= seq!["discord.gg"@, "youtube.com"@]);
                w
            };
            SpamFilterType::LinkBlocking { allow_mods, whitelist }
        } else if text::same_text(k, "length") {
            SpamFilterType::MessageLength { max_length: number_arg_of(args, 1, usize::MAX as u64, 500) as usize }
        } else if text::same_text(k, "emotes") {
            SpamFilterType::ExcessiveEmotes { max_count: number_arg_of(args, 1, 255, 10) as u8 }
        } else if text::same_text(k, "symbols") {
            SpamFilterType::SymbolSpam { max_percentage: number_arg_of(args, 1, 255, 50) as u8 }
        } else if text::same_text(k, "rate") {
            SpamFilterType::RateLimit {
                max_messages: number_arg_of(args, 1, 255, 5) as u8,
                window_seconds: number_arg_of(args, 2, u64::MAX, 30),
            }
        } else if text::same_text(k, "repeat") {
            SpamFilterType::RepeatedMessages {
                max_repeats: number_arg_of(args, 1, 255, 3) as u8,
                window_seconds: number_arg_of(args, 2, u64::MAX, 300),
            }
        } else {
            return text::owned("❌ Unknown filter type. Available: caps, links, length, emotes, symbols, rate, repeat");
        };
        let escalation = ModerationEscalation {
            first_offense: ModerationAction::WarnUser { message: text::owned("Please follow chat rules (first warning)") },
            repeat_offense: ModerationAction::TimeoutUser { duration_seconds: 600 },
            offense_window_seconds: 3600,
        };
        self.moderation_system.add_spam_filter_advanced(name.clone(), filter_type, escalation,
            ExemptionLevel::Moderator, false, None);
        let a = text::concat("✅ Added ", k);
        let b = text::concat(a.as_str(), " filter: '");
        let c = text::concat(b.as_str(), name.as_str());
        text::concat(c.as_str(), "'")
    }

    /// Run `!filters add <args…>` now, by the wall clock.
    pub fn handle_add_filter_command(&mut self, args: &Vec<String>) -> (reply: String)
        requires
            old(self).moderation_system.wf(),
        ensures
            final(self).moderation_system.wf(),
            exists|now: u64| #[trigger] add_filter_outcome(old(self).moderation_system, final(self).moderation_system,
                texts(args@), now, reply@),
    {
        let now = crate::clock::now_secs();
        self.handle_add_filter_command_at(args, now)
    }

    /// Run `!filters <args…>` now, by the wall clock.
    pub fn handle_filters_command(&mut self, args: &Vec<String>) -> (reply: String)
        requires
            old(self).moderation_system.wf(),
        ensures
            final(self).moderation_system.wf(),
            exists|now: u64| #[trigger] filters_outcome(old(self).moderation_system, final(self).moderation_system,
                texts(args@), now, reply@),
    {
        let now = crate::clock::now_secs();
        self.handle_filters_command_at(args, now)
    }
}

/// Adding a blacklist pattern and then removing it restores the filters:
/// in between, the pattern's enabled blacklist filter exists; afterwards the
/// filters are as before (when no filter of that name existed before, and
/// the pattern itself does not look like a filter name).
pub proof fn lemma_blacklist_add_then_remove(
    s0: ModerationSystem, s1: ModerationSystem, s2: ModerationSystem,
    add_args: Seq<Seq<char>>, remove_args: Seq<Seq<char>>, r1: Seq<char>, r2: Seq<char>,
)
    requires
        blacklist_outcome(s0, s1, add_args, r1),
        blacklist_outcome(s1, s2, remove_args, r2),
        add_args.len() >= 2,
        text::lowercase(add_args[0]) == "add"@,
        remove_args.len() >= 2,
        text::lowercase(remove_args[0]) == "remove"@,
        remove_args[1] == add_args[1],
        !text::seq_starts_with(add_args[1], "blacklist_"@),
        !s0.filters().dom().contains(blacklist_name(add_args[1])),
    ensures
        s1.filters().dom().contains(blacklist_name(add_args[1])),
        s1.filters()[blacklist_name(add_args[1])].enabled,
        s2.filters() == s0.filters(),
{
    reveal_strlit("add");
    reveal_strlit("remove");
    assert("add"@ != "remove"@) by {
        assert("add"@.len() != "remove"@.len());
    }
    let name = blacklist_name(add_args[1]);
    assert(blacklist_target(remove_args[1]) == name);
    assert(s2.filters() =~= s0.filters());
}

} // verus!
