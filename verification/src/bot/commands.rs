//! Chat commands: reading a command and its arguments out of a message,
//! custom commands with permissions and per-channel cooldowns, and the
//! variable substitution in their responses.

use vstd::prelude::*;
use crate::bot::types::{ChatMessage, texts};
use crate::bot::points_commands::joined_words;
use crate::bot::achievement_commands::join_words;
use crate::keyed::{keys_distinct, has_key, keyed_map, lemma_key_index_unique, lemma_keyed_update, lemma_keyed_push, lemma_keyed_empty};
use crate::text;

verus! {

/// The command a message invokes with prefix `prefix`, if any: the first
/// word after the prefix, lowercased, and the words after it.
pub open spec fn spec_parse_command(content: Seq<char>, prefix: Seq<char>) -> Option<(Seq<char>, Seq<Seq<char>>)> {
    if !text::seq_starts_with(content, prefix) {
        None
    } else {
        let ws = text::words(content.subrange(prefix.len() as int, content.len() as int));
        if ws.len() == 0 { None } else { Some((text::lowercase(ws[0]), ws.drop_first())) }
    }
}

/// The command `content` invokes with prefix `prefix`; see `spec_parse_command`.
pub fn parse_command(content: &str, prefix: &str) -> (r: Option<(String, Vec<String>)>)
    ensures
        match spec_parse_command(content@, prefix@) {
            None => r is None,
            Some((name, args)) => match r {
                Some((n, a)) => n@ == name && texts(a@) == args,
                None => false,
            },
        },
{
    let c = text::chars_of(content);
    let p = text::chars_of(prefix);
    if !text::starts_with(c.as_slice(), p.as_slice()) {
        return None;
    }
    let rest = text::slice(&c, p.len(), c.len());
    let ws = text::split_whitespace(rest.as_slice());
    if ws.len() == 0 {
        return None;
    }
    let name_chars = text::lowercase_chars(ws[0].as_slice());
    let name = text::string_from_chars(name_chars.as_slice());
    let mut args: Vec<String> = Vec::new();
    let ghost all = text::words(rest@);
    let mut k: usize = 1;
    while k < ws.len()
        invariant
            1 <= k <= ws@.len(),
            ws@.len() == all.len(),
            forall|j: int| 0 <= j < ws@.len() ==> #[trigger] ws@[j]@ == all[j],
            texts(args@) == all.subrange(1, k as int),
        decreases ws@.len() - k,
    {
        let ghost before = texts(args@);
        let w = text::string_from_chars(ws[k].as_slice());
        args.push(w);
        assert(texts(args@) =~= before.push(w@));
        assert(all.subrange(1, k + 1) =~= all.subrange(1, k as int).push(all[k as int]));
        k = k + 1;
    }
    assert(all.subrange(1, all.len() as int) =~= all.drop_first());
    Some((name, args))
}

/// A custom command.
pub struct BotCommand {
    pub trigger: String,
    pub response: String,
    pub mod_only: bool,
    pub cooldown_seconds: u64,
}

impl Clone for BotCommand {
    fn clone(&self) -> (r: Self)
        ensures
            r == *self,
    {
        BotCommand {
            trigger: self.trigger.clone(),
            response: self.response.clone(),
            mod_only: self.mod_only,
            cooldown_seconds: self.cooldown_seconds,
        }
    }
}

/// When a cooldown key was last used (seconds).
pub struct Cooldown {
    pub key: String,
    pub last_used: u64,
}

/// The arguments a message gives its command: its words after the first.
pub open spec fn message_args(content: Seq<char>) -> Seq<Seq<char>> {
    let ws = text::words(content);
    if ws.len() == 0 { Seq::empty() } else { ws.drop_first() }
}

/// Argument `i` (from 0), or nothing when there are fewer arguments.
pub open spec fn nth_arg(args: Seq<Seq<char>>, i: int) -> Seq<char> {
    if 0 <= i < args.len() { args[i] } else { Seq::empty() }
}

/// A response with its variables filled in: `$(user)`, `$(channel)`,
/// `$(displayname)` (the display name, or the user name), `$(platform)`,
/// then the message's arguments: `$(args)` (all of them, joined by single
/// spaces), `$(1)` and `$(2)` (the first and the second, or nothing).
pub open spec fn spec_fill_response(response: Seq<char>, m: ChatMessage) -> Seq<char> {
    let display = match m.display_name { Some(d) => d@, None => m.username@ };
    let args = message_args(m.content@);
    let named = text::replace_all(
        text::replace_all(
            text::replace_all(text::replace_all(response, "$(user)"@, m.username@), "$(channel)"@, m.channel@),
            "$(displayname)"@, display),
        "$(platform)"@, m.platform@);
    text::replace_all(
        text::replace_all(text::replace_all(named, "$(args)"@, joined_words(args)), "$(1)"@, nth_arg(args, 0)),
        "$(2)"@, nth_arg(args, 1))
}

/// The arguments `content` gives its command; see `message_args`.
fn message_args_of(content: &str) -> (r: Vec<String>)
    ensures
        texts(r@) == message_args(content@),
{
    let c = text::chars_of(content);
    let ws = text::split_whitespace(c.as_slice());
    let mut args: Vec<String> = Vec::new();
    if ws.len() == 0 {
        assert(texts(args@) =~= Seq::<Seq<char>>::empty());
        return args;
    }
    let ghost all = text::words(content@);
    let mut k: usize = 1;
    while k < ws.len()
        invariant
            1 <= k <= ws@.len(),
            ws@.len() == all.len(),
            forall|j: int| 0 <= j < ws@.len() ==> #[trigger] ws@[j]@ == all[j],
            texts(args@) == all.subrange(1, k as int),
        decreases ws@.len() - k,
    {
        let ghost before = texts(args@);
        let w = text::string_from_chars(ws[k].as_slice());
        args.push(w);
        assert(texts(args@) =~= before.push(w@));
        assert(all.subrange(1, k + 1) =~= all.subrange(1, k as int).push(all[k as int]));
        k = k + 1;
    }
    assert(all.subrange(1, all.len() as int) =~= all.drop_first());
    args
}

/// Argument `i` of `args`, or an empty string.
fn nth_arg_of(args: &Vec<String>, i: usize) -> (r: String)
    ensures
        r@ == nth_arg(texts(args@), i as int),
{
    if i < args.len() {
        text::owned(args[i].as_str())
    } else {
        proof {
            reveal_strlit("");
        }
        text::owned("")
    }
}

/// The key of a command's cooldown in a channel.
pub open spec fn cooldown_key(m: ChatMessage, name: Seq<char>) -> Seq<char> {
    m.platform@ + ":"@ + m.channel@ + ":"@ + name
}

/// Whether a command whose cooldown key was last used at `last` is still
/// cooling down at `now` (whole seconds elapsed below the cooldown).
pub open spec fn cooling_down(last: Option<u64>, now: u64, cooldown: u64) -> bool {
    match last {
        Some(t) => now - t < (cooldown as i64),
        None => false,
    }
}

/// The value under `k`, if any.
pub open spec fn lookup<V>(m: Map<Seq<char>, V>, k: Seq<char>) -> Option<V> {
    if m.dom().contains(k) { Some(m[k]) } else { None }
}

/// Whether `user` may run `command` at `now`: mod-only commands need a
/// moderator, and the command's cooldown in the user's channel (the one
/// that handling a message sets) must have passed.
pub open spec fn may_run(cooldowns: Map<Seq<char>, u64>, command: BotCommand, user: ChatMessage, now: u64) -> bool {
    !(command.mod_only && !user.is_mod) && !cooling_down(
        lookup(cooldowns, cooldown_key(user, command.trigger@)), now, command.cooldown_seconds)
}

/// The command that a message runs at `now`: it invokes a known command,
/// the sender may use it, and its cooldown in this channel has passed.
pub open spec fn command_to_run(
    commands: Map<Seq<char>, BotCommand>,
    cooldowns: Map<Seq<char>, u64>,
    prefix: Seq<char>,
    m: ChatMessage,
    now: u64,
) -> Option<Seq<char>> {
    match spec_parse_command(m.content@, prefix) {
        None => None,
        Some((name, _args)) => {
            if !commands.dom().contains(name) {
                None
            } else if commands[name].mod_only && !m.is_mod {
                None
            } else if cooling_down(lookup(cooldowns, cooldown_key(m, name)), now, commands[name].cooldown_seconds) {
                None
            } else {
                Some(name)
            }
        },
    }
}

pub open spec fn trigger_of() -> spec_fn(BotCommand) -> Seq<char> {
    |c: BotCommand| c.trigger@
}

pub open spec fn cooldown_key_of() -> spec_fn(Cooldown) -> Seq<char> {
    |c: Cooldown| c.key@
}

/// Custom commands, their cooldowns and the command prefix.
pub struct CommandSystem {
    commands: Vec<BotCommand>,
    command_cooldowns: Vec<Cooldown>,
    pub command_prefix: String,
}

impl CommandSystem {
    /// The commands by trigger.
    pub closed spec fn commands(&self) -> Map<Seq<char>, BotCommand> {
        keyed_map(self.commands@, trigger_of())
    }

    /// When each cooldown key was last used.
    pub closed spec fn cooldowns(&self) -> Map<Seq<char>, u64> {
        keyed_map(self.command_cooldowns@, cooldown_key_of()).map_values(|c: Cooldown| c.last_used)
    }

    /// The command prefix.
    pub closed spec fn prefix(&self) -> Seq<char> {
        self.command_prefix@
    }

    pub closed spec fn wf(&self) -> bool {
        keys_distinct(self.commands@, trigger_of()) && keys_distinct(self.command_cooldowns@, cooldown_key_of())
    }

    /// No commands, and the prefix `!`.
    pub fn new() -> (s: Self)
        ensures
            s.wf(),
            s.commands() == Map::<Seq<char>, BotCommand>::empty(),
            s.cooldowns() == Map::<Seq<char>, u64>::empty(),
            s.prefix() == "!"@,
    {
        let s = CommandSystem { commands: Vec::new(), command_cooldowns: Vec::new(), command_prefix: text::owned("!") };
        proof {
            lemma_keyed_empty(trigger_of());
            lemma_keyed_empty(cooldown_key_of());
        }
        assert(s.cooldowns() =~= Map::<Seq<char>, u64>::empty());
        s
    }

    /// The command prefix.
    pub fn get_command_prefix(&self) -> (r: &str)
        ensures
            r@ == self.prefix(),
    {
        self.command_prefix.as_str()
    }

    /// Set the command prefix.
    pub fn set_command_prefix(&mut self, prefix: String)
        ensures
            final(self).prefix() == prefix@,
            final(self).commands() == old(self).commands(),
            final(self).cooldowns() == old(self).cooldowns(),
            final(self).wf() == old(self).wf(),
    {
        self.command_prefix = prefix;
    }

    fn find_command(&self, trigger: &str) -> (r: Option<usize>)
        requires
            self.wf(),
        ensures
            match r {
                Some(i) => i < self.commands@.len() && self.commands().dom().contains(trigger@)
                    && self.commands()[trigger@] == self.commands@[i as int],
                None => !self.commands().dom().contains(trigger@),
            },
    {
        let mut i: usize = 0;
        while i < self.commands.len()
            invariant
                i <= self.commands@.len(),
                self.wf(),
                forall|j: int| 0 <= j < i ==> self.commands@[j].trigger@ != trigger@,
            decreases self.commands@.len() - i,
        {
            if text::same_text(self.commands[i].trigger.as_str(), trigger) {
                proof {
                    lemma_key_index_unique(self.commands@, trigger_of(), i as int);
                }
                return Some(i);
            }
            i = i + 1;
        }
        assert(!has_key(self.commands@, trigger_of(), trigger@));
        None
    }

    fn find_cooldown(&self, key: &str) -> (r: Option<usize>)
        requires
            self.wf(),
        ensures
            match r {
                Some(i) => i < self.command_cooldowns@.len() && self.cooldowns().dom().contains(key@)
                    && self.command_cooldowns@[i as int].key@ == key@
                    && self.cooldowns()[key@] == self.command_cooldowns@[i as int].last_used,
                None => !self.cooldowns().dom().contains(key@),
            },
    {
        let mut i: usize = 0;
        while i < self.command_cooldowns.len()
            invariant
                i <= self.command_cooldowns@.len(),
                self.wf(),
                forall|j: int| 0 <= j < i ==> self.command_cooldowns@[j].key@ != key@,
            decreases self.command_cooldowns@.len() - i,
        {
            if text::same_text(self.command_cooldowns[i].key.as_str(), key) {
                proof {
                    lemma_key_index_unique(self.command_cooldowns@, cooldown_key_of(), i as int);
                }
                return Some(i);
            }
            i = i + 1;
        }
        assert(!has_key(self.command_cooldowns@, cooldown_key_of(), key@));
        None
    }

    /// Register a command, replacing one with the same trigger.
    pub fn add_command(&mut self, trigger: String, response: String, mod_only: bool, cooldown_seconds: u64)
        requires
            old(self).wf(),
        ensures
            final(self).wf(),
            final(self).commands().dom() == old(self).commands().dom().insert(trigger@),
            final(self).commands()[trigger@] == (BotCommand { trigger, response, mod_only, cooldown_seconds }),
            forall|t: Seq<char>| t != trigger@ && #[trigger] old(self).commands().dom().contains(t)
                ==> final(self).commands()[t] == old(self).commands()[t],
            final(self).cooldowns() == old(self).cooldowns(),
            final(self).prefix() == old(self).prefix(),
    {
        let ghost c0 = self.commands@;
        let found = self.find_command(trigger.as_str());
        let cmd = BotCommand { trigger, response, mod_only, cooldown_seconds };
        let ghost cg = cmd;
        match found {
            Some(i) => {
                self.commands.set(i, cmd);
                proof {
                    lemma_keyed_update(c0, trigger_of(), i as int, cg);
                }
            },
            None => {
                self.commands.push(cmd);
                proof {
                    lemma_keyed_push(c0, trigger_of(), cg);
                }
            },
        }
    }

    /// Add a command whose response carries help text after `|HELP:`, when
    /// there is help text; see `add_command`.
    pub fn add_command_with_args(&mut self, trigger: String, response: String, mod_only: bool, cooldown_seconds: u64,
        help_text: Option<String>)
        requires
            old(self).wf(),
        ensures
            final(self).wf(),
            final(self).commands().dom() == old(self).commands().dom().insert(trigger@),
            final(self).commands()[trigger@].trigger@ == trigger@,
            final(self).commands()[trigger@].response@ == match help_text {
                Some(h) => response@ + "|HELP:"@ + h@,
                None => response@,
            },
            final(self).commands()[trigger@].mod_only == mod_only,
            final(self).commands()[trigger@].cooldown_seconds == cooldown_seconds,
            forall|t: Seq<char>| t != trigger@ && #[trigger] old(self).commands().dom().contains(t)
                ==> final(self).commands()[t] == old(self).commands()[t],
            final(self).cooldowns() == old(self).cooldowns(),
            final(self).prefix() == old(self).prefix(),
    {
        let full = match &help_text {
            Some(h) => {
                let a = text::concat(response.as_str(), "|HELP:");
                text::concat(a.as_str(), h.as_str())
            },
            None => response,
        };
        self.add_command(trigger, full, mod_only, cooldown_seconds);
    }

    /// The response of a command with its variables filled in.
    pub fn process_command_response(response: &str, message: &ChatMessage) -> (r: String)
        ensures
            r@ == spec_fill_response(response@, *message),
    {
        let display: &str = match &message.display_name {
            Some(d) => d.as_str(),
            None => message.username.as_str(),
        };
        proof {
            reveal_strlit("$(user)");
            reveal_strlit("$(channel)");
            reveal_strlit("$(displayname)");
            reveal_strlit("$(platform)");
        }
        let s0 = text::chars_of(response);
        let s1 = text::replace(s0.as_slice(), text::chars_of("$(user)").as_slice(), text::chars_of(message.username.as_str()).as_slice());
        let s2 = text::replace(s1.as_slice(), text::chars_of("$(channel)").as_slice(), text::chars_of(message.channel.as_str()).as_slice());
        let s3 = text::replace(s2.as_slice(), text::chars_of("$(displayname)").as_slice(), text::chars_of(display).as_slice());
        let s4 = text::replace(s3.as_slice(), text::chars_of("$(platform)").as_slice(), text::chars_of(message.platform.as_str()).as_slice());
        let args = message_args_of(message.content.as_str());
        let all = join_words(&args);
        let first = nth_arg_of(&args, 0);
        let second = nth_arg_of(&args, 1);
        proof {
            reveal_strlit("$(args)");
            reveal_strlit("$(1)");
            reveal_strlit("$(2)");
        }
        let s5 = text::replace(s4.as_slice(), text::chars_of("$(args)").as_slice(), text::chars_of(all.as_str()).as_slice());
        let s6 = text::replace(s5.as_slice(), text::chars_of("$(1)").as_slice(), text::chars_of(first.as_str()).as_slice());
        let s7 = text::replace(s6.as_slice(), text::chars_of("$(2)").as_slice(), text::chars_of(second.as_str()).as_slice());
        text::string_from_chars(s7.as_slice())
    }

    /// Record that cooldown key `key` was used at `now`.
    fn set_cooldown(&mut self, key: String, now: u64)
        requires
            old(self).wf(),
        ensures
            final(self).wf(),
            final(self).cooldowns() == old(self).cooldowns().insert(key@, now),
            final(self).commands() == old(self).commands(),
            final(self).prefix() == old(self).prefix(),
    {
        let ghost c0 = self.command_cooldowns@;
        let ghost k = key@;
        let found = self.find_cooldown(key.as_str());
        let entry = Cooldown { key, last_used: now };
        let ghost eg = entry;
        match found {
            Some(i) => {
                self.command_cooldowns.set(i, entry);
                proof {
                    lemma_keyed_update(c0, cooldown_key_of(), i as int, eg);
                }
            },
            None => {
                assert(!keyed_map(c0, cooldown_key_of()).dom().contains(k));
                self.command_cooldowns.push(entry);
                proof {
                    lemma_keyed_push(c0, cooldown_key_of(), eg);
                }
            },
        }
        assert(self.cooldowns() =~= old(self).cooldowns().insert(k, now));
    }

    /// What handling message `m` at `now` does: when it runs a command, the
    /// reply `(platform, channel, text)` and the cooldown set to `now`;
    /// otherwise no reply and no change.
    pub open spec fn handled(
        before: CommandSystem,
        after: CommandSystem,
        m: ChatMessage,
        now: u64,
        r: Option<(String, String, String)>,
    ) -> bool {
        &&& after.commands() == before.commands()
        &&& after.prefix() == before.prefix()
        &&& match command_to_run(before.commands(), before.cooldowns(), before.prefix(), m, now) {
            None => r is None && after.cooldowns() == before.cooldowns(),
            Some(name) => {
                &&& match r {
                    Some((platform, channel, reply)) => platform@ == m.platform@ && channel@ == m.channel@
                        && reply@ == spec_fill_response(before.commands()[name].response@, m),
                    None => false,
                }
                &&& after.cooldowns() == before.cooldowns().insert(cooldown_key(m, name), now)
            },
        }
    }

    /// Handle a chat message at `now` (seconds since the epoch); see `handled`.
    pub fn process_message_at(&mut self, message: &ChatMessage, now: u64) -> (r: Option<(String, String, String)>)
        requires
            old(self).wf(),
        ensures
            final(self).wf(),
            Self::handled(*old(self), *final(self), *message, now, r),
    {
        let parsed = parse_command(message.content.as_str(), self.command_prefix.as_str());
        let name = match parsed {
            None => {
                return None;
            },
            Some((name, _args)) => name,
        };
        let i = match self.find_command(name.as_str()) {
            None => {
                return None;
            },
            Some(i) => i,
        };
        let cmd = self.commands[i].clone();
        if cmd.mod_only && !message.is_mod {
            return None;
        }
        let k1 = text::concat(message.platform.as_str(), ":");
        let k2 = text::concat(k1.as_str(), message.channel.as_str());
        let k3 = text::concat(k2.as_str(), ":");
        let key = text::concat(k3.as_str(), name.as_str());
        assert(key@ == cooldown_key(*message, name@));
        match self.find_cooldown(key.as_str()) {
            Some(j) => {
                let last = self.command_cooldowns[j].last_used;
                if (now as i128) - (last as i128) < (cmd.cooldown_seconds as i64) as i128 {
                    return None;
                }
            },
            None => {},
        }
        self.set_cooldown(key, now);
        let response = Self::process_command_response(cmd.response.as_str(), message);
        Some((message.platform.clone(), message.channel.clone(), response))
    }

    /// Handle a chat message now, by the wall clock; see `handled`.
    pub fn process_message(&mut self, message: &ChatMessage) -> (r: Option<(String, String, String)>)
        requires
            old(self).wf(),
        ensures
            final(self).wf(),
            exists|now: u64| #[trigger] Self::handled(*old(self), *final(self), *message, now, r),
    {
        let now = crate::clock::now_secs();
        self.process_message_at(message, now)
    }

    /// Whether `user` may run `command` at `now`: mod-only commands need a
    /// moderator, and the command's cooldown in the user's channel must have
    /// passed; see `may_run`.
    pub fn can_execute_command_at(&self, command: &BotCommand, user: &ChatMessage, now: u64) -> (b: bool)
        requires
            self.wf(),
        ensures
            b == may_run(self.cooldowns(), *command, *user, now),
    {
        if command.mod_only && !user.is_mod {
            return false;
        }
        let k1 = text::concat(user.platform.as_str(), ":");
        let k2 = text::concat(k1.as_str(), user.channel.as_str());
        let k3 = text::concat(k2.as_str(), ":");
        let key = text::concat(k3.as_str(), command.trigger.as_str());
        assert(key@ == cooldown_key(*user, command.trigger@));
        match self.find_cooldown(key.as_str()) {
            Some(j) => {
                let last = self.command_cooldowns[j].last_used;
                !((now as i128) - (last as i128) < (command.cooldown_seconds as i64) as i128)
            },
            None => true,
        }
    }

    /// Whether `user` may run `command` now, by the wall clock: never a
    /// mod-only command for a non-moderator; otherwise always when its
    /// cooldown key was never used.
    pub fn can_execute_command(&self, command: &BotCommand, user: &ChatMessage) -> (b: bool)
        requires
            self.wf(),
        ensures
            command.mod_only && !user.is_mod ==> !b,
            !(command.mod_only && !user.is_mod)
                && !self.cooldowns().dom().contains(cooldown_key(*user, command.trigger@)) ==> b,
            exists|now: u64| b == #[trigger] may_run(self.cooldowns(), *command, *user, now),
    {
        let now = crate::clock::now_secs();
        self.can_execute_command_at(command, user, now)
    }
}

/// Cooldowns hold: once a command has run in a channel, the same command
/// in the same channel on the same platform gets no response until its
/// cooldown has passed.
pub proof fn lemma_cooldown_blocks_repeat(
    s0: CommandSystem, s1: CommandSystem, s2: CommandSystem,
    m1: ChatMessage, m2: ChatMessage, t1: u64, t2: u64, name: Seq<char>,
    r1: Option<(String, String, String)>, r2: Option<(String, String, String)>,
)
    requires
        CommandSystem::handled(s0, s1, m1, t1, r1),
        r1 is Some,
        CommandSystem::handled(s1, s2, m2, t2, r2),
        spec_parse_command(m1.content@, s0.prefix()) matches Some((n, _)) && n == name,
        spec_parse_command(m2.content@, s0.prefix()) matches Some((n, _)) && n == name,
        m2.platform@ == m1.platform@,
        m2.channel@ == m1.channel@,
        t2 - t1 < (s0.commands()[name].cooldown_seconds as i64),
    ensures
        r2 is None,
{
    assert(command_to_run(s0.commands(), s0.cooldowns(), s0.prefix(), m1, t1) == Some(name));
    assert(cooldown_key(m2, name) == cooldown_key(m1, name));
    assert(lookup(s1.cooldowns(), cooldown_key(m2, name)) == Some(t1));
}

/// Asking whether a command may run sees the cooldown that running it set:
/// once a message has run a command, the same command is refused to a user
/// in the same channel on the same platform until its cooldown has passed.
pub proof fn lemma_can_execute_sees_cooldown(
    s0: CommandSystem, s1: CommandSystem, m: ChatMessage, t1: u64, r1: Option<(String, String, String)>,
    command: BotCommand, user: ChatMessage, t2: u64,
)
    requires
        CommandSystem::handled(s0, s1, m, t1, r1),
        r1 is Some,
        spec_parse_command(m.content@, s0.prefix()) matches Some((n, _)) && n == command.trigger@,
        user.platform@ == m.platform@,
        user.channel@ == m.channel@,
        t2 - t1 < (command.cooldown_seconds as i64),
    ensures
        !may_run(s1.cooldowns(), command, user, t2),
{
    assert(command_to_run(s0.commands(), s0.cooldowns(), s0.prefix(), m, t1) == Some(command.trigger@));
    assert(cooldown_key(user, command.trigger@) == cooldown_key(m, command.trigger@));
    assert(lookup(s1.cooldowns(), cooldown_key(user, command.trigger@)) == Some(t1));
}

} // verus!
