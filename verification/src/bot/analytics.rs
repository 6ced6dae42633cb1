//! Per-channel and per-command usage statistics, kept from the bot's
//! analytics events.

use vstd::prelude::*;
use crate::bot::types::{ChatMessage, make_user_key, user_key, texts};
use crate::keyed::{keys_distinct, has_key, keyed_map, lemma_key_index_unique, lemma_keyed_update, lemma_keyed_push, lemma_keyed_empty};
use crate::text;

verus! {

/// What the bot reports to its analytics.
pub enum AnalyticsEvent {
    MessageReceived(ChatMessage),
    CommandExecuted { command: String, user: String, channel: String },
    SpamBlocked(ChatMessage),
    CooldownHit { command: String, user: String },
}

/// Statistics of one channel.
pub struct ChannelStats {
    pub total_messages: u64,
    /// The users seen, each once, as `platform:username`.
    pub unique_users: Vec<String>,
    pub commands_executed: u64,
    pub spam_messages_blocked: u64,
}

/// Statistics of one command.
pub struct CommandStats {
    pub usage_count: u64,
    /// Last use, in seconds since the epoch.
    pub last_used: u64,
    /// The users who ran it, each once.
    pub unique_users: Vec<String>,
    pub cooldown_hits: u64,
}

/// Mathematical view of a channel's statistics.
pub struct ChannelView {
    pub total_messages: u64,
    pub unique_users: Seq<Seq<char>>,
    pub commands_executed: u64,
    pub spam_messages_blocked: u64,
}

/// Mathematical view of a command's statistics.
pub struct CommandView {
    pub usage_count: u64,
    pub last_used: u64,
    pub unique_users: Seq<Seq<char>>,
    pub cooldown_hits: u64,
}

pub open spec fn channel_view(c: ChannelStats) -> ChannelView {
    ChannelView {
        total_messages: c.total_messages,
        unique_users: texts(c.unique_users@),
        commands_executed: c.commands_executed,
        spam_messages_blocked: c.spam_messages_blocked,
    }
}

pub open spec fn command_view(c: CommandStats) -> CommandView {
    CommandView {
        usage_count: c.usage_count,
        last_used: c.last_used,
        unique_users: texts(c.unique_users@),
        cooldown_hits: c.cooldown_hits,
    }
}

/// `s` with `x` added at the end unless it is there already.
pub open spec fn add_once(s: Seq<Seq<char>>, x: Seq<char>) -> Seq<Seq<char>> {
    if s.contains(x) { s } else { s.push(x) }
}

/// The key of a channel: platform, a colon, and channel.
pub open spec fn channel_key(platform: Seq<char>, channel: Seq<char>) -> Seq<char> {
    platform + ":"@ + channel
}

pub open spec fn first_of<T>() -> spec_fn((String, T)) -> Seq<char> {
    |e: (String, T)| e.0@
}

fn push_once(v: &mut Vec<String>, x: &str)
    ensures
        texts(final(v)@) == add_once(texts(old(v)@), x@),
{
    let mut i: usize = 0;
    while i < v.len()
        invariant
            i <= v@.len(),
            *v == *old(v),
            forall|k: int| 0 <= k < i ==> v@[k]@ != x@,
        decreases v@.len() - i,
    {
        if text::same_text(v[i].as_str(), x) {
            assert(texts(v@)[i as int] == x@);
            return;
        }
        i = i + 1;
    }
    assert(!texts(v@).contains(x@)) by {
        assert forall|k: int| 0 <= k < texts(v@).len() implies texts(v@)[k] != x@ by {
            assert(texts(v@)[k] == v@[k]@);
        }
    }
    let ghost before = texts(v@);
    v.push(text::owned(x));
    assert(texts(v@) =~= before.push(x@));
}

fn find_entry<T>(v: &Vec<(String, T)>, key: &str) -> (r: Option<usize>)
    requires
        keys_distinct(v@, first_of::<T>()),
    ensures
        match r {
            Some(i) => i < v@.len() && v@[i as int].0@ == key@ && keyed_map(v@, first_of::<T>()).dom().contains(key@)
                && keyed_map(v@, first_of::<T>())[key@] == v@[i as int],
            None => !keyed_map(v@, first_of::<T>()).dom().contains(key@),
        },
{
    let mut i: usize = 0;
    while i < v.len()
        invariant
            i <= v@.len(),
            keys_distinct(v@, first_of::<T>()),
            forall|k: int| 0 <= k < i ==> v@[k].0@ != key@,
        decreases v@.len() - i,
    {
        if text::same_text(v[i].0.as_str(), key) {
            proof {
                lemma_key_index_unique(v@, first_of::<T>(), i as int);
            }
            return Some(i);
        }
        i = i + 1;
    }
    assert(!has_key(v@, first_of::<T>(), key@));
    None
}

/// Channel and command statistics.
pub struct AnalyticsSystem {
    channel_stats: Vec<(String, ChannelStats)>,
    command_stats: Vec<(String, CommandStats)>,
}

impl AnalyticsSystem {
    /// The statistics of each channel, by `platform:channel`.
    pub closed spec fn channels(&self) -> Map<Seq<char>, ChannelView> {
        keyed_map(self.channel_stats@, first_of::<ChannelStats>()).map_values(|e: (String, ChannelStats)| channel_view(e.1))
    }

    /// The statistics of each command, by name.
    pub closed spec fn commands(&self) -> Map<Seq<char>, CommandView> {
        keyed_map(self.command_stats@, first_of::<CommandStats>()).map_values(|e: (String, CommandStats)| command_view(e.1))
    }

    pub closed spec fn wf(&self) -> bool {
        keys_distinct(self.channel_stats@, first_of::<ChannelStats>())
            && keys_distinct(self.command_stats@, first_of::<CommandStats>())
    }

    /// No statistics yet.
    pub fn new() -> (s: Self)
        ensures
            s.wf(),
            s.channels() == Map::<Seq<char>, ChannelView>::empty(),
            s.commands() == Map::<Seq<char>, CommandView>::empty(),
    {
        proof {
            lemma_keyed_empty(first_of::<ChannelStats>());
            lemma_keyed_empty(first_of::<CommandStats>());
        }
        let s = AnalyticsSystem { channel_stats: Vec::new(), command_stats: Vec::new() };
        assert(s.channels() =~= Map::<Seq<char>, ChannelView>::empty());
        assert(s.commands() =~= Map::<Seq<char>, CommandView>::empty());
        s
    }

    /// The statistics of a channel before an event: as recorded, or all zero.
    pub open spec fn channel_or_new(&self, key: Seq<char>) -> ChannelView {
        if self.channels().dom().contains(key) {
            self.channels()[key]
        } else {
            ChannelView { total_messages: 0, unique_users: Seq::empty(), commands_executed: 0, spam_messages_blocked: 0 }
        }
    }

    /// Whether a channel's counters can still count one more.
    pub open spec fn channel_room(&self, key: Seq<char>) -> bool {
        self.channel_or_new(key).total_messages < u64::MAX && self.channel_or_new(key).spam_messages_blocked < u64::MAX
    }

    fn update_channel(&mut self, key: String, message_user: Option<String>)
        requires
            old(self).wf(),
            old(self).channel_room(key@),
        ensures
            final(self).wf(),
            final(self).commands() == old(self).commands(),
            final(self).channels() == old(self).channels().insert(key@, match message_user {
                Some(u) => ChannelView {
                    total_messages: (old(self).channel_or_new(key@).total_messages + 1) as u64,
                    unique_users: add_once(old(self).channel_or_new(key@).unique_users, u@),
                    ..old(self).channel_or_new(key@)
                },
                None => ChannelView {
                    spam_messages_blocked: (old(self).channel_or_new(key@).spam_messages_blocked + 1) as u64,
                    ..old(self).channel_or_new(key@)
                },
            }),
    {
        let ghost s0 = self.channel_stats@;
        let ghost k = key@;
        let ghost c0 = self.channel_or_new(key@);
        let found = find_entry(&self.channel_stats, key.as_str());
        let mut stats = match found {
            Some(i) => {
                let (name, st) = self.channel_stats.remove(i);
                assert(self.channel_stats@ =~= s0.remove(i as int));
                st
            },
            None => ChannelStats { total_messages: 0, unique_users: Vec::new(), commands_executed: 0, spam_messages_blocked: 0 },
        };
        assert(channel_view(stats) == c0) by {
            if found is None {
                assert(texts(stats.unique_users@) =~= Seq::<Seq<char>>::empty());
            }
        }
        match &message_user {
            Some(u) => {
                stats.total_messages = stats.total_messages + 1;
                push_once(&mut stats.unique_users, u.as_str());
            },
            None => {
                stats.spam_messages_blocked = stats.spam_messages_blocked + 1;
            },
        }
        let entry = (key, stats);
        let ghost eg = entry;
        match found {
            Some(i) => {
                self.channel_stats.insert(i, entry);
                assert(self.channel_stats@ =~= s0.update(i as int, eg));
                proof {
                    lemma_keyed_update(s0, first_of::<ChannelStats>(), i as int, eg);
                }
            },
            None => {
                self.channel_stats.push(entry);
                proof {
                    lemma_keyed_push(s0, first_of::<ChannelStats>(), eg);
                }
            },
        }
        assert(self.channels() =~= old(self).channels().insert(k, channel_view(eg.1)));
    }

    /// A message was received: its channel counts one more message and knows
    /// its sender.
    pub fn process_message_event(&mut self, message: &ChatMessage)
        requires
            old(self).wf(),
            old(self).channel_room(channel_key(message.platform@, message.channel@)),
        ensures
            final(self).wf(),
            final(self).commands() == old(self).commands(),
            ({
                let key = channel_key(message.platform@, message.channel@);
                let c = old(self).channel_or_new(key);
                final(self).channels() == old(self).channels().insert(key, ChannelView {
                    total_messages: (c.total_messages + 1) as u64,
                    unique_users: add_once(c.unique_users, user_key(message.platform@, message.username@)),
                    ..c
                })
            }),
    {
        let a = text::concat(message.platform.as_str(), ":");
        let key = text::concat(a.as_str(), message.channel.as_str());
        let user = make_user_key(message.platform.as_str(), message.username.as_str());
        self.update_channel(key, Some(user));
    }

    /// Spam was blocked: its channel counts one more blocked message.
    pub fn process_spam_event(&mut self, message: &ChatMessage)
        requires
            old(self).wf(),
            old(self).channel_room(channel_key(message.platform@, message.channel@)),
        ensures
            final(self).wf(),
            final(self).commands() == old(self).commands(),
            ({
                let key = channel_key(message.platform@, message.channel@);
                let c = old(self).channel_or_new(key);
                final(self).channels() == old(self).channels().insert(key, ChannelView {
                    spam_messages_blocked: (c.spam_messages_blocked + 1) as u64,
                    ..c
                })
            }),
    {
        let a = text::concat(message.platform.as_str(), ":");
        let key = text::concat(a.as_str(), message.channel.as_str());
        self.update_channel(key, None);
    }

    /// The statistics of a command before an event, given the time: as
    /// recorded, or all zero and used now.
    pub open spec fn command_or_new(&self, name: Seq<char>, now: u64) -> CommandView {
        if self.commands().dom().contains(name) {
            self.commands()[name]
        } else {
            CommandView { usage_count: 0, last_used: now, unique_users: Seq::empty(), cooldown_hits: 0 }
        }
    }

    /// A command ran at `now` (seconds) for `user`: it counts one more use,
    /// was last used now, and knows the user.
    pub fn process_command_event_at(&mut self, command: &str, user: &str, now: u64)
        requires
            old(self).wf(),
            old(self).command_or_new(command@, now).usage_count < u64::MAX,
        ensures
            final(self).wf(),
            final(self).channels() == old(self).channels(),
            ({
                let c = old(self).command_or_new(command@, now);
                final(self).commands() == old(self).commands().insert(command@, CommandView {
                    usage_count: (c.usage_count + 1) as u64,
                    last_used: now,
                    unique_users: add_once(c.unique_users, user@),
                    ..c
                })
            }),
    {
        let ghost s0 = self.command_stats@;
        let ghost c0 = self.command_or_new(command@, now);
        let found = find_entry(&self.command_stats, command);
        let mut stats = match found {
            Some(i) => {
                let (name, st) = self.command_stats.remove(i);
                assert(self.command_stats@ =~= s0.remove(i as int));
                st
            },
            None => CommandStats { usage_count: 0, last_used: now, unique_users: Vec::new(), cooldown_hits: 0 },
        };
        assert(command_view(stats) == c0) by {
            if found is None {
                assert(texts(stats.unique_users@) =~= Seq::<Seq<char>>::empty());
            }
        }
        stats.usage_count = stats.usage_count + 1;
        stats.last_used = now;
        push_once(&mut stats.unique_users, user);
        let entry = (text::owned(command), stats);
        let ghost eg = entry;
        match found {
            Some(i) => {
                self.command_stats.insert(i, entry);
                assert(self.command_stats@ =~= s0.update(i as int, eg));
                proof {
                    lemma_keyed_update(s0, first_of::<CommandStats>(), i as int, eg);
                }
            },
            None => {
                self.command_stats.push(entry);
                proof {
                    lemma_keyed_push(s0, first_of::<CommandStats>(), eg);
                }
            },
        }
        assert(self.commands() =~= old(self).commands().insert(command@, command_view(eg.1)));
    }

    /// A command ran now, by the wall clock.
    pub fn process_command_event(&mut self, command: &str, user: &str)
        requires
            old(self).wf(),
            forall|now: u64| old(self).command_or_new(command@, now).usage_count < u64::MAX,
        ensures
            final(self).wf(),
            final(self).channels() == old(self).channels(),
            final(self).commands().dom() == old(self).commands().dom().insert(command@),
            final(self).commands()[command@].usage_count == old(self).command_or_new(command@, 0).usage_count + 1,
            final(self).commands()[command@].unique_users
                == add_once(old(self).command_or_new(command@, 0).unique_users, user@),
    {
        let now = crate::clock::now_secs();
        self.process_command_event_at(command, user, now);
    }

    /// A user hit a command's cooldown: a known command counts one more hit.
    pub fn process_cooldown_event(&mut self, command: &str)
        requires
            old(self).wf(),
            old(self).commands().dom().contains(command@) ==> old(self).commands()[command@].cooldown_hits < u64::MAX,
        ensures
            final(self).wf(),
            final(self).channels() == old(self).channels(),
            old(self).commands().dom().contains(command@) ==> final(self).commands() == old(self).commands().insert(command@,
                CommandView { cooldown_hits: (old(self).commands()[command@].cooldown_hits + 1) as u64, ..old(self).commands()[command@] }),
            !old(self).commands().dom().contains(command@) ==> final(self).commands() == old(self).commands(),
    {
        let ghost s0 = self.command_stats@;
        match find_entry(&self.command_stats, command) {
            Some(i) => {
                let (name, mut st) = self.command_stats.remove(i);
                assert(self.command_stats@ =~= s0.remove(i as int));
                st.cooldown_hits = st.cooldown_hits + 1;
                let entry = (name, st);
                let ghost eg = entry;
                self.command_stats.insert(i, entry);
                assert(self.command_stats@ =~= s0.update(i as int, eg));
                proof {
                    lemma_keyed_update(s0, first_of::<CommandStats>(), i as int, eg);
                }
                assert(self.commands() =~= old(self).commands().insert(command@, command_view(eg.1)));
            },
            None => {},
        }
    }
}

} // verus!
