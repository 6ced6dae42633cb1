//! What moderation remembers of each user: their recent messages and the
//! violations recorded against them, and who a message's sender counts as
//! for the filters' exemptions.

use vstd::prelude::*;
use crate::bot::types::{ChatMessage, ModerationAction, user_key};
use crate::bot::moderation::{ModerationSystem, SentMessage, ViolationRecord, Exemptions, spec_update_history,
    update_user_history, percentages_fit};
use crate::keyed::{keys_distinct, has_key, keyed_map, lemma_key_index_unique, lemma_keyed_update, lemma_keyed_push, lemma_keyed_empty};
use crate::text;

verus! {

/// Whether the badges hold the broadcaster's badge.
pub open spec fn has_broadcaster_badge(badges: Seq<String>) -> bool {
    exists|i: int| 0 <= i < badges.len() && #[trigger] badges[i]@ == "broadcaster"@
}

/// Under which exemption levels the sender of `m` is exempt: each level
/// covers those who hold it or a higher one. The owner carries the
/// broadcaster's badge; moderators rank above regulars and subscribers; a
/// regular is one the caller counts as such.
pub open spec fn spec_exemptions(m: ChatMessage, regular: bool) -> Exemptions {
    let owner = has_broadcaster_badge(m.user_badges@);
    let moderator = m.is_mod || owner;
    Exemptions {
        owner,
        moderator,
        regular: regular || moderator,
        subscriber: m.is_subscriber || moderator,
    }
}

/// See `spec_exemptions`.
pub fn exemptions_for(m: &ChatMessage, regular: bool) -> (e: Exemptions)
    ensures
        e == spec_exemptions(*m, regular),
{
    proof {
        reveal_strlit("broadcaster");
    }
    let mut owner = false;
    let mut i: usize = 0;
    while i < m.user_badges.len()
        invariant
            i <= m.user_badges@.len(),
            owner == exists|j: int| 0 <= j < i && #[trigger] m.user_badges@[j]@ == "broadcaster"@,
        decreases m.user_badges@.len() - i,
    {
        if text::same_text(m.user_badges[i].as_str(), "broadcaster") {
            owner = true;
        }
        i = i + 1;
    }
    let moderator = m.is_mod || owner;
    Exemptions { owner, moderator, regular: regular || moderator, subscriber: m.is_subscriber || moderator }
}

/// A user's recent messages and recorded violations.
pub struct UserRecord {
    pub key: String,
    pub messages: Vec<SentMessage>,
    pub violations: Vec<ViolationRecord>,
}

pub open spec fn record_key() -> spec_fn(UserRecord) -> Seq<char> {
    |r: UserRecord| r.key@
}

/// The users' recent messages and violations, by `platform:username`.
pub struct UserHistories {
    records: Vec<UserRecord>,
}

impl UserHistories {
    /// Each user's recent messages, by user key.
    pub closed spec fn messages(&self) -> Map<Seq<char>, Seq<SentMessage>> {
        keyed_map(self.records@, record_key()).map_values(|r: UserRecord| r.messages@)
    }

    /// Each user's recorded violations, by user key.
    pub closed spec fn violations(&self) -> Map<Seq<char>, Seq<ViolationRecord>> {
        keyed_map(self.records@, record_key()).map_values(|r: UserRecord| r.violations@)
    }

    /// Every user is kept once.
    pub closed spec fn wf(&self) -> bool {
        keys_distinct(self.records@, record_key())
    }

    /// The recent messages of `k`, none for a user not seen.
    pub open spec fn messages_of(&self, k: Seq<char>) -> Seq<SentMessage> {
        if self.messages().dom().contains(k) { self.messages()[k] } else { Seq::empty() }
    }

    /// The violations of `k`, none for a user not seen.
    pub open spec fn violations_of(&self, k: Seq<char>) -> Seq<ViolationRecord> {
        if self.violations().dom().contains(k) { self.violations()[k] } else { Seq::empty() }
    }

    /// No user seen yet.
    pub fn new() -> (h: Self)
        ensures
            h.wf(),
            h.messages() == Map::<Seq<char>, Seq<SentMessage>>::empty(),
            h.violations() == Map::<Seq<char>, Seq<ViolationRecord>>::empty(),
    {
        let h = UserHistories { records: Vec::new() };
        proof {
            lemma_keyed_empty(record_key());
        }
        assert(h.messages() =~= Map::<Seq<char>, Seq<SentMessage>>::empty());
        assert(h.violations() =~= Map::<Seq<char>, Seq<ViolationRecord>>::empty());
        h
    }

    fn find(&self, key: &str) -> (r: Option<usize>)
        requires
            self.wf(),
        ensures
            match r {
                Some(i) => i < self.records@.len() && self.records@[i as int].key@ == key@
                    && keyed_map(self.records@, record_key()).dom().contains(key@)
                    && keyed_map(self.records@, record_key())[key@] == self.records@[i as int],
                None => !keyed_map(self.records@, record_key()).dom().contains(key@),
            },
    {
        let mut i: usize = 0;
        while i < self.records.len()
            invariant
                i <= self.records@.len(),
                self.wf(),
                forall|j: int| 0 <= j < i ==> self.records@[j].key@ != key@,
            decreases self.records@.len() - i,
        {
            if text::same_text(self.records[i].key.as_str(), key) {
                proof {
                    lemma_key_index_unique(self.records@, record_key(), i as int);
                }
                return Some(i);
            }
            i = i + 1;
        }
        assert(!has_key(self.records@, record_key(), key@));
        None
    }

    /// Take the record of `key` out (an empty one for a user not seen).
    fn take(&mut self, key: &str) -> (r: (UserRecord, Option<usize>))
        requires
            old(self).wf(),
        ensures
            r.0.key@ == key@,
            r.0.messages@ == old(self).messages_of(key@),
            r.0.violations@ == old(self).violations_of(key@),
            match r.1 {
                Some(i) => i < old(self).records@.len() && final(self).records@.len() == old(self).records@.len()
                    && (forall|j: int| 0 <= j < old(self).records@.len() && j != i ==> final(self).records@[j] == old(self).records@[j])
                    && old(self).records@[i as int].key@ == key@,
                None => final(self).records@ == old(self).records@ && !keyed_map(old(self).records@, record_key()).dom().contains(key@),
            },
    {
        match self.find(key) {
            Some(i) => {
                let mut rec = UserRecord { key: String::new(), messages: Vec::new(), violations: Vec::new() };
                self.records.set_and_swap(i, &mut rec);
                (rec, Some(i))
            },
            None => (UserRecord { key: text::owned(key), messages: Vec::new(), violations: Vec::new() }, None),
        }
    }

    /// Put back a record taken out by `take`.
    fn put(&mut self, rec: UserRecord, slot: Option<usize>, Ghost(before): Ghost<Seq<UserRecord>>)
        requires
            keys_distinct(before, record_key()),
            match slot {
                Some(i) => i < before.len() && old(self).records@.len() == before.len()
                    && (forall|j: int| 0 <= j < before.len() && j != i ==> old(self).records@[j] == before[j])
                    && before[i as int].key@ == rec.key@,
                None => old(self).records@ == before && !keyed_map(before, record_key()).dom().contains(rec.key@),
            },
        ensures
            final(self).wf(),
            keyed_map(final(self).records@, record_key()) == keyed_map(before, record_key()).insert(rec.key@, rec),
    {
        let ghost r = rec;
        match slot {
            Some(i) => {
                self.records.set(i, rec);
                proof {
                    assert(self.records@ =~= before.update(i as int, r));
                    lemma_keyed_update(before, record_key(), i as int, r);
                }
            },
            None => {
                self.records.push(rec);
                proof {
                    lemma_keyed_push(before, record_key(), r);
                }
            },
        }
    }

    /// Record `message` in its sender's history at `now` (seconds), then
    /// check it against `moderation`'s filters with the sender's recent
    /// messages and recorded violations; see `checked`. Other users are left
    /// as they were.
    pub fn record_and_check_at(
        &mut self,
        moderation: &ModerationSystem,
        message: &ChatMessage,
        exemptions: &Exemptions,
        now: i64,
    ) -> (r: Option<ModerationAction>)
        requires
            old(self).wf(),
            moderation.wf(),
            percentages_fit(message.content@),
            message.content@.len() * 8 <= usize::MAX,
        ensures
            final(self).wf(),
            ({
                let k = user_key(message.platform@, message.username@);
                let h = spec_update_history(old(self).messages_of(k),
                    SentMessage { timestamp: message.timestamp, content: message.content }, now);
                &&& final(self).messages() == old(self).messages().insert(k, h)
                &&& final(self).violations() == old(self).violations().insert(k, final(self).violations_of(k))
                &&& moderation.checked(*message, h, old(self).violations_of(k), final(self).violations_of(k),
                    *exemptions, now, r)
            }),
    {
        let key = crate::bot::types::make_user_key(message.platform.as_str(), message.username.as_str());
        let ghost before = self.records@;
        let (mut rec, slot) = self.take(key.as_str());
        update_user_history(&mut rec.messages, message.timestamp, message.content.clone(), now);
        let r = moderation.check_spam_filters_at(message, &rec.messages, &mut rec.violations, exemptions, now);
        let ghost rg = rec;
        self.put(rec, slot, Ghost(before));
        proof {
            let m0 = keyed_map(before, record_key());
            assert(self.messages() =~= m0.map_values(|x: UserRecord| x.messages@).insert(key@, rg.messages@));
            assert(self.violations() =~= m0.map_values(|x: UserRecord| x.violations@).insert(key@, rg.violations@));
        }
        r
    }
}

} // verus!
