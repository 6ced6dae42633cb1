//! The real-time filter analytics: the counts of triggers, true and false
//! positives and missed violations that each filter accumulates, and the
//! vocabulary of changes, reports, reviews, suggestions, alerts and
//! recommendations. The rates and scores derived from the counts are
//! computed by the application around the library.

use vstd::prelude::*;
use crate::keyed::{keys_distinct, has_key, keyed_map, lemma_key_index_unique, lemma_keyed_update, lemma_keyed_push, lemma_keyed_empty};
use crate::text;

verus! {

/// How a filter's target behaviour changed.
#[derive(Clone, Copy, Debug, PartialEq, Eq, Structural)]
pub enum PatternChangeType {
    /// Users found new ways around the filter.
    NewEvasionTechnique,
    /// Natural language changed.
    LanguageEvolution,
    /// The filter's effectiveness changed in different contexts.
    ContextShift,
    /// Thresholds need adjusting.
    ParameterDrift,
}

/// What a user reported about a moderation decision.
#[derive(Clone, Copy, Debug, PartialEq, Eq, Structural)]
pub enum UserReportType {
    FalsePositive,
    MissedViolation,
    TooHarsh,
    Appeal,
}

/// Why a moderator reviewed a filter.
#[derive(Clone, Copy, Debug, PartialEq, Eq, Structural)]
pub enum ModeratorReviewType {
    RoutineAudit,
    FalsePositiveReview,
    EffectivenessCheck,
    UserComplaintReview,
}

/// A kind of filter optimization.
#[derive(Clone, Copy, Debug, PartialEq, Eq, Structural)]
pub enum OptimizationType {
    AdjustThreshold,
    AddException,
    ImprovePattern,
    ReduceScope,
    IncreaseScope,
    ReplaceAlgorithm,
    RemoveFilter,
}

/// How hard a suggested change is to make.
#[derive(Clone, Copy, Debug, PartialEq, Eq, Structural)]
pub enum Difficulty {
    /// Can be applied automatically.
    Trivial,
    /// A simple configuration change.
    Easy,
    /// Needs testing.
    Moderate,
    /// Needs significant changes.
    Hard,
    /// Needs specialized knowledge.
    Expert,
}

/// How urgent an alert is.
#[derive(Clone, Copy, Debug, PartialEq, Eq, Structural)]
pub enum AlertSeverity {
    Critical,
    Warning,
    Performance,
    Info,
}

/// An alert about a filter.
pub struct Alert {
    pub severity: AlertSeverity,
    pub filter_id: String,
    pub message: String,
    pub action_required: bool,
}

/// A kind of improvement open to a filter.
#[derive(Clone, Copy, Debug, PartialEq, Eq, Structural)]
pub enum OptimizationOpportunityType {
    ImproveAccuracy,
    ReduceFalsePositives,
    ImprovePerformance,
    ReduceComplexity,
}

/// How urgent a recommendation is.
#[derive(Clone, Copy, Debug, PartialEq, Eq, Structural)]
pub enum RecommendationPriority {
    Critical,
    High,
    Medium,
    Low,
}

/// A recommendation for the whole moderation system.
pub struct SystemRecommendation {
    pub priority: RecommendationPriority,
    pub category: String,
    pub title: String,
    pub description: String,
    pub action_items: Vec<String>,
}

/// The counts behind a filter's effectiveness.
#[derive(Clone, Copy, Debug, PartialEq, Eq, Structural)]
pub struct TriggerCounts {
    pub total_triggers: u64,
    pub true_positives: u64,
    pub false_positives: u64,
    /// Violations users reported as missed.
    pub false_negatives: u64,
}

/// The counts after a trigger, a true positive or not.
pub open spec fn after_trigger(c: TriggerCounts, is_true_positive: bool) -> TriggerCounts {
    TriggerCounts {
        total_triggers: (c.total_triggers + 1) as u64,
        true_positives: if is_true_positive { (c.true_positives + 1) as u64 } else { c.true_positives },
        false_positives: if is_true_positive { c.false_positives } else { (c.false_positives + 1) as u64 },
        false_negatives: c.false_negatives,
    }
}

/// The counts after a user's report: a false positive moves a true
/// positive, if any, to the false ones (or adds a false one); a missed
/// violation adds a false negative; other reports count nothing.
pub open spec fn after_report(c: TriggerCounts, t: UserReportType) -> TriggerCounts {
    match t {
        UserReportType::FalsePositive => TriggerCounts {
            false_positives: (c.false_positives + 1) as u64,
            true_positives: if c.true_positives > 0 { (c.true_positives - 1) as u64 } else { 0 },
            ..c
        },
        UserReportType::MissedViolation => TriggerCounts { false_negatives: (c.false_negatives + 1) as u64, ..c },
        _ => c,
    }
}

/// Counts that could have been reached: no more true positives than
/// triggers, and every trigger a true or a false positive.
pub open spec fn counts_consistent(c: TriggerCounts) -> bool {
    c.true_positives <= c.total_triggers && c.total_triggers <= c.true_positives + c.false_positives
}

impl TriggerCounts {
    pub fn new() -> (c: Self)
        ensures
            c == (TriggerCounts { total_triggers: 0, true_positives: 0, false_positives: 0, false_negatives: 0 }),
    {
        TriggerCounts { total_triggers: 0, true_positives: 0, false_positives: 0, false_negatives: 0 }
    }

    /// Count a trigger; see `after_trigger`.
    pub fn record_trigger(&mut self, is_true_positive: bool)
        requires
            old(self).total_triggers < u64::MAX,
            old(self).true_positives < u64::MAX,
            old(self).false_positives < u64::MAX,
        ensures
            *final(self) == after_trigger(*old(self), is_true_positive),
    {
        self.total_triggers = self.total_triggers + 1;
        if is_true_positive {
            self.true_positives = self.true_positives + 1;
        } else {
            self.false_positives = self.false_positives + 1;
        }
    }

    /// Count a user's report; see `after_report`.
    pub fn record_report(&mut self, report_type: UserReportType)
        requires
            old(self).false_positives < u64::MAX,
            old(self).false_negatives < u64::MAX,
        ensures
            *final(self) == after_report(*old(self), report_type),
    {
        match report_type {
            UserReportType::FalsePositive => {
                self.false_positives = self.false_positives + 1;
                if self.true_positives > 0 {
                    self.true_positives = self.true_positives - 1;
                }
            },
            UserReportType::MissedViolation => {
                self.false_negatives = self.false_negatives + 1;
            },
            _ => {},
        }
    }
}

/// Counting keeps the counts consistent: from consistent counts, a trigger
/// and a user's report each give consistent counts.
pub proof fn lemma_counts_stay_consistent(c: TriggerCounts, is_true_positive: bool, t: UserReportType)
    requires
        counts_consistent(c),
        c.total_triggers < u64::MAX,
        c.true_positives < u64::MAX,
        c.false_positives < u64::MAX,
        c.false_negatives < u64::MAX,
    ensures
        counts_consistent(after_trigger(c, is_true_positive)),
        counts_consistent(after_report(c, t)),
{
}

/// Whether every filter's counts are consistent.
pub open spec fn all_consistent(m: Map<Seq<char>, TriggerCounts>) -> bool {
    forall|k: Seq<char>| #[trigger] m.dom().contains(k) ==> counts_consistent(m[k])
}

/// The analytics stay consistent: counting a trigger of a filter (new or
/// not) or a user's report on a filter keeps every filter's counts
/// consistent.
pub proof fn lemma_registry_stays_consistent(m: Map<Seq<char>, TriggerCounts>, id: Seq<char>, is_true_positive: bool,
    t: UserReportType)
    requires
        all_consistent(m),
        m.dom().contains(id) ==> {
            let c = m[id];
            c.total_triggers < u64::MAX && c.true_positives < u64::MAX && c.false_positives < u64::MAX
                && c.false_negatives < u64::MAX
        },
    ensures
        all_consistent(m.insert(id, after_trigger(
            if m.dom().contains(id) { m[id] }
            else { TriggerCounts { total_triggers: 0, true_positives: 0, false_positives: 0, false_negatives: 0 } },
            is_true_positive))),
        m.dom().contains(id) ==> all_consistent(m.insert(id, after_report(m[id], t))),
{
    let zero = TriggerCounts { total_triggers: 0, true_positives: 0, false_positives: 0, false_negatives: 0 };
    let base = if m.dom().contains(id) { m[id] } else { zero };
    assert(counts_consistent(base));
    lemma_counts_stay_consistent(base, is_true_positive, t);
}

/// The analytics kept for one filter.
pub struct FilterCounts {
    pub filter_id: String,
    pub filter_type: String,
    pub counts: TriggerCounts,
}

pub open spec fn filter_id_of() -> spec_fn(FilterCounts) -> Seq<char> {
    |f: FilterCounts| f.filter_id@
}

/// The counts of every filter that triggered, by filter id, and the
/// messages and violations counted over all filters.
pub struct FilterAnalyticsSystem {
    pub filters: Vec<FilterCounts>,
    pub total_messages_processed: u64,
    pub total_violations_detected: u64,
}

impl FilterAnalyticsSystem {
    /// The counts by filter id.
    pub closed spec fn counts(&self) -> Map<Seq<char>, TriggerCounts> {
        keyed_map(self.filters@, filter_id_of()).map_values(|f: FilterCounts| f.counts)
    }

    /// The kind of each filter, by id.
    pub closed spec fn kinds(&self) -> Map<Seq<char>, Seq<char>> {
        keyed_map(self.filters@, filter_id_of()).map_values(|f: FilterCounts| f.filter_type@)
    }

    pub closed spec fn wf(&self) -> bool {
        keys_distinct(self.filters@, filter_id_of())
    }

    pub fn new() -> (s: Self)
        ensures
            s.wf(),
            s.counts() == Map::<Seq<char>, TriggerCounts>::empty(),
            s.kinds() == Map::<Seq<char>, Seq<char>>::empty(),
            s.total_messages_processed == 0,
            s.total_violations_detected == 0,
    {
        proof {
            lemma_keyed_empty(filter_id_of());
        }
        let s = FilterAnalyticsSystem { filters: Vec::new(), total_messages_processed: 0, total_violations_detected: 0 };
        assert(s.counts() =~= Map::<Seq<char>, TriggerCounts>::empty());
        assert(s.kinds() =~= Map::<Seq<char>, Seq<char>>::empty());
        s
    }

    fn find(&self, filter_id: &str) -> (r: Option<usize>)
        requires
            self.wf(),
        ensures
            match r {
                Some(i) => i < self.filters@.len() && self.filters@[i as int].filter_id@ == filter_id@
                    && keyed_map(self.filters@, filter_id_of()).dom().contains(filter_id@)
                    && keyed_map(self.filters@, filter_id_of())[filter_id@] == self.filters@[i as int],
                None => !keyed_map(self.filters@, filter_id_of()).dom().contains(filter_id@),
            },
    {
        let mut i: usize = 0;
        while i < self.filters.len()
            invariant
                i <= self.filters@.len(),
                self.wf(),
                forall|j: int| 0 <= j < i ==> self.filters@[j].filter_id@ != filter_id@,
            decreases self.filters@.len() - i,
        {
            if text::same_text(self.filters[i].filter_id.as_str(), filter_id) {
                proof {
                    lemma_key_index_unique(self.filters@, filter_id_of(), i as int);
                }
                return Some(i);
            }
            i = i + 1;
        }
        assert(!has_key(self.filters@, filter_id_of(), filter_id@));
        None
    }

    /// The counts of a filter, if it ever triggered.
    pub fn get_filter_counts(&self, filter_id: &str) -> (r: Option<TriggerCounts>)
        requires
            self.wf(),
        ensures
            match r {
                Some(c) => self.counts().dom().contains(filter_id@) && c == self.counts()[filter_id@],
                None => !self.counts().dom().contains(filter_id@),
            },
    {
        match self.find(filter_id) {
            Some(i) => Some(self.filters[i].counts),
            None => None,
        }
    }

    /// Count a trigger of filter `filter_id` of kind `filter_type`, first
    /// counted with no triggers if it never triggered: its counts go on by
    /// `after_trigger`, one more message is counted, and one more violation
    /// for a true positive.
    pub fn record_trigger(&mut self, filter_id: &str, filter_type: &str, is_true_positive: bool)
        requires
            old(self).wf(),
            old(self).total_messages_processed < u64::MAX,
            old(self).total_violations_detected < u64::MAX,
            old(self).counts().dom().contains(filter_id@) ==> {
                let c = old(self).counts()[filter_id@];
                c.total_triggers < u64::MAX && c.true_positives < u64::MAX && c.false_positives < u64::MAX
            },
        ensures
            final(self).wf(),
            final(self).counts() == old(self).counts().insert(filter_id@, after_trigger(
                if old(self).counts().dom().contains(filter_id@) { old(self).counts()[filter_id@] }
                else { TriggerCounts { total_triggers: 0, true_positives: 0, false_positives: 0, false_negatives: 0 } },
                is_true_positive)),
            final(self).kinds() == if old(self).kinds().dom().contains(filter_id@) { old(self).kinds() }
                else { old(self).kinds().insert(filter_id@, filter_type@) },
            final(self).total_messages_processed == old(self).total_messages_processed + 1,
            final(self).total_violations_detected == old(self).total_violations_detected
                + if is_true_positive { 1int } else { 0int },
    {
        let ghost s0 = self.filters@;
        match self.find(filter_id) {
            Some(i) => {
                let mut f = self.filters.remove(i);
                f.counts.record_trigger(is_true_positive);
                let ghost fg = f;
                self.filters.insert(i, f);
                assert(self.filters@ =~= s0.update(i as int, fg));
                proof {
                    lemma_keyed_update(s0, filter_id_of(), i as int, fg);
                }
            },
            None => {
                let mut c = TriggerCounts::new();
                c.record_trigger(is_true_positive);
                let f = FilterCounts { filter_id: text::owned(filter_id), filter_type: text::owned(filter_type), counts: c };
                let ghost fg = f;
                self.filters.push(f);
                proof {
                    lemma_keyed_push(s0, filter_id_of(), fg);
                }
            },
        }
        self.total_messages_processed = self.total_messages_processed + 1;
        if is_true_positive {
            self.total_violations_detected = self.total_violations_detected + 1;
        }
        assert(self.counts() =~= old(self).counts().insert(filter_id@, after_trigger(
            if old(self).counts().dom().contains(filter_id@) { old(self).counts()[filter_id@] }
            else { TriggerCounts { total_triggers: 0, true_positives: 0, false_positives: 0, false_negatives: 0 } },
            is_true_positive)));
        assert(self.kinds() =~= if old(self).kinds().dom().contains(filter_id@) { old(self).kinds() }
            else { old(self).kinds().insert(filter_id@, filter_type@) });
    }

    /// Count a user's report on filter `filter_id` by `after_report`; a
    /// filter that never triggered is not counted, and the answer says
    /// whether it was.
    pub fn record_user_report(&mut self, filter_id: &str, report_type: UserReportType) -> (found: bool)
        requires
            old(self).wf(),
            old(self).counts().dom().contains(filter_id@) ==> {
                let c = old(self).counts()[filter_id@];
                c.false_positives < u64::MAX && c.false_negatives < u64::MAX
            },
        ensures
            final(self).wf(),
            found == old(self).counts().dom().contains(filter_id@),
            final(self).counts() == if found {
                old(self).counts().insert(filter_id@, after_report(old(self).counts()[filter_id@], report_type))
            } else {
                old(self).counts()
            },
            final(self).kinds() == old(self).kinds(),
            final(self).total_messages_processed == old(self).total_messages_processed,
            final(self).total_violations_detected == old(self).total_violations_detected,
    {
        let ghost s0 = self.filters@;
        match self.find(filter_id) {
            Some(i) => {
                let mut f = self.filters.remove(i);
                f.counts.record_report(report_type);
                let ghost fg = f;
                self.filters.insert(i, f);
                assert(self.filters@ =~= s0.update(i as int, fg));
                proof {
                    lemma_keyed_update(s0, filter_id_of(), i as int, fg);
                }
                assert(self.counts() =~= old(self).counts().insert(filter_id@,
                    after_report(old(self).counts()[filter_id@], report_type)));
                assert(self.kinds() =~= old(self).kinds());
                true
            },
            None => false,
        }
    }
}

} // verus!
