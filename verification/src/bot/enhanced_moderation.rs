//! How the enhanced moderation weighs a message: which checks it tripped,
//! how severe the violation is, whether escalation applies, and the action
//! taken.

use vstd::prelude::*;
use crate::bot::types::{ModerationAction, ActionView, ChatMessage, texts};
use crate::bot::pattern_matching::{AdvancedPattern, matching_names, matching_pattern_names};
use crate::bot::realtime_analytics::{FilterAnalyticsSystem, TriggerCounts, after_trigger};
use crate::bot::moderation::{ModerationSystem, SentMessage, ViolationRecord, Exemptions, percentages_fit};
use crate::text;

verus! {

/// How serious a violation is, from the least.
#[derive(Clone, Copy, Debug, PartialEq, Eq, Structural)]
pub enum ViolationSeverity {
    Minor,
    Moderate,
    Major,
    Severe,
}

/// Position of a severity, from the least.
pub open spec fn severity_rank(s: ViolationSeverity) -> nat {
    match s {
        ViolationSeverity::Minor => 0,
        ViolationSeverity::Moderate => 1,
        ViolationSeverity::Major => 2,
        ViolationSeverity::Severe => 3,
    }
}

fn rank_of(s: ViolationSeverity) -> (r: u8)
    ensures
        r == severity_rank(s),
{
    match s {
        ViolationSeverity::Minor => 0,
        ViolationSeverity::Moderate => 1,
        ViolationSeverity::Major => 2,
        ViolationSeverity::Severe => 3,
    }
}

/// The severity a base filter's action shows: a warning is minor; a timeout
/// under five minutes moderate, under an hour major, else severe; anything
/// else moderate.
pub open spec fn spec_action_severity(a: ActionView) -> ViolationSeverity {
    match a {
        ActionView::WarnUser(_) => ViolationSeverity::Minor,
        ActionView::TimeoutUser(d) => if d < 300 {
            ViolationSeverity::Moderate
        } else if d < 3600 {
            ViolationSeverity::Major
        } else {
            ViolationSeverity::Severe
        },
        _ => ViolationSeverity::Moderate,
    }
}

/// The severity a base filter's action shows; see `spec_action_severity`.
pub fn action_severity(a: &ModerationAction) -> (s: ViolationSeverity)
    ensures
        s == spec_action_severity(a@),
{
    match a {
        ModerationAction::WarnUser { .. } => ViolationSeverity::Minor,
        ModerationAction::TimeoutUser { duration_seconds } => {
            if *duration_seconds < 300 {
                ViolationSeverity::Moderate
            } else if *duration_seconds < 3600 {
                ViolationSeverity::Major
            } else {
                ViolationSeverity::Severe
            }
        },
        _ => ViolationSeverity::Moderate,
    }
}

/// What the checks found in a message.
pub struct Assessment {
    /// The checks tripped: the advanced patterns matched, then the base
    /// filters when they flagged the message.
    pub triggered_filters: Vec<String>,
    pub advanced_patterns: Vec<String>,
    pub severity: ViolationSeverity,
    /// Escalation applies to several checks tripped or to a major violation.
    pub escalation_applied: bool,
}

/// The checks tripped by a message, given the advanced patterns it matched
/// and the base filters' action, if they flagged it.
pub open spec fn spec_triggered(patterns: Seq<Seq<char>>, base: Option<ActionView>) -> Seq<Seq<char>> {
    match base {
        Some(_) => patterns.push("base_moderation"@),
        None => patterns,
    }
}

/// The severity of a message: minor, moderate when an advanced pattern
/// matched, and at least what the base filters' action shows.
pub open spec fn spec_severity(patterns: Seq<Seq<char>>, base: Option<ActionView>) -> ViolationSeverity {
    let p = if patterns.len() > 0 { ViolationSeverity::Moderate } else { ViolationSeverity::Minor };
    match base {
        Some(a) => if severity_rank(spec_action_severity(a)) > severity_rank(p) { spec_action_severity(a) } else { p },
        None => p,
    }
}

/// Assess a message from the advanced patterns it matched and the base
/// filters' action: nothing when neither found anything.
pub fn assess_violation(pattern_matches: &Vec<String>, base_action: &Option<ModerationAction>) -> (r: Option<Assessment>)
    ensures
        pattern_matches@.len() == 0 && base_action is None ==> r is None,
        pattern_matches@.len() > 0 || base_action is Some ==> (r matches Some(a) && {
            let base = match base_action { Some(b) => Some(b@), None => None::<ActionView> };
            &&& texts(a.triggered_filters@) == spec_triggered(texts(pattern_matches@), base)
            &&& texts(a.advanced_patterns@) == texts(pattern_matches@)
            &&& a.severity == spec_severity(texts(pattern_matches@), base)
            &&& a.escalation_applied == (spec_triggered(texts(pattern_matches@), base).len() > 1
                || severity_rank(a.severity) >= 2)
        }),
{
    if pattern_matches.len() == 0 && base_action.is_none() {
        return None;
    }
    let mut triggered = crate::bot::types::copy_texts(pattern_matches);
    let advanced = crate::bot::types::copy_texts(pattern_matches);
    let mut severity = if pattern_matches.len() > 0 { ViolationSeverity::Moderate } else { ViolationSeverity::Minor };
    match base_action {
        Some(b) => {
            let ghost before = texts(triggered@);
            triggered.push(text::owned("base_moderation"));
            assert(texts(triggered@) =~= before.push("base_moderation"@));
            let s = action_severity(b);
            if rank_of(s) > rank_of(severity) {
                severity = s;
            }
        },
        None => {},
    }
    let escalation_applied = triggered.len() > 1 || rank_of(severity) >= 2;
    Some(Assessment { triggered_filters: triggered, advanced_patterns: advanced, severity, escalation_applied })
}

/// The action taken on an assessed message: the escalated action when
/// escalation applies; otherwise the base filters' action, or a warning.
pub open spec fn spec_final_action(escalation_applied: bool, escalated: ActionView, base: Option<ActionView>) -> ActionView {
    if escalation_applied {
        escalated
    } else {
        match base {
            Some(b) => b,
            None => ActionView::WarnUser("Please follow chat rules"@),
        }
    }
}

/// The action taken on an assessed message; see `spec_final_action`.
pub fn final_action(a: &Assessment, escalated: ModerationAction, base_action: Option<ModerationAction>) -> (r: ModerationAction)
    ensures
        r@ == spec_final_action(a.escalation_applied, escalated@,
            match base_action { Some(b) => Some(b@), None => None::<ActionView> }),
{
    if a.escalation_applied {
        escalated
    } else {
        match base_action {
            Some(b) => b,
            None => ModerationAction::WarnUser { message: text::owned("Please follow chat rules") },
        }
    }
}

// ---------------------------------------------------------------------------
// Checking a message
// ---------------------------------------------------------------------------

/// What the enhanced check decided about a message.
pub struct EnhancedOutcome {
    pub action: ModerationAction,
    pub triggered_filters: Vec<String>,
    pub advanced_patterns: Vec<String>,
    pub escalation_applied: bool,
    pub severity: ViolationSeverity,
}

/// The result of checking a message: nothing found; a decision; or an
/// assessment on which escalation applies, whose action the escalation
/// policy picks (see `final_action`).
pub enum EnhancedCheck {
    Clean,
    Decided(EnhancedOutcome),
    Escalate(Assessment),
}

/// The base filters' action as a view.
pub open spec fn action_view(a: Option<ModerationAction>) -> Option<ActionView> {
    match a {
        Some(b) => Some(b@),
        None => None,
    }
}

/// Whether escalation applies to a message with these pattern matches and
/// base action: several checks tripped, or a major violation.
pub open spec fn spec_escalates(patterns: Seq<Seq<char>>, base: Option<ActionView>) -> bool {
    spec_triggered(patterns, base).len() > 1 || severity_rank(spec_severity(patterns, base)) >= 2
}

/// `a` is the assessment of a message with these pattern matches and base
/// action.
pub open spec fn assessment_is(a: Assessment, patterns: Seq<Seq<char>>, base: Option<ActionView>) -> bool {
    &&& texts(a.triggered_filters@) == spec_triggered(patterns, base)
    &&& texts(a.advanced_patterns@) == patterns
    &&& a.severity == spec_severity(patterns, base)
    &&& a.escalation_applied == spec_escalates(patterns, base)
}

/// What checking a message does, given the names of the advanced patterns
/// it matched and what the base filters decided. With the enhanced features
/// off, the base filters alone decide (reported as `base_filter`,
/// moderate). Otherwise the pattern matches and the base verdict are
/// assessed: nothing found is clean; where escalation applies, the
/// assessment is handed on; else the base filters' action is taken (a
/// first offense gets the filter's first-offense action), or a warning
/// when only patterns matched.
pub open spec fn enhanced_check_ok(
    enabled: bool,
    patterns: Seq<Seq<char>>,
    first: Option<ModerationAction>,
    r: EnhancedCheck,
) -> bool {
    if !enabled {
        match first {
            None => r is Clean,
            Some(a) => r matches EnhancedCheck::Decided(o) && o.action@ == a@
                && texts(o.triggered_filters@) == seq!["base_filter"@]
                && o.advanced_patterns@.len() == 0
                && !o.escalation_applied
                && o.severity == ViolationSeverity::Moderate,
        }
    } else {
        let base = action_view(first);
        if patterns.len() == 0 && first is None {
            r is Clean
        } else if spec_escalates(patterns, base) {
            r matches EnhancedCheck::Escalate(a) && assessment_is(a, patterns, base)
        } else {
            r matches EnhancedCheck::Decided(o)
                && o.action@ == spec_final_action(false, ActionView::LogOnly, base)
                && texts(o.triggered_filters@) == spec_triggered(patterns, base)
                && texts(o.advanced_patterns@) == patterns
                && !o.escalation_applied
                && o.severity == spec_severity(patterns, base)
        }
    }
}

/// The counts of a filter, zero for one that never triggered.
pub open spec fn counts_or_zero(m: Map<Seq<char>, TriggerCounts>, k: Seq<char>) -> TriggerCounts {
    if m.dom().contains(k) {
        m[k]
    } else {
        TriggerCounts { total_triggers: 0, true_positives: 0, false_positives: 0, false_negatives: 0 }
    }
}

/// The filter counts after each of `names` triggered once more, as a true
/// positive, in order.
pub open spec fn counts_after_triggers(m: Map<Seq<char>, TriggerCounts>, names: Seq<Seq<char>>) -> Map<Seq<char>, TriggerCounts>
    decreases names.len(),
{
    if names.len() == 0 {
        m
    } else {
        let c = counts_after_triggers(m, names.drop_last());
        c.insert(names.last(), after_trigger(counts_or_zero(c, names.last()), true))
    }
}

/// The filter kinds after each of `names` triggered, a filter first seen
/// being of kind `enhanced_filter`.
pub open spec fn kinds_after_triggers(k: Map<Seq<char>, Seq<char>>, names: Seq<Seq<char>>) -> Map<Seq<char>, Seq<char>>
    decreases names.len(),
{
    if names.len() == 0 {
        k
    } else {
        let c = kinds_after_triggers(k, names.drop_last());
        if c.dom().contains(names.last()) { c } else { c.insert(names.last(), "enhanced_filter"@) }
    }
}

/// Whether the analytics can count `n` more triggers of any filters.
pub open spec fn analytics_room(a: FilterAnalyticsSystem, n: nat) -> bool {
    &&& a.total_messages_processed + n <= u64::MAX
    &&& a.total_violations_detected + n <= u64::MAX
    &&& forall|k: Seq<char>| #[trigger] a.counts().dom().contains(k) ==> {
        &&& a.counts()[k].total_triggers + n <= u64::MAX
        &&& a.counts()[k].true_positives + n <= u64::MAX
        &&& a.counts()[k].false_positives < u64::MAX
    }
}

proof fn lemma_counts_grow(m: Map<Seq<char>, TriggerCounts>, names: Seq<Seq<char>>, k: Seq<char>)
    ensures
        m.dom().contains(k) ==> counts_after_triggers(m, names).dom().contains(k),
        counts_after_triggers(m, names).dom().contains(k) ==> m.dom().contains(k) || names.contains(k),
        counts_after_triggers(m, names).dom().contains(k) ==> {
            let c = counts_after_triggers(m, names)[k];
            let c0 = counts_or_zero(m, k);
            &&& c.total_triggers <= c0.total_triggers + names.len()
            &&& c.true_positives <= c0.true_positives + names.len()
            &&& c.false_positives == c0.false_positives
        },
    decreases names.len(),
{
    if names.len() > 0 {
        lemma_counts_grow(m, names.drop_last(), k);
        if names.last() == k {
            assert(names.contains(k)) by {
                assert(names[names.len() - 1] == k);
            }
        } else {
            if names.drop_last().contains(k) {
                let j = choose|j: int| 0 <= j < names.drop_last().len() && names.drop_last()[j] == k;
                assert(names[j] == k);
            }
        }
    }
}

proof fn matching_names_len(ps: Seq<AdvancedPattern>, text: Seq<char>)
    ensures
        matching_names(ps, text).len() <= ps.len(),
{
    ps.filter_lemma(|p: AdvancedPattern| crate::bot::pattern_matching::pattern_matches(p, text));
}

/// Count each of `names` as a true-positive trigger of an enhanced filter;
/// see `counts_after_triggers`.
fn record_triggers(analytics: &mut FilterAnalyticsSystem, names: &Vec<String>)
    requires
        old(analytics).wf(),
        analytics_room(*old(analytics), names@.len()),
    ensures
        final(analytics).wf(),
        final(analytics).counts() == counts_after_triggers(old(analytics).counts(), texts(names@)),
        final(analytics).kinds() == kinds_after_triggers(old(analytics).kinds(), texts(names@)),
        final(analytics).total_messages_processed == old(analytics).total_messages_processed + names@.len(),
        final(analytics).total_violations_detected == old(analytics).total_violations_detected + names@.len(),
{
    let ghost a0 = *analytics;
    let ghost ns = texts(names@);
    let mut i: usize = 0;
    assert(ns.take(0) =~= Seq::<Seq<char>>::empty());
    while i < names.len()
        invariant
            i <= names@.len(),
            ns == texts(names@),
            analytics.wf(),
            analytics_room(a0, names@.len()),
            analytics.counts() == counts_after_triggers(a0.counts(), ns.take(i as int)),
            analytics.kinds() == kinds_after_triggers(a0.kinds(), ns.take(i as int)),
            analytics.total_messages_processed == a0.total_messages_processed + i,
            analytics.total_violations_detected == a0.total_violations_detected + i,
        decreases names@.len() - i,
    {
        let ghost k = names@[i as int]@;
        proof {
            lemma_counts_grow(a0.counts(), ns.take(i as int), k);
            assert(ns.take(i + 1).drop_last() =~= ns.take(i as int));
            assert(ns.take(i + 1).last() == k);
            if analytics.counts().dom().contains(k) && !a0.counts().dom().contains(k) {
                assert(counts_or_zero(a0.counts(), k).total_triggers == 0);
            }
        }
        analytics.record_trigger(names[i].as_str(), "enhanced_filter", true);
        proof {
            reveal_strlit("enhanced_filter");
        }
        i = i + 1;
    }
    assert(ns.take(names@.len() as int) =~= ns);
}

/// What checking a message did to the filter analytics: with the enhanced
/// features on and something found, each check tripped is counted once more
/// as a true-positive trigger; otherwise nothing.
pub open spec fn triggers_recorded(
    a0: FilterAnalyticsSystem,
    a1: FilterAnalyticsSystem,
    enabled: bool,
    names: Seq<Seq<char>>,
    first: Option<ModerationAction>,
    r: EnhancedCheck,
) -> bool {
    if enabled && !(r is Clean) {
        let t = spec_triggered(names, action_view(first));
        &&& a1.counts() == counts_after_triggers(a0.counts(), t)
        &&& a1.kinds() == kinds_after_triggers(a0.kinds(), t)
        &&& a1.total_messages_processed == a0.total_messages_processed + t.len()
        &&& a1.total_violations_detected == a0.total_violations_detected + t.len()
    } else {
        a1 == a0
    }
}

/// Check `message` at `now` with the enhanced features `enabled` or not:
/// the advanced patterns `patterns` are matched against its content (when
/// enabled), and the base filters `base` are asked once (with the sender's
/// history, violations and exemptions as `check_spam_filters_at` takes
/// them), which records at most one
/// violation as `checked` says; see `enhanced_check_ok`. The checks
/// tripped are counted in `analytics`; see `triggers_recorded`.
pub fn check_message_enhanced_at(
    base: &ModerationSystem,
    enabled: bool,
    patterns: &Vec<AdvancedPattern>,
    message: &ChatMessage,
    history: &Vec<SentMessage>,
    violations: &mut Vec<ViolationRecord>,
    exemptions: &Exemptions,
    analytics: &mut FilterAnalyticsSystem,
    now: i64,
) -> (r: EnhancedCheck)
    requires
        base.wf(),
        percentages_fit(message.content@),
        message.content@.len() * 8 <= usize::MAX,
        old(analytics).wf(),
        analytics_room(*old(analytics), patterns@.len() + 1),
    ensures
        final(analytics).wf(),
        exists|first: Option<ModerationAction>|
            #[trigger] base.checked(*message, history@, old(violations)@, final(violations)@, *exemptions, now, first)
            && enhanced_check_ok(enabled, if enabled { matching_names(patterns@, message.content@) } else { Seq::empty() }, first, r)
            && triggers_recorded(*old(analytics), *final(analytics), enabled, matching_names(patterns@, message.content@), first, r),
{
    let names: Vec<String> = if enabled {
        matching_pattern_names(patterns, message.content.as_str())
    } else {
        Vec::new()
    };
    let ghost nv = if enabled { matching_names(patterns@, message.content@) } else { Seq::<Seq<char>>::empty() };
    assert(texts(names@) =~= nv);
    let first = base.check_spam_filters_at(message, history, violations, exemptions, now);
    let ghost fg = first;
    if !enabled {
        proof {
            reveal_strlit("base_filter");
        }
        let r = match first {
            None => EnhancedCheck::Clean,
            Some(action) => {
                let mut triggered: Vec<String> = Vec::new();
                triggered.push(text::owned("base_filter"));
                assert(texts(triggered@) =~= seq!["base_filter"@]);
                EnhancedCheck::Decided(EnhancedOutcome {
                    action,
                    triggered_filters: triggered,
                    advanced_patterns: Vec::new(),
                    escalation_applied: false,
                    severity: ViolationSeverity::Moderate,
                })
            },
        };
        assert(enhanced_check_ok(enabled, nv, fg, r));
        return r;
    }
    let assessment = match assess_violation(&names, &first) {
        None => {
            assert(enhanced_check_ok(enabled, nv, fg, EnhancedCheck::Clean));
            return EnhancedCheck::Clean;
        },
        Some(a) => a,
    };
    proof {
        matching_names_len(patterns@, message.content@);
    }
    record_triggers(analytics, &assessment.triggered_filters);
    if assessment.escalation_applied {
        let r = EnhancedCheck::Escalate(assessment);
        assert(enhanced_check_ok(enabled, nv, fg, r));
        return r;
    }
    let action = final_action(&assessment, ModerationAction::LogOnly, first);
    let r = EnhancedCheck::Decided(EnhancedOutcome {
        action,
        triggered_filters: assessment.triggered_filters,
        advanced_patterns: assessment.advanced_patterns,
        escalation_applied: false,
        severity: assessment.severity,
    });
    assert(enhanced_check_ok(enabled, nv, fg, r));
    r
}

/// Check `message` now, by the wall clock; see `check_message_enhanced_at`.
pub fn check_message_enhanced(
    base: &ModerationSystem,
    enabled: bool,
    patterns: &Vec<AdvancedPattern>,
    message: &ChatMessage,
    history: &Vec<SentMessage>,
    violations: &mut Vec<ViolationRecord>,
    exemptions: &Exemptions,
    analytics: &mut FilterAnalyticsSystem,
) -> (r: EnhancedCheck)
    requires
        base.wf(),
        percentages_fit(message.content@),
        message.content@.len() * 8 <= usize::MAX,
        old(analytics).wf(),
        analytics_room(*old(analytics), patterns@.len() + 1),
    ensures
        final(analytics).wf(),
        exists|now: i64, first: Option<ModerationAction>|
            #[trigger] base.checked(*message, history@, old(violations)@, final(violations)@, *exemptions, now, first)
            && enhanced_check_ok(enabled, if enabled { matching_names(patterns@, message.content@) } else { Seq::empty() }, first, r)
            && triggers_recorded(*old(analytics), *final(analytics), enabled, matching_names(patterns@, message.content@), first, r),
{
    let now = crate::clock::now_secs() as i64;
    check_message_enhanced_at(base, enabled, patterns, message, history, violations, exemptions, analytics, now)
}

} // verus!
