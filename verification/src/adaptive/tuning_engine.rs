//! Tuning strategies and how a round of parameter changes is attributed to
//! the strategy most likely behind it.

use vstd::prelude::*;
use crate::adaptive::parameters::{ParameterChange, ParameterValue, ParameterError, ParameterStore, ParamEntry, ChangeView,
    ValueView, spec_set_outcome, with_current, change_record, bounded_push, MAX_HISTORY_SIZE, satisfies, spec_can_tune};
use crate::adaptive::safety::{SafetyManager, memory_estimate_fits};
use crate::clock;
use crate::text;

verus! {

/// The strategy that adjusts connection pools to their load.
pub struct LoadBalancingStrategy;

impl LoadBalancingStrategy {
    pub fn new() -> (r: Self) {
        LoadBalancingStrategy
    }

    /// The strategy's name.
    pub fn get_strategy_name(&self) -> (r: &'static str)
        ensures
            r@ == "load_balancing"@,
    {
        "load_balancing"
    }

    /// The strategy's priority.
    pub fn get_priority(&self) -> (r: u8)
        ensures
            r == 150,
    {
        150
    }
}

/// The strategy that adjusts the AI moderation thresholds.
pub struct AdaptiveAIStrategy;

impl AdaptiveAIStrategy {
    pub fn new() -> (r: Self) {
        AdaptiveAIStrategy
    }

    /// The strategy's name.
    pub fn get_strategy_name(&self) -> (r: &'static str)
        ensures
            r@ == "adaptive_ai"@,
    {
        "adaptive_ai"
    }

    /// The strategy's priority.
    pub fn get_priority(&self) -> (r: u8)
        ensures
            r == 160,
    {
        160
    }
}

/// The strategies a change can be attributed to.
#[derive(Clone, Copy, Debug, PartialEq, Eq, Structural)]
pub enum StrategyKind {
    LatencyTuning,
    MemoryTuning,
    ErrorRateTuning,
    LoadBalancing,
    AdaptiveAi,
    Unknown,
}

/// The strategy a parameter's name points to, by the first of these its
/// name holds: `latency` or `timeout`; `memory` or `cache`; `error` or
/// `retry`; `connection` or `pool`; `ai` or `confidence`.
pub open spec fn strategy_of(name: Seq<char>) -> StrategyKind {
    if text::seq_contains(name, "latency"@) || text::seq_contains(name, "timeout"@) {
        StrategyKind::LatencyTuning
    } else if text::seq_contains(name, "memory"@) || text::seq_contains(name, "cache"@) {
        StrategyKind::MemoryTuning
    } else if text::seq_contains(name, "error"@) || text::seq_contains(name, "retry"@) {
        StrategyKind::ErrorRateTuning
    } else if text::seq_contains(name, "connection"@) || text::seq_contains(name, "pool"@) {
        StrategyKind::LoadBalancing
    } else if text::seq_contains(name, "ai"@) || text::seq_contains(name, "confidence"@) {
        StrategyKind::AdaptiveAi
    } else {
        StrategyKind::Unknown
    }
}

/// The name a strategy is reported under.
pub open spec fn strategy_name(k: StrategyKind) -> Seq<char> {
    match k {
        StrategyKind::LatencyTuning => "latency_tuning"@,
        StrategyKind::MemoryTuning => "memory_tuning"@,
        StrategyKind::ErrorRateTuning => "error_rate_tuning"@,
        StrategyKind::LoadBalancing => "load_balancing"@,
        StrategyKind::AdaptiveAi => "adaptive_ai"@,
        StrategyKind::Unknown => "unknown"@,
    }
}

fn has(name: &Vec<char>, part: &str) -> (b: bool)
    ensures
        b == text::seq_contains(name@, part@),
{
    let p = text::chars_of(part);
    text::contains(name.as_slice(), p.as_slice())
}

/// The strategy a parameter's name points to; see `strategy_of`.
pub fn classify_parameter(name: &str) -> (k: StrategyKind)
    ensures
        k == strategy_of(name@),
{
    let n = text::chars_of(name);
    if has(&n, "latency") || has(&n, "timeout") {
        StrategyKind::LatencyTuning
    } else if has(&n, "memory") || has(&n, "cache") {
        StrategyKind::MemoryTuning
    } else if has(&n, "error") || has(&n, "retry") {
        StrategyKind::ErrorRateTuning
    } else if has(&n, "connection") || has(&n, "pool") {
        StrategyKind::LoadBalancing
    } else if has(&n, "ai") || has(&n, "confidence") {
        StrategyKind::AdaptiveAi
    } else {
        StrategyKind::Unknown
    }
}

/// How many changes point to strategy `k`.
pub open spec fn strategy_count(changes: Seq<ParameterChange>, k: StrategyKind) -> nat
    decreases changes.len(),
{
    if changes.len() == 0 {
        0
    } else {
        strategy_count(changes.drop_last(), k) + if strategy_of(changes.last().parameter_name@) == k { 1nat } else { 0nat }
    }
}

fn kind_index(k: StrategyKind) -> (i: usize)
    ensures
        i < 6,
        i == match k {
            StrategyKind::LatencyTuning => 0usize,
            StrategyKind::MemoryTuning => 1usize,
            StrategyKind::ErrorRateTuning => 2usize,
            StrategyKind::LoadBalancing => 3usize,
            StrategyKind::AdaptiveAi => 4usize,
            StrategyKind::Unknown => 5usize,
        },
{
    match k {
        StrategyKind::LatencyTuning => 0,
        StrategyKind::MemoryTuning => 1,
        StrategyKind::ErrorRateTuning => 2,
        StrategyKind::LoadBalancing => 3,
        StrategyKind::AdaptiveAi => 4,
        StrategyKind::Unknown => 5,
    }
}

pub open spec fn kind_at(i: int) -> StrategyKind {
    if i == 0 {
        StrategyKind::LatencyTuning
    } else if i == 1 {
        StrategyKind::MemoryTuning
    } else if i == 2 {
        StrategyKind::ErrorRateTuning
    } else if i == 3 {
        StrategyKind::LoadBalancing
    } else if i == 4 {
        StrategyKind::AdaptiveAi
    } else {
        StrategyKind::Unknown
    }
}

fn name_of_kind(k: StrategyKind) -> (s: String)
    ensures
        s@ == strategy_name(k),
{
    match k {
        StrategyKind::LatencyTuning => text::owned("latency_tuning"),
        StrategyKind::MemoryTuning => text::owned("memory_tuning"),
        StrategyKind::ErrorRateTuning => text::owned("error_rate_tuning"),
        StrategyKind::LoadBalancing => text::owned("load_balancing"),
        StrategyKind::AdaptiveAi => text::owned("adaptive_ai"),
        StrategyKind::Unknown => text::owned("unknown"),
    }
}

/// The strategy that most of the changes point to: `none` without changes;
/// otherwise the name of a strategy that no other strategy is pointed to by
/// more changes than (among equals, which one is named is not fixed).
pub fn find_dominant_strategy(changes: &Vec<ParameterChange>) -> (r: String)
    ensures
        changes@.len() == 0 ==> r@ == "none"@,
        changes@.len() > 0 ==> exists|k: StrategyKind| #[trigger] strategy_name(k) == r@
            && strategy_count(changes@, k) > 0
            && forall|j: StrategyKind| strategy_count(changes@, j) <= #[trigger] strategy_count(changes@, k),
{
    if changes.len() == 0 {
        return text::owned("none");
    }
    let mut counts: Vec<u64> = vec![0, 0, 0, 0, 0, 0];
    let mut i: usize = 0;
    while i < changes.len()
        invariant
            i <= changes@.len(),
            counts@.len() == 6,
            forall|t: int| 0 <= t < 6 ==> #[trigger] counts@[t] == strategy_count(changes@.take(i as int), kind_at(t)),
            forall|t: int| 0 <= t < 6 ==> counts@[t] <= i,
        decreases changes@.len() - i,
    {
        assert(changes@.take(i + 1).drop_last() =~= changes@.take(i as int));
        let k = classify_parameter(changes[i].parameter_name.as_str());
        let t = kind_index(k);
        let c = counts[t];
        counts.set(t, c + 1);
        i = i + 1;
    }
    assert(changes@.take(changes@.len() as int) =~= changes@);
    let mut best: usize = 0;
    let mut t: usize = 1;
    while t < 6
        invariant
            1 <= t <= 6,
            best < t,
            counts@.len() == 6,
            forall|u: int| 0 <= u < t ==> counts@[u] <= #[trigger] counts@[best as int],
        decreases 6 - t,
    {
        if counts[t] > counts[best] {
            best = t;
        }
        t = t + 1;
    }
    proof {
        let kb = kind_at(best as int);
        assert forall|j: StrategyKind| strategy_count(changes@, j) <= #[trigger] strategy_count(changes@, kb) by {
            let u: int = match j {
                StrategyKind::LatencyTuning => 0,
                StrategyKind::MemoryTuning => 1,
                StrategyKind::ErrorRateTuning => 2,
                StrategyKind::LoadBalancing => 3,
                StrategyKind::AdaptiveAi => 4,
                StrategyKind::Unknown => 5,
            };
            assert(kind_at(u) == j);
            assert(counts@[u] <= counts@[best as int]);
        }
        lemma_some_strategy_counts(changes@);
        let w = choose|w: StrategyKind| strategy_count(changes@, w) > 0;
        assert(strategy_count(changes@, w) <= strategy_count(changes@, kb));
    }
    name_of_kind(kind_at_exec(best))
}

fn kind_at_exec(i: usize) -> (k: StrategyKind)
    ensures
        k == kind_at(i as int),
{
    if i == 0 {
        StrategyKind::LatencyTuning
    } else if i == 1 {
        StrategyKind::MemoryTuning
    } else if i == 2 {
        StrategyKind::ErrorRateTuning
    } else if i == 3 {
        StrategyKind::LoadBalancing
    } else if i == 4 {
        StrategyKind::AdaptiveAi
    } else {
        StrategyKind::Unknown
    }
}

proof fn lemma_some_strategy_counts(changes: Seq<ParameterChange>)
    requires
        changes.len() > 0,
    ensures
        exists|w: StrategyKind| strategy_count(changes, w) > 0,
{
    let w = strategy_of(changes.last().parameter_name@);
    assert(strategy_count(changes, w) > 0);
}

// ---------------------------------------------------------------------------
// Applying a round of suggested changes
// ---------------------------------------------------------------------------

/// A change a strategy suggests: the parameter, its new value and why.
pub struct ChangeRequest {
    pub parameter_name: String,
    pub suggested_value: ParameterValue,
    pub reason: String,
}

/// Why a suggested change was not applied.
#[derive(Clone, Copy, Debug, PartialEq, Eq, Structural)]
pub enum RejectionReason {
    /// The safety manager refused it.
    SafetyManager,
    /// The parameter store refused it.
    Invalid(ParameterError),
}

/// A suggested change that was not applied.
pub struct RejectedChange {
    pub parameter_name: String,
    pub suggested_value: ParameterValue,
    pub reason: RejectionReason,
    pub suggested_by: String,
}

/// Mathematical view of a rejected change.
pub struct RejectedView {
    pub name: Seq<char>,
    pub value: ValueView,
    pub reason: RejectionReason,
    pub suggested_by: Seq<char>,
}

impl View for RejectedChange {
    type V = RejectedView;

    open spec fn view(&self) -> RejectedView {
        RejectedView {
            name: self.parameter_name@,
            value: self.suggested_value@,
            reason: self.reason,
            suggested_by: self.suggested_by@,
        }
    }
}

/// The store's parameters and history, with the changes applied and
/// rejected so far.
pub struct TuningState {
    pub params: Map<Seq<char>, ParamEntry>,
    pub history: Seq<ChangeView>,
    pub applied: Seq<ChangeView>,
    pub rejected: Seq<RejectedView>,
}

/// One suggested change handled at `now_ms` on a machine with `cpus`
/// processors: refused when the safety manager refuses it; otherwise set in
/// the store (recorded there as a manual change) and listed as applied with
/// its reason, by the tuning engine, or, when the store refuses it, listed
/// as rejected with the store's error.
pub open spec fn tuning_step(st: TuningState, m: SafetyManager, q: ChangeRequest, now_ms: u64, cpus: usize) -> TuningState {
    let name = q.parameter_name@;
    let v = q.suggested_value@;
    if !SafetyManager::change_verdict(m, name, v, now_ms, cpus) {
        TuningState {
            rejected: st.rejected.push(
                RejectedView { name, value: v, reason: RejectionReason::SafetyManager, suggested_by: "tuning_engine"@ }),
            ..st
        }
    } else {
        match spec_set_outcome(st.params, name, v) {
            Err(e) => TuningState {
                rejected: st.rejected.push(
                    RejectedView { name, value: v, reason: RejectionReason::Invalid(e), suggested_by: "tuning_engine"@ }),
                ..st
            },
            Ok(_) => TuningState {
                params: st.params.insert(name, with_current(st.params[name], v)),
                history: bounded_push(
                    st.history,
                    change_record((now_ms / 1000) as u64, name, st.params[name].current_value, v, "manual"@, "user"@),
                    MAX_HISTORY_SIZE as nat,
                ),
                applied: st.applied.push(
                    change_record((now_ms / 1000) as u64, name, st.params[name].current_value, v, q.reason@, "tuning_engine"@)),
                rejected: st.rejected,
            },
        }
    }
}

/// The suggested changes `qs` handled in order; see `tuning_step`.
pub open spec fn tuning_outcome(st: TuningState, m: SafetyManager, qs: Seq<ChangeRequest>, now_ms: u64, cpus: usize) -> TuningState
    decreases qs.len(),
{
    if qs.len() == 0 {
        st
    } else {
        tuning_step(tuning_outcome(st, m, qs.drop_last(), now_ms, cpus), m, qs.last(), now_ms, cpus)
    }
}

/// The state a round starts from: the store as it is, nothing handled yet.
pub open spec fn tuning_start(store: ParameterStore) -> TuningState {
    TuningState { params: store.params(), history: store.history(), applied: Seq::empty(), rejected: Seq::empty() }
}

/// Views of a list of change records.
pub open spec fn change_views(v: Seq<ParameterChange>) -> Seq<ChangeView> {
    v.map_values(|c: ParameterChange| c@)
}

/// Views of a list of rejected changes.
pub open spec fn rejected_views(v: Seq<RejectedChange>) -> Seq<RejectedView> {
    v.map_values(|c: RejectedChange| c@)
}

/// Whether the safety manager's memory estimate can be taken for every
/// suggested change.
pub open spec fn estimates_fit(qs: Seq<ChangeRequest>) -> bool {
    forall|i: int| 0 <= i < qs.len() ==> memory_estimate_fits(#[trigger] qs[i].parameter_name@, qs[i].suggested_value@)
}

/// Apply a round of suggested changes at `now_ms` on a machine with `cpus`
/// processors, each checked by the safety manager and then by the store;
/// see `tuning_outcome`. The changes applied and rejected are returned.
pub fn apply_changes_safely_at(
    store: &mut ParameterStore,
    safety: &SafetyManager,
    requests: &Vec<ChangeRequest>,
    now_ms: u64,
    cpus: usize,
) -> (r: (Vec<ParameterChange>, Vec<RejectedChange>))
    requires
        old(store).wf(),
        estimates_fit(requests@),
    ensures
        final(store).wf(),
        ({
            let o = tuning_outcome(tuning_start(*old(store)), *safety, requests@, now_ms, cpus);
            &&& final(store).params() == o.params
            &&& final(store).history() == o.history
            &&& change_views(r.0@) == o.applied
            &&& rejected_views(r.1@) == o.rejected
        }),
{
    let ghost st0 = tuning_start(*store);
    let now: u64 = now_ms / 1000;
    let mut applied: Vec<ParameterChange> = Vec::new();
    let mut rejected: Vec<RejectedChange> = Vec::new();
    let mut i: usize = 0;
    assert(change_views(applied@) =~= Seq::<ChangeView>::empty());
    assert(rejected_views(rejected@) =~= Seq::<RejectedView>::empty());
    while i < requests.len()
        invariant
            i <= requests@.len(),
            store.wf(),
            estimates_fit(requests@),
            now == now_ms / 1000,
            st0 == tuning_start(*old(store)),
            ({
                let o = tuning_outcome(st0, *safety, requests@.take(i as int), now_ms, cpus);
                &&& store.params() == o.params
                &&& store.history() == o.history
                &&& change_views(applied@) == o.applied
                &&& rejected_views(rejected@) == o.rejected
            }),
        decreases requests@.len() - i,
    {
        let ghost prev = tuning_outcome(st0, *safety, requests@.take(i as int), now_ms, cpus);
        let ghost a0 = applied@;
        let ghost r0 = rejected@;
        assert(requests@.take(i + 1).drop_last() =~= requests@.take(i as int));
        assert(requests@.take(i + 1).last() == requests@[i as int]);
        let q = &requests[i];
        assert(memory_estimate_fits(requests@[i as int].parameter_name@, requests@[i as int].suggested_value@));
        if !safety.validate_parameter_change_at(q.parameter_name.as_str(), &q.suggested_value, now_ms, cpus) {
            let entry = RejectedChange {
                parameter_name: q.parameter_name.clone(),
                suggested_value: q.suggested_value.clone(),
                reason: RejectionReason::SafetyManager,
                suggested_by: text::owned("tuning_engine"),
            };
            rejected.push(entry);
            assert(rejected_views(rejected@) =~= rejected_views(r0).push(entry@));
        } else {
            match store.set_parameter_at(q.parameter_name.as_str(), q.suggested_value.clone(), now) {
                Ok(old_value) => {
                    let change = ParameterChange {
                        timestamp: now,
                        parameter_name: q.parameter_name.clone(),
                        old_value,
                        new_value: q.suggested_value.clone(),
                        reason: q.reason.clone(),
                        triggered_by: text::owned("tuning_engine"),
                    };
                    applied.push(change);
                    assert(change_views(applied@) =~= change_views(a0).push(change@));
                },
                Err(e) => {
                    let entry = RejectedChange {
                        parameter_name: q.parameter_name.clone(),
                        suggested_value: q.suggested_value.clone(),
                        reason: RejectionReason::Invalid(e),
                        suggested_by: text::owned("tuning_engine"),
                    };
                    rejected.push(entry);
                    assert(rejected_views(rejected@) =~= rejected_views(r0).push(entry@));
                },
            }
        }
        i = i + 1;
    }
    assert(requests@.take(requests@.len() as int) =~= requests@);
    (applied, rejected)
}

/// Apply a round of suggested changes now, by the wall clock, on this
/// machine; see `apply_changes_safely_at`.
pub fn apply_changes_safely(store: &mut ParameterStore, safety: &SafetyManager, requests: &Vec<ChangeRequest>)
    -> (r: (Vec<ParameterChange>, Vec<RejectedChange>))
    requires
        old(store).wf(),
        estimates_fit(requests@),
    ensures
        final(store).wf(),
        exists|now_ms: u64, cpus: usize| cpus >= 1 && ({
            let o = #[trigger] tuning_outcome(tuning_start(*old(store)), *safety, requests@, now_ms, cpus);
            &&& final(store).params() == o.params
            &&& final(store).history() == o.history
            &&& change_views(r.0@) == o.applied
            &&& rejected_views(r.1@) == o.rejected
        }),
{
    let now_ms = clock::now_millis();
    let cpus = crate::adaptive::safety::cpu_count();
    apply_changes_safely_at(store, safety, requests, now_ms, cpus)
}

/// Every suggested change of a round is answered exactly once: it ends up
/// either among the applied changes or among the rejected ones.
pub proof fn lemma_every_request_answered(st: TuningState, m: SafetyManager, qs: Seq<ChangeRequest>, now_ms: u64, cpus: usize)
    ensures
        tuning_outcome(st, m, qs, now_ms, cpus).applied.len() + tuning_outcome(st, m, qs, now_ms, cpus).rejected.len()
            == st.applied.len() + st.rejected.len() + qs.len(),
    decreases qs.len(),
{
    if qs.len() > 0 {
        lemma_every_request_answered(st, m, qs.drop_last(), now_ms, cpus);
    }
}

/// A change the safety manager refuses never reaches the store: handling it
/// leaves the parameters and their history as they were.
pub proof fn lemma_refused_change_leaves_store(st: TuningState, m: SafetyManager, q: ChangeRequest, now_ms: u64, cpus: usize)
    requires
        !SafetyManager::change_verdict(m, q.parameter_name@, q.suggested_value@, now_ms, cpus),
    ensures
        tuning_step(st, m, q, now_ms, cpus).params == st.params,
        tuning_step(st, m, q, now_ms, cpus).history == st.history,
        tuning_step(st, m, q, now_ms, cpus).applied == st.applied,
{
}

/// A round only sets registered parameters to values their constraints
/// accept: the parameters keep their names and constraints, and every
/// change applied in the round names a registered parameter and sets it to
/// a value its constraints accept.
pub proof fn lemma_applied_changes_are_valid(st: TuningState, m: SafetyManager, qs: Seq<ChangeRequest>, now_ms: u64, cpus: usize)
    ensures
        ({
            let o = tuning_outcome(st, m, qs, now_ms, cpus);
            &&& o.params.dom() == st.params.dom()
            &&& forall|n: Seq<char>| #[trigger] st.params.dom().contains(n) ==> o.params[n].constraints == st.params[n].constraints
            &&& o.applied.len() >= st.applied.len()
            &&& forall|i: int| st.applied.len() <= i < o.applied.len() ==> {
                &&& #[trigger] st.params.dom().contains(o.applied[i].name)
                &&& satisfies(st.params[o.applied[i].name].constraints, o.applied[i].new_value)
            }
            &&& forall|i: int| 0 <= i < st.applied.len() ==> o.applied[i] == st.applied[i]
        }),
    decreases qs.len(),
{
    if qs.len() > 0 {
        lemma_applied_changes_are_valid(st, m, qs.drop_last(), now_ms, cpus);
        let p = tuning_outcome(st, m, qs.drop_last(), now_ms, cpus);
        let o = tuning_outcome(st, m, qs, now_ms, cpus);
        let q = qs.last();
        if SafetyManager::change_verdict(m, q.parameter_name@, q.suggested_value@, now_ms, cpus) {
            if spec_set_outcome(p.params, q.parameter_name@, q.suggested_value@) is Ok {
                assert(o.params.dom() =~= st.params.dom());
            }
        }
    }
}

/// Whether each parameter named in `names` may be tuned at `now`, refused
/// with the first error when some name is not registered.
pub open spec fn spec_tuning_allowed(store: ParameterStore, names: Seq<Seq<char>>, now: u64) -> Result<Seq<bool>, ParameterError> {
    if exists|i: int| 0 <= i < names.len() && #[trigger] spec_can_tune(store.params(), store.history(), names[i], now) is Err {
        Err(ParameterError::NotFound)
    } else {
        Ok(Seq::new(names.len(), |i: int| spec_can_tune(store.params(), store.history(), names[i], now)->Ok_0))
    }
}

/// Whether each parameter named in `names` may be tuned at `now` (seconds);
/// see `spec_tuning_allowed`.
pub fn tuning_allowed_at(store: &ParameterStore, names: &Vec<String>, now: u64) -> (r: Result<Vec<bool>, ParameterError>)
    requires
        store.wf(),
    ensures
        match (r, spec_tuning_allowed(*store, crate::bot::types::texts(names@), now)) {
            (Ok(v), Ok(w)) => v@ == w,
            (Err(e), Err(f)) => e == f,
            _ => false,
        },
{
    let ghost ns = crate::bot::types::texts(names@);
    let mut out: Vec<bool> = Vec::new();
    let mut i: usize = 0;
    while i < names.len()
        invariant
            i <= names@.len(),
            store.wf(),
            ns == crate::bot::types::texts(names@),
            out@.len() == i,
            forall|k: int| 0 <= k < i ==> #[trigger] spec_can_tune(store.params(), store.history(), ns[k], now) is Ok
                && out@[k] == spec_can_tune(store.params(), store.history(), ns[k], now)->Ok_0,
        decreases names@.len() - i,
    {
        match store.can_tune_parameter_at(names[i].as_str(), now) {
            Ok(b) => {
                out.push(b);
            },
            Err(e) => {
                assert(spec_can_tune(store.params(), store.history(), ns[i as int], now) is Err);
                return Err(e);
            },
        }
        i = i + 1;
    }
    assert(out@ =~= Seq::new(ns.len(), |k: int| spec_can_tune(store.params(), store.history(), ns[k], now)->Ok_0));
    Ok(out)
}

/// Whether each parameter named in `names` may be tuned now, by the wall
/// clock; see `tuning_allowed_at`.
pub fn tuning_allowed(store: &ParameterStore, names: &Vec<String>) -> (r: Result<Vec<bool>, ParameterError>)
    requires
        store.wf(),
    ensures
        exists|now: u64| match (r, #[trigger] spec_tuning_allowed(*store, crate::bot::types::texts(names@), now)) {
            (Ok(v), Ok(w)) => v@ == w,
            (Err(e), Err(f)) => e == f,
            _ => false,
        },
{
    let now = clock::now_secs();
    tuning_allowed_at(store, names, now)
}

} // verus!
