//! Circuit breaker and the safety rules that guard parameter changes.

use vstd::prelude::*;
use crate::adaptive::binary64;
use crate::adaptive::parameters::{ParameterValue, ValueView, spec_as_i64, spec_as_duration_ms, F0_1, F50, F95};
use crate::clock;
use crate::text;

verus! {

/// State of the circuit breaker.
#[derive(Clone, Copy, Debug, PartialEq, Eq, Structural)]
pub enum CircuitBreakerState {
    /// Normal operation.
    Closed,
    /// Blocking all changes.
    Open,
    /// Testing whether the system has recovered.
    HalfOpen,
}

impl CircuitBreakerState {
    /// The state a breaker starts in.
    pub fn default_state() -> (s: Self)
        ensures
            s == CircuitBreakerState::Closed,
    {
        CircuitBreakerState::Closed
    }
}

/// Number of failures after which a closed breaker opens.
pub const FAILURE_THRESHOLD: u32 = 5;
/// Time an open breaker waits before it lets a test call through, in milliseconds.
pub const OPEN_TIMEOUT_MS: u64 = 300_000;
/// Number of successful test calls after which a half-open breaker closes.
pub const HALF_OPEN_MAX_CALLS: u32 = 3;

/// Abstract state of a circuit breaker.
pub struct BreakerModel {
    pub state: CircuitBreakerState,
    pub failure_count: nat,
    pub last_failure_time: Option<u64>,
    pub failure_threshold: nat,
    pub timeout_ms: nat,
    pub half_open_max_calls: nat,
    pub half_open_calls: nat,
}

/// Circuit breaker that stops parameter changes while the system is unstable.
#[derive(Clone, Debug)]
pub struct CircuitBreaker {
    state: CircuitBreakerState,
    failure_count: u32,
    last_failure_time: Option<u64>,
    failure_threshold: u32,
    timeout_duration_ms: u64,
    half_open_max_calls: u32,
    half_open_calls: u32,
}

impl View for CircuitBreaker {
    type V = BreakerModel;

    closed spec fn view(&self) -> BreakerModel {
        BreakerModel {
            state: self.state,
            failure_count: self.failure_count as nat,
            last_failure_time: self.last_failure_time,
            failure_threshold: self.failure_threshold as nat,
            timeout_ms: self.timeout_duration_ms as nat,
            half_open_max_calls: self.half_open_max_calls as nat,
            half_open_calls: self.half_open_calls as nat,
        }
    }
}

/// What every reachable breaker satisfies: the configuration is the fixed one,
/// test calls are only counted while half-open, and a half-open breaker has
/// not yet reached its quota of successful test calls.
pub open spec fn breaker_wf(m: BreakerModel) -> bool {
    &&& m.failure_threshold == FAILURE_THRESHOLD as nat
    &&& m.timeout_ms == OPEN_TIMEOUT_MS as nat
    &&& m.half_open_max_calls == HALF_OPEN_MAX_CALLS as nat
    &&& m.state != CircuitBreakerState::HalfOpen ==> m.half_open_calls == 0
    &&& m.state == CircuitBreakerState::HalfOpen ==> m.half_open_calls < m.half_open_max_calls
    &&& m.state == CircuitBreakerState::Open ==> m.last_failure_time is Some
    &&& m.failure_count <= u32::MAX as nat
}

/// The breaker after a failure observed at time `now`.
pub open spec fn spec_record_failure(m: BreakerModel, now: u64) -> BreakerModel {
    let count = m.failure_count + 1;
    let base = BreakerModel { failure_count: count, last_failure_time: Some(now), ..m };
    match m.state {
        CircuitBreakerState::Closed => if count >= m.failure_threshold {
            BreakerModel { state: CircuitBreakerState::Open, ..base }
        } else {
            base
        },
        CircuitBreakerState::HalfOpen => BreakerModel {
            state: CircuitBreakerState::Open,
            half_open_calls: 0,
            ..base
        },
        CircuitBreakerState::Open => base,
    }
}

/// The breaker after a success.
pub open spec fn spec_record_success(m: BreakerModel) -> BreakerModel {
    match m.state {
        CircuitBreakerState::HalfOpen => if m.half_open_calls + 1 >= m.half_open_max_calls {
            BreakerModel {
                state: CircuitBreakerState::Closed,
                failure_count: 0,
                half_open_calls: 0,
                ..m
            }
        } else {
            BreakerModel { half_open_calls: m.half_open_calls + 1, ..m }
        },
        CircuitBreakerState::Closed => BreakerModel { failure_count: 0, ..m },
        CircuitBreakerState::Open => m,
    }
}

/// Whether the timeout since the last failure has passed at time `now`.
pub open spec fn timeout_elapsed(m: BreakerModel, now: u64) -> bool {
    match m.last_failure_time {
        Some(t) => now > t && now - t > m.timeout_ms,
        None => false,
    }
}

/// Whether an operation may run at time `now`, and the breaker afterwards.
pub open spec fn spec_can_execute(m: BreakerModel, now: u64) -> (bool, BreakerModel) {
    match m.state {
        CircuitBreakerState::Closed => (true, m),
        CircuitBreakerState::Open => if timeout_elapsed(m, now) {
            (true, BreakerModel { state: CircuitBreakerState::HalfOpen, half_open_calls: 0, ..m })
        } else {
            (false, m)
        },
        CircuitBreakerState::HalfOpen => (m.half_open_calls < m.half_open_max_calls, m),
    }
}

/// The breaker after failures observed at the given times, in order.
pub open spec fn spec_record_failures(m: BreakerModel, times: Seq<u64>) -> BreakerModel
    decreases times.len(),
{
    if times.len() == 0 {
        m
    } else {
        spec_record_failure(spec_record_failures(m, times.drop_last()), times.last())
    }
}

/// The breaker after `n` successes in a row.
pub open spec fn spec_record_successes(m: BreakerModel, n: nat) -> BreakerModel
    decreases n,
{
    if n == 0 {
        m
    } else {
        spec_record_success(spec_record_successes(m, (n - 1) as nat))
    }
}

/// A closed breaker with no counted failure stays closed for fewer than
/// `FAILURE_THRESHOLD` failures and opens at exactly `FAILURE_THRESHOLD`
/// failures, whenever they happen; the count is the number of failures.
pub proof fn lemma_opens_at_threshold(m: BreakerModel, times: Seq<u64>)
    requires
        breaker_wf(m),
        m.state == CircuitBreakerState::Closed,
        m.failure_count == 0,
        times.len() <= FAILURE_THRESHOLD,
    ensures
        spec_record_failures(m, times).failure_count == times.len(),
        spec_record_failures(m, times).state == (if times.len() == FAILURE_THRESHOLD {
            CircuitBreakerState::Open
        } else {
            CircuitBreakerState::Closed
        }),
        breaker_wf(spec_record_failures(m, times)),
    decreases times.len(),
{
    if times.len() > 0 {
        lemma_opens_at_threshold(m, times.drop_last());
    }
}

/// An open breaker refuses every operation until its timeout has passed,
/// and is left unchanged by the refusal.
pub proof fn lemma_open_blocks_until_timeout(m: BreakerModel, now: u64)
    requires
        breaker_wf(m),
        m.state == CircuitBreakerState::Open,
        !timeout_elapsed(m, now),
    ensures
        spec_can_execute(m, now) == (false, m),
{
}

/// Once the timeout of an open breaker has passed, the next check lets one
/// operation through and moves the breaker to half-open with no test call counted.
pub proof fn lemma_timeout_moves_to_half_open(m: BreakerModel, now: u64)
    requires
        breaker_wf(m),
        m.state == CircuitBreakerState::Open,
        timeout_elapsed(m, now),
    ensures
        spec_can_execute(m, now).0,
        spec_can_execute(m, now).1.state == CircuitBreakerState::HalfOpen,
        spec_can_execute(m, now).1.half_open_calls == 0,
        breaker_wf(spec_can_execute(m, now).1),
{
}

/// A half-open breaker with no test call counted stays half-open through
/// fewer than `HALF_OPEN_MAX_CALLS` successes and closes, with its failure
/// count reset, at exactly `HALF_OPEN_MAX_CALLS` successes.
pub proof fn lemma_half_open_closes_after_successes(m: BreakerModel, n: nat)
    requires
        breaker_wf(m),
        m.state == CircuitBreakerState::HalfOpen,
        m.half_open_calls == 0,
        n <= HALF_OPEN_MAX_CALLS,
    ensures
        n < HALF_OPEN_MAX_CALLS ==> spec_record_successes(m, n).state == CircuitBreakerState::HalfOpen
            && spec_record_successes(m, n).half_open_calls == n,
        n == HALF_OPEN_MAX_CALLS ==> spec_record_successes(m, n).state == CircuitBreakerState::Closed
            && spec_record_successes(m, n).failure_count == 0
            && spec_record_successes(m, n).half_open_calls == 0,
        breaker_wf(spec_record_successes(m, n)),
    decreases n,
{
    if n > 0 {
        lemma_half_open_closes_after_successes(m, (n - 1) as nat);
    }
}

/// A failure while half-open opens the breaker again.
pub proof fn lemma_half_open_failure_reopens(m: BreakerModel, now: u64)
    requires
        breaker_wf(m),
        m.state == CircuitBreakerState::HalfOpen,
        m.failure_count < u32::MAX,
    ensures
        spec_record_failure(m, now).state == CircuitBreakerState::Open,
        spec_record_failure(m, now).half_open_calls == 0,
        spec_record_failure(m, now).last_failure_time == Some(now),
        breaker_wf(spec_record_failure(m, now)),
{
}

/// A success while closed clears the failure count and keeps the breaker closed.
pub proof fn lemma_success_resets_closed(m: BreakerModel)
    requires
        breaker_wf(m),
        m.state == CircuitBreakerState::Closed,
    ensures
        spec_record_success(m).state == CircuitBreakerState::Closed,
        spec_record_success(m).failure_count == 0,
        breaker_wf(spec_record_success(m)),
{
}

impl CircuitBreaker {
    /// A closed breaker with no recorded failure.
    pub fn new() -> (cb: Self)
        ensures
            cb@.state == CircuitBreakerState::Closed,
            cb@.failure_count == 0,
            cb@.last_failure_time is None,
            cb@.half_open_calls == 0,
            breaker_wf(cb@),
    {
        CircuitBreaker {
            state: CircuitBreakerState::Closed,
            failure_count: 0,
            last_failure_time: None,
            failure_threshold: FAILURE_THRESHOLD,
            timeout_duration_ms: OPEN_TIMEOUT_MS,
            half_open_max_calls: HALF_OPEN_MAX_CALLS,
            half_open_calls: 0,
        }
    }

    /// Current state.
    pub fn state(&self) -> (s: CircuitBreakerState)
        ensures
            s == self@.state,
    {
        self.state
    }

    /// Number of failures counted since the last reset.
    pub fn failure_count(&self) -> (n: u32)
        ensures
            n as nat == self@.failure_count,
    {
        self.failure_count
    }

    /// Number of successful test calls while half-open.
    pub fn half_open_calls(&self) -> (n: u32)
        ensures
            n as nat == self@.half_open_calls,
    {
        self.half_open_calls
    }

    /// Record a failure at time `now` (milliseconds).
    pub fn record_failure_at(&mut self, now: u64)
        requires
            breaker_wf(old(self)@),
            old(self)@.failure_count < u32::MAX,
        ensures
            final(self)@ == spec_record_failure(old(self)@, now),
            breaker_wf(final(self)@),
    {
        self.failure_count = self.failure_count + 1;
        self.last_failure_time = Some(now);
        match self.state {
            CircuitBreakerState::Closed => {
                if self.failure_count >= self.failure_threshold {
                    self.state = CircuitBreakerState::Open;
                }
            },
            CircuitBreakerState::HalfOpen => {
                self.state = CircuitBreakerState::Open;
                self.half_open_calls = 0;
            },
            CircuitBreakerState::Open => {},
        }
    }

    /// Record a failure at the current time.
    pub fn record_failure(&mut self)
        requires
            breaker_wf(old(self)@),
            old(self)@.failure_count < u32::MAX,
        ensures
            exists|now: u64| final(self)@ == spec_record_failure(old(self)@, now),
            breaker_wf(final(self)@),
    {
        let now = clock::now_millis();
        self.record_failure_at(now);
    }

    /// Record a successful operation.
    pub fn record_success(&mut self)
        requires
            breaker_wf(old(self)@),
        ensures
            final(self)@ == spec_record_success(old(self)@),
            breaker_wf(final(self)@),
    {
        match self.state {
            CircuitBreakerState::HalfOpen => {
                self.half_open_calls = self.half_open_calls + 1;
                if self.half_open_calls >= self.half_open_max_calls {
                    self.state = CircuitBreakerState::Closed;
                    self.failure_count = 0;
                    self.half_open_calls = 0;
                }
            },
            CircuitBreakerState::Closed => {
                self.failure_count = 0;
            },
            CircuitBreakerState::Open => {},
        }
    }

    /// Whether an operation may run at time `now` (milliseconds); an open
    /// breaker whose timeout has passed moves to half-open.
    pub fn can_execute_at(&mut self, now: u64) -> (ok: bool)
        requires
            breaker_wf(old(self)@),
        ensures
            (ok, final(self)@) == spec_can_execute(old(self)@, now),
            breaker_wf(final(self)@),
    {
        match self.state {
            CircuitBreakerState::Closed => true,
            CircuitBreakerState::Open => {
                match self.last_failure_time {
                    Some(last) => {
                        if now > last && now - last > self.timeout_duration_ms {
                            self.state = CircuitBreakerState::HalfOpen;
                            self.half_open_calls = 0;
                            true
                        } else {
                            false
                        }
                    },
                    None => false,
                }
            },
            CircuitBreakerState::HalfOpen => self.half_open_calls < self.half_open_max_calls,
        }
    }

    /// Whether an operation may run now.
    pub fn can_execute(&mut self) -> (ok: bool)
        requires
            breaker_wf(old(self)@),
        ensures
            exists|now: u64| (ok, final(self)@) == spec_can_execute(old(self)@, now),
            breaker_wf(final(self)@),
    {
        let now = clock::now_millis();
        self.can_execute_at(now)
    }
}

// ---------------------------------------------------------------------------
// Safety rules
// ---------------------------------------------------------------------------

/// Encoding of 0.99.
pub const F0_99: u64 = 0x3fef_ae14_7ae1_47ae;

/// Whether the value, read as a float, lies in the closed range from the
/// float encoded by `lo` to the one encoded by `hi`. An integer is read as the
/// float nearest to it, which lies in the range exactly when the integer lies
/// between `int_lo` and `int_hi`; for that the caller passes the integer
/// bounds matching the float ones.
pub open spec fn float_reading_in_range(v: ValueView, lo: u64, hi: u64, int_lo: int, int_hi: int) -> bool {
    match v {
        ValueView::Float(b) => binary64::spec_le(lo, b) && binary64::spec_le(b, hi),
        ValueView::Integer(x) => int_lo <= x && x <= int_hi,
        _ => false,
    }
}

/// Verdict of the value range rule on a change of `name` to `v`.
pub open spec fn spec_value_range_ok(name: Seq<char>, v: ValueView) -> bool {
    if name == "connection_pool_max_size"@ {
        match spec_as_i64(v) {
            Some(size) => 1 <= size && size <= 20,
            None => false,
        }
    } else if name == "connection_timeout_ms"@ {
        match spec_as_duration_ms(v) {
            Some(t) => 1000 <= t && t <= 300000,
            None => false,
        }
    } else if name == "memory_cache_size"@ {
        match spec_as_i64(v) {
            Some(size) => 10 <= size && size <= 50000,
            None => false,
        }
    } else if name == "ai_confidence_threshold"@ {
        // No integer lies between 0.1 and 0.99.
        float_reading_in_range(v, F0_1, F0_99, 1, 0)
    } else {
        true
    }
}

/// Verdict of the memory limit rule on a change of `name` to `v`: a cache
/// of `size` entries of about a kilobyte each must stay under a gigabyte,
/// and a processing queue under 100000 entries.
pub open spec fn spec_memory_limit_ok(name: Seq<char>, v: ValueView) -> bool {
    if text::seq_contains(name, "cache_size"@) {
        match spec_as_i64(v) {
            Some(size) => (size * 1024) / 1024 / 1024 < 1000,
            None => true,
        }
    } else if name == "processing_queue_max_size"@ {
        match spec_as_i64(v) {
            Some(size) => size < 100000,
            None => true,
        }
    } else {
        true
    }
}

/// When the memory limit rule can evaluate a change: the estimate of a cache's
/// size in bytes must fit in `i64`.
pub open spec fn memory_estimate_fits(name: Seq<char>, v: ValueView) -> bool {
    text::seq_contains(name, "cache_size"@) ==> match spec_as_i64(v) {
        Some(size) => i64::MIN <= size * 1024 <= i64::MAX,
        None => true,
    }
}

/// Verdict of the critical parameter rule on a change of `name` to `v`, on a
/// machine with `cpus` processors.
pub open spec fn spec_critical_ok(name: Seq<char>, v: ValueView, cpus: int) -> bool {
    if name == "worker_thread_count"@ {
        match spec_as_i64(v) {
            Some(count) => 1 <= count && count <= cpus * 2,
            None => false,
        }
    } else if name == "gc_threshold_percent"@ {
        float_reading_in_range(v, F50, F95, 50, 95)
    } else {
        true
    }
}

/// Verdict of the critical parameter rule with a processor count read from
/// the machine.
pub open spec fn critical_verdict(name: Seq<char>, v: ValueView, cpus: usize) -> bool {
    spec_critical_ok(name, v, cpus as int)
}

/// Verdict of the dependency rule on a change of `name` to `v`.
pub open spec fn spec_dependency_ok(name: Seq<char>, v: ValueView) -> bool {
    if name == "message_processing_batch_size"@ {
        match spec_as_i64(v) {
            Some(b) => 1 <= b && b <= 1000,
            None => false,
        }
    } else {
        true
    }
}

/// Number of processors available, from `num_cpus::get()`, which is
/// documented to return at least 1.
#[verifier::external_body]
pub(crate) fn cpu_count() -> (n: usize)
    ensures
        n >= 1,
{
    num_cpus::get()
}

/// Whether `v` read as a float lies between the floats `lo` and `hi`, with
/// the matching integer bounds.
fn float_reading_in(v: &ParameterValue, lo: u64, hi: u64, int_lo: i64, int_hi: i64) -> (r: bool)
    ensures
        r == float_reading_in_range(v@, lo, hi, int_lo as int, int_hi as int),
{
    match v {
        ParameterValue::Float(b) => binary64::le(lo, *b) && binary64::le(*b, hi),
        ParameterValue::Integer(x) => int_lo <= *x && *x <= int_hi,
        _ => false,
    }
}

/// Rule that keeps critical values within absolute bounds.
pub struct ValueRangeRule;

impl ValueRangeRule {
    pub fn new() -> (r: Self) {
        ValueRangeRule
    }

    /// Whether changing `parameter_name` to `value` is within the absolute bounds.
    pub fn validate_change(&self, parameter_name: &str, value: &ParameterValue) -> (ok: bool)
        ensures
            ok == spec_value_range_ok(parameter_name@, value@),
    {
        if text::same_text(parameter_name, "connection_pool_max_size") {
            match value.as_i64() {
                Some(size) => size >= 1 && size <= 20,
                None => false,
            }
        } else if text::same_text(parameter_name, "connection_timeout_ms") {
            match value.as_duration_ms() {
                Some(t) => t >= 1000 && t <= 300000,
                None => false,
            }
        } else if text::same_text(parameter_name, "memory_cache_size") {
            match value.as_i64() {
                Some(size) => size >= 10 && size <= 50000,
                None => false,
            }
        } else if text::same_text(parameter_name, "ai_confidence_threshold") {
            float_reading_in(value, F0_1, F0_99, 1, 0)
        } else {
            true
        }
    }

    /// Name of the rule.
    pub fn get_name(&self) -> (n: &'static str)
        ensures
            n@ == "value_range_rule"@,
    {
        "value_range_rule"
    }
}

/// Rule that keeps memory-related values from exhausting memory.
pub struct MemoryLimitRule;

impl MemoryLimitRule {
    pub fn new() -> (r: Self) {
        MemoryLimitRule
    }

    /// Whether changing `parameter_name` to `value` keeps memory use bounded.
    pub fn validate_change(&self, parameter_name: &str, value: &ParameterValue) -> (ok: bool)
        requires
            memory_estimate_fits(parameter_name@, value@),
        ensures
            ok == spec_memory_limit_ok(parameter_name@, value@),
    {
        let name = text::chars_of(parameter_name);
        let pattern = text::chars_of("cache_size");
        if text::contains(name.as_slice(), pattern.as_slice()) {
            match value.as_i64() {
                Some(size) => {
                    let estimated_memory_mb = size * 1024 / 1024 / 1024;
                    estimated_memory_mb < 1000
                },
                None => true,
            }
        } else if text::same_text(parameter_name, "processing_queue_max_size") {
            match value.as_i64() {
                Some(size) => size < 100000,
                None => true,
            }
        } else {
            true
        }
    }

    /// Name of the rule.
    pub fn get_name(&self) -> (n: &'static str)
        ensures
            n@ == "memory_limit_rule"@,
    {
        "memory_limit_rule"
    }
}

/// Rule that is conservative with parameters critical to stability.
pub struct CriticalParameterRule;

impl CriticalParameterRule {
    pub fn new() -> (r: Self) {
        CriticalParameterRule
    }

    /// Whether changing `parameter_name` to `value` is safe on a machine with
    /// `cpus` processors: at most two worker threads per processor, and a
    /// garbage collection threshold between 50 and 95 percent.
    pub fn validate_change_with_cpus(&self, parameter_name: &str, value: &ParameterValue, cpus: usize)
        -> (ok: bool)
        ensures
            ok == spec_critical_ok(parameter_name@, value@, cpus as int),
    {
        if text::same_text(parameter_name, "worker_thread_count") {
            match value.as_i64() {
                Some(count) => count >= 1 && (count as i128) <= (cpus as i128) * 2,
                None => false,
            }
        } else if text::same_text(parameter_name, "gc_threshold_percent") {
            float_reading_in(value, F50, F95, 50, 95)
        } else {
            true
        }
    }

    /// `validate_change_with_cpus` with the number of processors of this
    /// machine.
    pub fn validate_change(&self, parameter_name: &str, value: &ParameterValue) -> (ok: bool)
        ensures
            exists|cpus: usize| cpus >= 1 && ok == #[trigger] critical_verdict(parameter_name@, value@, cpus),
    {
        let cpus = cpu_count();
        let ok = self.validate_change_with_cpus(parameter_name, value, cpus);
        assert(cpus >= 1 && ok == critical_verdict(parameter_name@, value@, cpus));
        ok
    }

    /// Name of the rule.
    pub fn get_name(&self) -> (n: &'static str)
        ensures
            n@ == "critical_parameter_rule"@,
    {
        "critical_parameter_rule"
    }
}

/// Rule on values that other parameters depend on.
pub struct DependencyRule;

impl DependencyRule {
    pub fn new() -> (r: Self) {
        DependencyRule
    }

    /// Whether changing `parameter_name` to `value` keeps dependent values sensible.
    pub fn validate_change(&self, parameter_name: &str, value: &ParameterValue) -> (ok: bool)
        ensures
            ok == spec_dependency_ok(parameter_name@, value@),
    {
        if text::same_text(parameter_name, "message_processing_batch_size") {
            match value.as_i64() {
                Some(b) => b >= 1 && b <= 1000,
                None => false,
            }
        } else {
            true
        }
    }

    /// Name of the rule.
    pub fn get_name(&self) -> (n: &'static str)
        ensures
            n@ == "dependency_rule"@,
    {
        "dependency_rule"
    }
}

// ---------------------------------------------------------------------------
// Safety manager
// ---------------------------------------------------------------------------

/// A parameter change kept for safety monitoring (times in milliseconds).
pub struct SafetyChange {
    pub timestamp_ms: u64,
    pub parameter_name: String,
    pub old_value: ParameterValue,
    pub new_value: ParameterValue,
}

/// A rollback of a parameter to its value before its latest change.
pub struct RollbackEvent {
    /// Seconds since the epoch.
    pub timestamp: u64,
    pub parameter_name: String,
    pub rolled_back_value: ParameterValue,
    pub restored_value: ParameterValue,
    pub reason: String,
}

/// Mathematical view of a monitored change.
pub struct SafetyChangeView {
    pub timestamp_ms: u64,
    pub name: Seq<char>,
    pub old_value: ValueView,
    pub new_value: ValueView,
}

impl View for SafetyChange {
    type V = SafetyChangeView;

    open spec fn view(&self) -> SafetyChangeView {
        SafetyChangeView {
            timestamp_ms: self.timestamp_ms,
            name: self.parameter_name@,
            old_value: self.old_value@,
            new_value: self.new_value@,
        }
    }
}

/// Why a rollback could not be made.
#[derive(Clone, Copy, Debug, PartialEq, Eq, Structural)]
pub enum SafetyError {
    /// No monitored change of the parameter is recorded.
    NoRecentChange,
}

/// One hour, in milliseconds.
pub const HOUR_MS: u64 = 3_600_000;
/// One day, in milliseconds.
pub const DAY_MS: u64 = 86_400_000;

/// Number of changes made after `since` (exclusive).
pub open spec fn changes_after(h: Seq<SafetyChangeView>, since: int) -> nat
    decreases h.len(),
{
    if h.len() == 0 {
        0
    } else {
        changes_after(h.drop_last(), since) + if h.last().timestamp_ms > since { 1nat } else { 0nat }
    }
}

/// The history without its leading records older than `cutoff`.
pub open spec fn drop_older(h: Seq<SafetyChangeView>, cutoff: int) -> Seq<SafetyChangeView>
    decreases h.len(),
{
    if h.len() > 0 && h[0].timestamp_ms < cutoff {
        drop_older(h.drop_first(), cutoff)
    } else {
        h
    }
}

/// Index of the latest change of `name`, or -1.
pub open spec fn latest_change_index(h: Seq<SafetyChangeView>, name: Seq<char>) -> int
    decreases h.len(),
{
    if h.len() == 0 {
        -1
    } else if h.last().name == name {
        h.len() - 1
    } else {
        latest_change_index(h.drop_last(), name)
    }
}

/// Verdict of all four rules on a change of `name` to `v`.
pub open spec fn rules_accept(name: Seq<char>, v: ValueView, cpus: usize) -> bool {
    &&& spec_value_range_ok(name, v)
    &&& spec_memory_limit_ok(name, v)
    &&& critical_verdict(name, v, cpus)
    &&& spec_dependency_ok(name, v)
}

/// Validates parameter changes against the circuit breaker, a rate limit
/// and the safety rules, and keeps the changes and rollbacks it has seen.
pub struct SafetyManager {
    enabled: bool,
    max_changes_per_hour: u32,
    rollback_threshold_seconds: u64,
    change_history: Vec<SafetyChange>,
    rollback_history: Vec<RollbackEvent>,
    circuit_breaker: CircuitBreaker,
}

impl SafetyManager {
    pub closed spec fn is_enabled(&self) -> bool {
        self.enabled
    }

    pub closed spec fn max_per_hour(&self) -> nat {
        self.max_changes_per_hour as nat
    }

    /// The monitored changes, oldest first.
    pub closed spec fn changes(&self) -> Seq<SafetyChangeView> {
        self.change_history@.map_values(|c: SafetyChange| c@)
    }

    /// Number of rollbacks made.
    pub closed spec fn rollback_count(&self) -> nat {
        self.rollback_history@.len()
    }

    /// The circuit breaker.
    pub closed spec fn breaker(&self) -> BreakerModel {
        self.circuit_breaker@
    }

    pub closed spec fn wf(&self) -> bool {
        breaker_wf(self.circuit_breaker@)
    }

    /// Verdict on changing `name` to `v` at `now_ms` with `cpus` processors:
    /// accepted when the manager is disabled; otherwise only if the breaker
    /// is not open, fewer than the hourly maximum of changes were made in the
    /// last hour, and every rule accepts it.
    pub open spec fn change_verdict(m: SafetyManager, name: Seq<char>, v: ValueView, now_ms: u64, cpus: usize) -> bool {
        !m.is_enabled() || (m.breaker().state != CircuitBreakerState::Open
            && changes_after(m.changes(), now_ms - HOUR_MS) < m.max_per_hour()
            && rules_accept(name, v, cpus))
    }

    /// A manager with a closed breaker and no recorded change.
    pub fn new(enabled: bool, max_changes_per_hour: u32, rollback_threshold_seconds: u64) -> (m: Self)
        ensures
            m.wf(),
            m.is_enabled() == enabled,
            m.max_per_hour() == max_changes_per_hour,
            m.changes() == Seq::<SafetyChangeView>::empty(),
            m.rollback_count() == 0,
            m.breaker().state == CircuitBreakerState::Closed,
            m.breaker().failure_count == 0,
    {
        let m = SafetyManager {
            enabled,
            max_changes_per_hour,
            rollback_threshold_seconds,
            change_history: Vec::new(),
            rollback_history: Vec::new(),
            circuit_breaker: CircuitBreaker::new(),
        };
        assert(m.changes() =~= Seq::<SafetyChangeView>::empty());
        m
    }

    /// Number of changes made after `since` (milliseconds).
    fn count_changes_after(&self, since: i128) -> (n: usize)
        ensures
            n == changes_after(self.changes(), since as int),
    {
        let ghost h = self.changes();
        let mut n: usize = 0;
        let mut i: usize = 0;
        while i < self.change_history.len()
            invariant
                i <= self.change_history@.len(),
                h == self.changes(),
                h.len() == self.change_history@.len(),
                n == changes_after(h.take(i as int), since as int),
                n <= i,
            decreases self.change_history@.len() - i,
        {
            assert(h.take(i + 1).drop_last() =~= h.take(i as int));
            if (self.change_history[i].timestamp_ms as i128) > since {
                n = n + 1;
            }
            i = i + 1;
        }
        assert(h.take(h.len() as int) =~= h);
        n
    }

    /// Whether changing `name` to `value` at `now_ms` is safe on a machine
    /// with `cpus` processors: always when the manager is disabled; otherwise
    /// only if the breaker is not open, fewer than the hourly maximum of
    /// changes were made in the last hour, and every rule accepts it.
    pub fn validate_parameter_change_at(&self, name: &str, value: &ParameterValue, now_ms: u64, cpus: usize)
        -> (ok: bool)
        requires
            memory_estimate_fits(name@, value@),
        ensures
            ok == SafetyManager::change_verdict(*self, name@, value@, now_ms, cpus),
    {
        if !self.enabled {
            return true;
        }
        if self.circuit_breaker.state() == CircuitBreakerState::Open {
            return false;
        }
        let since: i128 = now_ms as i128 - HOUR_MS as i128;
        let recent = self.count_changes_after(since);
        if recent as u64 >= self.max_changes_per_hour as u64 {
            return false;
        }
        if !ValueRangeRule::new().validate_change(name, value) {
            return false;
        }
        if !MemoryLimitRule::new().validate_change(name, value) {
            return false;
        }
        let critical_ok = CriticalParameterRule::new().validate_change_with_cpus(name, value, cpus);
        if !critical_ok {
            return false;
        }
        DependencyRule::new().validate_change(name, value)
    }

    /// `validate_parameter_change_at` with the clock and the processor count
    /// of this machine.
    pub fn validate_parameter_change(&self, name: &str, value: &ParameterValue) -> (ok: bool)
        requires
            memory_estimate_fits(name@, value@),
        ensures
            exists|now_ms: u64, cpus: usize| cpus >= 1 && ok == #[trigger] SafetyManager::change_verdict(*self, name@, value@, now_ms, cpus),
    {
        let now_ms = clock::now_millis();
        let cpus = cpu_count();
        let ok = self.validate_parameter_change_at(name, value, now_ms, cpus);
        assert(ok == SafetyManager::change_verdict(*self, name@, value@, now_ms, cpus));
        ok
    }

    /// Record a change made at `now_ms` for monitoring, and forget the
    /// changes older than a day.
    pub fn record_parameter_change_at(&mut self, name: &str, old_value: ParameterValue, new_value: ParameterValue, now_ms: u64)
        requires
            old(self).wf(),
        ensures
            final(self).wf(),
            final(self).changes() == drop_older(
                old(self).changes().push(SafetyChangeView { timestamp_ms: now_ms, name: name@, old_value: old_value@, new_value: new_value@ }),
                now_ms - DAY_MS),
            final(self).breaker() == old(self).breaker(),
            final(self).rollback_count() == old(self).rollback_count(),
            final(self).is_enabled() == old(self).is_enabled(),
            final(self).max_per_hour() == old(self).max_per_hour(),
    {
        let ghost h0 = self.changes();
        let change = SafetyChange {
            timestamp_ms: now_ms,
            parameter_name: text::owned(name),
            old_value,
            new_value,
        };
        self.change_history.push(change);
        assert(self.changes() =~= h0.push(change@));
        let ghost target = drop_older(self.changes(), now_ms - DAY_MS);
        let ghost b0 = self.circuit_breaker;
        let ghost r0 = self.rollback_history@;
        if now_ms >= DAY_MS {
            let cutoff = now_ms - DAY_MS;
            while self.change_history.len() > 0 && self.change_history[0].timestamp_ms < cutoff
                invariant
                    drop_older(self.changes(), cutoff as int) == target,
                    self.circuit_breaker == b0,
                    self.rollback_history@ == r0,
                    self.enabled == old(self).enabled,
                    self.max_changes_per_hour == old(self).max_changes_per_hour,
                decreases self.change_history@.len(),
            {
                let ghost h1 = self.changes();
                self.change_history.remove(0);
                assert(self.changes() =~= h1.drop_first());
            }
        } else {
            assert(self.changes().len() > 0 && self.changes()[0].timestamp_ms >= now_ms - DAY_MS);
        }
    }

    /// Roll back the latest monitored change of `name` at `now_ms`: the value
    /// before that change is returned, the rollback is recorded, and the
    /// breaker counts a failure.
    pub fn trigger_rollback_at(&mut self, parameter_name: &str, reason: &str, now_ms: u64)
        -> (r: Result<ParameterValue, SafetyError>)
        requires
            old(self).wf(),
            old(self).breaker().failure_count < u32::MAX,
        ensures
            final(self).wf(),
            final(self).changes() == old(self).changes(),
            latest_change_index(old(self).changes(), parameter_name@) < 0 ==> r == Err::<ParameterValue, SafetyError>(SafetyError::NoRecentChange)
                && final(self).breaker() == old(self).breaker()
                && final(self).rollback_count() == old(self).rollback_count(),
            latest_change_index(old(self).changes(), parameter_name@) >= 0 ==> r is Ok
                && r->Ok_0@ == old(self).changes()[latest_change_index(old(self).changes(), parameter_name@)].old_value
                && final(self).breaker() == spec_record_failure(old(self).breaker(), now_ms)
                && final(self).rollback_count() == old(self).rollback_count() + 1,
    {
        let ghost h = self.changes();
        let mut i: usize = self.change_history.len();
        assert(h.take(h.len() as int) =~= h);
        let mut found: Option<usize> = None;
        while i > 0
            invariant_except_break
                found is None,
                latest_change_index(h, parameter_name@) == latest_change_index(h.take(i as int), parameter_name@),
            invariant
                i <= self.change_history@.len(),
                h == self.changes(),
                h.len() == self.change_history@.len(),
            ensures
                match found {
                    Some(k) => k < h.len() && k == latest_change_index(h, parameter_name@),
                    None => latest_change_index(h, parameter_name@) < 0,
                },
            decreases i,
        {
            assert(h.take(i as int).drop_last() =~= h.take(i - 1));
            if text::same_text(self.change_history[i - 1].parameter_name.as_str(), parameter_name) {
                found = Some(i - 1);
                break;
            }
            i = i - 1;
        }
        let k = match found {
            Some(k) => k,
            None => return Err(SafetyError::NoRecentChange),
        };
        let restored = self.change_history[k].old_value.clone();
        let event = RollbackEvent {
            timestamp: now_ms / 1000,
            parameter_name: text::owned(parameter_name),
            rolled_back_value: self.change_history[k].new_value.clone(),
            restored_value: restored.clone(),
            reason: text::owned(reason),
        };
        self.rollback_history.push(event);
        self.circuit_breaker.record_failure_at(now_ms);
        Ok(restored)
    }

    /// Record a change made now; see `record_parameter_change_at`.
    pub fn record_parameter_change(&mut self, name: &str, old_value: ParameterValue, new_value: ParameterValue)
        requires
            old(self).wf(),
        ensures
            final(self).wf(),
            exists|now_ms: u64| final(self).changes() == #[trigger] drop_older(
                old(self).changes().push(SafetyChangeView { timestamp_ms: now_ms, name: name@, old_value: old_value@, new_value: new_value@ }),
                now_ms - DAY_MS),
            final(self).breaker() == old(self).breaker(),
            final(self).rollback_count() == old(self).rollback_count(),
    {
        let now_ms = clock::now_millis();
        let ghost ov = old_value@;
        let ghost nv = new_value@;
        self.record_parameter_change_at(name, old_value, new_value, now_ms);
        assert(self.changes() == drop_older(
            old(self).changes().push(SafetyChangeView { timestamp_ms: now_ms, name: name@, old_value: ov, new_value: nv }),
            now_ms - DAY_MS));
    }

    /// Roll back the latest monitored change of `name` now; see `trigger_rollback_at`.
    pub fn trigger_rollback(&mut self, parameter_name: &str, reason: &str) -> (r: Result<ParameterValue, SafetyError>)
        requires
            old(self).wf(),
            old(self).breaker().failure_count < u32::MAX,
        ensures
            final(self).wf(),
            final(self).changes() == old(self).changes(),
            latest_change_index(old(self).changes(), parameter_name@) < 0 ==> r == Err::<ParameterValue, SafetyError>(SafetyError::NoRecentChange)
                && final(self).breaker() == old(self).breaker()
                && final(self).rollback_count() == old(self).rollback_count(),
            latest_change_index(old(self).changes(), parameter_name@) >= 0 ==> r is Ok
                && r->Ok_0@ == old(self).changes()[latest_change_index(old(self).changes(), parameter_name@)].old_value
                && final(self).rollback_count() == old(self).rollback_count() + 1
                && exists|now_ms: u64| final(self).breaker() == #[trigger] spec_record_failure(old(self).breaker(), now_ms),
    {
        let now_ms = clock::now_millis();
        let r = self.trigger_rollback_at(parameter_name, reason, now_ms);
        assert(latest_change_index(old(self).changes(), parameter_name@) >= 0
            ==> self.breaker() == spec_record_failure(old(self).breaker(), now_ms));
        r
    }

    /// Number of rollbacks recorded.
    pub fn total_rollbacks(&self) -> (n: usize)
        ensures
            n == self.rollback_count(),
    {
        self.rollback_history.len()
    }
}

/// While the safety manager is enabled, it refuses every change when its
/// breaker is open, when the hour before has already seen its allowance of
/// changes, or when a safety rule refuses the value; a disabled manager
/// accepts every change.
pub proof fn lemma_change_verdict(m: SafetyManager, name: Seq<char>, v: ValueView, now_ms: u64, cpus: usize)
    ensures
        !m.is_enabled() ==> SafetyManager::change_verdict(m, name, v, now_ms, cpus),
        m.is_enabled() && m.breaker().state == CircuitBreakerState::Open
            ==> !SafetyManager::change_verdict(m, name, v, now_ms, cpus),
        m.is_enabled() && changes_after(m.changes(), now_ms - HOUR_MS) >= m.max_per_hour()
            ==> !SafetyManager::change_verdict(m, name, v, now_ms, cpus),
        m.is_enabled() && !rules_accept(name, v, cpus) ==> !SafetyManager::change_verdict(m, name, v, now_ms, cpus),
{
}

} // verus!
