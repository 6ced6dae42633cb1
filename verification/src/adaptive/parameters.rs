//! Tunable parameters: their values, constraints and definitions, the store
//! that holds them with a bounded change history, and the integer utilities
//! used by the tuning strategies.

use vstd::prelude::*;
use crate::adaptive::binary64;
use crate::clock;
use crate::text;

verus! {

// ---------------------------------------------------------------------------
// Values
// ---------------------------------------------------------------------------

/// A tunable parameter value. A floating-point value is held as the bit
/// pattern of its IEEE-754 binary64 encoding (`f64::to_bits`).
#[derive(Debug)]
pub enum ParameterValue {
    Integer(i64),
    Float(u64),
    Boolean(bool),
    String(String),
    /// Duration in milliseconds.
    Duration(u64),
}

/// Mathematical view of a parameter value.
pub enum ValueView {
    Integer(i64),
    Float(u64),
    Boolean(bool),
    Text(Seq<char>),
    Duration(u64),
}

impl View for ParameterValue {
    type V = ValueView;

    open spec fn view(&self) -> ValueView {
        match self {
            ParameterValue::Integer(v) => ValueView::Integer(*v),
            ParameterValue::Float(b) => ValueView::Float(*b),
            ParameterValue::Boolean(v) => ValueView::Boolean(*v),
            ParameterValue::String(s) => ValueView::Text(s@),
            ParameterValue::Duration(d) => ValueView::Duration(*d),
        }
    }
}

/// Equality of values: floats compare as IEEE-754 numbers (a NaN equals
/// nothing, and the two zeros are equal); other values compare as they are.
pub open spec fn value_eq(a: ValueView, b: ValueView) -> bool {
    match (a, b) {
        (ValueView::Float(x), ValueView::Float(y)) => binary64::spec_eq(x, y),
        _ => a == b,
    }
}

/// Whether some value of `a` equals `v`, by `value_eq`.
pub open spec fn holds_value(a: Seq<ValueView>, v: ValueView) -> bool {
    exists|j: int| 0 <= j < a.len() && #[trigger] value_eq(a[j], v)
}

/// The value as an integer: integers as they are, floats truncated as by `as i64`.
pub open spec fn spec_as_i64(v: ValueView) -> Option<i64> {
    match v {
        ValueView::Integer(x) => Some(x),
        ValueView::Float(b) => Some(binary64::spec_to_i64(b)),
        _ => None,
    }
}

/// The value as a duration in milliseconds: durations, and non-negative integers.
pub open spec fn spec_as_duration_ms(v: ValueView) -> Option<u64> {
    match v {
        ValueView::Duration(d) => Some(d),
        ValueView::Integer(x) => if x >= 0 { Some(x as u64) } else { None },
        _ => None,
    }
}

impl Clone for ParameterValue {
    fn clone(&self) -> (r: Self)
        ensures
            r == *self,
    {
        match self {
            ParameterValue::Integer(v) => ParameterValue::Integer(*v),
            ParameterValue::Float(b) => ParameterValue::Float(*b),
            ParameterValue::Boolean(v) => ParameterValue::Boolean(*v),
            ParameterValue::String(s) => ParameterValue::String(s.clone()),
            ParameterValue::Duration(d) => ParameterValue::Duration(*d),
        }
    }
}

impl PartialEq for ParameterValue {
    fn eq(&self, other: &Self) -> (r: bool) {
        match (self, other) {
            (ParameterValue::Integer(a), ParameterValue::Integer(b)) => *a == *b,
            (ParameterValue::Float(a), ParameterValue::Float(b)) => binary64::equal(*a, *b),
            (ParameterValue::Boolean(a), ParameterValue::Boolean(b)) => *a == *b,
            (ParameterValue::String(a), ParameterValue::String(b)) => *a == *b,
            (ParameterValue::Duration(a), ParameterValue::Duration(b)) => *a == *b,
            _ => false,
        }
    }
}

impl vstd::std_specs::cmp::PartialEqSpecImpl for ParameterValue {
    open spec fn obeys_eq_spec() -> bool {
        true
    }

    open spec fn eq_spec(&self, other: &Self) -> bool {
        value_eq(self@, other@)
    }
}

impl ParameterValue {
    /// The value as an integer; a float is truncated toward zero, saturating.
    pub fn as_i64(&self) -> (r: Option<i64>)
        ensures
            r == spec_as_i64(self@),
    {
        match self {
            ParameterValue::Integer(v) => Some(*v),
            ParameterValue::Float(b) => Some(binary64::to_i64(*b)),
            _ => None,
        }
    }

    /// The encoding of a float value.
    pub fn float_bits(&self) -> (r: Option<u64>)
        ensures
            r == (match self@ {
                ValueView::Float(b) => Some(b),
                _ => None::<u64>,
            }),
    {
        match self {
            ParameterValue::Float(b) => Some(*b),
            _ => None,
        }
    }

    /// The value as a boolean.
    pub fn as_bool(&self) -> (r: Option<bool>)
        ensures
            r == (match self@ {
                ValueView::Boolean(v) => Some(v),
                _ => None::<bool>,
            }),
    {
        match self {
            ParameterValue::Boolean(v) => Some(*v),
            _ => None,
        }
    }

    /// The value as a string.
    pub fn as_string(&self) -> (r: Option<String>)
        ensures
            match self@ {
                ValueView::Text(t) => r is Some && r->0@ == t,
                _ => r is None,
            },
    {
        match self {
            ParameterValue::String(s) => Some(s.clone()),
            _ => None,
        }
    }

    /// The value as a duration in milliseconds.
    pub fn as_duration_ms(&self) -> (r: Option<u64>)
        ensures
            r == spec_as_duration_ms(self@),
    {
        match self {
            ParameterValue::Duration(d) => Some(*d),
            ParameterValue::Integer(v) => if *v >= 0 {
                Some(*v as u64)
            } else {
                None
            },
            _ => None,
        }
    }
}

// ---------------------------------------------------------------------------
// Constraints
// ---------------------------------------------------------------------------

/// Constraints on the values of a parameter.
pub struct ParameterConstraints {
    pub min_value: Option<ParameterValue>,
    pub max_value: Option<ParameterValue>,
    pub allowed_values: Option<Vec<ParameterValue>>,
    pub step_size: Option<ParameterValue>,
}

/// Mathematical view of the constraints.
pub struct ConstraintsView {
    pub min: Option<ValueView>,
    pub max: Option<ValueView>,
    pub allowed: Option<Seq<ValueView>>,
    pub step: Option<ValueView>,
}

pub open spec fn opt_view(v: Option<ParameterValue>) -> Option<ValueView> {
    match v {
        Some(x) => Some(x@),
        None => None,
    }
}

pub open spec fn values_view(v: Seq<ParameterValue>) -> Seq<ValueView> {
    v.map_values(|x: ParameterValue| x@)
}

impl View for ParameterConstraints {
    type V = ConstraintsView;

    open spec fn view(&self) -> ConstraintsView {
        ConstraintsView {
            min: opt_view(self.min_value),
            max: opt_view(self.max_value),
            allowed: match self.allowed_values {
                Some(a) => Some(values_view(a@)),
                None => None,
            },
            step: opt_view(self.step_size),
        }
    }
}

/// Why a value was refused by a set of constraints.
#[derive(Clone, Copy, Debug, PartialEq, Eq, Structural)]
pub enum ConstraintViolation {
    /// The constraints list the allowed values and this is not one of them.
    NotAllowed,
    /// The value lies outside the closed range given by `min_value` and `max_value`.
    OutOfRange,
}

/// Whether the list of allowed values, if any, admits `v`.
pub open spec fn allowed_ok(c: ConstraintsView, v: ValueView) -> bool {
    match c.allowed {
        Some(a) => holds_value(a, v),
        None => true,
    }
}

/// Whether `v` lies within the range of `c`. A range is checked only when
/// the value, the minimum and the maximum are all integers, all floats or
/// all durations.
pub open spec fn range_ok(c: ConstraintsView, v: ValueView) -> bool {
    match (v, c.min, c.max) {
        (ValueView::Integer(x), Some(ValueView::Integer(lo)), Some(ValueView::Integer(hi))) =>
            lo <= x && x <= hi,
        (ValueView::Float(x), Some(ValueView::Float(lo)), Some(ValueView::Float(hi))) =>
            !binary64::spec_lt(x, lo) && !binary64::spec_lt(hi, x),
        (ValueView::Duration(x), Some(ValueView::Duration(lo)), Some(ValueView::Duration(hi))) =>
            lo <= x && x <= hi,
        _ => true,
    }
}

/// Outcome of checking `v` against `c`: the allowed list first, then the range.
pub open spec fn spec_validate(c: ConstraintsView, v: ValueView) -> Result<(), ConstraintViolation> {
    if !allowed_ok(c, v) {
        Err(ConstraintViolation::NotAllowed)
    } else if !range_ok(c, v) {
        Err(ConstraintViolation::OutOfRange)
    } else {
        Ok(())
    }
}

/// Whether `v` satisfies `c`.
pub open spec fn satisfies(c: ConstraintsView, v: ValueView) -> bool {
    spec_validate(c, v) is Ok
}

fn contains_value(list: &Vec<ParameterValue>, v: &ParameterValue) -> (r: bool)
    ensures
        r == holds_value(values_view(list@), v@),
{
    let mut i: usize = 0;
    while i < list.len()
        invariant
            i <= list@.len(),
            forall|j: int| 0 <= j < i ==> !value_eq(list@[j]@, v@),
        decreases list@.len() - i,
    {
        if list[i] == *v {
            assert(value_eq(values_view(list@)[i as int], v@));
            return true;
        }
        i = i + 1;
    }
    assert forall|j: int| 0 <= j < values_view(list@).len() implies !value_eq(#[trigger] values_view(list@)[j], v@) by {
        assert(values_view(list@)[j] == list@[j]@);
    }
    false
}

impl ParameterConstraints {
    /// Check `value` against the constraints: `NotAllowed` when a list of
    /// allowed values is given and does not hold it, else `OutOfRange` when it
    /// lies outside the range, else `Ok`.
    pub fn validate(&self, value: &ParameterValue) -> (r: Result<(), ConstraintViolation>)
        ensures
            r == spec_validate(self@, value@),
    {
        if let Some(allowed) = &self.allowed_values {
            if !contains_value(allowed, value) {
                return Err(ConstraintViolation::NotAllowed);
            }
        }
        match (value, &self.min_value, &self.max_value) {
            (ParameterValue::Integer(v), Some(ParameterValue::Integer(lo)), Some(ParameterValue::Integer(hi))) => {
                if *v < *lo || *v > *hi {
                    return Err(ConstraintViolation::OutOfRange);
                }
            },
            (ParameterValue::Float(v), Some(ParameterValue::Float(lo)), Some(ParameterValue::Float(hi))) => {
                if binary64::lt(*v, *lo) || binary64::lt(*hi, *v) {
                    return Err(ConstraintViolation::OutOfRange);
                }
            },
            (ParameterValue::Duration(v), Some(ParameterValue::Duration(lo)), Some(ParameterValue::Duration(hi))) => {
                if *v < *lo || *v > *hi {
                    return Err(ConstraintViolation::OutOfRange);
                }
            },
            _ => {},
        }
        Ok(())
    }
}

// ---------------------------------------------------------------------------
// Definitions and the store
// ---------------------------------------------------------------------------

/// Category of a parameter.
pub enum ParameterCategory {
    Connection,
    Memory,
    Processing,
    AI,
    Moderation,
    Cache,
    Database,
    Network,
    Custom(String),
}

/// Which variant a category is, ignoring a custom category's name.
pub open spec fn category_kind(c: ParameterCategory) -> nat {
    match c {
        ParameterCategory::Connection => 0,
        ParameterCategory::Memory => 1,
        ParameterCategory::Processing => 2,
        ParameterCategory::AI => 3,
        ParameterCategory::Moderation => 4,
        ParameterCategory::Cache => 5,
        ParameterCategory::Database => 6,
        ParameterCategory::Network => 7,
        ParameterCategory::Custom(_) => 8,
    }
}

impl ParameterCategory {
    /// Whether two categories are the same variant (custom names are not compared).
    pub fn same_kind(&self, other: &ParameterCategory) -> (r: bool)
        ensures
            r == (category_kind(*self) == category_kind(*other)),
    {
        match (self, other) {
            (ParameterCategory::Connection, ParameterCategory::Connection) => true,
            (ParameterCategory::Memory, ParameterCategory::Memory) => true,
            (ParameterCategory::Processing, ParameterCategory::Processing) => true,
            (ParameterCategory::AI, ParameterCategory::AI) => true,
            (ParameterCategory::Moderation, ParameterCategory::Moderation) => true,
            (ParameterCategory::Cache, ParameterCategory::Cache) => true,
            (ParameterCategory::Database, ParameterCategory::Database) => true,
            (ParameterCategory::Network, ParameterCategory::Network) => true,
            (ParameterCategory::Custom(_), ParameterCategory::Custom(_)) => true,
            _ => false,
        }
    }
}

/// Impact of changing a parameter.
#[derive(Clone, Copy, Debug, PartialEq, Eq, Structural)]
pub enum ImpactLevel {
    Low,
    Medium,
    High,
    Critical,
}

/// How often a parameter may be tuned.
#[derive(Clone, Copy, Debug, PartialEq, Eq, Structural)]
pub enum TuningFrequency {
    Continuous,
    Hourly,
    Daily,
    Manual,
}

/// Definition of a tunable parameter.
pub struct ParameterDefinition {
    pub name: String,
    pub description: String,
    pub category: ParameterCategory,
    pub default_value: ParameterValue,
    pub current_value: ParameterValue,
    pub constraints: ParameterConstraints,
    pub impact_level: ImpactLevel,
    pub tuning_frequency: TuningFrequency,
    pub dependencies: Vec<String>,
}

/// Record of a parameter change.
pub struct ParameterChange {
    pub timestamp: u64,
    pub parameter_name: String,
    pub old_value: ParameterValue,
    pub new_value: ParameterValue,
    pub reason: String,
    pub triggered_by: String,
}

/// Mathematical view of a change record.
pub struct ChangeView {
    pub timestamp: u64,
    pub name: Seq<char>,
    pub old_value: ValueView,
    pub new_value: ValueView,
    pub reason: Seq<char>,
    pub triggered_by: Seq<char>,
}

impl View for ParameterChange {
    type V = ChangeView;

    open spec fn view(&self) -> ChangeView {
        ChangeView {
            timestamp: self.timestamp,
            name: self.parameter_name@,
            old_value: self.old_value@,
            new_value: self.new_value@,
            reason: self.reason@,
            triggered_by: self.triggered_by@,
        }
    }
}

/// What the store knows of one parameter.
pub struct ParamEntry {
    pub default_value: ValueView,
    pub current_value: ValueView,
    pub constraints: ConstraintsView,
    pub frequency: TuningFrequency,
    pub dependencies: Seq<Seq<char>>,
}

pub open spec fn entry_of(d: ParameterDefinition) -> ParamEntry {
    ParamEntry {
        default_value: d.default_value@,
        current_value: d.current_value@,
        constraints: d.constraints@,
        frequency: d.tuning_frequency,
        dependencies: d.dependencies@.map_values(|s: String| s@),
    }
}

/// Whether a definition's default and current values satisfy its constraints.
pub open spec fn definition_valid(d: ParameterDefinition) -> bool {
    satisfies(d.constraints@, d.default_value@) && satisfies(d.constraints@, d.current_value@)
}

pub open spec fn names_distinct(defs: Seq<ParameterDefinition>) -> bool {
    forall|i: int, j: int| 0 <= i < defs.len() && 0 <= j < defs.len() && i != j
        ==> #[trigger] defs[i].name@ != #[trigger] defs[j].name@
}

pub open spec fn has_name(defs: Seq<ParameterDefinition>, n: Seq<char>) -> bool {
    exists|i: int| 0 <= i < defs.len() && #[trigger] defs[i].name@ == n
}

pub open spec fn index_of(defs: Seq<ParameterDefinition>, n: Seq<char>) -> int {
    choose|i: int| 0 <= i < defs.len() && #[trigger] defs[i].name@ == n
}

/// The parameters of a list of definitions, by name.
pub open spec fn defs_map(defs: Seq<ParameterDefinition>) -> Map<Seq<char>, ParamEntry> {
    Map::new(|n: Seq<char>| has_name(defs, n), |n: Seq<char>| entry_of(defs[index_of(defs, n)]))
}

/// History after appending `c`, dropping the oldest entry beyond `max` entries.
pub open spec fn bounded_push(h: Seq<ChangeView>, c: ChangeView, max: nat) -> Seq<ChangeView> {
    if h.len() + 1 > max {
        h.push(c).drop_first()
    } else {
        h.push(c)
    }
}

/// Time of the latest recorded change of the parameter `n`.
pub open spec fn last_change_time(h: Seq<ChangeView>, n: Seq<char>) -> Option<u64>
    decreases h.len(),
{
    if h.len() == 0 {
        None
    } else if h.last().name == n {
        Some(h.last().timestamp)
    } else {
        last_change_time(h.drop_last(), n)
    }
}

/// Number of change records kept by a store.
pub const MAX_HISTORY_SIZE: usize = 1000;

/// Why a store operation failed.
#[derive(Clone, Copy, Debug, PartialEq, Eq, Structural)]
pub enum ParameterError {
    /// No parameter of that name is registered.
    NotFound,
    /// The value breaks the parameter's constraints.
    Invalid(ConstraintViolation),
}

/// Registered parameters with a bounded history of their changes.
pub struct ParameterStore {
    parameters: Vec<ParameterDefinition>,
    change_history: Vec<ParameterChange>,
    max_history_size: usize,
}

impl ParameterStore {
    /// The registered definitions, in registration order.
    pub closed spec fn definitions(&self) -> Seq<ParameterDefinition> {
        self.parameters@
    }

    /// The parameters by name.
    pub open spec fn params(&self) -> Map<Seq<char>, ParamEntry> {
        defs_map(self.definitions())
    }

    /// The change history, oldest first.
    pub closed spec fn history(&self) -> Seq<ChangeView> {
        self.change_history@.map_values(|c: ParameterChange| c@)
    }

    /// Names are unique, every stored default and current value satisfies its
    /// constraints, and the history holds at most `MAX_HISTORY_SIZE` records.
    pub closed spec fn wf(&self) -> bool {
        &&& names_distinct(self.parameters@)
        &&& forall|i: int| 0 <= i < self.parameters@.len() ==> #[trigger] definition_valid(self.parameters@[i])
        &&& self.max_history_size == MAX_HISTORY_SIZE
        &&& self.change_history@.len() <= MAX_HISTORY_SIZE
    }
}

proof fn lemma_index_unique(defs: Seq<ParameterDefinition>, i: int)
    requires
        names_distinct(defs),
        0 <= i < defs.len(),
    ensures
        has_name(defs, defs[i].name@),
        index_of(defs, defs[i].name@) == i,
        defs_map(defs).dom().contains(defs[i].name@),
        defs_map(defs)[defs[i].name@] == entry_of(defs[i]),
{
    let n = defs[i].name@;
    assert(has_name(defs, n));
    let k = index_of(defs, n);
    assert(0 <= k < defs.len() && defs[k].name@ == n);
    if k != i {
        assert(defs[k].name@ != defs[i].name@);
    }
}

/// Replacing the definition at `i` by one of the same name updates that
/// name's entry and nothing else.
proof fn lemma_update_at(defs: Seq<ParameterDefinition>, i: int, d: ParameterDefinition)
    requires
        names_distinct(defs),
        0 <= i < defs.len(),
        d.name@ == defs[i].name@,
    ensures
        names_distinct(defs.update(i, d)),
        defs_map(defs.update(i, d)) == defs_map(defs).insert(d.name@, entry_of(d)),
{
    let nd = defs.update(i, d);
    assert(names_distinct(nd)) by {
        assert forall|a: int, b: int| 0 <= a < nd.len() && 0 <= b < nd.len() && a != b
            implies #[trigger] nd[a].name@ != #[trigger] nd[b].name@ by {
            assert(nd[a].name@ == defs[a].name@);
            assert(nd[b].name@ == defs[b].name@);
        }
    }
    let m1 = defs_map(nd);
    let m2 = defs_map(defs).insert(d.name@, entry_of(d));
    assert forall|n: Seq<char>| #[trigger] m1.dom().contains(n) <==> m2.dom().contains(n) by {
        if has_name(nd, n) {
            let k = choose|k: int| 0 <= k < nd.len() && #[trigger] nd[k].name@ == n;
            assert(defs[k].name@ == n);
        }
        if has_name(defs, n) {
            let k = choose|k: int| 0 <= k < defs.len() && #[trigger] defs[k].name@ == n;
            assert(nd[k].name@ == n);
        }
        if n == d.name@ {
            assert(nd[i].name@ == n);
        }
    }
    assert forall|n: Seq<char>| #[trigger] m1.dom().contains(n) implies m1[n] == m2[n] by {
        let k = choose|k: int| 0 <= k < nd.len() && #[trigger] nd[k].name@ == n;
        lemma_index_unique(nd, k);
        if k == i {
        } else {
            assert(defs[k].name@ == n);
            lemma_index_unique(defs, k);
        }
    }
    assert(m1 =~= m2);
}

/// Appending a definition under a new name adds that name's entry.
proof fn lemma_push_new(defs: Seq<ParameterDefinition>, d: ParameterDefinition)
    requires
        names_distinct(defs),
        !has_name(defs, d.name@),
    ensures
        names_distinct(defs.push(d)),
        defs_map(defs.push(d)) == defs_map(defs).insert(d.name@, entry_of(d)),
{
    let nd = defs.push(d);
    assert(names_distinct(nd)) by {
        assert forall|a: int, b: int| 0 <= a < nd.len() && 0 <= b < nd.len() && a != b
            implies #[trigger] nd[a].name@ != #[trigger] nd[b].name@ by {
            if a < defs.len() && b < defs.len() {
                assert(nd[a].name@ == defs[a].name@);
                assert(nd[b].name@ == defs[b].name@);
            } else if a < defs.len() {
                assert(nd[a].name@ == defs[a].name@);
            } else {
                assert(nd[b].name@ == defs[b].name@);
            }
        }
    }
    let m1 = defs_map(nd);
    let m2 = defs_map(defs).insert(d.name@, entry_of(d));
    assert forall|n: Seq<char>| #[trigger] m1.dom().contains(n) <==> m2.dom().contains(n) by {
        if has_name(nd, n) {
            let k = choose|k: int| 0 <= k < nd.len() && #[trigger] nd[k].name@ == n;
            if k < defs.len() {
                assert(defs[k].name@ == n);
            }
        }
        if has_name(defs, n) {
            let k = choose|k: int| 0 <= k < defs.len() && #[trigger] defs[k].name@ == n;
            assert(nd[k].name@ == n);
        }
        if n == d.name@ {
            assert(nd[defs.len() as int].name@ == n);
        }
    }
    assert forall|n: Seq<char>| #[trigger] m1.dom().contains(n) implies m1[n] == m2[n] by {
        let k = choose|k: int| 0 <= k < nd.len() && #[trigger] nd[k].name@ == n;
        lemma_index_unique(nd, k);
        if k < defs.len() {
            assert(defs[k].name@ == n);
            lemma_index_unique(defs, k);
        }
    }
    assert(m1 =~= m2);
}

impl ParameterStore {
    /// Position of the parameter named `name`.
    fn find(&self, name: &str) -> (r: Option<usize>)
        requires
            self.wf(),
        ensures
            match r {
                Some(i) => i < self.parameters@.len() && self.parameters@[i as int].name@ == name@,
                None => !has_name(self.parameters@, name@),
            },
            r is Some <==> self.params().dom().contains(name@),
    {
        let mut i: usize = 0;
        while i < self.parameters.len()
            invariant
                i <= self.parameters@.len(),
                self.wf(),
                forall|j: int| 0 <= j < i ==> self.parameters@[j].name@ != name@,
            decreases self.parameters@.len() - i,
        {
            if text::same_text(self.parameters[i].name.as_str(), name) {
                proof {
                    lemma_index_unique(self.parameters@, i as int);
                }
                return Some(i);
            }
            i = i + 1;
        }
        None
    }

    /// Current value of the parameter named `name`.
    pub fn get_parameter(&self, name: &str) -> (r: Option<&ParameterValue>)
        requires
            self.wf(),
        ensures
            match r {
                Some(v) => self.params().dom().contains(name@) && v@ == self.params()[name@].current_value,
                None => !self.params().dom().contains(name@),
            },
    {
        match self.find(name) {
            Some(i) => {
                proof {
                    lemma_index_unique(self.parameters@, i as int);
                }
                Some(&self.parameters[i].current_value)
            },
            None => None,
        }
    }

    /// Definition of the parameter named `name`.
    pub fn get_parameter_definition(&self, name: &str) -> (r: Option<&ParameterDefinition>)
        requires
            self.wf(),
        ensures
            match r {
                Some(d) => self.params().dom().contains(name@) && d.name@ == name@
                    && entry_of(*d) == self.params()[name@],
                None => !self.params().dom().contains(name@),
            },
    {
        match self.find(name) {
            Some(i) => {
                proof {
                    lemma_index_unique(self.parameters@, i as int);
                }
                Some(&self.parameters[i])
            },
            None => None,
        }
    }
}

/// The record of a change of `name` from `old_value` to `new_value` at `now`.
pub open spec fn change_record(
    now: u64,
    name: Seq<char>,
    old_value: ValueView,
    new_value: ValueView,
    reason: Seq<char>,
    triggered_by: Seq<char>,
) -> ChangeView {
    ChangeView { timestamp: now, name, old_value, new_value, reason, triggered_by }
}

/// `e` with its current value replaced by `v`.
pub open spec fn with_current(e: ParamEntry, v: ValueView) -> ParamEntry {
    ParamEntry { current_value: v, ..e }
}

/// The outcome of setting `name` to `v`: not found, refused by the
/// constraints, or done.
pub open spec fn spec_set_outcome(params: Map<Seq<char>, ParamEntry>, name: Seq<char>, v: ValueView)
    -> Result<(), ParameterError>
{
    if !params.dom().contains(name) {
        Err(ParameterError::NotFound)
    } else {
        match spec_validate(params[name].constraints, v) {
            Err(e) => Err(ParameterError::Invalid(e)),
            Ok(_) => Ok(()),
        }
    }
}

impl ParameterStore {
    /// What setting `name` to `v` at `now` does: the result is `Ok` exactly when
    /// `spec_set_outcome` is; on failure nothing changes; on success the old
    /// value is returned, the parameter takes the new value and the change is
    /// recorded as a manual change by the user.
    pub open spec fn set_effect(
        before: ParameterStore,
        after: ParameterStore,
        name: Seq<char>,
        v: ValueView,
        r: Result<ParameterValue, ParameterError>,
        now: u64,
    ) -> bool {
        &&& r is Ok <==> spec_set_outcome(before.params(), name, v) is Ok
        &&& r is Err ==> spec_set_outcome(before.params(), name, v) == Err::<(), ParameterError>(r->Err_0)
            && after.params() == before.params()
            && after.history() == before.history()
        &&& r is Ok ==> r->Ok_0@ == before.params()[name].current_value
            && after.params() == before.params().insert(name, with_current(before.params()[name], v))
            && after.history() == bounded_push(
                before.history(),
                change_record(now, name, before.params()[name].current_value, v, "manual"@, "user"@),
                MAX_HISTORY_SIZE as nat,
            )
    }

    /// What resetting `name` at `now` does: an unknown name changes nothing;
    /// otherwise the parameter takes its default value and the change is
    /// recorded as a reset by the system.
    pub open spec fn reset_effect(
        before: ParameterStore,
        after: ParameterStore,
        name: Seq<char>,
        r: Result<(), ParameterError>,
        now: u64,
    ) -> bool {
        &&& r is Ok <==> before.params().dom().contains(name)
        &&& r is Err ==> r == Err::<(), ParameterError>(ParameterError::NotFound)
            && after.params() == before.params()
            && after.history() == before.history()
        &&& r is Ok ==> after.params() == before.params().insert(
                name, with_current(before.params()[name], before.params()[name].default_value))
            && after.history() == bounded_push(
                before.history(),
                change_record(now, name, before.params()[name].current_value,
                    before.params()[name].default_value, "reset"@, "system"@),
                MAX_HISTORY_SIZE as nat,
            )
    }

    /// Append a change record, dropping the oldest one beyond the bound.
    fn record_change(
        &mut self,
        name: &str,
        old_value: ParameterValue,
        new_value: ParameterValue,
        reason: String,
        triggered_by: String,
        now: u64,
    )
        requires
            old(self).wf(),
        ensures
            final(self).wf(),
            final(self).params() == old(self).params(),
            final(self).history() == bounded_push(
                old(self).history(),
                change_record(now, name@, old_value@, new_value@, reason@, triggered_by@),
                MAX_HISTORY_SIZE as nat,
            ),
    {
        let ghost h0 = self.change_history@;
        let change = ParameterChange {
            timestamp: now,
            parameter_name: text::owned(name),
            old_value,
            new_value,
            reason,
            triggered_by,
        };
        self.change_history.push(change);
        assert(self.change_history@.map_values(|c: ParameterChange| c@)
            =~= h0.map_values(|c: ParameterChange| c@).push(change@));
        if self.change_history.len() > self.max_history_size {
            let ghost h1 = self.change_history@;
            self.change_history.remove(0);
            assert(self.change_history@.map_values(|c: ParameterChange| c@)
                =~= h1.map_values(|c: ParameterChange| c@).drop_first());
        }
    }

    /// Set the parameter `name` to `value` at time `now` (seconds). The old
    /// value is returned and the change is recorded as a manual change by
    /// the user; an unknown name or a value that breaks the parameter's
    /// constraints leaves the store unchanged.
    pub fn set_parameter_at(&mut self, name: &str, value: ParameterValue, now: u64)
        -> (r: Result<ParameterValue, ParameterError>)
        requires
            old(self).wf(),
        ensures
            final(self).wf(),
            ParameterStore::set_effect(*old(self), *final(self), name@, value@, r, now),
    {
        let i = match self.find(name) {
            Some(i) => i,
            None => return Err(ParameterError::NotFound),
        };
        proof {
            lemma_index_unique(self.parameters@, i as int);
        }
        match self.parameters[i].constraints.validate(&value) {
            Err(e) => return Err(ParameterError::Invalid(e)),
            Ok(_) => {},
        }
        let ghost defs0 = self.parameters@;
        let old_value = self.parameters[i].current_value.clone();
        self.parameters[i].current_value = value.clone();
        proof {
            lemma_update_at(defs0, i as int, self.parameters@[i as int]);
            assert(self.parameters@ == defs0.update(i as int, self.parameters@[i as int]));
            assert forall|k: int| 0 <= k < self.parameters@.len()
                implies #[trigger] definition_valid(self.parameters@[k]) by {
                if k != i {
                    assert(self.parameters@[k] == defs0[k]);
                } else {
                    assert(definition_valid(defs0[k]));
                    assert(self.parameters@[k].constraints == defs0[k].constraints);
                    assert(self.parameters@[k].default_value == defs0[k].default_value);
                    assert(self.parameters@[k].current_value@ == value@);
                    assert(satisfies(defs0[k].constraints@, value@));
                }
            }
        }
        let reason = text::owned("manual");
        let by = text::owned("user");
        self.record_change(name, old_value.clone(), value, reason, by, now);
        Ok(old_value)
    }
}

/// The start of a tuning window `len` seconds long ending at `now`: the
/// subtraction wraps around below zero, so a clock reading within the
/// first window gives a start near `u64::MAX`.
pub open spec fn window_start(now: u64, len: u64) -> u64 {
    if now >= len { (now - len) as u64 } else { (now + 0x1_0000_0000_0000_0000 - len) as u64 }
}

/// Whether the parameter `name` may be tuned at `now` (seconds): never a
/// manual one, always a continuous one, and an hourly (daily) one when its
/// latest change, if any, came before the window of an hour (a day) ending
/// at `now`; unknown names are refused.
pub open spec fn spec_can_tune(
    params: Map<Seq<char>, ParamEntry>,
    history: Seq<ChangeView>,
    name: Seq<char>,
    now: u64,
) -> Result<bool, ParameterError> {
    if !params.dom().contains(name) {
        Err(ParameterError::NotFound)
    } else {
        match params[name].frequency {
            TuningFrequency::Manual => Ok(false),
            TuningFrequency::Continuous => Ok(true),
            TuningFrequency::Hourly => Ok(match last_change_time(history, name) {
                Some(t) => t < window_start(now, 3600),
                None => true,
            }),
            TuningFrequency::Daily => Ok(match last_change_time(history, name) {
                Some(t) => t < window_start(now, 86400),
                None => true,
            }),
        }
    }
}

/// Whether a change record concerns the parameter `name`.
pub open spec fn concerns(name: Seq<char>) -> spec_fn(ChangeView) -> bool {
    |c: ChangeView| c.name == name
}

impl ParameterStore {
    /// Record time of the latest change of `name`.
    fn last_change(&self, name: &str) -> (r: Option<u64>)
        ensures
            r == last_change_time(self.history(), name@),
    {
        let ghost h = self.history();
        let mut i: usize = self.change_history.len();
        assert(h.take(h.len() as int) =~= h);
        while i > 0
            invariant
                i <= self.change_history@.len(),
                h == self.history(),
                h.len() == self.change_history@.len(),
                last_change_time(h, name@) == last_change_time(h.take(i as int), name@),
            decreases i,
        {
            assert(h.take(i as int).drop_last() =~= h.take(i - 1));
            assert(h.take(i as int).last() == self.change_history@[i - 1]@);
            if text::same_text(self.change_history[i - 1].parameter_name.as_str(), name) {
                return Some(self.change_history[i - 1].timestamp);
            }
            i = i - 1;
        }
        None
    }

    /// Whether the parameter `name` may be tuned at time `now` (seconds): never
    /// for a manual parameter, always for a continuous one, and for an hourly
    /// (daily) one only if its latest recorded change is more than an hour
    /// (a day) old or there is none; see `spec_can_tune`.
    pub fn can_tune_parameter_at(&self, name: &str, now: u64) -> (r: Result<bool, ParameterError>)
        requires
            self.wf(),
        ensures
            r == spec_can_tune(self.params(), self.history(), name@, now),
    {
        let i = match self.find(name) {
            Some(i) => i,
            None => return Err(ParameterError::NotFound),
        };
        proof {
            lemma_index_unique(self.parameters@, i as int);
        }
        match self.parameters[i].tuning_frequency {
            TuningFrequency::Manual => Ok(false),
            TuningFrequency::Continuous => Ok(true),
            TuningFrequency::Hourly => {
                let window_start = now.wrapping_sub(3600);
                match self.last_change(name) {
                    Some(t) => Ok(t < window_start),
                    None => Ok(true),
                }
            },
            TuningFrequency::Daily => {
                let window_start = now.wrapping_sub(86400);
                match self.last_change(name) {
                    Some(t) => Ok(t < window_start),
                    None => Ok(true),
                }
            },
        }
    }

    /// Whether the parameter `name` may be tuned now; see `can_tune_parameter_at`.
    pub fn can_tune_parameter(&self, name: &str) -> (r: Result<bool, ParameterError>)
        requires
            self.wf(),
        ensures
            !self.params().dom().contains(name@) ==> r == Err::<bool, ParameterError>(ParameterError::NotFound),
            self.params().dom().contains(name@) ==> exists|now: u64|
                r == #[trigger] spec_can_tune(self.params(), self.history(), name@, now),
    {
        let now = clock::now_secs();
        self.can_tune_parameter_at(name, now)
    }

    /// The recorded changes of `name`, or all of them, oldest first.
    pub fn get_change_history(&self, parameter_name: Option<&str>) -> (r: Vec<&ParameterChange>)
        ensures
            r@.map_values(|c: &ParameterChange| c@) == match parameter_name {
                Some(n) => self.history().filter(concerns(n@)),
                None => self.history(),
            },
    {
        let ghost h = self.history();
        let mut out: Vec<&ParameterChange> = Vec::new();
        let mut i: usize = 0;
        while i < self.change_history.len()
            invariant
                i <= self.change_history@.len(),
                h == self.history(),
                h.len() == self.change_history@.len(),
                out@.map_values(|c: &ParameterChange| c@) == match parameter_name {
                    Some(n) => h.take(i as int).filter(concerns(n@)),
                    None => h.take(i as int),
                },
            decreases self.change_history@.len() - i,
        {
            let ghost before = out@;
            let c = &self.change_history[i];
            let keep = match parameter_name {
                Some(n) => text::same_text(c.parameter_name.as_str(), n),
                None => true,
            };
            if keep {
                out.push(c);
            }
            proof {
                assert(h.take(i + 1).drop_last() =~= h.take(i as int));
                assert(h.take(i + 1) =~= h.take(i as int).push(c@));
                reveal(Seq::filter);
                if keep {
                    assert(out@.map_values(|c: &ParameterChange| c@)
                        =~= before.map_values(|c: &ParameterChange| c@).push(c@));
                } else {
                    assert(out@ == before);
                }
            }
            i = i + 1;
        }
        assert(h.take(h.len() as int) =~= h);
        out
    }
}

impl ParameterStore {
    /// Set the parameter `name` to `value` now; see `set_parameter_at`.
    pub fn set_parameter(&mut self, name: &str, value: ParameterValue) -> (r: Result<ParameterValue, ParameterError>)
        requires
            old(self).wf(),
        ensures
            final(self).wf(),
            exists|now: u64| #[trigger] ParameterStore::set_effect(*old(self), *final(self), name@, value@, r, now),
    {
        let now = clock::now_secs();
        let ghost v = value@;
        let r = self.set_parameter_at(name, value, now);
        assert(ParameterStore::set_effect(*old(self), *self, name@, v, r, now));
        r
    }

    /// Reset the parameter `name` to its default value at time `now`
    /// (seconds), recording the change as a reset by the system.
    pub fn reset_parameter_at(&mut self, name: &str, now: u64) -> (r: Result<(), ParameterError>)
        requires
            old(self).wf(),
        ensures
            final(self).wf(),
            ParameterStore::reset_effect(*old(self), *final(self), name@, r, now),
    {
        let i = match self.find(name) {
            Some(i) => i,
            None => return Err(ParameterError::NotFound),
        };
        proof {
            lemma_index_unique(self.parameters@, i as int);
        }
        let ghost defs0 = self.parameters@;
        let old_value = self.parameters[i].current_value.clone();
        let new_value = self.parameters[i].default_value.clone();
        self.parameters[i].current_value = new_value.clone();
        proof {
            lemma_update_at(defs0, i as int, self.parameters@[i as int]);
            assert(self.parameters@ == defs0.update(i as int, self.parameters@[i as int]));
            assert forall|k: int| 0 <= k < self.parameters@.len()
                implies #[trigger] definition_valid(self.parameters@[k]) by {
                if k != i {
                    assert(self.parameters@[k] == defs0[k]);
                } else {
                    assert(definition_valid(defs0[k]));
                    assert(self.parameters@[k].constraints == defs0[k].constraints);
                    assert(self.parameters@[k].default_value == defs0[k].default_value);
                    assert(self.parameters@[k].current_value == defs0[k].default_value);
                }
            }
        }
        let reason = text::owned("reset");
        let by = text::owned("system");
        self.record_change(name, old_value, new_value, reason, by, now);
        Ok(())
    }

    /// Reset the parameter `name` to its default value now.
    pub fn reset_parameter(&mut self, name: &str) -> (r: Result<(), ParameterError>)
        requires
            old(self).wf(),
        ensures
            final(self).wf(),
            exists|now: u64| #[trigger] ParameterStore::reset_effect(*old(self), *final(self), name@, r, now),
    {
        let now = clock::now_secs();
        let r = self.reset_parameter_at(name, now);
        assert(ParameterStore::reset_effect(*old(self), *self, name@, r, now));
        r
    }

    /// Register a parameter, replacing any of the same name. Its default
    /// value, then its current value, must satisfy its constraints; if one
    /// does not, the store is unchanged.
    pub fn register_parameter(&mut self, definition: ParameterDefinition) -> (r: Result<(), ParameterError>)
        requires
            old(self).wf(),
        ensures
            final(self).wf(),
            final(self).history() == old(self).history(),
            r == (match spec_validate(definition.constraints@, definition.default_value@) {
                Err(e) => Err(ParameterError::Invalid(e)),
                Ok(_) => match spec_validate(definition.constraints@, definition.current_value@) {
                    Err(e) => Err(ParameterError::Invalid(e)),
                    Ok(_) => Ok(()),
                },
            }),
            r is Ok ==> final(self).params() == old(self).params().insert(definition.name@, entry_of(definition)),
            r is Ok && !old(self).params().dom().contains(definition.name@)
                ==> final(self).definitions() == old(self).definitions().push(definition),
            r is Err ==> final(self).params() == old(self).params(),
            r is Err ==> final(self).definitions() == old(self).definitions(),
    {
        match definition.constraints.validate(&definition.default_value) {
            Err(e) => return Err(ParameterError::Invalid(e)),
            Ok(_) => {},
        }
        match definition.constraints.validate(&definition.current_value) {
            Err(e) => return Err(ParameterError::Invalid(e)),
            Ok(_) => {},
        }
        let ghost defs0 = self.parameters@;
        let ghost d = definition;
        match self.find(definition.name.as_str()) {
            Some(i) => {
                self.parameters.set(i, definition);
                proof {
                    lemma_update_at(defs0, i as int, d);
                    assert forall|k: int| 0 <= k < self.parameters@.len()
                        implies #[trigger] definition_valid(self.parameters@[k]) by {
                        if k != i {
                            assert(self.parameters@[k] == defs0[k]);
                        }
                    }
                }
            },
            None => {
                self.parameters.push(definition);
                proof {
                    lemma_push_new(defs0, d);
                    assert forall|k: int| 0 <= k < self.parameters@.len()
                        implies #[trigger] definition_valid(self.parameters@[k]) by {
                        if k < defs0.len() {
                            assert(self.parameters@[k] == defs0[k]);
                        }
                    }
                }
            },
        }
        Ok(())
    }

    /// Every parameter with its current value, in registration order.
    pub fn get_all_parameters(&self) -> (r: Vec<(String, ParameterValue)>)
        requires
            self.wf(),
        ensures
            r@.len() == self.definitions().len(),
            forall|k: int| 0 <= k < r@.len() ==> self.params().dom().contains(#[trigger] r@[k].0@)
                && r@[k].1@ == self.params()[r@[k].0@].current_value,
            forall|n: Seq<char>| #[trigger] self.params().dom().contains(n)
                ==> exists|k: int| 0 <= k < r@.len() && #[trigger] r@[k].0@ == n,
    {
        let mut out: Vec<(String, ParameterValue)> = Vec::new();
        let mut i: usize = 0;
        while i < self.parameters.len()
            invariant
                i <= self.parameters@.len(),
                self.wf(),
                out@.len() == i,
                forall|k: int| 0 <= k < i ==> (#[trigger] out@[k]).0@ == self.parameters@[k].name@
                    && out@[k].1@ == self.parameters@[k].current_value@,
            decreases self.parameters@.len() - i,
        {
            let d = &self.parameters[i];
            out.push((d.name.clone(), d.current_value.clone()));
            i = i + 1;
        }
        proof {
            assert forall|k: int| 0 <= k < out@.len() implies self.params().dom().contains(#[trigger] out@[k].0@)
                && out@[k].1@ == self.params()[out@[k].0@].current_value by {
                lemma_index_unique(self.parameters@, k);
            }
            assert forall|n: Seq<char>| #[trigger] self.params().dom().contains(n)
                implies exists|k: int| 0 <= k < out@.len() && #[trigger] out@[k].0@ == n by {
                let k = choose|k: int| 0 <= k < self.parameters@.len() && #[trigger] self.parameters@[k].name@ == n;
                assert(out@[k].0@ == n);
            }
        }
        out
    }

    /// The definitions whose category is the same variant as `category`,
    /// in registration order.
    pub fn get_parameters_by_category(&self, category: &ParameterCategory) -> (r: Vec<&ParameterDefinition>)
        ensures
            r@.map_values(|d: &ParameterDefinition| *d)
                == self.definitions().filter(|d: ParameterDefinition| category_kind(d.category) == category_kind(*category)),
    {
        let ghost pred = |d: ParameterDefinition| category_kind(d.category) == category_kind(*category);
        let mut out: Vec<&ParameterDefinition> = Vec::new();
        let mut i: usize = 0;
        while i < self.parameters.len()
            invariant
                i <= self.parameters@.len(),
                pred == (|d: ParameterDefinition| category_kind(d.category) == category_kind(*category)),
                out@.map_values(|d: &ParameterDefinition| *d) == self.parameters@.take(i as int).filter(pred),
            decreases self.parameters@.len() - i,
        {
            let ghost before = out@;
            let d = &self.parameters[i];
            if d.category.same_kind(category) {
                out.push(d);
                assert(out@.map_values(|d: &ParameterDefinition| *d)
                    =~= before.map_values(|d: &ParameterDefinition| *d).push(*d));
            }
            proof {
                assert(self.parameters@.take(i + 1).drop_last() =~= self.parameters@.take(i as int));
                reveal(Seq::filter);
            }
            i = i + 1;
        }
        assert(self.parameters@.take(self.parameters@.len() as int) =~= self.parameters@);
        out
    }
}

/// Encoding of 80.0.
pub const F80: u64 = 0x4054_0000_0000_0000;

/// Encoding of 50.0.
pub const F50: u64 = 0x4049_0000_0000_0000;

/// Encoding of 95.0.
pub const F95: u64 = 0x4057_c000_0000_0000;

/// Encoding of 5.0.
pub const F5: u64 = 0x4014_0000_0000_0000;

/// Encoding of 0.8.
pub const F0_8: u64 = 0x3fe9_9999_9999_999a;

/// Encoding of 0.1.
pub const F0_1: u64 = 0x3fb9_9999_9999_999a;

/// Encoding of 1.0.
pub const F1: u64 = 0x3ff0_0000_0000_0000;

/// Encoding of 0.05.
pub const F0_05: u64 = 0x3fa9_9999_9999_999a;

/// Encoding of 0.001.
pub const F0_001: u64 = 0x3f50_624d_d2f1_a9fc;

/// Encoding of 0.0001.
pub const F0_0001: u64 = 0x3f1a_36e2_eb1c_432d;

/// Names of the parameters a new store holds.
pub open spec fn default_parameter_names() -> Set<Seq<char>> {
    Set::new(|n: Seq<char>| exists|j: int| 0 <= j < default_parameter_count() && n == #[trigger] default_parameter_name(j))
}

/// The name of the `j`th default parameter (from 0).
pub open spec fn default_parameter_name(j: int) -> Seq<char> {
    if j == 0 {
        "connection_pool_max_size"@
    } else if j == 1 {
        "connection_timeout_ms"@
    } else if j == 2 {
        "connection_retry_attempts"@
    } else if j == 3 {
        "message_cache_size"@
    } else if j == 4 {
        "gc_threshold_percent"@
    } else if j == 5 {
        "message_processing_batch_size"@
    } else if j == 6 {
        "processing_queue_max_size"@
    } else if j == 7 {
        "worker_thread_count"@
    } else if j == 8 {
        "ai_confidence_threshold"@
    } else if j == 9 {
        "pattern_matching_timeout_ms"@
    } else if j == 10 {
        "learning_rate"@
    } else if j == 11 {
        "response_cache_ttl_seconds"@
    } else if j == 12 {
        "cache_max_entries"@
    } else {
        Seq::empty()
    }
}

/// `d` is the definition with these fields, its current value being its
/// default, with a range and a step and no list of allowed values.
pub open spec fn defined_as(
    d: ParameterDefinition,
    name: Seq<char>,
    description: Seq<char>,
    category: ParameterCategory,
    value: ValueView,
    min: ValueView,
    max: ValueView,
    step: ValueView,
    impact: ImpactLevel,
    frequency: TuningFrequency,
    dependencies: Seq<Seq<char>>,
) -> bool {
    &&& d.name@ == name
    &&& d.description@ == description
    &&& d.category == category
    &&& d.default_value@ == value
    &&& d.current_value@ == value
    &&& d.constraints@ == (ConstraintsView { min: Some(min), max: Some(max), allowed: None, step: Some(step) })
    &&& d.impact_level == impact
    &&& d.tuning_frequency == frequency
    &&& d.dependencies@.map_values(|x: String| x@) == dependencies
}

/// Number of parameters a new store holds.
pub open spec fn default_parameter_count() -> nat {
    13
}

/// `d` is the `j`th default parameter (from 0), in registration order.
pub open spec fn default_parameter_is(d: ParameterDefinition, j: int) -> bool {
    if j == 0 {
        defined_as(d, "connection_pool_max_size"@, "Maximum number of connections per platform"@, ParameterCategory::Connection,
            ValueView::Integer(3), ValueView::Integer(1), ValueView::Integer(10), ValueView::Integer(1),
            ImpactLevel::Medium, TuningFrequency::Hourly, Seq::empty())
    } else if j == 1 {
        defined_as(d, "connection_timeout_ms"@, "Connection timeout in milliseconds"@, ParameterCategory::Connection,
            ValueView::Duration(30000), ValueView::Duration(5000), ValueView::Duration(120000), ValueView::Duration(5000),
            ImpactLevel::Medium, TuningFrequency::Continuous, Seq::empty())
    } else if j == 2 {
        defined_as(d, "connection_retry_attempts"@, "Number of connection retry attempts"@, ParameterCategory::Connection,
            ValueView::Integer(3), ValueView::Integer(1), ValueView::Integer(10), ValueView::Integer(1),
            ImpactLevel::Low, TuningFrequency::Continuous, Seq::empty())
    } else if j == 3 {
        defined_as(d, "message_cache_size"@, "Maximum number of messages to cache"@, ParameterCategory::Memory,
            ValueView::Integer(1000), ValueView::Integer(100), ValueView::Integer(10000), ValueView::Integer(100),
            ImpactLevel::Medium, TuningFrequency::Continuous, Seq::empty())
    } else if j == 4 {
        defined_as(d, "gc_threshold_percent"@, "Memory usage threshold to trigger garbage collection"@, ParameterCategory::Memory,
            ValueView::Float(F80), ValueView::Float(F50), ValueView::Float(F95), ValueView::Float(F5),
            ImpactLevel::High, TuningFrequency::Hourly, Seq::empty())
    } else if j == 5 {
        defined_as(d, "message_processing_batch_size"@, "Number of messages to process in a batch"@, ParameterCategory::Processing,
            ValueView::Integer(10), ValueView::Integer(1), ValueView::Integer(100), ValueView::Integer(5),
            ImpactLevel::Medium, TuningFrequency::Continuous, Seq::empty())
    } else if j == 6 {
        defined_as(d, "processing_queue_max_size"@, "Maximum size of the message processing queue"@, ParameterCategory::Processing,
            ValueView::Integer(1000), ValueView::Integer(100), ValueView::Integer(10000), ValueView::Integer(100),
            ImpactLevel::High, TuningFrequency::Hourly, seq!["message_processing_batch_size"@])
    } else if j == 7 {
        defined_as(d, "worker_thread_count"@, "Number of worker threads for message processing"@, ParameterCategory::Processing,
            ValueView::Integer(4), ValueView::Integer(1), ValueView::Integer(16), ValueView::Integer(1),
            ImpactLevel::High, TuningFrequency::Hourly, Seq::empty())
    } else if j == 8 {
        defined_as(d, "ai_confidence_threshold"@, "Minimum confidence level for AI moderation actions"@, ParameterCategory::AI,
            ValueView::Float(F0_8), ValueView::Float(F0_1), ValueView::Float(F1), ValueView::Float(F0_05),
            ImpactLevel::Critical, TuningFrequency::Continuous, Seq::empty())
    } else if j == 9 {
        defined_as(d, "pattern_matching_timeout_ms"@, "Timeout for pattern matching operations"@, ParameterCategory::AI,
            ValueView::Duration(500), ValueView::Duration(100), ValueView::Duration(5000), ValueView::Duration(100),
            ImpactLevel::Medium, TuningFrequency::Continuous, Seq::empty())
    } else if j == 10 {
        defined_as(d, "learning_rate"@, "Learning rate for AI model adaptation"@, ParameterCategory::AI,
            ValueView::Float(F0_001), ValueView::Float(F0_0001), ValueView::Float(F0_1), ValueView::Float(F0_0001),
            ImpactLevel::High, TuningFrequency::Daily, Seq::empty())
    } else if j == 11 {
        defined_as(d, "response_cache_ttl_seconds"@, "Time-to-live for cached responses"@, ParameterCategory::Cache,
            ValueView::Duration(300000), ValueView::Duration(60000), ValueView::Duration(3600000), ValueView::Duration(60000),
            ImpactLevel::Low, TuningFrequency::Continuous, Seq::empty())
    } else if j == 12 {
        defined_as(d, "cache_max_entries"@, "Maximum number of entries in the cache"@, ParameterCategory::Cache,
            ValueView::Integer(1000), ValueView::Integer(100), ValueView::Integer(10000), ValueView::Integer(100),
            ImpactLevel::Medium, TuningFrequency::Hourly, Seq::empty())
    } else {
        false
    }
}

/// A definition whose current value is its default, with a range and a step.
fn definition(
    name: &str,
    description: &str,
    category: ParameterCategory,
    value: ParameterValue,
    min: ParameterValue,
    max: ParameterValue,
    step: ParameterValue,
    impact_level: ImpactLevel,
    tuning_frequency: TuningFrequency,
    dependencies: Vec<String>,
) -> (d: ParameterDefinition)
    ensures
        d.name@ == name@,
        d.description@ == description@,
        d.category == category,
        d.default_value == value,
        d.current_value == value,
        d.constraints.min_value == Some(min),
        d.constraints.max_value == Some(max),
        d.constraints.allowed_values is None,
        d.constraints.step_size == Some(step),
        d.impact_level == impact_level,
        d.tuning_frequency == tuning_frequency,
        d.dependencies == dependencies,
{
    ParameterDefinition {
        name: text::owned(name),
        description: text::owned(description),
        category,
        default_value: value.clone(),
        current_value: value,
        constraints: ParameterConstraints {
            min_value: Some(min),
            max_value: Some(max),
            allowed_values: None,
            step_size: Some(step),
        },
        impact_level,
        tuning_frequency,
        dependencies,
    }
}

impl ParameterStore {
    /// A store holding the default parameters, with an empty history.
    pub fn new() -> (s: Self)
        ensures
            s.wf(),
            s.history() == Seq::<ChangeView>::empty(),
            s.params().dom() == default_parameter_names(),
            s.definitions().len() == default_parameter_count(),
            forall|j: int| 0 <= j < default_parameter_count() ==> #[trigger] default_parameter_is(s.definitions()[j], j),
            forall|j: int| 0 <= j < default_parameter_count() ==> #[trigger] s.params().dom().contains(s.definitions()[j].name@)
                && s.params()[s.definitions()[j].name@] == entry_of(s.definitions()[j]),
    {
        let mut s = ParameterStore {
            parameters: Vec::new(),
            change_history: Vec::new(),
            max_history_size: MAX_HISTORY_SIZE,
        };
        assert(s.history() =~= Seq::<ChangeView>::empty());
        s.initialize_default_parameters();
        proof {
            assert forall|j: int| 0 <= j < default_parameter_count() implies #[trigger] s.params().dom().contains(s.definitions()[j].name@)
                && s.params()[s.definitions()[j].name@] == entry_of(s.definitions()[j]) by {
                lemma_index_unique(s.definitions(), j);
            }
            assert forall|n: Seq<char>| #[trigger] default_parameter_names().contains(n) implies s.params().dom().contains(n) by {
                let j = choose|j: int| 0 <= j < default_parameter_count() && n == #[trigger] default_parameter_name(j);
                assert(default_parameter_is(s.definitions()[j], j));
            }
            assert forall|n: Seq<char>| #[trigger] s.params().dom().contains(n) implies default_parameter_names().contains(n) by {
                let i = choose|i: int| 0 <= i < s.definitions().len() && #[trigger] s.definitions()[i].name@ == n;
                assert(default_parameter_is(s.definitions()[i], i));
                assert(n == default_parameter_name(i));
            }
        }
        assert(s.params().dom() =~= default_parameter_names());
        s
    }

    /// Register the default parameters on an empty store; every one of them
    /// satisfies its own constraints, so each registration succeeds.
    fn initialize_default_parameters(&mut self)
        requires
            old(self).wf(),
            old(self).definitions().len() == 0,
        ensures
            final(self).wf(),
            final(self).history() == old(self).history(),
            final(self).definitions().len() == default_parameter_count(),
            forall|j: int| 0 <= j < default_parameter_count() ==> #[trigger] default_parameter_is(final(self).definitions()[j], j),
    {
        proof {
            reveal_strlit("connection_pool_max_size");
            reveal_strlit("connection_timeout_ms");
            reveal_strlit("connection_retry_attempts");
            reveal_strlit("message_cache_size");
            reveal_strlit("gc_threshold_percent");
            reveal_strlit("message_processing_batch_size");
            reveal_strlit("processing_queue_max_size");
            reveal_strlit("worker_thread_count");
            reveal_strlit("ai_confidence_threshold");
            reveal_strlit("pattern_matching_timeout_ms");
            reveal_strlit("learning_rate");
            reveal_strlit("response_cache_ttl_seconds");
            reveal_strlit("cache_max_entries");
        }
        let d = definition(
            "connection_pool_max_size",
            "Maximum number of connections per platform",
            ParameterCategory::Connection,
            ParameterValue::Integer(3),
            ParameterValue::Integer(1),
            ParameterValue::Integer(10),
            ParameterValue::Integer(1),
            ImpactLevel::Medium,
            TuningFrequency::Hourly,
            Vec::new(),
        );
        let ghost g0 = d;
        assert(g0.name@.len() == 24 && g0.name@[0] == 'c');
        assert(!self.params().dom().contains(g0.name@));
        let r = self.register_parameter(d);
        assert(r is Ok);
        assert(self.definitions() =~= seq![g0]);
        let d = definition(
            "connection_timeout_ms",
            "Connection timeout in milliseconds",
            ParameterCategory::Connection,
            ParameterValue::Duration(30000),
            ParameterValue::Duration(5000),
            ParameterValue::Duration(120000),
            ParameterValue::Duration(5000),
            ImpactLevel::Medium,
            TuningFrequency::Continuous,
            Vec::new(),
        );
        let ghost g1 = d;
        assert(g1.name@.len() == 21 && g1.name@[0] == 'c');
        assert(!self.params().dom().contains(g1.name@));
        let r = self.register_parameter(d);
        assert(r is Ok);
        assert(self.definitions() =~= seq![g0, g1]);
        let d = definition(
            "connection_retry_attempts",
            "Number of connection retry attempts",
            ParameterCategory::Connection,
            ParameterValue::Integer(3),
            ParameterValue::Integer(1),
            ParameterValue::Integer(10),
            ParameterValue::Integer(1),
            ImpactLevel::Low,
            TuningFrequency::Continuous,
            Vec::new(),
        );
        let ghost g2 = d;
        assert(g2.name@.len() == 25 && g2.name@[0] == 'c');
        assert(!self.params().dom().contains(g2.name@));
        let r = self.register_parameter(d);
        assert(r is Ok);
        assert(self.definitions() =~= seq![g0, g1, g2]);
        let d = definition(
            "message_cache_size",
            "Maximum number of messages to cache",
            ParameterCategory::Memory,
            ParameterValue::Integer(1000),
            ParameterValue::Integer(100),
            ParameterValue::Integer(10000),
            ParameterValue::Integer(100),
            ImpactLevel::Medium,
            TuningFrequency::Continuous,
            Vec::new(),
        );
        let ghost g3 = d;
        assert(g3.name@.len() == 18 && g3.name@[0] == 'm');
        assert(!self.params().dom().contains(g3.name@));
        let r = self.register_parameter(d);
        assert(r is Ok);
        assert(self.definitions() =~= seq![g0, g1, g2, g3]);
        let d = definition(
            "gc_threshold_percent",
            "Memory usage threshold to trigger garbage collection",
            ParameterCategory::Memory,
            ParameterValue::Float(F80),
            ParameterValue::Float(F50),
            ParameterValue::Float(F95),
            ParameterValue::Float(F5),
            ImpactLevel::High,
            TuningFrequency::Hourly,
            Vec::new(),
        );
        let ghost g4 = d;
        assert(g4.name@.len() == 20 && g4.name@[0] == 'g');
        assert(!self.params().dom().contains(g4.name@));
        let r = self.register_parameter(d);
        assert(r is Ok);
        assert(self.definitions() =~= seq![g0, g1, g2, g3, g4]);
        let d = definition(
            "message_processing_batch_size",
            "Number of messages to process in a batch",
            ParameterCategory::Processing,
            ParameterValue::Integer(10),
            ParameterValue::Integer(1),
            ParameterValue::Integer(100),
            ParameterValue::Integer(5),
            ImpactLevel::Medium,
            TuningFrequency::Continuous,
            Vec::new(),
        );
        let ghost g5 = d;
        assert(g5.name@.len() == 29 && g5.name@[0] == 'm');
        assert(!self.params().dom().contains(g5.name@));
        let r = self.register_parameter(d);
        assert(r is Ok);
        assert(self.definitions() =~= seq![g0, g1, g2, g3, g4, g5]);
        let mut deps: Vec<String> = Vec::new();
        deps.push(text::owned("message_processing_batch_size"));
        proof {
            reveal_strlit("message_processing_batch_size");
            assert(deps@.map_values(|x: String| x@) =~= seq!["message_processing_batch_size"@]);
        }
        let d = definition(
            "processing_queue_max_size",
            "Maximum size of the message processing queue",
            ParameterCategory::Processing,
            ParameterValue::Integer(1000),
            ParameterValue::Integer(100),
            ParameterValue::Integer(10000),
            ParameterValue::Integer(100),
            ImpactLevel::High,
            TuningFrequency::Hourly,
            deps,
        );
        let ghost g6 = d;
        assert(g6.name@.len() == 25 && g6.name@[0] == 'p');
        assert(!self.params().dom().contains(g6.name@));
        let r = self.register_parameter(d);
        assert(r is Ok);
        assert(self.definitions() =~= seq![g0, g1, g2, g3, g4, g5, g6]);
        let d = definition(
            "worker_thread_count",
            "Number of worker threads for message processing",
            ParameterCategory::Processing,
            ParameterValue::Integer(4),
            ParameterValue::Integer(1),
            ParameterValue::Integer(16),
            ParameterValue::Integer(1),
            ImpactLevel::High,
            TuningFrequency::Hourly,
            Vec::new(),
        );
        let ghost g7 = d;
        assert(g7.name@.len() == 19 && g7.name@[0] == 'w');
        assert(!self.params().dom().contains(g7.name@));
        let r = self.register_parameter(d);
        assert(r is Ok);
        assert(self.definitions() =~= seq![g0, g1, g2, g3, g4, g5, g6, g7]);
        let d = definition(
            "ai_confidence_threshold",
            "Minimum confidence level for AI moderation actions",
            ParameterCategory::AI,
            ParameterValue::Float(F0_8),
            ParameterValue::Float(F0_1),
            ParameterValue::Float(F1),
            ParameterValue::Float(F0_05),
            ImpactLevel::Critical,
            TuningFrequency::Continuous,
            Vec::new(),
        );
        let ghost g8 = d;
        assert(g8.name@.len() == 23 && g8.name@[0] == 'a');
        assert(!self.params().dom().contains(g8.name@));
        let r = self.register_parameter(d);
        assert(r is Ok);
        assert(self.definitions() =~= seq![g0, g1, g2, g3, g4, g5, g6, g7, g8]);
        let d = definition(
            "pattern_matching_timeout_ms",
            "Timeout for pattern matching operations",
            ParameterCategory::AI,
            ParameterValue::Duration(500),
            ParameterValue::Duration(100),
            ParameterValue::Duration(5000),
            ParameterValue::Duration(100),
            ImpactLevel::Medium,
            TuningFrequency::Continuous,
            Vec::new(),
        );
        let ghost g9 = d;
        assert(g9.name@.len() == 27 && g9.name@[0] == 'p');
        assert(!self.params().dom().contains(g9.name@));
        let r = self.register_parameter(d);
        assert(r is Ok);
        assert(self.definitions() =~= seq![g0, g1, g2, g3, g4, g5, g6, g7, g8, g9]);
        let d = definition(
            "learning_rate",
            "Learning rate for AI model adaptation",
            ParameterCategory::AI,
            ParameterValue::Float(F0_001),
            ParameterValue::Float(F0_0001),
            ParameterValue::Float(F0_1),
            ParameterValue::Float(F0_0001),
            ImpactLevel::High,
            TuningFrequency::Daily,
            Vec::new(),
        );
        let ghost g10 = d;
        assert(g10.name@.len() == 13 && g10.name@[0] == 'l');
        assert(!self.params().dom().contains(g10.name@));
        let r = self.register_parameter(d);
        assert(r is Ok);
        assert(self.definitions() =~= seq![g0, g1, g2, g3, g4, g5, g6, g7, g8, g9, g10]);
        let d = definition(
            "response_cache_ttl_seconds",
            "Time-to-live for cached responses",
            ParameterCategory::Cache,
            ParameterValue::Duration(300000),
            ParameterValue::Duration(60000),
            ParameterValue::Duration(3600000),
            ParameterValue::Duration(60000),
            ImpactLevel::Low,
            TuningFrequency::Continuous,
            Vec::new(),
        );
        let ghost g11 = d;
        assert(g11.name@.len() == 26 && g11.name@[0] == 'r');
        assert(!self.params().dom().contains(g11.name@));
        let r = self.register_parameter(d);
        assert(r is Ok);
        assert(self.definitions() =~= seq![g0, g1, g2, g3, g4, g5, g6, g7, g8, g9, g10, g11]);
        let d = definition(
            "cache_max_entries",
            "Maximum number of entries in the cache",
            ParameterCategory::Cache,
            ParameterValue::Integer(1000),
            ParameterValue::Integer(100),
            ParameterValue::Integer(10000),
            ParameterValue::Integer(100),
            ImpactLevel::Medium,
            TuningFrequency::Hourly,
            Vec::new(),
        );
        let ghost g12 = d;
        assert(g12.name@.len() == 17 && g12.name@[0] == 'c');
        assert(!self.params().dom().contains(g12.name@));
        let r = self.register_parameter(d);
        assert(r is Ok);
        assert(self.definitions() =~= seq![g0, g1, g2, g3, g4, g5, g6, g7, g8, g9, g10, g11, g12]);
        proof {
            assert(g0.dependencies@.map_values(|x: String| x@) =~= Seq::<Seq<char>>::empty());
            assert(g1.dependencies@.map_values(|x: String| x@) =~= Seq::<Seq<char>>::empty());
            assert(g2.dependencies@.map_values(|x: String| x@) =~= Seq::<Seq<char>>::empty());
            assert(g3.dependencies@.map_values(|x: String| x@) =~= Seq::<Seq<char>>::empty());
            assert(g4.dependencies@.map_values(|x: String| x@) =~= Seq::<Seq<char>>::empty());
            assert(g5.dependencies@.map_values(|x: String| x@) =~= Seq::<Seq<char>>::empty());
            assert(g7.dependencies@.map_values(|x: String| x@) =~= Seq::<Seq<char>>::empty());
            assert(g8.dependencies@.map_values(|x: String| x@) =~= Seq::<Seq<char>>::empty());
            assert(g9.dependencies@.map_values(|x: String| x@) =~= Seq::<Seq<char>>::empty());
            assert(g10.dependencies@.map_values(|x: String| x@) =~= Seq::<Seq<char>>::empty());
            assert(g11.dependencies@.map_values(|x: String| x@) =~= Seq::<Seq<char>>::empty());
            assert(g12.dependencies@.map_values(|x: String| x@) =~= Seq::<Seq<char>>::empty());
        }
    }
}

// ---------------------------------------------------------------------------
// Utilities
// ---------------------------------------------------------------------------

/// Utility functions on parameter values.
pub struct ParameterUtils;

/// Integer quotient rounded toward zero, as Rust's `/` computes it.
pub open spec fn trunc_div(x: int, y: int) -> int {
    let q = (if x < 0 { -x } else { x }) / (if y < 0 { -y } else { y });
    if (x < 0) == (y < 0) { q } else { -q }
}

/// The quotient of `x` by `y` rounded to the nearest integer, halves away
/// from zero (as `f64::round` rounds `x / y`).
pub open spec fn nearest_quotient(x: int, y: int) -> int {
    let ax = if x < 0 { -x } else { x };
    let ay = if y < 0 { -y } else { y };
    let q0 = ax / ay;
    let q = if 2 * (ax % ay) >= ay { q0 + 1 } else { q0 };
    if (x < 0) == (y < 0) { q } else { -q }
}

/// When rounding to a step is defined: the step is not zero, and the
/// nearest multiple of it fits the value's type.
pub open spec fn integer_step_defined(v: ValueView, step: ValueView) -> bool {
    match (v, step) {
        (ValueView::Integer(x), ValueView::Integer(st)) => st != 0
            && i64::MIN <= nearest_quotient(x as int, st as int) * st <= i64::MAX,
        (ValueView::Duration(x), ValueView::Duration(st)) => st != 0
            && nearest_quotient(x as int, st as int) * st <= u64::MAX,
        _ => true,
    }
}

/// An integer or a duration rounded to the nearest multiple of the step
/// (halves away from zero); any other pair of values is left as it is.
pub open spec fn spec_round_to_integer_step(v: ValueView, step: ValueView) -> ValueView {
    match (v, step) {
        (ValueView::Integer(x), ValueView::Integer(st)) =>
            ValueView::Integer((nearest_quotient(x as int, st as int) * st) as i64),
        (ValueView::Duration(x), ValueView::Duration(st)) =>
            ValueView::Duration((nearest_quotient(x as int, st as int) * st) as u64),
        _ => v,
    }
}

/// When clamping to the range of `c` is defined: a range whose minimum
/// exceeds its maximum, or whose bounds are NaN, is refused by `clamp`.
pub open spec fn clamp_defined(c: ConstraintsView, v: ValueView) -> bool {
    match (v, c.min, c.max) {
        (ValueView::Integer(_), Some(ValueView::Integer(lo)), Some(ValueView::Integer(hi))) => lo <= hi,
        (ValueView::Float(_), Some(ValueView::Float(lo)), Some(ValueView::Float(hi))) => binary64::spec_le(lo, hi),
        (ValueView::Duration(_), Some(ValueView::Duration(lo)), Some(ValueView::Duration(hi))) => lo <= hi,
        _ => true,
    }
}

/// `v` clamped to the range of `c` when the value and both bounds are of the
/// same numeric kind; otherwise `v`.
pub open spec fn spec_clamp(c: ConstraintsView, v: ValueView) -> ValueView {
    match (v, c.min, c.max) {
        (ValueView::Integer(x), Some(ValueView::Integer(lo)), Some(ValueView::Integer(hi))) =>
            ValueView::Integer(if x < lo { lo } else if x > hi { hi } else { x }),
        (ValueView::Float(x), Some(ValueView::Float(lo)), Some(ValueView::Float(hi))) =>
            ValueView::Float(if binary64::spec_lt(x, lo) { lo } else if binary64::spec_lt(hi, x) { hi } else { x }),
        (ValueView::Duration(x), Some(ValueView::Duration(lo)), Some(ValueView::Duration(hi))) =>
            ValueView::Duration(if x < lo { lo } else if x > hi { hi } else { x }),
        _ => v,
    }
}

/// The warning for a queue that would be smaller than the batch it feeds.
pub open spec fn queue_warning(queue: i64, batch: i64) -> Seq<char> {
    "Queue size ("@ + text::int_text(queue as int) + ") should be larger than batch size ("@
        + text::int_text(batch as int) + ")"@
}

/// The warning, if any, that a dependency `dep` of `name` raises when `name`
/// is to take the value `v`.
pub open spec fn dependency_warning(
    params: Map<Seq<char>, ParamEntry>,
    name: Seq<char>,
    v: ValueView,
    dep: Seq<char>,
) -> Option<Seq<char>> {
    if params.dom().contains(dep) && name == "processing_queue_max_size"@
        && dep == "message_processing_batch_size"@ {
        match (v, params[dep].current_value) {
            (ValueView::Integer(q), ValueView::Integer(b)) => if q < b { Some(queue_warning(q, b)) } else { None },
            _ => None,
        }
    } else {
        None
    }
}

/// The warnings of the dependencies `deps`, in order.
pub open spec fn dependency_warnings(
    params: Map<Seq<char>, ParamEntry>,
    name: Seq<char>,
    v: ValueView,
    deps: Seq<Seq<char>>,
) -> Seq<Seq<char>>
    decreases deps.len(),
{
    if deps.len() == 0 {
        Seq::empty()
    } else {
        let rest = dependency_warnings(params, name, v, deps.drop_last());
        match dependency_warning(params, name, v, deps.last()) {
            Some(w) => rest.push(w),
            None => rest,
        }
    }
}

impl ParameterUtils {
    /// Round an integer or a duration to the nearest multiple of `step`,
    /// halves away from zero. A floating-point value is left as it is here;
    /// its rounding needs floating-point arithmetic.
    pub fn round_to_integer_step(value: ParameterValue, step: &ParameterValue) -> (r: ParameterValue)
        requires
            integer_step_defined(value@, step@),
        ensures
            r@ == spec_round_to_integer_step(value@, step@),
    {
        match (&value, step) {
            (ParameterValue::Integer(v), ParameterValue::Integer(s)) => {
                let av: i128 = if *v < 0 { -(*v as i128) } else { *v as i128 };
                let as_: i128 = if *s < 0 { -(*s as i128) } else { *s as i128 };
                let q0: i128 = av / as_;
                let rem: i128 = av % as_;
                let qn: i128 = if 2 * rem >= as_ { q0 + 1 } else { q0 };
                let q: i128 = if (*v < 0) == (*s < 0) { qn } else { -qn };
                assert(q == nearest_quotient(*v as int, *s as int));
                proof {
                    assert(0 <= q0 * as_ <= av) by (nonlinear_arith)
                        requires q0 == av / as_, av >= 0, as_ >= 1;
                    assert(0 <= qn <= av + 1);
                    assert(-(0x8000_0000_0000_0001int) <= q <= 0x8000_0000_0000_0001int);
                    assert(-(0x8000_0000_0000_0001int) * 0x8000_0000_0000_0000int <= q * (*s as int)
                        <= 0x8000_0000_0000_0001int * 0x8000_0000_0000_0000int) by (nonlinear_arith)
                        requires -(0x8000_0000_0000_0001int) <= q <= 0x8000_0000_0000_0001int,
                            -(0x8000_0000_0000_0000int) <= *s as int <= 0x8000_0000_0000_0000int;
                }
                let r: i128 = q * (*s as i128);
                ParameterValue::Integer(r as i64)
            },
            (ParameterValue::Duration(v), ParameterValue::Duration(s)) => {
                let q0: u128 = (*v as u128) / (*s as u128);
                let rem: u128 = (*v as u128) % (*s as u128);
                let q: u128 = if 2 * rem >= *s as u128 { q0 + 1 } else { q0 };
                assert(q == nearest_quotient(*v as int, *s as int));
                proof {
                    assert(q0 <= *v as int) by (nonlinear_arith)
                        requires q0 == (*v as int) / (*s as int), *s as int >= 1, *v as int >= 0;
                    assert(q * (*s as int) <= 0x1_0000_0000_0000_0001int * 0x1_0000_0000_0000_0000int) by (nonlinear_arith)
                        requires 0 <= q <= 0x1_0000_0000_0000_0001int, 0 <= *s as int <= 0x1_0000_0000_0000_0000int;
                }
                let r: u128 = q * (*s as u128);
                ParameterValue::Duration(r as u64)
            },
            _ => value,
        }
    }

    /// Clamp a value to the range of `constraints` when the value and both
    /// bounds are of the same numeric kind.
    pub fn clamp_to_range(value: ParameterValue, constraints: &ParameterConstraints) -> (r: ParameterValue)
        requires
            clamp_defined(constraints@, value@),
        ensures
            r@ == spec_clamp(constraints@, value@),
    {
        match (&value, &constraints.min_value, &constraints.max_value) {
            (ParameterValue::Integer(v), Some(ParameterValue::Integer(lo)), Some(ParameterValue::Integer(hi))) => {
                ParameterValue::Integer(if *v < *lo { *lo } else if *v > *hi { *hi } else { *v })
            },
            (ParameterValue::Float(v), Some(ParameterValue::Float(lo)), Some(ParameterValue::Float(hi))) => {
                ParameterValue::Float(
                    if binary64::lt(*v, *lo) { *lo } else if binary64::lt(*hi, *v) { *hi } else { *v },
                )
            },
            (ParameterValue::Duration(v), Some(ParameterValue::Duration(lo)), Some(ParameterValue::Duration(hi))) => {
                ParameterValue::Duration(if *v < *lo { *lo } else if *v > *hi { *hi } else { *v })
            },
            _ => value,
        }
    }

    /// Warnings about conflicts between `new_value` for `parameter_name` and
    /// the current values of the parameters it depends on. An unknown
    /// parameter has no warnings.
    pub fn validate_dependencies(store: &ParameterStore, parameter_name: &str, new_value: &ParameterValue)
        -> (r: Result<Vec<String>, ParameterError>)
        requires
            store.wf(),
        ensures
            r is Ok,
            r->Ok_0@.map_values(|w: String| w@) == (if store.params().dom().contains(parameter_name@) {
                dependency_warnings(store.params(), parameter_name@, new_value@,
                    store.params()[parameter_name@].dependencies)
            } else {
                Seq::empty()
            }),
    {
        let mut warnings: Vec<String> = Vec::new();
        let def = match store.get_parameter_definition(parameter_name) {
            Some(d) => d,
            None => {
                assert(warnings@.map_values(|w: String| w@) =~= Seq::<Seq<char>>::empty());
                return Ok(warnings);
            },
        };
        let ghost deps = def.dependencies@.map_values(|s: String| s@);
        let ghost params = store.params();
        let is_queue = text::same_text(parameter_name, "processing_queue_max_size");
        let mut i: usize = 0;
        while i < def.dependencies.len()
            invariant
                i <= def.dependencies@.len(),
                store.wf(),
                params == store.params(),
                deps == def.dependencies@.map_values(|s: String| s@),
                is_queue == (parameter_name@ == "processing_queue_max_size"@),
                warnings@.map_values(|w: String| w@)
                    == dependency_warnings(params, parameter_name@, new_value@, deps.take(i as int)),
            decreases def.dependencies@.len() - i,
        {
            let ghost before = warnings@;
            let dep = &def.dependencies[i];
            assert(deps.take(i + 1).drop_last() =~= deps.take(i as int));
            assert(deps.take(i + 1).last() == dep@);
            if let Some(dep_value) = store.get_parameter(dep.as_str()) {
                if is_queue && text::same_text(dep.as_str(), "message_processing_batch_size") {
                    match (new_value, dep_value) {
                        (ParameterValue::Integer(q), ParameterValue::Integer(b)) => {
                            if *q < *b {
                                let t1 = text::concat("Queue size (", text::int_decimal(*q).as_str());
                                let t2 = text::concat(t1.as_str(), ") should be larger than batch size (");
                                let t3 = text::concat(t2.as_str(), text::int_decimal(*b).as_str());
                                let w = text::concat(t3.as_str(), ")");
                                warnings.push(w);
                                assert(warnings@.map_values(|w: String| w@)
                                    =~= before.map_values(|w: String| w@).push(w@));
                            }
                        },
                        _ => {},
                    }
                }
            }
            i = i + 1;
        }
        assert(deps.take(deps.len() as int) =~= deps);
        Ok(warnings)
    }
}

// ---------------------------------------------------------------------------
// Laws
// ---------------------------------------------------------------------------

/// Every parameter a well-formed store holds has a default and a current
/// value that satisfy its constraints.
pub proof fn lemma_stored_values_satisfy_constraints(store: ParameterStore, name: Seq<char>)
    requires
        store.wf(),
        store.params().dom().contains(name),
    ensures
        satisfies(store.params()[name].constraints, store.params()[name].current_value),
        satisfies(store.params()[name].constraints, store.params()[name].default_value),
{
    let defs = store.definitions();
    let k = choose|k: int| 0 <= k < defs.len() && #[trigger] defs[k].name@ == name;
    lemma_index_unique(defs, k);
    assert(definition_valid(defs[k]));
}

/// After a successful set, reading the parameter gives the value that was
/// set, the set of parameters is unchanged, and the newest history record
/// is that change.
pub proof fn lemma_set_then_get(
    before: ParameterStore,
    after: ParameterStore,
    name: Seq<char>,
    v: ValueView,
    r: Result<ParameterValue, ParameterError>,
    now: u64,
)
    requires
        ParameterStore::set_effect(before, after, name, v, r, now),
        r is Ok,
    ensures
        after.params().dom().contains(name),
        after.params()[name].current_value == v,
        after.params()[name].default_value == before.params()[name].default_value,
        after.params().dom() == before.params().dom(),
        after.history().last() == change_record(now, name, before.params()[name].current_value, v,
            "manual"@, "user"@),
{
    assert(after.params().dom() =~= before.params().dom());
}

/// A set that is refused, for an unknown name or a value that breaks the
/// constraints, changes nothing.
pub proof fn lemma_refused_set_changes_nothing(
    before: ParameterStore,
    after: ParameterStore,
    name: Seq<char>,
    v: ValueView,
    r: Result<ParameterValue, ParameterError>,
    now: u64,
)
    requires
        ParameterStore::set_effect(before, after, name, v, r, now),
        !(before.params().dom().contains(name) && satisfies(before.params()[name].constraints, v)),
    ensures
        r is Err,
        after.params() == before.params(),
        after.history() == before.history(),
{
}

/// Resetting a parameter restores its default value.
pub proof fn lemma_reset_restores_default(
    before: ParameterStore,
    after: ParameterStore,
    name: Seq<char>,
    r: Result<(), ParameterError>,
    now: u64,
)
    requires
        ParameterStore::reset_effect(before, after, name, r, now),
        before.params().dom().contains(name),
    ensures
        r is Ok,
        after.params()[name].current_value == before.params()[name].default_value,
        after.params()[name].default_value == before.params()[name].default_value,
{
}

/// The history never holds more than `MAX_HISTORY_SIZE` records, and a
/// recorded change is always the newest record.
pub proof fn lemma_history_bounded(h: Seq<ChangeView>, c: ChangeView)
    requires
        h.len() <= MAX_HISTORY_SIZE,
    ensures
        bounded_push(h, c, MAX_HISTORY_SIZE as nat).len() <= MAX_HISTORY_SIZE,
        bounded_push(h, c, MAX_HISTORY_SIZE as nat).last() == c,
{
}

/// Clamping puts an integer, a duration, or a float that is not NaN, within
/// the range; any other value is left as it is.
pub proof fn lemma_clamp_within_range(c: ConstraintsView, v: ValueView)
    requires
        clamp_defined(c, v),
    ensures
        match (v, c.min, c.max) {
            (ValueView::Integer(_), Some(ValueView::Integer(lo)), Some(ValueView::Integer(hi))) =>
                match spec_clamp(c, v) {
                    ValueView::Integer(y) => lo <= y <= hi,
                    _ => false,
                },
            (ValueView::Duration(_), Some(ValueView::Duration(lo)), Some(ValueView::Duration(hi))) =>
                match spec_clamp(c, v) {
                    ValueView::Duration(y) => lo <= y <= hi,
                    _ => false,
                },
            (ValueView::Float(x), Some(ValueView::Float(lo)), Some(ValueView::Float(hi))) =>
                !binary64::is_nan(x) ==> match spec_clamp(c, v) {
                    ValueView::Float(y) => !binary64::spec_lt(y, lo) && !binary64::spec_lt(hi, y),
                    _ => false,
                },
            _ => spec_clamp(c, v) == v,
        },
{
}

/// Distance between two integers.
pub open spec fn distance(a: int, b: int) -> int {
    if a >= b { a - b } else { b - a }
}

/// The nearest multiple of a nonzero step: for an integer `x` and step `y`,
/// a multiple `q * y` no farther from `x` than half a step.
pub proof fn lemma_nearest_multiple(x: int, y: int)
    requires
        y != 0,
    ensures
        2 * distance(x, nearest_quotient(x, y) * y) <= (if y < 0 { -y } else { y }),
{
    let ax = if x < 0 { -x } else { x };
    let ay = if y < 0 { -y } else { y };
    let q0 = ax / ay;
    let r = ax % ay;
    assert(ax == q0 * ay + r && 0 <= r < ay) by (nonlinear_arith)
        requires q0 == ax / ay, r == ax % ay, ax >= 0, ay >= 1;
    let qn = if 2 * r >= ay { q0 + 1 } else { q0 };
    let q = nearest_quotient(x, y);
    assert(q == if (x < 0) == (y < 0) { qn } else { -qn });
    assert(q * y == qn * ay || q * y == -(qn * ay)) by (nonlinear_arith)
        requires q == qn || q == -qn, y == ay || y == -ay;
    assert(x >= 0 ==> q * y == qn * ay) by (nonlinear_arith)
        requires q == (if (x < 0) == (y < 0) { qn } else { -qn }), ay == (if y < 0 { -y } else { y });
    assert(x < 0 ==> q * y == -(qn * ay)) by (nonlinear_arith)
        requires q == (if (x < 0) == (y < 0) { qn } else { -qn }), ay == (if y < 0 { -y } else { y });
    assert(qn * ay == q0 * ay + (if 2 * r >= ay { ay } else { 0 })) by (nonlinear_arith)
        requires qn == (if 2 * r >= ay { q0 + 1 } else { q0 });
}

/// Rounding to a step gives a multiple of the step no farther from the
/// value than half a step.
pub proof fn lemma_round_to_nearest_step(v: ValueView, step: ValueView)
    requires
        integer_step_defined(v, step),
    ensures
        match (v, step) {
            (ValueView::Integer(x), ValueView::Integer(st)) => match spec_round_to_integer_step(v, step) {
                ValueView::Integer(y) => y as int == nearest_quotient(x as int, st as int) * st
                    && 2 * distance(x as int, y as int) <= (if st < 0 { -st } else { st as int }),
                _ => false,
            },
            (ValueView::Duration(x), ValueView::Duration(st)) => match spec_round_to_integer_step(v, step) {
                ValueView::Duration(y) => y as int == nearest_quotient(x as int, st as int) * st
                    && 2 * distance(x as int, y as int) <= st,
                _ => false,
            },
            _ => spec_round_to_integer_step(v, step) == v,
        },
{
    match (v, step) {
        (ValueView::Integer(x), ValueView::Integer(st)) => {
            lemma_nearest_multiple(x as int, st as int);
        },
        (ValueView::Duration(x), ValueView::Duration(st)) => {
            lemma_nearest_multiple(x as int, st as int);
        },
        _ => {},
    }
}

} // verus!
