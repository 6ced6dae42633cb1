//! The tunable settings of the configuration files, read as adaptive
//! parameters and changed by adaptive parameter changes.

use vstd::prelude::*;
use crate::adaptive::parameters::{ParameterValue, ParameterChange, ValueView, spec_as_i64, spec_as_duration_ms};
use crate::text;

verus! {

/// The settings of the configuration files that the adaptive system tunes.
pub struct AdaptiveSettings {
    pub response_delay_ms: u64,
    pub rate_limit_per_minute: u32,
    pub max_message_length: usize,
    pub worker_threads: u8,
    pub batch_size: u32,
    pub cache_size_mb: u32,
    pub max_filters_per_message: u8,
    /// The global timeout multiplier, as the encoding of a 64-bit float.
    pub global_timeout_multiplier: u64,
    pub max_processing_threads: u8,
    pub pattern_cache_size_mb: u32,
    pub global_cooldown_seconds: u64,
    pub max_timers_per_channel: u8,
}

/// A configuration file.
#[derive(Clone, Copy, Debug, PartialEq, Eq, Structural)]
pub enum ConfigFile {
    Bot,
    Filters,
    Patterns,
    Timers,
}

/// What a change asks of the configuration.
#[derive(Clone, Copy, Debug, PartialEq, Eq, Structural)]
pub enum ChangeOutcome {
    /// A setting of this file changed; the file is to be saved.
    Saved(ConfigFile),
    /// The change named the timeout multiplier with a number; it is to be
    /// stored as a 32-bit float in the filter file.
    MultiplierRequested,
    /// Nothing changed: an unknown parameter or a value of the wrong kind.
    Ignored,
}

/// The settings as named adaptive parameters, in a fixed order.
pub open spec fn adaptive_parameters(s: AdaptiveSettings) -> Seq<(Seq<char>, ValueView)> {
    seq![
        ("response_delay_ms"@, ValueView::Duration(s.response_delay_ms)),
        ("rate_limit_per_minute"@, ValueView::Integer(s.rate_limit_per_minute as i64)),
        ("max_message_length"@, ValueView::Integer(s.max_message_length as i64)),
        ("worker_threads"@, ValueView::Integer(s.worker_threads as i64)),
        ("batch_size"@, ValueView::Integer(s.batch_size as i64)),
        ("cache_size_mb"@, ValueView::Integer(s.cache_size_mb as i64)),
        ("max_filters_per_message"@, ValueView::Integer(s.max_filters_per_message as i64)),
        ("global_timeout_multiplier"@, ValueView::Float(s.global_timeout_multiplier)),
        ("max_processing_threads"@, ValueView::Integer(s.max_processing_threads as i64)),
        ("pattern_cache_size_mb"@, ValueView::Integer(s.pattern_cache_size_mb as i64)),
        ("global_cooldown_seconds"@, ValueView::Duration((s.global_cooldown_seconds * 1000) as u64)),
        ("max_timers_per_channel"@, ValueView::Integer(s.max_timers_per_channel as i64)),
    ]
}

/// The settings as named adaptive parameters; the cooldown is given in
/// milliseconds, so it must fit in a `u64` once multiplied by a thousand.
pub fn get_adaptive_parameters(s: &AdaptiveSettings) -> (r: Vec<(String, ParameterValue)>)
    requires
        s.global_cooldown_seconds * 1000 <= u64::MAX,
    ensures
        r@.map_values(|e: (String, ParameterValue)| (e.0@, e.1@)) == adaptive_parameters(*s),
{
    let mut r: Vec<(String, ParameterValue)> = Vec::new();
    r.push((text::owned("response_delay_ms"), ParameterValue::Duration(s.response_delay_ms)));
    r.push((text::owned("rate_limit_per_minute"), ParameterValue::Integer(s.rate_limit_per_minute as i64)));
    r.push((text::owned("max_message_length"), ParameterValue::Integer(s.max_message_length as i64)));
    r.push((text::owned("worker_threads"), ParameterValue::Integer(s.worker_threads as i64)));
    r.push((text::owned("batch_size"), ParameterValue::Integer(s.batch_size as i64)));
    r.push((text::owned("cache_size_mb"), ParameterValue::Integer(s.cache_size_mb as i64)));
    r.push((text::owned("max_filters_per_message"), ParameterValue::Integer(s.max_filters_per_message as i64)));
    r.push((text::owned("global_timeout_multiplier"), ParameterValue::Float(s.global_timeout_multiplier)));
    r.push((text::owned("max_processing_threads"), ParameterValue::Integer(s.max_processing_threads as i64)));
    r.push((text::owned("pattern_cache_size_mb"), ParameterValue::Integer(s.pattern_cache_size_mb as i64)));
    r.push((text::owned("global_cooldown_seconds"), ParameterValue::Duration(s.global_cooldown_seconds * 1000)));
    r.push((text::owned("max_timers_per_channel"), ParameterValue::Integer(s.max_timers_per_channel as i64)));
    assert(r@.map_values(|e: (String, ParameterValue)| (e.0@, e.1@)) =~= adaptive_parameters(*s));
    r
}

/// What a change of parameter `name` to `v` does to the settings: the
/// named setting takes the value (integers cast to the setting's type as
/// `as` does, durations as milliseconds, the cooldown in whole seconds) and
/// its file is to be saved; a value of the wrong kind or an unknown name
/// changes nothing.
pub open spec fn changed_settings(s: AdaptiveSettings, name: Seq<char>, v: ValueView) -> (AdaptiveSettings, ChangeOutcome) {
    let i = spec_as_i64(v);
    let d = spec_as_duration_ms(v);
    if name == "response_delay_ms"@ {
        match d {
            Some(x) => (AdaptiveSettings { response_delay_ms: x, ..s }, ChangeOutcome::Saved(ConfigFile::Bot)),
            None => (s, ChangeOutcome::Ignored),
        }
    } else if name == "rate_limit_per_minute"@ {
        match i {
            Some(x) => (AdaptiveSettings { rate_limit_per_minute: x as u32, ..s }, ChangeOutcome::Saved(ConfigFile::Bot)),
            None => (s, ChangeOutcome::Ignored),
        }
    } else if name == "max_message_length"@ {
        match i {
            Some(x) => (AdaptiveSettings { max_message_length: x as usize, ..s }, ChangeOutcome::Saved(ConfigFile::Bot)),
            None => (s, ChangeOutcome::Ignored),
        }
    } else if name == "worker_threads"@ {
        match i {
            Some(x) => (AdaptiveSettings { worker_threads: x as u8, ..s }, ChangeOutcome::Saved(ConfigFile::Bot)),
            None => (s, ChangeOutcome::Ignored),
        }
    } else if name == "batch_size"@ {
        match i {
            Some(x) => (AdaptiveSettings { batch_size: x as u32, ..s }, ChangeOutcome::Saved(ConfigFile::Bot)),
            None => (s, ChangeOutcome::Ignored),
        }
    } else if name == "cache_size_mb"@ {
        match i {
            Some(x) => (AdaptiveSettings { cache_size_mb: x as u32, ..s }, ChangeOutcome::Saved(ConfigFile::Bot)),
            None => (s, ChangeOutcome::Ignored),
        }
    } else if name == "max_filters_per_message"@ {
        match i {
            Some(x) => (AdaptiveSettings { max_filters_per_message: x as u8, ..s }, ChangeOutcome::Saved(ConfigFile::Filters)),
            None => (s, ChangeOutcome::Ignored),
        }
    } else if name == "global_timeout_multiplier"@ {
        match v {
            ValueView::Float(_) => (s, ChangeOutcome::MultiplierRequested),
            ValueView::Integer(_) => (s, ChangeOutcome::MultiplierRequested),
            _ => (s, ChangeOutcome::Ignored),
        }
    } else if name == "max_processing_threads"@ {
        match i {
            Some(x) => (AdaptiveSettings { max_processing_threads: x as u8, ..s }, ChangeOutcome::Saved(ConfigFile::Patterns)),
            None => (s, ChangeOutcome::Ignored),
        }
    } else if name == "pattern_cache_size_mb"@ {
        match i {
            Some(x) => (AdaptiveSettings { pattern_cache_size_mb: x as u32, ..s }, ChangeOutcome::Saved(ConfigFile::Patterns)),
            None => (s, ChangeOutcome::Ignored),
        }
    } else if name == "global_cooldown_seconds"@ {
        match d {
            Some(x) => (AdaptiveSettings { global_cooldown_seconds: x / 1000, ..s }, ChangeOutcome::Saved(ConfigFile::Timers)),
            None => (s, ChangeOutcome::Ignored),
        }
    } else if name == "max_timers_per_channel"@ {
        match i {
            Some(x) => (AdaptiveSettings { max_timers_per_channel: x as u8, ..s }, ChangeOutcome::Saved(ConfigFile::Timers)),
            None => (s, ChangeOutcome::Ignored),
        }
    } else {
        (s, ChangeOutcome::Ignored)
    }
}

/// Apply one adaptive change to the settings; see `changed_settings`.
pub fn apply_single_parameter_change(s: &mut AdaptiveSettings, change: &ParameterChange) -> (r: ChangeOutcome)
    ensures
        (*final(s), r) == changed_settings(*old(s), change.parameter_name@, change.new_value@),
{
    let name = change.parameter_name.as_str();
    let v = &change.new_value;
    if text::same_text(name, "response_delay_ms") {
        match v.as_duration_ms() {
            Some(x) => {
                s.response_delay_ms = x;
                ChangeOutcome::Saved(ConfigFile::Bot)
            },
            None => ChangeOutcome::Ignored,
        }
    } else if text::same_text(name, "rate_limit_per_minute") {
        match v.as_i64() {
            Some(x) => {
                s.rate_limit_per_minute = x as u32;
                ChangeOutcome::Saved(ConfigFile::Bot)
            },
            None => ChangeOutcome::Ignored,
        }
    } else if text::same_text(name, "max_message_length") {
        match v.as_i64() {
            Some(x) => {
                s.max_message_length = x as usize;
                ChangeOutcome::Saved(ConfigFile::Bot)
            },
            None => ChangeOutcome::Ignored,
        }
    } else if text::same_text(name, "worker_threads") {
        match v.as_i64() {
            Some(x) => {
                s.worker_threads = x as u8;
                ChangeOutcome::Saved(ConfigFile::Bot)
            },
            None => ChangeOutcome::Ignored,
        }
    } else if text::same_text(name, "batch_size") {
        match v.as_i64() {
            Some(x) => {
                s.batch_size = x as u32;
                ChangeOutcome::Saved(ConfigFile::Bot)
            },
            None => ChangeOutcome::Ignored,
        }
    } else if text::same_text(name, "cache_size_mb") {
        match v.as_i64() {
            Some(x) => {
                s.cache_size_mb = x as u32;
                ChangeOutcome::Saved(ConfigFile::Bot)
            },
            None => ChangeOutcome::Ignored,
        }
    } else if text::same_text(name, "max_filters_per_message") {
        match v.as_i64() {
            Some(x) => {
                s.max_filters_per_message = x as u8;
                ChangeOutcome::Saved(ConfigFile::Filters)
            },
            None => ChangeOutcome::Ignored,
        }
    } else if text::same_text(name, "global_timeout_multiplier") {
        match v {
            ParameterValue::Float(_) => ChangeOutcome::MultiplierRequested,
            ParameterValue::Integer(_) => ChangeOutcome::MultiplierRequested,
            _ => ChangeOutcome::Ignored,
        }
    } else if text::same_text(name, "max_processing_threads") {
        match v.as_i64() {
            Some(x) => {
                s.max_processing_threads = x as u8;
                ChangeOutcome::Saved(ConfigFile::Patterns)
            },
            None => ChangeOutcome::Ignored,
        }
    } else if text::same_text(name, "pattern_cache_size_mb") {
        match v.as_i64() {
            Some(x) => {
                s.pattern_cache_size_mb = x as u32;
                ChangeOutcome::Saved(ConfigFile::Patterns)
            },
            None => ChangeOutcome::Ignored,
        }
    } else if text::same_text(name, "global_cooldown_seconds") {
        match v.as_duration_ms() {
            Some(x) => {
                s.global_cooldown_seconds = x / 1000;
                ChangeOutcome::Saved(ConfigFile::Timers)
            },
            None => ChangeOutcome::Ignored,
        }
    } else if text::same_text(name, "max_timers_per_channel") {
        match v.as_i64() {
            Some(x) => {
                s.max_timers_per_channel = x as u8;
                ChangeOutcome::Saved(ConfigFile::Timers)
            },
            None => ChangeOutcome::Ignored,
        }
    } else {
        ChangeOutcome::Ignored
    }
}

/// The settings after a list of changes, applied in order.
pub open spec fn settings_after(s: AdaptiveSettings, changes: Seq<ParameterChange>) -> AdaptiveSettings
    decreases changes.len(),
{
    if changes.len() == 0 {
        s
    } else {
        changed_settings(settings_after(s, changes.drop_last()), changes.last().parameter_name@,
            changes.last().new_value@).0
    }
}

/// Apply changes in order; the outcome of each, in the same order.
pub fn apply_adaptive_changes(s: &mut AdaptiveSettings, changes: &Vec<ParameterChange>) -> (r: Vec<ChangeOutcome>)
    ensures
        *final(s) == settings_after(*old(s), changes@),
        r@.len() == changes@.len(),
        forall|k: int| 0 <= k < changes@.len() ==> #[trigger] r@[k] == changed_settings(
            settings_after(*old(s), changes@.take(k)), changes@[k].parameter_name@, changes@[k].new_value@).1,
{
    let ghost s0 = *s;
    let mut r: Vec<ChangeOutcome> = Vec::new();
    let mut i: usize = 0;
    while i < changes.len()
        invariant
            i <= changes@.len(),
            s0 == *old(s),
            *s == settings_after(s0, changes@.take(i as int)),
            r@.len() == i,
            forall|k: int| 0 <= k < i ==> #[trigger] r@[k] == changed_settings(
                settings_after(s0, changes@.take(k)), changes@[k].parameter_name@, changes@[k].new_value@).1,
        decreases changes@.len() - i,
    {
        assert(changes@.take(i + 1).drop_last() =~= changes@.take(i as int));
        assert(changes@.take(i + 1).last() == changes@[i as int]);
        let o = apply_single_parameter_change(s, &changes[i]);
        r.push(o);
        i = i + 1;
    }
    assert(changes@.take(changes@.len() as int) =~= changes@);
    r
}

/// The tuning strategy that adjusts configuration settings.
pub struct ConfigurationTuningStrategy {
    pub settings: AdaptiveSettings,
}

impl ConfigurationTuningStrategy {
    pub fn new(settings: AdaptiveSettings) -> (r: Self)
        ensures
            r.settings == settings,
    {
        ConfigurationTuningStrategy { settings }
    }

    /// The strategy's name.
    pub fn get_strategy_name(&self) -> (r: &'static str)
        ensures
            r@ == "configuration_tuning"@,
    {
        "configuration_tuning"
    }

    /// The strategy's priority.
    pub fn get_priority(&self) -> (r: u8)
        ensures
            r == 170,
    {
        170
    }
}

} // verus!
