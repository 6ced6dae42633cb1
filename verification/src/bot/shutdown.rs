//! Graceful shutdown as a state machine: the phases from running to
//! stopped, the decisions taken on each component's shutdown outcome, and the
//! statistics gathered on the way. Waiting, timing out and calling the
//! components is the caller's work; it reports each outcome here.

use vstd::prelude::*;
use crate::text;

verus! {

/// Shutdown phases, in the order they are passed through.
#[derive(Clone, Copy, Debug, PartialEq, Eq, Structural)]
pub enum ShutdownPhase {
    /// Normal operation.
    Running,
    /// New work is refused; work under way completes.
    Draining,
    /// Components are being shut down.
    Terminating,
    /// Shutdown is complete.
    Stopped,
}

/// Position of a phase in the order of shutdown.
pub open spec fn phase_rank(p: ShutdownPhase) -> nat {
    match p {
        ShutdownPhase::Running => 0,
        ShutdownPhase::Draining => 1,
        ShutdownPhase::Terminating => 2,
        ShutdownPhase::Stopped => 3,
    }
}

/// Configuration of graceful shutdown. Durations are in seconds.
#[derive(Clone, Copy, Debug, PartialEq, Eq, Structural)]
pub struct ShutdownConfig {
    pub graceful_timeout_seconds: u64,
    pub component_timeout_seconds: u64,
    pub save_state: bool,
    pub create_backup: bool,
    pub send_notifications: bool,
}

impl Default for ShutdownConfig {
    fn default() -> (c: Self)
        ensures
            c == (ShutdownConfig {
                graceful_timeout_seconds: 30,
                component_timeout_seconds: 10,
                save_state: true,
                create_backup: true,
                send_notifications: true,
            }),
    {
        ShutdownConfig {
            graceful_timeout_seconds: 30,
            component_timeout_seconds: 10,
            save_state: true,
            create_backup: true,
            send_notifications: true,
        }
    }
}

/// How a bounded wait for a component's shutdown ended.
pub enum ShutdownOutcome {
    Completed,
    Failed(String),
    TimedOut,
}

/// What to do after a component's graceful shutdown.
#[derive(Clone, Copy, Debug, PartialEq, Eq, Structural)]
pub enum NextStep {
    /// The component is down.
    Done,
    /// Try to force it down.
    Force,
}

/// Statistics of a shutdown. Times are milliseconds since the epoch.
pub struct ShutdownStats {
    pub phase: ShutdownPhase,
    pub started_at: Option<u64>,
    pub completed_at: Option<u64>,
    pub components_shutdown: Vec<String>,
    pub failed_components: Vec<(String, String)>,
    pub messages_processed_during_shutdown: u64,
    pub forced_termination: bool,
}

impl Default for ShutdownStats {
    fn default() -> (s: Self)
        ensures
            s.phase == ShutdownPhase::Running,
            s.started_at is None && s.completed_at is None,
            s.components_shutdown@.len() == 0 && s.failed_components@.len() == 0,
            s.messages_processed_during_shutdown == 0,
            !s.forced_termination,
    {
        ShutdownStats {
            phase: ShutdownPhase::Running,
            started_at: None,
            completed_at: None,
            components_shutdown: Vec::new(),
            failed_components: Vec::new(),
            messages_processed_during_shutdown: 0,
            forced_termination: false,
        }
    }
}

/// The state of a graceful shutdown.
pub struct GracefulShutdown {
    config: ShutdownConfig,
    phase: ShutdownPhase,
    requested: bool,
    stats: ShutdownStats,
    components: Vec<String>,
}

impl GracefulShutdown {
    pub closed spec fn current_phase(&self) -> ShutdownPhase {
        self.phase
    }

    pub closed spec fn is_requested(&self) -> bool {
        self.requested
    }

    pub closed spec fn config_of(&self) -> ShutdownConfig {
        self.config
    }

    /// Names of the components shut down, and of those that could not be, with why.
    pub closed spec fn shut_down(&self) -> Seq<Seq<char>> {
        self.stats.components_shutdown@.map_values(|s: String| s@)
    }

    pub closed spec fn failed(&self) -> Seq<(Seq<char>, Seq<char>)> {
        self.stats.failed_components@.map_values(|e: (String, String)| (e.0@, e.1@))
    }

    pub closed spec fn started(&self) -> Option<u64> {
        self.stats.started_at
    }

    pub closed spec fn completed(&self) -> Option<u64> {
        self.stats.completed_at
    }

    pub closed spec fn forced(&self) -> bool {
        self.stats.forced_termination
    }

    /// The names of the registered components, in registration order.
    pub closed spec fn component_names(&self) -> Seq<Seq<char>> {
        self.components@.map_values(|s: String| s@)
    }

    /// The statistics phase follows the shutdown phase.
    pub closed spec fn wf(&self) -> bool {
        self.stats.phase == self.phase
    }

    /// A running system with no component registered.
    pub fn new(config: ShutdownConfig) -> (g: Self)
        ensures
            g.wf(),
            g.current_phase() == ShutdownPhase::Running,
            !g.is_requested(),
            g.config_of() == config,
            g.shut_down().len() == 0 && g.failed().len() == 0,
            g.component_names().len() == 0,
            !g.forced(),
            g.started() is None && g.completed() is None,
    {
        let g = GracefulShutdown {
            config,
            phase: ShutdownPhase::Running,
            requested: false,
            stats: ShutdownStats::default(),
            components: Vec::new(),
        };
        assert(g.shut_down() =~= Seq::<Seq<char>>::empty());
        g
    }

    /// A running system with the default configuration.
    pub fn with_default_config() -> (g: Self)
        ensures
            g.wf(),
            g.current_phase() == ShutdownPhase::Running,
            !g.is_requested(),
            g.config_of() == (ShutdownConfig {
                graceful_timeout_seconds: 30,
                component_timeout_seconds: 10,
                save_state: true,
                create_backup: true,
                send_notifications: true,
            }),
            g.shut_down().len() == 0 && g.failed().len() == 0,
            g.component_names().len() == 0,
            !g.forced(),
            g.started() is None && g.completed() is None,
    {
        GracefulShutdown::new(ShutdownConfig::default())
    }

    /// Register a component by name.
    pub fn register_component(&mut self, name: &str)
        ensures
            final(self).component_names() == old(self).component_names().push(name@),
            final(self).current_phase() == old(self).current_phase(),
            final(self).wf() == old(self).wf(),
    {
        let ghost c0 = self.component_names();
        self.components.push(text::owned(name));
        assert(self.component_names() =~= c0.push(name@));
    }

    /// The current phase.
    pub fn get_phase(&self) -> (p: ShutdownPhase)
        ensures
            p == self.current_phase(),
    {
        self.phase
    }

    /// Whether shutdown was requested.
    pub fn is_shutdown_requested(&self) -> (b: bool)
        ensures
            b == self.is_requested(),
    {
        self.requested
    }

    /// A shutdown was requested (by a signal or by hand): new work is refused
    /// from now on.
    pub fn trigger_shutdown(&mut self)
        ensures
            final(self).is_requested(),
            final(self).current_phase() == ShutdownPhase::Draining,
            final(self).config_of() == old(self).config_of(),
            final(self).component_names() == old(self).component_names(),
    {
        self.requested = true;
        self.phase = ShutdownPhase::Draining;
    }

    /// Whether a new operation may start: only while running.
    pub fn may_start_operation(&self) -> (b: bool)
        ensures
            b == (self.current_phase() == ShutdownPhase::Running),
    {
        self.phase == ShutdownPhase::Running
    }

    /// Shutdown begins at `now`: draining.
    pub fn begin(&mut self, now: u64)
        requires
            old(self).wf(),
        ensures
            final(self).wf(),
            final(self).current_phase() == ShutdownPhase::Draining,
            final(self).started() == Some(now),
            final(self).shut_down() == old(self).shut_down(),
            final(self).failed() == old(self).failed(),
            final(self).forced() == old(self).forced(),
            final(self).config_of() == old(self).config_of(),
            final(self).component_names() == old(self).component_names(),
    {
        self.stats.started_at = Some(now);
        self.stats.phase = ShutdownPhase::Draining;
        self.phase = ShutdownPhase::Draining;
    }

    /// Draining ended; `timed_out` when work under way did not finish in
    /// time, which makes the termination forced. Components are shut down next.
    pub fn drained(&mut self, timed_out: bool)
        requires
            old(self).wf(),
        ensures
            final(self).wf(),
            final(self).current_phase() == ShutdownPhase::Terminating,
            final(self).forced() == (old(self).forced() || timed_out),
            final(self).shut_down() == old(self).shut_down(),
            final(self).failed() == old(self).failed(),
            final(self).config_of() == old(self).config_of(),
            final(self).component_names() == old(self).component_names(),
    {
        if timed_out {
            self.stats.forced_termination = true;
        }
        self.phase = ShutdownPhase::Terminating;
        self.stats.phase = ShutdownPhase::Terminating;
    }

    /// A component's graceful shutdown ended: done if it completed,
    /// otherwise it must be forced.
    pub fn after_graceful(&mut self, name: &str, outcome: &ShutdownOutcome) -> (step: NextStep)
        requires
            old(self).wf(),
        ensures
            final(self).wf(),
            step == if outcome is Completed { NextStep::Done } else { NextStep::Force },
            outcome is Completed ==> final(self).shut_down() == old(self).shut_down().push(name@),
            !(outcome is Completed) ==> final(self).shut_down() == old(self).shut_down(),
            final(self).failed() == old(self).failed(),
            final(self).current_phase() == old(self).current_phase(),
            final(self).forced() == old(self).forced(),
            final(self).component_names() == old(self).component_names(),
    {
        match outcome {
            ShutdownOutcome::Completed => {
                let ghost s0 = self.shut_down();
                self.stats.components_shutdown.push(text::owned(name));
                assert(self.shut_down() =~= s0.push(name@));
                NextStep::Done
            },
            _ => NextStep::Force,
        }
    }

    /// A forced shutdown ended, after a graceful shutdown that failed
    /// (`graceful_timed_out` false) or timed out (true). A completed forced
    /// shutdown counts the component as shut down; otherwise it failed: with
    /// the forced shutdown's error, or "Force shutdown timeout", after a
    /// graceful failure, and with "Shutdown timeout" after a graceful timeout.
    pub fn after_force(&mut self, name: &str, graceful_timed_out: bool, outcome: &ShutdownOutcome)
        requires
            old(self).wf(),
        ensures
            final(self).wf(),
            outcome is Completed ==> final(self).shut_down() == old(self).shut_down().push(name@)
                && final(self).failed() == old(self).failed(),
            !(outcome is Completed) ==> final(self).shut_down() == old(self).shut_down()
                && final(self).failed() == old(self).failed().push((name@, force_failure_text(graceful_timed_out, *outcome))),
            final(self).current_phase() == old(self).current_phase(),
            final(self).forced() == old(self).forced(),
            final(self).component_names() == old(self).component_names(),
    {
        let ghost s0 = self.shut_down();
        let ghost f0 = self.failed();
        match outcome {
            ShutdownOutcome::Completed => {
                self.stats.components_shutdown.push(text::owned(name));
                assert(self.shut_down() =~= s0.push(name@));
            },
            ShutdownOutcome::Failed(e) => {
                let why = if graceful_timed_out { text::owned("Shutdown timeout") } else { e.clone() };
                let ghost w = why@;
                self.stats.failed_components.push((text::owned(name), why));
                assert(self.failed() =~= f0.push((name@, w)));
            },
            ShutdownOutcome::TimedOut => {
                let why = if graceful_timed_out { text::owned("Shutdown timeout") } else { text::owned("Force shutdown timeout") };
                let ghost w = why@;
                self.stats.failed_components.push((text::owned(name), why));
                assert(self.failed() =~= f0.push((name@, w)));
            },
        }
    }

    /// A final step (saving state, making a backup) failed with `error`.
    pub fn final_step_failed(&mut self, step_name: &str, error: &str)
        requires
            old(self).wf(),
        ensures
            final(self).wf(),
            final(self).failed() == old(self).failed().push((step_name@, error@)),
            final(self).shut_down() == old(self).shut_down(),
            final(self).current_phase() == old(self).current_phase(),
            final(self).forced() == old(self).forced(),
    {
        let ghost f0 = self.failed();
        self.stats.failed_components.push((text::owned(step_name), text::owned(error)));
        assert(self.failed() =~= f0.push((step_name@, error@)));
    }

    /// Shutdown completed at `now`.
    pub fn complete(&mut self, now: u64)
        requires
            old(self).wf(),
        ensures
            final(self).wf(),
            final(self).current_phase() == ShutdownPhase::Stopped,
            final(self).completed() == Some(now),
            final(self).started() == old(self).started(),
            final(self).shut_down() == old(self).shut_down(),
            final(self).failed() == old(self).failed(),
            final(self).forced() == old(self).forced(),
    {
        self.stats.completed_at = Some(now);
        self.stats.phase = ShutdownPhase::Stopped;
        self.phase = ShutdownPhase::Stopped;
    }

    /// Milliseconds the shutdown took, once started and completed.
    pub fn duration_ms(&self) -> (d: Option<u64>)
        ensures
            match (self.started(), self.completed()) {
                (Some(s), Some(c)) => d == Some(if c >= s { (c - s) as u64 } else { 0 }),
                _ => d is None,
            },
    {
        match (self.stats.started_at, self.stats.completed_at) {
            (Some(s), Some(c)) => Some(if c >= s { c - s } else { 0 }),
            _ => None,
        }
    }
}

/// Why a component is recorded as failed after its forced shutdown.
pub open spec fn force_failure_text(graceful_timed_out: bool, outcome: ShutdownOutcome) -> Seq<char> {
    if graceful_timed_out {
        "Shutdown timeout"@
    } else {
        match outcome {
            ShutdownOutcome::Failed(e) => e@,
            _ => "Force shutdown timeout"@,
        }
    }
}

/// A component that can be shut down.
pub trait ShutdownComponent {
    /// The component's name, for the statistics and the log.
    fn name(&self) -> &str;
}

/// The configuration manager as a shutdown component.
pub struct ConfigManagerShutdownComponent<M> {
    pub config_manager: M,
}

impl<M> ConfigManagerShutdownComponent<M> {
    /// Wrap a configuration manager.
    pub fn new(config_manager: M) -> (c: Self)
        ensures
            c.config_manager == config_manager,
    {
        ConfigManagerShutdownComponent { config_manager }
    }
}

impl<M> ShutdownComponent for ConfigManagerShutdownComponent<M> {
    fn name(&self) -> (n: &str)
        ensures
            n@ == "ConfigurationManager"@,
    {
        "ConfigurationManager"
    }
}

/// Setting up graceful shutdown for the whole application.
pub struct ShutdownIntegration;

impl ShutdownIntegration {
    /// The components registered, in order: the chat bot, the connection
    /// pool when there is one, and the configuration manager.
    pub fn component_order(has_connection_pool: bool) -> (names: Vec<String>)
        ensures
            names@.map_values(|s: String| s@) == if has_connection_pool {
                seq!["ChatBot"@, "ConnectionPool"@, "ConfigurationManager"@]
            } else {
                seq!["ChatBot"@, "ConfigurationManager"@]
            },
    {
        let mut v: Vec<String> = Vec::new();
        v.push(text::owned("ChatBot"));
        if has_connection_pool {
            v.push(text::owned("ConnectionPool"));
        }
        v.push(text::owned("ConfigurationManager"));
        if has_connection_pool {
            assert(v@.map_values(|s: String| s@) =~= seq!["ChatBot"@, "ConnectionPool"@, "ConfigurationManager"@]);
        } else {
            assert(v@.map_values(|s: String| s@) =~= seq!["ChatBot"@, "ConfigurationManager"@]);
        }
        v
    }
}

/// The phases of a shutdown only move forward: running, draining,
/// terminating, stopped.
pub proof fn lemma_phases_advance()
    ensures
        phase_rank(ShutdownPhase::Running) < phase_rank(ShutdownPhase::Draining),
        phase_rank(ShutdownPhase::Draining) < phase_rank(ShutdownPhase::Terminating),
        phase_rank(ShutdownPhase::Terminating) < phase_rank(ShutdownPhase::Stopped),
{
}

/// Every component given to `after_graceful` and, when told to force, to
/// `after_force`, ends up either shut down or failed, exactly once.
pub proof fn lemma_component_accounted(
    shut0: Seq<Seq<char>>,
    failed0: Seq<(Seq<char>, Seq<char>)>,
    name: Seq<char>,
    graceful: ShutdownOutcome,
    graceful_timed_out: bool,
    forced: ShutdownOutcome,
)
    ensures
        ({
            let (shut, failed) = if graceful is Completed {
                (shut0.push(name), failed0)
            } else if forced is Completed {
                (shut0.push(name), failed0)
            } else {
                (shut0, failed0.push((name, force_failure_text(graceful_timed_out, forced))))
            };
            shut.len() + failed.len() == shut0.len() + failed0.len() + 1
        }),
{
}

} // verus!
