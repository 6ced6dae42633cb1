//! Connection pooling: the pool configuration, pooled connections with
//! their use metadata, and the bookkeeping of a platform's pool — which
//! connections stay idle, which expire, how many must be created, and the
//! counters it reports. Opening, checking and closing connections is the
//! caller's work; a connection handle is any value `C`.

use vstd::prelude::*;
use crate::clock;

verus! {

/// Configuration of connection pooling. Durations are in seconds.
#[derive(Clone, Copy, Debug, PartialEq, Eq, Structural)]
pub struct PoolConfig {
    pub max_connections_per_platform: usize,
    pub min_idle_connections: usize,
    pub max_idle_connections: usize,
    pub connection_timeout_seconds: u64,
    pub idle_timeout_seconds: u64,
    pub health_check_interval_seconds: u64,
    pub retry_attempts: u32,
    pub retry_delay_seconds: u64,
}

impl Default for PoolConfig {
    fn default() -> (c: Self)
        ensures
            c == (PoolConfig {
                max_connections_per_platform: 5,
                min_idle_connections: 1,
                max_idle_connections: 3,
                connection_timeout_seconds: 30,
                idle_timeout_seconds: 300,
                health_check_interval_seconds: 60,
                retry_attempts: 3,
                retry_delay_seconds: 5,
            }),
    {
        PoolConfig {
            max_connections_per_platform: 5,
            min_idle_connections: 1,
            max_idle_connections: 3,
            connection_timeout_seconds: 30,
            idle_timeout_seconds: 300,
            health_check_interval_seconds: 60,
            retry_attempts: 3,
            retry_delay_seconds: 5,
        }
    }
}

/// A pooled connection with its metadata. Times are milliseconds.
pub struct PooledConnection<C> {
    pub connection: C,
    pub created_at: u64,
    pub last_used: u64,
    pub use_count: u64,
    pub is_healthy: bool,
}

/// Whether a connection last used at `last_used` has been idle longer than
/// `idle_timeout_ms` at `now` (an earlier `now` counts as no time).
pub open spec fn expired(last_used: u64, idle_timeout_ms: u64, now: u64) -> bool {
    now > last_used && now - last_used > idle_timeout_ms
}

/// An idle timeout of `secs` seconds in milliseconds, saturating at `u64::MAX`.
pub open spec fn idle_timeout_ms(secs: u64) -> u64 {
    if secs * 1000 <= u64::MAX { (secs * 1000) as u64 } else { u64::MAX }
}

proof fn lemma_filter_len_le<T>(s: Seq<T>, pred: spec_fn(T) -> bool)
    ensures
        s.filter(pred).len() <= s.len(),
    decreases s.len(),
{
    reveal(Seq::filter);
    if s.len() > 0 {
        lemma_filter_len_le(s.drop_last(), pred);
    }
}

impl<C> PooledConnection<C> {
    /// A fresh, healthy, unused connection created at `now`.
    pub fn new_at(connection: C, now: u64) -> (p: Self)
        ensures
            p.connection == connection,
            p.created_at == now && p.last_used == now,
            p.use_count == 0,
            p.is_healthy,
    {
        PooledConnection { connection, created_at: now, last_used: now, use_count: 0, is_healthy: true }
    }

    /// A fresh, healthy, unused connection created now.
    pub fn new(connection: C) -> (p: Self)
        ensures
            p.connection == connection,
            p.created_at == p.last_used,
            p.use_count == 0,
            p.is_healthy,
    {
        PooledConnection::new_at(connection, clock::now_millis())
    }

    /// Record a use at `now`.
    pub fn mark_used_at(&mut self, now: u64)
        requires
            old(self).use_count < u64::MAX,
        ensures
            final(self).last_used == now,
            final(self).use_count == old(self).use_count + 1,
            final(self).connection == old(self).connection,
            final(self).created_at == old(self).created_at,
            final(self).is_healthy == old(self).is_healthy,
    {
        self.last_used = now;
        self.use_count = self.use_count + 1;
    }

    /// Record a use now.
    pub fn mark_used(&mut self)
        requires
            old(self).use_count < u64::MAX,
        ensures
            final(self).use_count == old(self).use_count + 1,
            final(self).connection == old(self).connection,
            final(self).created_at == old(self).created_at,
            final(self).is_healthy == old(self).is_healthy,
    {
        self.mark_used_at(clock::now_millis());
    }

    /// Whether the connection has been idle longer than `idle_timeout_ms` at `now`.
    pub fn is_expired_at(&self, idle_timeout_ms: u64, now: u64) -> (b: bool)
        ensures
            b == expired(self.last_used, idle_timeout_ms, now),
    {
        now > self.last_used && now - self.last_used > idle_timeout_ms
    }

    /// Whether the connection has been idle longer than `idle_timeout_ms` now.
    pub fn is_expired(&self, idle_timeout_ms: u64) -> (b: bool)
        ensures
            exists|now: u64| b == #[trigger] expired(self.last_used, idle_timeout_ms, now),
    {
        let now = clock::now_millis();
        let b = self.is_expired_at(idle_timeout_ms, now);
        assert(b == expired(self.last_used, idle_timeout_ms, now));
        b
    }
}

/// Counters a pool reports.
#[derive(Clone, Copy, Debug, PartialEq, Eq, Structural)]
pub struct PoolCounts {
    pub total_connections: usize,
    pub active_connections: usize,
    pub idle_connections: usize,
    pub failed_connections: u64,
    pub total_requests: u64,
    pub successful_requests: u64,
    pub failed_requests: u64,
}

/// The pool of one platform.
pub struct PlatformPool<C> {
    platform: String,
    config: PoolConfig,
    active_connections: Vec<PooledConnection<C>>,
    idle_connections: Vec<PooledConnection<C>>,
    counts: PoolCounts,
}

impl<C> PlatformPool<C> {
    pub closed spec fn active(&self) -> Seq<PooledConnection<C>> {
        self.active_connections@
    }

    pub closed spec fn idle(&self) -> Seq<PooledConnection<C>> {
        self.idle_connections@
    }

    pub closed spec fn stats(&self) -> PoolCounts {
        self.counts
    }

    pub closed spec fn platform_name(&self) -> String {
        self.platform
    }

    pub closed spec fn pool_config(&self) -> PoolConfig {
        self.config
    }

    /// The connection counters agree with the lists, and the idle list is
    /// within its bound (or was filled up to the minimum).
    pub closed spec fn wf(&self) -> bool {
        &&& self.counts.total_connections == self.active_connections@.len() + self.idle_connections@.len()
        &&& self.counts.active_connections == self.active_connections@.len()
        &&& self.counts.idle_connections == self.idle_connections@.len()
    }

    /// An empty pool.
    pub fn new(platform: String, config: PoolConfig) -> (p: Self)
        ensures
            p.wf(),
            p.platform_name() == platform,
            p.pool_config() == config,
            p.active() == Seq::<PooledConnection<C>>::empty(),
            p.idle() == Seq::<PooledConnection<C>>::empty(),
            p.stats() == (PoolCounts {
                total_connections: 0,
                active_connections: 0,
                idle_connections: 0,
                failed_connections: 0,
                total_requests: 0,
                successful_requests: 0,
                failed_requests: 0,
            }),
    {
        PlatformPool {
            platform,
            config,
            active_connections: Vec::new(),
            idle_connections: Vec::new(),
            counts: PoolCounts {
                total_connections: 0,
                active_connections: 0,
                idle_connections: 0,
                failed_connections: 0,
                total_requests: 0,
                successful_requests: 0,
                failed_requests: 0,
            },
        }
    }

    /// Recompute the connection counters from the lists.
    fn update_stats(&mut self)
        requires
            old(self).active_connections@.len() + old(self).idle_connections@.len() <= usize::MAX,
        ensures
            final(self).wf(),
            final(self).active() == old(self).active(),
            final(self).idle() == old(self).idle(),
            final(self).platform_name() == old(self).platform_name(),
            final(self).pool_config() == old(self).pool_config(),
            final(self).stats().failed_connections == old(self).stats().failed_connections,
            final(self).stats().total_requests == old(self).stats().total_requests,
            final(self).stats().successful_requests == old(self).stats().successful_requests,
            final(self).stats().failed_requests == old(self).stats().failed_requests,
    {
        self.counts.total_connections = self.active_connections.len() + self.idle_connections.len();
        self.counts.active_connections = self.active_connections.len();
        self.counts.idle_connections = self.idle_connections.len();
    }

    /// Start serving a request: count it and hand out the most recently
    /// idled connection, if any.
    pub fn begin_request(&mut self) -> (r: Option<PooledConnection<C>>)
        requires
            old(self).wf(),
            old(self).stats().total_requests < u64::MAX,
        ensures
            final(self).wf(),
            final(self).stats().total_requests == old(self).stats().total_requests + 1,
            old(self).idle().len() == 0 ==> r is None && final(self).idle() == old(self).idle(),
            old(self).idle().len() > 0 ==> r == Some(old(self).idle().last()) && final(self).idle() == old(self).idle().drop_last(),
            final(self).active() == old(self).active(),
    {
        self.counts.total_requests = self.counts.total_requests + 1;
        let r = self.idle_connections.pop();
        self.update_stats();
        r
    }

    /// A reused connection passed its health check at `now`: it is used and
    /// the request succeeded.
    pub fn reuse_succeeded(&mut self, pc: &mut PooledConnection<C>, now: u64)
        requires
            old(self).wf(),
            old(self).stats().successful_requests < u64::MAX,
            old(pc).use_count < u64::MAX,
        ensures
            final(self).wf(),
            final(self).stats().successful_requests == old(self).stats().successful_requests + 1,
            final(pc).use_count == old(pc).use_count + 1,
            final(pc).last_used == now,
            final(self).idle() == old(self).idle(),
            final(self).active() == old(self).active(),
    {
        pc.mark_used_at(now);
        self.counts.successful_requests = self.counts.successful_requests + 1;
    }

    /// An idle connection failed its health check, or a new one could not
    /// be made (`request_failed`).
    pub fn connection_failed(&mut self, request_failed: bool)
        requires
            old(self).wf(),
            old(self).stats().failed_connections < u64::MAX,
            request_failed ==> old(self).stats().failed_requests < u64::MAX,
        ensures
            final(self).wf(),
            final(self).stats().failed_connections == old(self).stats().failed_connections + 1,
            final(self).stats().failed_requests == old(self).stats().failed_requests + if request_failed { 1int } else { 0 },
            final(self).stats().successful_requests == old(self).stats().successful_requests,
            final(self).idle() == old(self).idle(),
            final(self).active() == old(self).active(),
    {
        self.counts.failed_connections = self.counts.failed_connections + 1;
        if request_failed {
            self.counts.failed_requests = self.counts.failed_requests + 1;
        }
    }

    /// A new connection was made for a request.
    pub fn new_connection_succeeded(&mut self)
        requires
            old(self).wf(),
            old(self).stats().successful_requests < u64::MAX,
        ensures
            final(self).wf(),
            final(self).stats().successful_requests == old(self).stats().successful_requests + 1,
            final(self).idle() == old(self).idle(),
            final(self).active() == old(self).active(),
    {
        self.counts.successful_requests = self.counts.successful_requests + 1;
    }

    /// Take back a connection at `now`: it is kept idle, marked used, while
    /// the idle list is below its maximum, and dropped otherwise. Returns
    /// whether it was kept.
    pub fn return_to_idle(&mut self, pc: PooledConnection<C>, now: u64) -> (kept: bool)
        requires
            old(self).wf(),
            pc.use_count < u64::MAX,
            old(self).active().len() + old(self).idle().len() < usize::MAX,
        ensures
            final(self).wf(),
            kept == (old(self).idle().len() < old(self).pool_config().max_idle_connections),
            kept ==> final(self).idle().len() == old(self).idle().len() + 1
                && final(self).idle().last().connection == pc.connection
                && final(self).idle().last().last_used == now
                && final(self).idle().drop_last() == old(self).idle(),
            !kept ==> final(self).idle() == old(self).idle(),
            old(self).idle().len() <= old(self).pool_config().max_idle_connections
                ==> final(self).idle().len() <= final(self).pool_config().max_idle_connections,
            final(self).active() == old(self).active(),
            final(self).pool_config() == old(self).pool_config(),
    {
        if self.idle_connections.len() < self.config.max_idle_connections {
            let mut pc = pc;
            pc.mark_used_at(now);
            self.idle_connections.push(pc);
            self.update_stats();
            true
        } else {
            self.update_stats();
            false
        }
    }

    /// Drop the idle connections that expired at `now`; returns how many.
    pub fn cleanup_expired_connections_at(&mut self, now: u64) -> (removed: usize)
        requires
            old(self).wf(),
        ensures
            final(self).wf(),
            final(self).idle() == old(self).idle().filter(|p: PooledConnection<C>|
                !expired(p.last_used, idle_timeout_ms(old(self).pool_config().idle_timeout_seconds), now)),
            removed == old(self).idle().len() - final(self).idle().len(),
            final(self).active() == old(self).active(),
            final(self).pool_config() == old(self).pool_config(),
    {
        let timeout: u64 = if self.config.idle_timeout_seconds <= u64::MAX / 1000 {
            self.config.idle_timeout_seconds * 1000
        } else {
            u64::MAX
        };
        let ghost pred = |p: PooledConnection<C>| !expired(p.last_used, idle_timeout_ms(self.config.idle_timeout_seconds), now);
        let initial = self.idle_connections.len();
        let mut kept: Vec<PooledConnection<C>> = Vec::new();
        let mut old_idle: Vec<PooledConnection<C>> = Vec::new();
        std::mem::swap(&mut old_idle, &mut self.idle_connections);
        let ghost all = old_idle@;
        let mut i: usize = 0;
        assert(all.subrange(0, all.len() as int) =~= all);
        assert(all.take(0) =~= Seq::<PooledConnection<C>>::empty());
        proof {
            reveal(Seq::filter);
        }
        while old_idle.len() > 0
            invariant
                all.len() == initial,
                old_idle@ == all.subrange(i as int, all.len() as int),
                i <= all.len(),
                timeout == idle_timeout_ms(self.config.idle_timeout_seconds),
                pred == (|p: PooledConnection<C>| !expired(p.last_used, idle_timeout_ms(self.config.idle_timeout_seconds), now)),
                kept@ == all.take(i as int).filter(pred),
                self.active_connections@ == old(self).active_connections@,
                self.counts == old(self).counts,
                self.config == old(self).config,
                self.platform == old(self).platform,
            decreases old_idle@.len(),
        {
            assert(all.take(i + 1).drop_last() =~= all.take(i as int));
            assert(old_idle@[0] == all[i as int]);
            let pc = old_idle.remove(0);
            assert(old_idle@ =~= all.subrange(i + 1, all.len() as int));
            proof {
                reveal(Seq::filter);
            }
            if !pc.is_expired_at(timeout, now) {
                kept.push(pc);
            }
            i = i + 1;
        }
        assert(all.take(all.len() as int) =~= all);
        proof {
            lemma_filter_len_le(all, pred);
        }
        self.idle_connections = kept;
        self.update_stats();
        initial - self.idle_connections.len()
    }

    /// How many connections must be created to reach the minimum.
    pub fn minimum_needed(&self) -> (n: usize)
        requires
            self.wf(),
        ensures
            n == if self.active().len() + self.idle().len() < self.pool_config().min_idle_connections {
                self.pool_config().min_idle_connections - (self.active().len() + self.idle().len())
            } else {
                0
            },
    {
        let total = self.counts.total_connections;
        if total < self.config.min_idle_connections {
            self.config.min_idle_connections - total
        } else {
            0
        }
    }

    /// Add a newly created connection to the idle list.
    pub fn add_idle(&mut self, pc: PooledConnection<C>)
        requires
            old(self).wf(),
            old(self).active().len() + old(self).idle().len() < usize::MAX,
        ensures
            final(self).wf(),
            final(self).idle() == old(self).idle().push(pc),
            final(self).active() == old(self).active(),
    {
        self.idle_connections.push(pc);
        self.update_stats();
    }

    /// The counters.
    pub fn get_stats(&self) -> (c: PoolCounts)
        ensures
            c == self.stats(),
    {
        self.counts
    }
}

/// What to do after a connection attempt numbered `attempts` (from 1)
/// failed, out of at most `max_attempts`: wait and retry, or give up.
#[derive(Clone, Copy, Debug, PartialEq, Eq, Structural)]
pub enum RetryStep {
    WaitAndRetry,
    GiveUp,
}

/// After a failed attempt: retry while attempts remain.
pub fn after_failed_attempt(attempts: u32, max_attempts: u32) -> (s: RetryStep)
    ensures
        s == if attempts < max_attempts { RetryStep::WaitAndRetry } else { RetryStep::GiveUp },
{
    if attempts < max_attempts {
        RetryStep::WaitAndRetry
    } else {
        RetryStep::GiveUp
    }
}

} // verus!
