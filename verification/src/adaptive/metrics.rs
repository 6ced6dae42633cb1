//! Kinds of performance metric, and the grouping of time-ordered metric
//! points into the time windows that the aggregates average over.

use vstd::prelude::*;

verus! {

/// The kinds of metric collected.
pub enum MetricType {
    Latency,
    Memory,
    Error,
    Throughput,
    Connection,
    AI,
    Custom(String),
}

/// A run of consecutive points that fall into one window: the window's
/// start (seconds) and the points' positions `first..end`.
#[derive(Clone, Copy, Debug, PartialEq, Eq, Structural)]
pub struct WindowRun {
    pub start: u64,
    pub first: usize,
    pub end: usize,
}

/// The start of the window a time falls into.
pub open spec fn window_of(t: u64, w: u64) -> int {
    (t / w) * w
}

/// The grouping after the first `k` points: the runs closed so far, the
/// start of the current window (none before the first point), and where
/// the current run began.
pub open spec fn runs_after(ts: Seq<u64>, w: u64, k: int) -> (Seq<WindowRun>, Option<int>, int)
    decreases k,
{
    if k <= 0 {
        (Seq::empty(), None, 0)
    } else {
        let (runs, cur, first) = runs_after(ts, w, k - 1);
        let ws = window_of(ts[k - 1], w);
        match cur {
            None => (runs, Some(ws), first),
            Some(c) => if ws == c {
                (runs, cur, first)
            } else {
                (runs.push(WindowRun { start: c as u64, first: first as usize, end: (k - 1) as usize }), Some(ws), k - 1)
            },
        }
    }
}

/// The runs of all points: those closed, and the last one when there are
/// points.
pub open spec fn window_runs_of(ts: Seq<u64>, w: u64) -> Seq<WindowRun> {
    let (runs, cur, first) = runs_after(ts, w, ts.len() as int);
    match cur {
        None => runs,
        Some(c) => runs.push(WindowRun { start: c as u64, first: first as usize, end: ts.len() as usize }),
    }
}

/// Groups metric points for aggregation.
pub struct MetricsAggregator;

impl MetricsAggregator {
    /// The runs of consecutive points that share a window of `window_seconds`
    /// (points are taken in the order given); see `window_runs_of`.
    pub fn window_runs(timestamps: &Vec<u64>, window_seconds: u64) -> (r: Vec<WindowRun>)
        requires
            window_seconds > 0,
        ensures
            r@ == window_runs_of(timestamps@, window_seconds),
    {
        let ghost ts = timestamps@;
        let mut runs: Vec<WindowRun> = Vec::new();
        let mut cur: Option<u64> = None;
        let mut first: usize = 0;
        let mut i: usize = 0;
        while i < timestamps.len()
            invariant
                i <= ts.len(),
                ts == timestamps@,
                window_seconds > 0,
                (runs@, match cur { Some(c) => Some(c as int), None => None::<int> }, first as int)
                    == runs_after(ts, window_seconds, i as int),
                first <= i,
                cur is None <==> i == 0,
            decreases ts.len() - i,
        {
            let t = timestamps[i];
            assert(t % window_seconds <= t && t - t % window_seconds == window_of(t, window_seconds)) by (nonlinear_arith)
                requires
                    window_seconds > 0,
            ;
            let ws = t - t % window_seconds;
            match cur {
                None => {
                    cur = Some(ws);
                },
                Some(c) => {
                    if ws != c {
                        runs.push(WindowRun { start: c, first, end: i });
                        cur = Some(ws);
                        first = i;
                    }
                },
            }
            i = i + 1;
        }
        match cur {
            None => {},
            Some(c) => {
                runs.push(WindowRun { start: c, first, end: timestamps.len() });
            },
        }
        runs
    }

    /// Hourly runs.
    pub fn hourly_runs(timestamps: &Vec<u64>) -> (r: Vec<WindowRun>)
        ensures
            r@ == window_runs_of(timestamps@, 3600),
    {
        Self::window_runs(timestamps, 3600)
    }

    /// Daily runs.
    pub fn daily_runs(timestamps: &Vec<u64>) -> (r: Vec<WindowRun>)
        ensures
            r@ == window_runs_of(timestamps@, 86400),
    {
        Self::window_runs(timestamps, 86400)
    }
}

} // verus!
