//! The SLAM worker's pacing: which scan points go to the dashboard, and when a map is rendered.

use vstd::prelude::*;

use crate::config::SlamTuning;

verus! {

/// Tunables handed to the worker.
#[derive(Debug, Clone, Copy, PartialEq, Eq, Structural)]
pub struct WorkerTuning {
    /// Render a map every N processed scans.
    pub map_every_scans: u32,
    /// Points per scan forwarded to the dashboard.
    pub ws_scan_points: usize,
}

impl WorkerTuning {
    /// The worker's share of the SLAM configuration.
    pub fn from_slam(t: &SlamTuning) -> (w: WorkerTuning)
        ensures
            w.map_every_scans == t.map_every_scans,
            w.ws_scan_points == t.ws_scan_points,
    {
        WorkerTuning { map_every_scans: t.map_every_scans, ws_scan_points: t.ws_scan_points }
    }
}

/// At least one.
pub open spec fn at_least_one(n: nat) -> nat {
    if n == 0 {
        1
    } else {
        n
    }
}

/// The stride that keeps at most `max` of `len` points, evenly spaced:
/// `max(⌈len / max(max, 1)⌉, 1)`.
pub open spec fn decimation_step(len: nat, max: nat) -> nat {
    let m = at_least_one(max);
    at_least_one(((len + m - 1) / m as int) as nat)
}

/// The number of points kept: every `step`-th one starting from the first.
pub open spec fn decimated_count(len: nat, max: nat) -> nat {
    let step = decimation_step(len, max);
    ((len + step - 1) / step as int) as nat
}

/// The stride between kept points.
pub fn decimation_stride(len: usize, max: usize) -> (step: usize)
    ensures
        step == decimation_step(len as nat, max as nat),
        step >= 1,
{
    let m = if max == 0 {
        1
    } else {
        max
    };
    proof {
        lemma_ceil_div(len as nat, m as nat);
    }
    let s = if len % m == 0 {
        len / m
    } else {
        len / m + 1
    };
    if s == 0 {
        1
    } else {
        s
    }
}

/// `⌈len / m⌉` written with the floor quotient and the remainder.
proof fn lemma_ceil_div(len: nat, m: nat)
    requires
        m >= 1,
    ensures
        (len + m - 1) / m as int == len / m + if len % m == 0 {
            0int
        } else {
            1int
        },
        len % m != 0 ==> len / m + 1 <= len,
{
    let q = len / m;
    let r = len % m;
    assert(len == q * m + r && 0 <= r < m) by (nonlinear_arith)
        requires
            m >= 1,
            q == len / m,
            r == len % m,
    ;
    if r == 0 {
        assert((len + m - 1) / m as int == q) by (nonlinear_arith)
            requires
                len == q * m,
                m >= 1,
        ;
    } else {
        assert(len + m - 1 == (q + 1) * m + (r - 1)) by (nonlinear_arith)
            requires
                len == q * m + r,
        ;
        assert((len + m - 1) / m as int == q + 1) by (nonlinear_arith)
            requires
                len + m - 1 == (q + 1) * m + (r - 1),
                0 <= r - 1 < m,
        ;
    }
    assert(q * m >= q) by (nonlinear_arith)
        requires
            m >= 1,
            q >= 0,
    ;
}

/// The indices of the points kept from `len` points when at most `max` should go to the
/// dashboard: `0, step, 2·step, …` below `len`.
pub fn decimation_indices(len: usize, max: usize) -> (idx: Vec<usize>)
    ensures
        idx@.len() == decimated_count(len as nat, max as nat),
        forall|i: int| 0 <= i < idx@.len() ==> #[trigger] idx@[i] == i * decimation_step(len as nat, max as nat),
        forall|i: int| 0 <= i < idx@.len() ==> #[trigger] idx@[i] < len,
        idx@.len() <= at_least_one(max as nat),
        len > 0 ==> idx@.len() >= 1,
        len <= at_least_one(max as nat) ==> idx@.len() == len,
{
    proof {
        lemma_decimation_within_budget(len as nat, max as nat);
    }
    let step = decimation_stride(len, max);
    let mut idx: Vec<usize> = Vec::new();
    let mut k: usize = 0;
    while k < len
        invariant
            step == decimation_step(len as nat, max as nat),
            step >= 1,
            k == idx@.len() * step,
            k <= len || idx@.len() * step - step < len,
            forall|i: int| 0 <= i < idx@.len() ==> #[trigger] idx@[i] == i * step,
            forall|i: int| 0 <= i < idx@.len() ==> #[trigger] idx@[i] < len,
            idx@.len() == 0 || (idx@.len() - 1) * step < len,
        decreases len - k,
    {
        idx.push(k);
        assert((idx@.len() - 1) * step == k) by (nonlinear_arith)
            requires
                k == (idx@.len() - 1) * step,
        ;
        if len - k <= step {
            proof {
                lemma_count_from_last(len as nat, step as nat, idx@.len() as nat);
                lemma_decimation_within_budget(len as nat, max as nat);
            }
            return idx;
        }
        k = k + step;
        assert(k == idx@.len() * step) by (nonlinear_arith)
            requires
                k == (idx@.len() - 1) * step + step,
        ;
    }
    proof {
        lemma_count_exact(len as nat, step as nat, idx@.len() as nat);
    }
    idx
}

proof fn lemma_count_from_last(len: nat, step: nat, n: nat)
    requires
        step >= 1,
        n >= 1,
        (n - 1) * step < len,
        len - (n - 1) * step <= step,
    ensures
        n == (len + step - 1) / step as int,
{
    assert(n * step >= len) by (nonlinear_arith)
        requires
            len - (n - 1) * step <= step,
    ;
    lemma_count_exact(len, step, n);
}

proof fn lemma_count_exact(len: nat, step: nat, n: nat)
    requires
        step >= 1,
        n * step >= len,
        n == 0 || (n - 1) * step < len,
    ensures
        n == (len + step - 1) / step as int,
{
    let q = (len + step - 1) / step as int;
    assert(q * step <= len + step - 1 < (q + 1) * step) by (nonlinear_arith)
        requires
            step >= 1,
            q == (len + step - 1) / step as int,
    ;
    if n == 0 {
        assert(len == 0);
        assert(q == 0) by (nonlinear_arith)
            requires
                step >= 1,
                q * step <= step - 1,
                q >= 0,
        ;
    } else {
        assert(n * step <= len + step - 1) by (nonlinear_arith)
            requires
                (n - 1) * step < len,
        ;
        assert(n <= q) by (nonlinear_arith)
            requires
                n * step <= len + step - 1,
                (q + 1) * step > len + step - 1,
                step >= 1,
        ;
        assert(q <= n) by (nonlinear_arith)
            requires
                n * step >= len,
                q * step <= len + step - 1,
                step >= 1,
        ;
    }
}

/// The worker's counters: processed scans (wrapping) and the version of the last map.
pub struct WorkerProgress {
    /// Scans processed, modulo 2^32.
    pub processed: u32,
    /// Maps rendered so far.
    pub map_version: u64,
}

/// What to do after a processed scan.
#[derive(Debug, Clone, Copy, PartialEq, Eq, Structural)]
pub struct ScanOutcome {
    /// Render and publish a map now.
    pub render_map: bool,
    /// Log the periodic summary now.
    pub log_summary: bool,
}

impl WorkerProgress {
    /// Nothing processed, no map yet.
    pub fn new() -> (p: WorkerProgress)
        ensures
            p.processed == 0,
            p.map_version == 0,
    {
        WorkerProgress { processed: 0, map_version: 0 }
    }

    /// Counts one processed scan: every `max(map_every_scans, 1)`-th one renders a map, and
    /// every thirtieth map is followed by a summary in the log.
    pub fn after_scan(&mut self, tuning: WorkerTuning) -> (o: ScanOutcome)
        requires
            old(self).map_version < u64::MAX,
        ensures
            final(self).processed == (old(self).processed + 1) % 0x1_0000_0000,
            o.render_map == ((final(self).processed as nat) % at_least_one(tuning.map_every_scans as nat)
                == 0),
            final(self).map_version == old(self).map_version + if o.render_map {
                1int
            } else {
                0int
            },
            o.log_summary == (o.render_map && final(self).map_version % 30 == 0),
    {
        self.processed = self.processed.wrapping_add(1);
        let every = if tuning.map_every_scans == 0 {
            1
        } else {
            tuning.map_every_scans
        };
        if self.processed % every == 0 {
            self.map_version = self.map_version + 1;
            ScanOutcome { render_map: true, log_summary: self.map_version % 30 == 0 }
        } else {
            ScanOutcome { render_map: false, log_summary: false }
        }
    }
}

/// Every `N`-th processed scan renders a map, so as long as the scan counter has not wrapped
/// the map version is the number of processed scans divided by `N`: one more scan keeps
/// `map_version == processed / N`.
pub proof fn lemma_map_version_follows_scans(processed: nat, map_version: nat, every: nat)
    requires
        map_version == processed / at_least_one(every),
    ensures
        map_version + (if (processed + 1) % at_least_one(every) == 0 {
            1int
        } else {
            0int
        }) == (processed + 1) / at_least_one(every),
{
    let k = at_least_one(every);
    let q = processed / k;
    let r = processed % k;
    assert(processed == q * k + r && 0 <= r < k) by (nonlinear_arith)
        requires
            k >= 1,
            q == processed / k,
            r == processed % k,
    ;
    if r + 1 == k {
        assert(processed + 1 == (q + 1) * k) by (nonlinear_arith)
            requires
                processed == q * k + r,
                r + 1 == k,
        ;
        assert((processed + 1) % k == 0 && (processed + 1) / k == q + 1) by (nonlinear_arith)
            requires
                processed + 1 == (q + 1) * k,
                k >= 1,
        ;
    } else {
        assert((processed + 1) % k == r + 1 && (processed + 1) / k == q) by (nonlinear_arith)
            requires
                processed + 1 == q * k + (r + 1),
                0 <= r + 1 < k,
        ;
    }
}

/// At most `max` points go to the dashboard (one when `max` is zero), at least one when the
/// scan has any point, and all of them when the scan has no more than `max`.
pub proof fn lemma_decimation_within_budget(len: nat, max: nat)
    ensures
        decimated_count(len, max) <= at_least_one(max),
        len > 0 ==> decimated_count(len, max) >= 1,
        len <= at_least_one(max) ==> decimated_count(len, max) == len,
{
    let m = at_least_one(max);
    let c = (len + m - 1) / m as int;
    let step = decimation_step(len, max);
    let n = decimated_count(len, max);
    assert(c * m >= len && c >= 0) by (nonlinear_arith)
        requires
            m >= 1,
            c == (len + m - 1) / m as int,
            len >= 0,
    ;
    assert(step * m >= len) by (nonlinear_arith)
        requires
            step == (if c == 0 {
                1
            } else {
                c
            }),
            c * m >= len,
            c >= 0,
            m >= 1,
    ;
    lemma_count_bounds(len, step);
    assert(n <= m) by (nonlinear_arith)
        requires
            n == 0 || (n - 1) * step < len,
            step * m >= len,
            step >= 1,
            m >= 1,
    ;
    if len <= m {
        assert(c <= 1) by (nonlinear_arith)
            requires
                m >= 1,
                c == (len + m - 1) / m as int,
                len <= m,
        ;
        assert(step == 1);
        assert(n == len) by (nonlinear_arith)
            requires
                n * step >= len,
                n == 0 || (n - 1) * step < len,
                step == 1,
        ;
    }
}

/// The kept count `⌈len / step⌉` is the least `n` with `n · step >= len`.
proof fn lemma_count_bounds(len: nat, step: nat)
    requires
        step >= 1,
    ensures
        ((len + step - 1) / step as int) * step >= len,
        (len + step - 1) / step as int >= 0,
        (len + step - 1) / step as int == 0 || ((len + step - 1) / step as int - 1) * step < len,
        len > 0 ==> (len + step - 1) / step as int >= 1,
{
    let c = (len + step - 1) / step as int;
    assert(c * step <= len + step - 1 < (c + 1) * step) by (nonlinear_arith)
        requires
            step >= 1,
            c == (len + step - 1) / step as int,
    ;
    assert(c >= 0) by (nonlinear_arith)
        requires
            step >= 1,
            c == (len + step - 1) / step as int,
            len >= 0,
    ;
    assert(c * step >= len) by (nonlinear_arith)
        requires
            (c + 1) * step > len + step - 1,
    ;
    assert(c == 0 || (c - 1) * step < len) by (nonlinear_arith)
        requires
            c * step <= len + step - 1,
    ;
    assert(c == 0 ==> c * step == 0) by (nonlinear_arith);
}

} // verus!
