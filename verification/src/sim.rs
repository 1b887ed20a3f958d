//! The simulator's integer side: its tiny deterministic pseudo-random generator (a 64-bit
//! LCG) and the cadence of its frames and telemetry.

use vstd::prelude::*;

verus! {

/// One step of the generator: `s × 6364136223846793005 + 1442695040888963407` modulo 2^64.
pub open spec fn lcg_step(s: u64) -> u64 {
    ((s as nat * 6364136223846793005nat + 1442695040888963407nat) % 0x1_0000_0000_0000_0000nat) as u64
}

/// A linear congruential generator; its draws are the top 53 bits of the state.
#[derive(Debug, Clone, Copy, PartialEq, Eq, Structural)]
pub struct Lcg {
    /// Current state.
    pub state: u64,
}

impl Lcg {
    /// A generator starting from `seed`.
    pub fn new(seed: u64) -> (g: Lcg)
        ensures
            g.state == seed,
    {
        Lcg { state: seed }
    }

    /// Advances the state and returns its top 53 bits (a uniform draw from `0..2^53`).
    pub fn next_bits(&mut self) -> (b: u64)
        ensures
            final(self).state == lcg_step(old(self).state),
            b == final(self).state / 2048,
            b < 0x20_0000_0000_0000,
    {
        let s = self.state;
        let m = s.wrapping_mul(6_364_136_223_846_793_005);
        let next = m.wrapping_add(1_442_695_040_888_963_407);
        proof {
            let big: nat = 0x1_0000_0000_0000_0000nat;
            let p: nat = s as nat * 6364136223846793005nat;
            assert(m == p % big);
            vstd::arithmetic::div_mod::lemma_add_mod_noop(p as int, 1442695040888963407int, big as int);
            assert(1442695040888963407int % (big as int) == 1442695040888963407int);
            assert((m as int + 1442695040888963407int) % (big as int) == (p as int + 1442695040888963407int) % (big as int));
            if m as int + 1442695040888963407int >= big as int {
                assert(next == m as int + 1442695040888963407int - big as int);
            } else {
                assert(next == m as int + 1442695040888963407int);
            }
        }
        self.state = next;
        let b = next >> 11;
        assert(next >> 11 == next / 2048) by (bit_vector);
        b
    }
}

/// The simulator's frame counters: the next frame's sequence number and time stamp, both
/// wrapping at 2^32.
#[derive(Debug, Clone, Copy, PartialEq, Eq, Structural)]
pub struct FrameClock {
    /// Sequence number of the next frame.
    pub seq: u32,
    /// Milliseconds since start of the next frame.
    pub t_ms: u32,
}

/// What follows a sent frame.
#[derive(Debug, Clone, Copy, PartialEq, Eq, Structural)]
pub struct FrameTick {
    /// A telemetry sample is due now.
    pub telemetry_due: bool,
    /// Whole seconds since start, as the telemetry reports them.
    pub uptime_s: u32,
}

impl FrameClock {
    /// The first frame: sequence number 0 at 0 ms.
    pub fn new() -> (c: FrameClock)
        ensures
            c.seq == 0,
            c.t_ms == 0,
    {
        FrameClock { seq: 0, t_ms: 0 }
    }

    /// Moves past a sent frame `dt_ms` long: the sequence number and the time advance
    /// (wrapping), and telemetry follows every `scans_per_second`-th frame.
    pub fn advance(&mut self, dt_ms: u32, scans_per_second: u32) -> (t: FrameTick)
        requires
            scans_per_second > 0,
        ensures
            final(self).seq == (old(self).seq + 1) % 0x1_0000_0000,
            final(self).t_ms == (old(self).t_ms + dt_ms) % 0x1_0000_0000,
            t.telemetry_due == (final(self).seq % scans_per_second == 0),
            t.uptime_s == final(self).t_ms / 1000,
    {
        self.seq = self.seq.wrapping_add(1);
        self.t_ms = self.t_ms.wrapping_add(dt_ms);
        FrameTick { telemetry_due: self.seq % scans_per_second == 0, uptime_s: self.t_ms / 1000 }
    }
}

} // verus!
