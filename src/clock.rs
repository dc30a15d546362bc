use vstd::prelude::*;

verus! {

/// One simulation tick (1/60 s), counted in sixtieths of a microsecond so
/// that it is a whole number.
pub const TICK: u128 = 1_000_000;

/// How close a measured frame must come to one tick to be taken as exactly
/// one tick: 0.2 ms, in sixtieths of a microsecond.
pub const SNAP_TOLERANCE: u128 = 12_000;

/// The length of the window over which ticks per second are counted, in
/// microseconds.
pub const SECOND_US: u64 = 1_000_000;

/// The fixed-timestep scheduler: whether the one-time initialisation has
/// run, the time not yet spent on ticks, the number of ticks run, and the
/// one-second window of ticks behind the ticks-per-second figure.
#[derive(Clone, Copy, Debug, PartialEq, Eq, Structural)]
pub struct TickClock {
    pub initialized: bool,
    /// Pending time, in sixtieths of a microsecond.
    pub accumulator: u128,
    pub ticks: u128,
    pub window_us: u64,
    pub window_ticks: u64,
    pub ticks_per_second: u64,
}

/// What one rendered frame asks of the caller.
#[derive(Clone, Copy, Debug, PartialEq, Eq, Structural)]
pub struct FramePlan {
    /// Run the one-time initialisation before anything else.
    pub initialize: bool,
    /// Run this many simulation ticks, one after the other.
    pub ticks: u64,
    /// A full one-second window closed with this many ticks in it.
    pub report: Option<u64>,
}

/// A measured frame length in sixtieths of a microsecond, snapped to one tick
/// when within the tolerance of it.
pub open spec fn snapped(elapsed_us: u64) -> int {
    let d = 60 * elapsed_us as int;
    if TICK - SNAP_TOLERANCE < d < TICK + SNAP_TOLERANCE {
        TICK as int
    } else {
        d
    }
}

pub open spec fn min(a: int, b: int) -> int {
    if a < b { a } else { b }
}

/// The clock after a frame of `elapsed_us` microseconds, and what that frame
/// asks for.
pub open spec fn clock_step(s: TickClock, elapsed_us: u64) -> (TickClock, FramePlan) {
    let acc = s.accumulator + snapped(elapsed_us);
    let n = acc / (TICK as int);
    let win_us = min(s.window_us + elapsed_us, u64::MAX as int);
    let win_ticks = min(s.window_ticks + n, u64::MAX as int);
    let closes = win_us >= SECOND_US;
    (
        TickClock {
            initialized: true,
            accumulator: (acc % (TICK as int)) as u128,
            ticks: min(s.ticks + n, u128::MAX as int) as u128,
            window_us: if closes { 0 } else { win_us as u64 },
            window_ticks: if closes { 0 } else { win_ticks as u64 },
            ticks_per_second: if closes { win_ticks as u64 } else { s.ticks_per_second },
        },
        FramePlan {
            initialize: !s.initialized,
            ticks: n as u64,
            report: if closes { Some(win_ticks as u64) } else { None },
        },
    )
}

/// A clock before its first frame.
pub open spec fn fresh_clock() -> TickClock {
    TickClock {
        initialized: false,
        accumulator: 0,
        ticks: 0,
        window_us: 0,
        window_ticks: 0,
        ticks_per_second: 0,
    }
}

/// A frame length in sixtieths of a microsecond, snapped to one tick when
/// within the tolerance of it.
pub fn snap(elapsed_us: u64) -> (r: u128)
    ensures
        r == snapped(elapsed_us),
{
    let d: u128 = 60 * (elapsed_us as u128);
    if TICK - SNAP_TOLERANCE < d && d < TICK + SNAP_TOLERANCE {
        TICK
    } else {
        d
    }
}

impl TickClock {
    /// Pending time is always less than one tick.
    pub open spec fn wf(&self) -> bool {
        self.accumulator < TICK
    }

    pub fn new() -> (r: TickClock)
        ensures
            r == fresh_clock(),
            r.wf(),
    {
        TickClock {
            initialized: false,
            accumulator: 0,
            ticks: 0,
            window_us: 0,
            window_ticks: 0,
            ticks_per_second: 0,
        }
    }

    /// Accounts for one frame that took `elapsed_us` microseconds of wall
    /// clock time, and says how many fixed ticks to run for it.
    pub fn frame(&mut self, elapsed_us: u64) -> (r: FramePlan)
        requires
            old(self).wf(),
        ensures
            final(self).wf(),
            (*final(self), r) == clock_step(*old(self), elapsed_us),
            old(self).accumulator + snapped(elapsed_us) == r.ticks * TICK + final(self).accumulator,
    {
        let initialize = !self.initialized;
        self.initialized = true;
        let acc: u128 = self.accumulator + snap(elapsed_us);
        let n: u128 = acc / TICK;
        proof {
            assert(acc < TICK + 60 * 0x1_0000_0000_0000_0000);
            assert(n * TICK <= acc) by (nonlinear_arith)
                requires n == acc / TICK, TICK > 0;
            assert(n < 0x1_0000_0000_0000_0000) by (nonlinear_arith)
                requires n * TICK <= acc, acc < TICK + 60 * 0x1_0000_0000_0000_0000, TICK == 1_000_000;
        }
        self.accumulator = acc % TICK;
        let nt: u64 = n as u64;
        self.ticks = self.ticks.saturating_add(n);
        let win_us = self.window_us.saturating_add(elapsed_us);
        let win_ticks = self.window_ticks.saturating_add(nt);
        let report = if win_us >= SECOND_US {
            self.window_us = 0;
            self.window_ticks = 0;
            self.ticks_per_second = win_ticks;
            Some(win_ticks)
        } else {
            self.window_us = win_us;
            self.window_ticks = win_ticks;
            None
        };
        FramePlan { initialize, ticks: nt, report }
    }
}

} // verus!
