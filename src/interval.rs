use vstd::prelude::*;

verus! {

/// Nanoseconds in one second.
pub const NANOS_PER_SEC: u32 = 1_000_000_000;

/// A non-negative span of time: whole seconds plus the nanoseconds past them.
#[derive(Clone, Copy, Debug, PartialEq, Eq, Structural)]
pub struct Interval {
    pub secs: u64,
    pub nanos: u32,
}

impl Interval {
    /// The sub-second part is below one second.
    pub open spec fn wf(&self) -> bool {
        self.nanos < NANOS_PER_SEC
    }

    /// The whole span counted in nanoseconds.
    pub open spec fn total_nanos(&self) -> nat {
        self.secs as nat * NANOS_PER_SEC as nat + self.nanos as nat
    }

    /// Builds an interval, carrying whole seconds out of `nanos`.
    pub fn new(secs: u64, nanos: u32) -> (r: Interval)
        requires
            secs + nanos / NANOS_PER_SEC <= u64::MAX,
        ensures
            r.wf(),
            r.secs == secs + nanos / NANOS_PER_SEC,
            r.nanos == nanos % NANOS_PER_SEC,
            r.total_nanos() == secs as nat * NANOS_PER_SEC as nat + nanos as nat,
    {
        let r = Interval { secs: secs + (nanos / NANOS_PER_SEC) as u64, nanos: nanos % NANOS_PER_SEC };
        assert(r.total_nanos() == secs as nat * NANOS_PER_SEC as nat + nanos as nat) by (nonlinear_arith)
            requires
                r.secs == secs + nanos / NANOS_PER_SEC,
                r.nanos == nanos % NANOS_PER_SEC,
        ;
        r
    }
}

} // verus!
