//! Tolerance windows: acceptance intervals in sampler ticks for the nominal
//! symbol durations of a protocol.

use vstd::prelude::*;
use vstd::arithmetic::mul::lemma_mul_upper_bound;
use vstd::arithmetic::div_mod::lemma_div_is_ordered;

verus! {

/// One closed acceptance window `[lo, hi]`, in sampler ticks.
#[derive(Debug, Clone, Copy, PartialEq, Eq, Structural)]
pub struct InfraRange {
    pub lo: u64,
    pub hi: u64,
}

/// Ticks corresponding to `us` microseconds at `hz` samples per second,
/// rounded down.
pub open spec fn spec_ticks(us: u32, hz: u32) -> int {
    (us * hz) / 1_000_000
}

/// Lower bound of the window for a symbol of nominal duration `us` at
/// tolerance `tol` percent.
pub open spec fn spec_window_lo(us: u32, tol: u32, hz: u32) -> int {
    spec_ticks(us, hz) * (100 - tol) / 100
}

/// Upper bound of the window for a symbol of nominal duration `us` at
/// tolerance `tol` percent.
pub open spec fn spec_window_hi(us: u32, tol: u32, hz: u32) -> int {
    spec_ticks(us, hz) * (100 + tol) / 100
}

pub open spec fn spec_window(us: u32, tol: u32, hz: u32) -> InfraRange {
    InfraRange {
        lo: spec_window_lo(us, tol, hz) as u64,
        hi: spec_window_hi(us, tol, hz) as u64,
    }
}

/// `v` lies inside the closed window `r`.
pub open spec fn in_range(r: InfraRange, v: int) -> bool {
    r.lo <= v && v <= r.hi
}

impl InfraRange {
    /// The acceptance window for one symbol: nominal duration `us`
    /// microseconds, tolerance `tol` percent, sampler frequency `hz`.
    pub fn new(us: u32, tol: u32, hz: u32) -> (r: InfraRange)
        requires
            tol <= 100,
        ensures
            r == spec_window(us, tol, hz),
            r.lo as int == spec_window_lo(us, tol, hz),
            r.hi as int == spec_window_hi(us, tol, hz),
    {
        proof {
            lemma_mul_upper_bound(us as int, u32::MAX as int, hz as int, u32::MAX as int);
        }
        let prod: u64 = (us as u64) * (hz as u64);
        let ticks: u64 = prod / 1_000_000;
        proof {
            lemma_div_is_ordered(prod as int, u64::MAX as int, 1_000_000);
            assert(ticks <= 18_446_744_073_709u64);
            lemma_mul_upper_bound(ticks as int, 18_446_744_073_709, (100 + tol) as int, 200);
            lemma_mul_upper_bound(ticks as int, 18_446_744_073_709, (100 - tol) as int, 200);
        }
        let lo: u64 = ticks * (100 - tol as u64) / 100;
        let hi: u64 = ticks * (100 + tol as u64) / 100;
        InfraRange { lo, hi }
    }
}

/// An ordered set of four acceptance windows, indexed by symbol identifier.
#[derive(Debug, Clone, Copy, PartialEq, Eq, Structural)]
pub struct InfraRange4 {
    pub r0: InfraRange,
    pub r1: InfraRange,
    pub r2: InfraRange,
    pub r3: InfraRange,
}

impl InfraRange4 {
    /// Every window is non-empty: construction rejects a sampler rate that
    /// collapses a window to a single point.
    pub open spec fn wf(self) -> bool {
        &&& self.r0.lo < self.r0.hi
        &&& self.r1.lo < self.r1.hi
        &&& self.r2.lo < self.r2.hi
        &&& self.r3.lo < self.r3.hi
    }

    /// The windows this table holds for the given tolerances and sampler
    /// frequency.
    pub open spec fn spec_new(tols: Seq<(u32, u32)>, hz: u32) -> InfraRange4 {
        InfraRange4 {
            r0: spec_window(tols[0].0, tols[0].1, hz),
            r1: spec_window(tols[1].0, tols[1].1, hz),
            r2: spec_window(tols[2].0, tols[2].1, hz),
            r3: spec_window(tols[3].0, tols[3].1, hz),
        }
    }

    /// The index of the first window containing `v`, if any.
    pub open spec fn spec_find(self, v: int) -> Option<usize> {
        if in_range(self.r0, v) {
            Some(0usize)
        } else if in_range(self.r1, v) {
            Some(1usize)
        } else if in_range(self.r2, v) {
            Some(2usize)
        } else if in_range(self.r3, v) {
            Some(3usize)
        } else {
            None
        }
    }

    /// Builds the table of four windows, one per `(nominal_us, tol_percent)`
    /// pair, at sampler frequency `hz`.  Fails when any resulting window has
    /// zero width.
    pub fn new(tols: &[(u32, u32); 4], hz: u32) -> (r: Option<InfraRange4>)
        requires
            forall|i: int| 0 <= i < 4 ==> #[trigger] tols@[i].1 <= 100,
        ensures
            ({
                let c = Self::spec_new(tols@, hz);
                if c.wf() {
                    r == Some(c)
                } else {
                    r == None::<InfraRange4>
                }
            }),
    {
        let c = InfraRange4 {
            r0: InfraRange::new(tols[0].0, tols[0].1, hz),
            r1: InfraRange::new(tols[1].0, tols[1].1, hz),
            r2: InfraRange::new(tols[2].0, tols[2].1, hz),
            r3: InfraRange::new(tols[3].0, tols[3].1, hz),
        };
        if c.r0.lo < c.r0.hi && c.r1.lo < c.r1.hi && c.r2.lo < c.r2.hi && c.r3.lo < c.r3.hi {
            Some(c)
        } else {
            None
        }
    }

    /// The index of the first window containing `v`: an ordered linear scan,
    /// as the windows may overlap and the earlier symbol takes precedence.
    pub fn find(&self, v: u64) -> (r: Option<usize>)
        ensures
            r == self.spec_find(v as int),
    {
        if self.r0.lo <= v && v <= self.r0.hi {
            Some(0)
        } else if self.r1.lo <= v && v <= self.r1.hi {
            Some(1)
        } else if self.r2.lo <= v && v <= self.r2.hi {
            Some(2)
        } else if self.r3.lo <= v && v <= self.r3.hi {
            Some(3)
        } else {
            None
        }
    }
}

/// An ordered set of two acceptance windows, for bi-phase protocols that
/// distinguish one and two half-bit periods.
#[derive(Debug, Clone, Copy, PartialEq, Eq, Structural)]
pub struct InfraRange2 {
    pub r0: InfraRange,
    pub r1: InfraRange,
}

impl InfraRange2 {
    /// Every window is non-empty.
    pub open spec fn wf(self) -> bool {
        &&& self.r0.lo < self.r0.hi
        &&& self.r1.lo < self.r1.hi
    }

    pub open spec fn spec_new(tols: Seq<(u32, u32)>, hz: u32) -> InfraRange2 {
        InfraRange2 {
            r0: spec_window(tols[0].0, tols[0].1, hz),
            r1: spec_window(tols[1].0, tols[1].1, hz),
        }
    }

    pub open spec fn spec_find(self, v: int) -> Option<usize> {
        if in_range(self.r0, v) {
            Some(0usize)
        } else if in_range(self.r1, v) {
            Some(1usize)
        } else {
            None
        }
    }

    /// Builds the table of two windows.  Fails when any resulting window has
    /// zero width.
    pub fn new(tols: &[(u32, u32); 2], hz: u32) -> (r: Option<InfraRange2>)
        requires
            forall|i: int| 0 <= i < 2 ==> #[trigger] tols@[i].1 <= 100,
        ensures
            ({
                let c = Self::spec_new(tols@, hz);
                if c.wf() {
                    r == Some(c)
                } else {
                    r == None::<InfraRange2>
                }
            }),
    {
        let c = InfraRange2 {
            r0: InfraRange::new(tols[0].0, tols[0].1, hz),
            r1: InfraRange::new(tols[1].0, tols[1].1, hz),
        };
        if c.r0.lo < c.r0.hi && c.r1.lo < c.r1.hi {
            Some(c)
        } else {
            None
        }
    }

    pub fn find(&self, v: u64) -> (r: Option<usize>)
        ensures
            r == self.spec_find(v as int),
    {
        if self.r0.lo <= v && v <= self.r0.hi {
            Some(0)
        } else if self.r1.lo <= v && v <= self.r1.hi {
            Some(1)
        } else {
            None
        }
    }
}

} // verus!
