use crate::rng::{uniform_coordinate, uniform_index};
use crate::span::Span;
use rand::rngs::ThreadRng;
use vstd::prelude::*;

verus! {

/// One axis of a state or action space.
///
/// Coordinates on bounded axes are integers, measured in whatever unit of
/// resolution the caller chose for the axis.
pub trait Dimension: Sized {
    type Value;

    /// The axis is well formed (its bounds are ordered, it has a bin).
    spec fn wf(&self) -> bool;

    /// The cardinality of the axis.
    spec fn spec_span(&self) -> Span;

    /// `v` is a value that the axis can take.
    spec fn holds(&self, v: Self::Value) -> bool;

    fn span(&self) -> (r: Span)
        requires
            self.wf(),
        ensures
            r == self.spec_span(),
    ;

    fn sample(&self, rng: &mut ThreadRng) -> (r: Self::Value)
        requires
            self.wf(),
        ensures
            self.holds(r),
    ;
}

/// The integers `0..size`.
#[derive(Clone, Copy, Debug, PartialEq, Eq, Structural)]
pub struct Discrete {
    pub size: usize,
}

impl Discrete {
    pub fn new(size: usize) -> (r: Discrete)
        ensures
            r.size == size,
    {
        Discrete { size }
    }
}

impl Dimension for Discrete {
    type Value = usize;

    open spec fn wf(&self) -> bool {
        self.size > 0
    }

    open spec fn spec_span(&self) -> Span {
        Span::Finite(self.size)
    }

    open spec fn holds(&self, v: usize) -> bool {
        v < self.size
    }

    fn span(&self) -> (r: Span) {
        Span::Finite(self.size)
    }

    fn sample(&self, rng: &mut ThreadRng) -> (r: usize) {
        uniform_index(rng, 0, self.size)
    }
}

/// The interval `[lb, ub)`, not divided into bins.
#[derive(Clone, Copy, Debug, PartialEq, Eq, Structural)]
pub struct Continuous {
    pub lb: i64,
    pub ub: i64,
}

impl Continuous {
    pub fn new(lb: i64, ub: i64) -> (r: Continuous)
        requires
            lb < ub,
        ensures
            r.lb == lb,
            r.ub == ub,
    {
        Continuous { lb, ub }
    }
}

impl Dimension for Continuous {
    type Value = i64;

    open spec fn wf(&self) -> bool {
        self.lb < self.ub
    }

    open spec fn spec_span(&self) -> Span {
        Span::Infinite
    }

    open spec fn holds(&self, v: i64) -> bool {
        self.lb <= v < self.ub
    }

    fn span(&self) -> (r: Span) {
        Span::Infinite
    }

    fn sample(&self, rng: &mut ThreadRng) -> (r: i64) {
        uniform_coordinate(rng, self.lb, self.ub)
    }
}

/// The interval `[lb, ub)` cut into `density` bins of equal width.
#[derive(Clone, Copy, Debug, PartialEq, Eq, Structural)]
pub struct Partitioned {
    pub lb: i64,
    pub ub: i64,
    pub density: usize,
}

/// The bin of `x` on an axis `[lb, ub)` with `density` bins. A value outside
/// the axis falls into the nearest end bin.
pub open spec fn bin_of(lb: int, ub: int, density: int, x: int) -> int {
    let c = if x < lb {
        lb
    } else if x > ub {
        ub
    } else {
        x
    };
    let i = (density * (c - lb)) / (ub - lb);
    if i >= density {
        density - 1
    } else {
        i
    }
}

impl Partitioned {
    pub fn new(lb: i64, ub: i64, density: usize) -> (r: Partitioned)
        requires
            lb < ub,
            density >= 1,
        ensures
            r.lb == lb,
            r.ub == ub,
            r.density == density,
    {
        Partitioned { lb, ub, density }
    }

    /// Divides a continuous axis into `density` bins.
    pub fn from_continuous(d: Continuous, density: usize) -> (r: Partitioned)
        requires
            d.wf(),
            density >= 1,
        ensures
            r.lb == d.lb,
            r.ub == d.ub,
            r.density == density,
    {
        Partitioned { lb: d.lb, ub: d.ub, density }
    }

    /// The number of bins.
    pub fn density(&self) -> (r: usize)
        ensures
            r == self.density,
    {
        self.density
    }

    /// The index of the bin that holds `x`, clamped to the axis.
    pub fn convert(&self, x: i64) -> (r: usize)
        requires
            self.wf(),
        ensures
            r == bin_of(self.lb as int, self.ub as int, self.density as int, x as int),
            r < self.density,
    {
        let c: i64 = if x < self.lb {
            self.lb
        } else if x > self.ub {
            self.ub
        } else {
            x
        };
        let offset: u128 = ((c as i128) - (self.lb as i128)) as u128;
        let range: u128 = ((self.ub as i128) - (self.lb as i128)) as u128;
        let n: u128 = self.density as u128;
        proof {
            assert(offset <= range);
            assert(range < 0x1_0000_0000_0000_0000);
            assert(n * offset <= n * range) by (nonlinear_arith)
                requires
                    offset <= range,
            ;
            assert(n * range < 0x1_0000_0000_0000_0000 * 0x1_0000_0000_0000_0000) by (nonlinear_arith)
                requires
                    n < 0x1_0000_0000_0000_0000,
                    range < 0x1_0000_0000_0000_0000,
            ;
        }
        let i: u128 = (n * offset) / range;
        proof {
            assert(i <= n) by (nonlinear_arith)
                requires
                    i == (n * offset) as int / range as int,
                    offset <= range,
                    range > 0,
            ;
        }
        if i >= n {
            self.density - 1
        } else {
            i as usize
        }
    }
}

impl Dimension for Partitioned {
    type Value = i64;

    open spec fn wf(&self) -> bool {
        self.lb < self.ub && self.density >= 1
    }

    open spec fn spec_span(&self) -> Span {
        Span::Finite(self.density)
    }

    open spec fn holds(&self, v: i64) -> bool {
        self.lb <= v < self.ub
    }

    fn span(&self) -> (r: Span) {
        Span::Finite(self.density)
    }

    fn sample(&self, rng: &mut ThreadRng) -> (r: i64) {
        uniform_coordinate(rng, self.lb, self.ub)
    }
}

} // verus!
