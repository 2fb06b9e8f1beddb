//! Closed fixed-point ranges, used to bound valid hit parameters and to
//! clamp colour channels.

use vstd::prelude::*;
use crate::fixed::{spec_clamp, fx_clamp, spec_sub, fx_sub};

verus! {

/// A closed range of fixed-point scalars. The empty interval is
/// represented by the extreme `i64` bounds in reverse — the stand-ins for
/// the infinities of an unbounded scalar type — so that it contains
/// nothing; the universe holds them in order and contains everything.
#[derive(Clone, Copy, PartialEq, Eq, Structural)]
pub struct Interval {
    min: i64,
    max: i64,
}

impl Interval {
    /// The model: the pair of bounds.
    pub closed spec fn spec_min(&self) -> int {
        self.min as int
    }

    /// The model: the pair of bounds.
    pub closed spec fn spec_max(&self) -> int {
        self.max as int
    }

    /// The default interval is empty.
    pub fn default() -> (r: Self)
        ensures
            r.spec_min() == i64::MAX && r.spec_max() == i64::MIN,
    {
        Interval { min: i64::MAX, max: i64::MIN }
    }

    pub fn new(min: i64, max: i64) -> (r: Self)
        ensures
            r.spec_min() == min && r.spec_max() == max,
    {
        Interval { min, max }
    }

    /// The empty interval: reversed extreme bounds, containing no scalar.
    pub fn empty() -> (r: Self)
        ensures
            r.spec_min() == i64::MAX && r.spec_max() == i64::MIN,
    {
        Self::default()
    }

    /// The interval containing every scalar.
    pub fn universe() -> (r: Self)
        ensures
            r.spec_min() == i64::MIN && r.spec_max() == i64::MAX,
    {
        Interval { min: i64::MIN, max: i64::MAX }
    }

    pub fn min(&self) -> (r: i64)
        ensures
            r == self.spec_min(),
    {
        self.min
    }

    pub fn max(&self) -> (r: i64)
        ensures
            r == self.spec_max(),
    {
        self.max
    }

    /// The width of the interval, saturating; negative for an empty one.
    pub fn size(&self) -> (r: i64)
        ensures
            r == spec_sub(self.spec_max(), self.spec_min()),
    {
        fx_sub(self.max, self.min)
    }

    /// Inclusive containment.
    pub fn contains(&self, x: i64) -> (r: bool)
        ensures
            r == (self.spec_min() <= x <= self.spec_max()),
    {
        self.min <= x && x <= self.max
    }

    /// Exclusive containment: `x` strictly inside the bounds. Hit searches
    /// use this so that a parameter sitting exactly on a bound — the
    /// surface just left — is not accepted again.
    pub fn surrounds(&self, x: i64) -> (r: bool)
        ensures
            r == (self.spec_min() < x < self.spec_max()),
    {
        self.min < x && x < self.max
    }

    /// Clamping into the interval.
    pub fn clamp(&self, x: i64) -> (r: i64)
        requires
            self.spec_min() <= self.spec_max(),
        ensures
            r == spec_clamp(x as int, self.spec_min(), self.spec_max()),
    {
        fx_clamp(x, self.min, self.max)
    }
}

} // verus!
