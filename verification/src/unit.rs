//! Fixed-point market units shared by every engine: timestamps in Unix
//! milliseconds, prices as signed fixed-point units, quantities as unsigned
//! fixed-point units, and the aggressor-tagged trade print.
use vstd::prelude::*;

use crate::sort::Timed;

verus! {

/// Number of fixed-point units in one whole price or quantity unit.
pub const UNIT_SCALE: u64 = 100_000_000;

/// `x` saturated into the `u64` range.
pub open spec fn clamp_u64(x: int) -> u64 {
    if x < 0 {
        0
    } else if x > u64::MAX {
        u64::MAX
    } else {
        x as u64
    }
}

/// `x` saturated into the `i64` range.
pub open spec fn clamp_i64(x: int) -> i64 {
    if x < i64::MIN {
        i64::MIN
    } else if x > i64::MAX {
        i64::MAX
    } else {
        x as i64
    }
}

/// Saturating `a + b` on `u64`.
pub fn sat_add_u64(a: u64, b: u64) -> (r: u64)
    ensures
        r == clamp_u64(a + b),
{
    if a > u64::MAX - b {
        u64::MAX
    } else {
        a + b
    }
}

/// Saturating `a - b` on `u64`.
pub fn sat_sub_u64(a: u64, b: u64) -> (r: u64)
    ensures
        r == clamp_u64(a - b),
{
    if a < b {
        0
    } else {
        a - b
    }
}

/// Saturating `a + b` on `i64`.
pub fn sat_add_i64(a: i64, b: i64) -> (r: i64)
    ensures
        r == clamp_i64(a + b),
{
    let s: i128 = a as i128 + b as i128;
    if s > i64::MAX as i128 {
        i64::MAX
    } else if s < i64::MIN as i128 {
        i64::MIN
    } else {
        s as i64
    }
}

/// Saturating `a - b` on `i64`.
pub fn sat_sub_i64(a: i64, b: i64) -> (r: i64)
    ensures
        r == clamp_i64(a - b),
{
    let s: i128 = a as i128 - b as i128;
    if s > i64::MAX as i128 {
        i64::MAX
    } else if s < i64::MIN as i128 {
        i64::MIN
    } else {
        s as i64
    }
}

/// Milliseconds since the Unix epoch.
#[derive(Debug, Clone, Copy, PartialEq, Eq, Structural, Hash, PartialOrd, Ord)]
pub struct UnixMs {
    pub ms: u64,
}

impl UnixMs {
    pub fn new(ms: u64) -> (r: Self)
        ensures
            r.ms == ms,
    {
        UnixMs { ms }
    }

    pub fn zero() -> (r: Self)
        ensures
            r.ms == 0,
    {
        UnixMs { ms: 0 }
    }

    pub fn as_u64(self) -> (r: u64)
        ensures
            r == self.ms,
    {
        self.ms
    }

    /// `self - ms`, saturating at the epoch.
    pub fn saturating_sub_ms(self, ms: u64) -> (r: Self)
        ensures
            r.ms == clamp_u64(self.ms - ms),
    {
        UnixMs { ms: sat_sub_u64(self.ms, ms) }
    }

    /// `self + ms`, saturating at `u64::MAX`.
    pub fn saturating_add_ms(self, ms: u64) -> (r: Self)
        ensures
            r.ms == clamp_u64(self.ms + ms),
    {
        UnixMs { ms: sat_add_u64(self.ms, ms) }
    }

    /// `self + delta` for a signed delta, saturating at both ends of `u64`.
    pub fn saturating_add_signed(self, delta: i64) -> (r: Self)
        ensures
            r.ms == clamp_u64(self.ms + delta),
    {
        let s: i128 = self.ms as i128 + delta as i128;
        if s < 0 {
            UnixMs { ms: 0 }
        } else if s > u64::MAX as i128 {
            UnixMs { ms: u64::MAX }
        } else {
            UnixMs { ms: s as u64 }
        }
    }

    /// The later of the two timestamps.
    pub fn later(self, other: Self) -> (r: Self)
        ensures
            r.ms == if self.ms >= other.ms { self.ms } else { other.ms },
    {
        if self.ms >= other.ms {
            self
        } else {
            other
        }
    }
}

/// A price as signed fixed-point units (`UNIT_SCALE` units per whole price).
#[derive(Debug, Clone, Copy, PartialEq, Eq, Structural, Hash, PartialOrd, Ord)]
pub struct Price {
    pub units: i64,
}

impl Price {
    pub fn from_units(units: i64) -> (r: Self)
        ensures
            r.units == units,
    {
        Price { units }
    }
}

/// A tick size as fixed-point price units.
#[derive(Debug, Clone, Copy, PartialEq, Eq, Structural, Hash)]
pub struct PriceStep {
    pub units: i64,
}

/// A quantity as unsigned fixed-point units (`UNIT_SCALE` units per lot).
#[derive(Debug, Clone, Copy, PartialEq, Eq, Structural, Hash, PartialOrd, Ord)]
pub struct Qty {
    pub units: u64,
}

impl Qty {
    pub fn from_units(units: u64) -> (r: Self)
        ensures
            r.units == units,
    {
        Qty { units }
    }

    pub fn zero() -> (r: Self)
        ensures
            r.units == 0,
    {
        Qty { units: 0 }
    }

    pub fn is_zero(self) -> (r: bool)
        ensures
            r == (self.units == 0),
    {
        self.units == 0
    }

    /// The smaller of the two quantities.
    pub fn min_qty(self, other: Self) -> (r: Self)
        ensures
            r.units == if self.units <= other.units { self.units } else { other.units },
    {
        if self.units <= other.units {
            self
        } else {
            other
        }
    }

    /// The larger of the two quantities.
    pub fn max_qty(self, other: Self) -> (r: Self)
        ensures
            r.units == if self.units >= other.units { self.units } else { other.units },
    {
        if self.units >= other.units {
            self
        } else {
            other
        }
    }

    /// `|self - other|`.
    pub fn abs_diff(self, other: Self) -> (r: Self)
        ensures
            r.units == if self.units >= other.units {
                self.units - other.units
            } else {
                other.units - self.units
            },
    {
        if self.units >= other.units {
            Qty { units: self.units - other.units }
        } else {
            Qty { units: other.units - self.units }
        }
    }

    pub fn saturating_add(self, other: Self) -> (r: Self)
        ensures
            r.units == clamp_u64(self.units + other.units),
    {
        Qty { units: sat_add_u64(self.units, other.units) }
    }

    pub fn saturating_sub(self, other: Self) -> (r: Self)
        ensures
            r.units == clamp_u64(self.units - other.units),
    {
        Qty { units: sat_sub_u64(self.units, other.units) }
    }
}

/// A trade print with its aggressor side (`is_sell` means an aggressive
/// seller hit the bid).
#[derive(Debug, Clone, Copy, PartialEq, Eq, Structural)]
pub struct Trade {
    pub time: UnixMs,
    pub is_sell: bool,
    pub price: Price,
    pub qty: Qty,
}

/// Copy a slice of trades into a vector.
pub fn trades_to_vec(trades: &[Trade]) -> (r: Vec<Trade>)
    ensures
        r@ == trades@,
{
    let mut out: Vec<Trade> = Vec::new();
    let mut i: usize = 0;
    while i < trades.len()
        invariant
            i <= trades@.len(),
            out@ == trades@.take(i as int),
        decreases trades@.len() - i,
    {
        out.push(trades[i]);
        i = i + 1;
        proof {
            assert(out@ == trades@.take(i as int));
        }
    }
    proof {
        assert(trades@.take(i as int) == trades@);
    }
    out
}

impl Timed for Trade {
    open spec fn spec_time(&self) -> u64 {
        self.time.ms
    }

    fn time_ms(&self) -> (r: u64) {
        self.time.ms
    }
}

} // verus!
