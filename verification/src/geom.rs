//! Fixed-precision geometry for page layout.
//!
//! All positions and sizes are measured in an integer sub-point unit
//! (one thousandth of a typographic point), so that repeated additions
//! during flow layout accumulate no rounding error.  Because the unit is
//! an integer, "fits in the remaining space" comparisons are exact: the
//! epsilon of the fit test is zero, the test is monotone in the available
//! space, and fragmentation decisions near a page boundary cannot
//! oscillate.  Arithmetic on lengths saturates at `u64::MAX`, a length far
//! beyond any realizable page.

use vstd::prelude::*;

verus! {

/// One typographic point, in layout units.
pub const UNITS_PER_POINT: u64 = 1000;

/// Saturating sum of two lengths.
pub open spec fn spec_sat_add(a: u64, b: u64) -> u64 {
    if a + b > u64::MAX {
        u64::MAX
    } else {
        (a + b) as u64
    }
}

/// Saturating difference of two lengths (zero when `b` exceeds `a`).
pub open spec fn spec_sat_sub(a: u64, b: u64) -> u64 {
    if a >= b {
        (a - b) as u64
    } else {
        0
    }
}

/// Saturating product of a count and a length.
pub open spec fn spec_sat_mul(a: nat, b: u64) -> u64 {
    if a * b > u64::MAX {
        u64::MAX
    } else {
        (a * b) as u64
    }
}

/// Saturating sum of two lengths.
pub fn sat_add(a: u64, b: u64) -> (r: u64)
    ensures
        r == spec_sat_add(a, b),
{
    if a <= u64::MAX - b {
        a + b
    } else {
        u64::MAX
    }
}

/// Saturating difference of two lengths.
pub fn sat_sub(a: u64, b: u64) -> (r: u64)
    ensures
        r == spec_sat_sub(a, b),
{
    if a >= b {
        a - b
    } else {
        0
    }
}

/// Saturating product of a count and a length.
pub fn sat_mul(a: usize, b: u64) -> (r: u64)
    ensures
        r == spec_sat_mul(a as nat, b),
{
    proof {
        assert((a as int) * (b as int) <= (u64::MAX as int) * (u64::MAX as int)) by (nonlinear_arith)
            requires
                0 <= a as int <= u64::MAX as int,
                0 <= b as int <= u64::MAX as int,
        ;
    }
    let wide: u128 = (a as u128) * (b as u128);
    if wide > u64::MAX as u128 {
        u64::MAX
    } else {
        wide as u64
    }
}

/// The fixed page geometry a document is typeset under: the outer page
/// size and a uniform margin on all four sides.
#[derive(Clone, Copy, PartialEq, Eq, Structural, Debug)]
pub struct PageSpec {
    /// Outer page width, in layout units.
    pub width: u64,
    /// Outer page height, in layout units.
    pub height: u64,
    /// Margin reserved on each of the four sides, in layout units.
    pub margin: u64,
}

impl PageSpec {
    /// A page is usable when the margins leave a positive inner area.
    pub open spec fn wf(self) -> bool {
        &&& 2 * self.margin < self.width
        &&& 2 * self.margin < self.height
    }

    /// Width left for content between the margins.
    pub open spec fn spec_inner_width(self) -> u64 {
        spec_sat_sub(self.width, spec_sat_add(self.margin, self.margin))
    }

    /// Height left for content between the margins.
    pub open spec fn spec_inner_height(self) -> u64 {
        spec_sat_sub(self.height, spec_sat_add(self.margin, self.margin))
    }

    /// Width left for content between the margins.
    pub fn inner_width(&self) -> (r: u64)
        ensures
            r == self.spec_inner_width(),
    {
        sat_sub(self.width, sat_add(self.margin, self.margin))
    }

    /// Height left for content between the margins.
    pub fn inner_height(&self) -> (r: u64)
        ensures
            r == self.spec_inner_height(),
    {
        sat_sub(self.height, sat_add(self.margin, self.margin))
    }
}

/// The default page: an A4 sheet with a one-inch margin.
pub fn default_page() -> (r: PageSpec)
    ensures
        r == spec_default_page(),
        r.wf(),
{
    PageSpec {
        width: 595 * UNITS_PER_POINT,
        height: 842 * UNITS_PER_POINT,
        margin: 72 * UNITS_PER_POINT,
    }
}

/// The default page: an A4 sheet with a one-inch margin.
pub open spec fn spec_default_page() -> PageSpec {
    PageSpec {
        width: (595 * UNITS_PER_POINT) as u64,
        height: (842 * UNITS_PER_POINT) as u64,
        margin: (72 * UNITS_PER_POINT) as u64,
    }
}

} // verus!
