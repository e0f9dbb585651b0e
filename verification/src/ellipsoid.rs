//! Reference ellipsoids and the test for two of them being the same.
use vstd::prelude::*;
use vstd::arithmetic::power2::{lemma_pow2_unfold, pow2};
use crate::binary64::{gap, gap_at_most, magnitude_of, Binary64};

verus! {

/// An ellipsoid of revolution: the semi-major axis in metres, and the
/// flattening.
#[derive(Clone, Copy, Debug, PartialEq, Eq, Structural)]
pub struct Ellipsoid {
    pub semi_major_axis: Binary64,
    pub flattening: Binary64,
}

/// The bits of 6378137 (metres), the semi-major axis of WGS 84.
pub const WGS84_SEMI_MAJOR_AXIS: u64 = 0x4158_54A6_4000_0000;

/// The bits of 1 / 298.257223563, the flattening of WGS 84.
pub const WGS84_FLATTENING: u64 = 0x3F6B_775A_84F3_E128;

/// The bits of 6378206.4 (metres), the semi-major axis of Clarke 1866.
pub const CLARKE1866_SEMI_MAJOR_AXIS: u64 = 0x4158_54B7_9999_999A;

/// The bits of 1 / 294.9786982138982, the flattening of Clarke 1866.
pub const CLARKE1866_FLATTENING: u64 = 0x3F6B_C580_D1F6_973F;

/// The bits of 1e-6 (metres), below which two semi-major axes are the same.
pub const SEMI_MAJOR_AXIS_TOLERANCE: u64 = 0x3EB0_C6F7_A0B5_ED8D;

/// The bits of 1e-12, below which two flattenings are the same.
pub const FLATTENING_TOLERANCE: u64 = 0x3D71_9799_812D_EA11;

impl Ellipsoid {
    /// The WGS 84 ellipsoid.
    pub open spec fn wgs84_spec() -> Ellipsoid {
        Ellipsoid {
            semi_major_axis: Binary64 { bits: WGS84_SEMI_MAJOR_AXIS },
            flattening: Binary64 { bits: WGS84_FLATTENING },
        }
    }

    /// The WGS 84 ellipsoid.
    pub fn wgs84() -> (ellipsoid: Ellipsoid)
        ensures
            ellipsoid == Ellipsoid::wgs84_spec(),
    {
        Ellipsoid {
            semi_major_axis: Binary64 { bits: WGS84_SEMI_MAJOR_AXIS },
            flattening: Binary64 { bits: WGS84_FLATTENING },
        }
    }

    /// The Clarke 1866 ellipsoid.
    pub fn clarke1866() -> (ellipsoid: Ellipsoid)
        ensures
            ellipsoid.semi_major_axis.bits == CLARKE1866_SEMI_MAJOR_AXIS,
            ellipsoid.flattening.bits == CLARKE1866_FLATTENING,
    {
        Ellipsoid {
            semi_major_axis: Binary64 { bits: CLARKE1866_SEMI_MAJOR_AXIS },
            flattening: Binary64 { bits: CLARKE1866_FLATTENING },
        }
    }
}

/// Whether the binary64 difference of `a` and `b`, rounded to nearest, is
/// smaller in magnitude than the number with the bits `bound`.
///
/// `bound` is positive and its last bit is set. The rounded difference is then
/// below it exactly when the true difference is no further than halfway from
/// the binary64 number before `bound` to `bound`: a tie rounds to the number
/// before, whose last bit is clear.
pub open spec fn differ_by_less(a: Binary64, b: Binary64, bound: u64) -> bool {
    &&& a.finite()
    &&& b.finite()
    &&& 2 * gap(a, b) <= magnitude_of(bound) + magnitude_of((bound - 1) as u64)
}

/// Whether two ellipsoids are the same within the tolerances.
pub open spec fn same_ellipsoid(a: Ellipsoid, b: Ellipsoid) -> bool {
    &&& differ_by_less(a.semi_major_axis, b.semi_major_axis, SEMI_MAJOR_AXIS_TOLERANCE)
    &&& differ_by_less(a.flattening, b.flattening, FLATTENING_TOLERANCE)
}

/// Whether two semi-major axes differ by less than the tolerance.
fn semi_major_axes_match(a: Binary64, b: Binary64) -> (result: bool)
    ensures
        result == differ_by_less(a, b, SEMI_MAJOR_AXIS_TOLERANCE),
{
    proof {
        let bound = Binary64 { bits: SEMI_MAJOR_AXIS_TOLERANCE };
        let below = Binary64 { bits: (SEMI_MAJOR_AXIS_TOLERANCE - 1) as u64 };
        assert(bound.shift() == 1002 && below.shift() == 1002);
        assert(bound.significand() + below.significand() == 0x21_8DEF_416B_DB19);
        let unit = pow2(1002);
        assert(bound.magnitude() + below.magnitude() == 0x21_8DEF_416B_DB19 * unit)
            by (nonlinear_arith)
            requires
                bound.magnitude() == bound.significand() * unit,
                below.magnitude() == below.significand() * unit,
                bound.significand() + below.significand() == 0x21_8DEF_416B_DB19,
        ;
        lemma_pow2_unfold(1002);
    }
    a.is_finite() && b.is_finite() && gap_at_most(a, b, 0x21_8DEF_416B_DB19, 1001)
}

/// Whether two flattenings differ by less than the tolerance.
fn flattenings_match(a: Binary64, b: Binary64) -> (result: bool)
    ensures
        result == differ_by_less(a, b, FLATTENING_TOLERANCE),
{
    proof {
        let bound = Binary64 { bits: FLATTENING_TOLERANCE };
        let below = Binary64 { bits: (FLATTENING_TOLERANCE - 1) as u64 };
        assert(bound.shift() == 982 && below.shift() == 982);
        assert(bound.significand() + below.significand() == 0x23_2F33_025B_D421);
        let unit = pow2(982);
        assert(bound.magnitude() + below.magnitude() == 0x23_2F33_025B_D421 * unit)
            by (nonlinear_arith)
            requires
                bound.magnitude() == bound.significand() * unit,
                below.magnitude() == below.significand() * unit,
                bound.significand() + below.significand() == 0x23_2F33_025B_D421,
        ;
        lemma_pow2_unfold(982);
    }
    a.is_finite() && b.is_finite() && gap_at_most(a, b, 0x23_2F33_025B_D421, 981)
}

/// Whether two ellipsoids are the same: their semi-major axes differ by less
/// than 1e-6 metres and their flattenings by less than 1e-12.
pub fn ellipsoids_match(a: Ellipsoid, b: Ellipsoid) -> (result: bool)
    ensures
        result == same_ellipsoid(a, b),
{
    semi_major_axes_match(a.semi_major_axis, b.semi_major_axis)
        && flattenings_match(a.flattening, b.flattening)
}

} // verus!
