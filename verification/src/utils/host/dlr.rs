//! The directional light radius: a galaxy's radius toward a transient.
use vstd::prelude::*;

use crate::binary::Double;
use crate::utils::host::ellipse::{axes_of, candidate_fault, Ellipse};
use crate::utils::host::types::GalaxyCandidate;

verus! {

#[derive(Clone, Copy, Debug, PartialEq, Eq, Structural)]
pub struct DlrResult {
    /// Angular separation between transient and galaxy centre, arcsec.
    pub separation_arcsec: Double,
    /// Galaxy light radius toward the transient, arcsec.
    pub directional_radius: Double,
    pub fractional_offset: Double,
}

/// The pattern of 1e-15, below which a length counts as none.
pub const NO_LENGTH: u64 = 0x3CD2_03AF_9EE7_5616;

/// The pattern of 180.
pub const HALF_CIRCLE: u64 = 0x4066_8000_0000_0000;

/// The pattern of -180.
pub const MINUS_HALF_CIRCLE: u64 = 0xC066_8000_0000_0000;

/// A difference of two right ascensions on the short way round. `back` is the
/// difference minus 360 and `forth` the difference plus 360.
pub open spec fn short_way(difference: Double, back: Double, forth: Double) -> Double {
    if (Double { bits: HALF_CIRCLE }).less(difference) {
        back
    } else if difference.less(Double { bits: MINUS_HALF_CIRCLE }) {
        forth
    } else {
        difference
    }
}

pub fn wrap_ra(difference: Double, back: Double, forth: Double) -> (wrapped: Double)
    ensures
        wrapped == short_way(difference, back, forth),
{
    if (Double { bits: HALF_CIRCLE }).lt(difference) {
        back
    } else if difference.lt(Double { bits: MINUS_HALF_CIRCLE }) {
        forth
    } else {
        difference
    }
}

/// What is computed from a transient and a galaxy by projection onto the frame of the
/// galaxy's ellipse.
#[derive(Clone, Copy, Debug)]
pub struct DlrNumbers {
    pub separation: Double,
    /// The denominator of the radius of an ellipse at an angle.
    pub denominator: Double,
    /// The product of the semi-axes over the denominator.
    pub radius: Double,
    /// The separation over that radius.
    pub offset: Double,
    /// The separation over the semi-major axis.
    pub offset_by_axis: Double,
}

/// The light radius toward a transient and the offset in units of it, for an ellipse of
/// the given semi-major axis. A transient on the centre has no direction.
pub open spec fn dlr_of(semi_major: Double, numbers: DlrNumbers) -> DlrResult {
    let none = Double { bits: NO_LENGTH };
    if numbers.separation.less(none) {
        DlrResult {
            separation_arcsec: Double { bits: 0 },
            directional_radius: semi_major,
            fractional_offset: Double { bits: 0 },
        }
    } else if none.less(numbers.denominator) {
        DlrResult {
            separation_arcsec: numbers.separation,
            directional_radius: numbers.radius,
            fractional_offset: numbers.offset,
        }
    } else {
        DlrResult {
            separation_arcsec: numbers.separation,
            directional_radius: semi_major,
            fractional_offset: numbers.offset_by_axis,
        }
    }
}

pub fn compute_dlr(ellipse: &Ellipse, numbers: DlrNumbers) -> (result: DlrResult)
    ensures
        result == dlr_of(ellipse.a, numbers),
{
    let none = Double { bits: NO_LENGTH };
    if numbers.separation.lt(none) {
        return DlrResult {
            separation_arcsec: Double { bits: 0 },
            directional_radius: ellipse.a,
            fractional_offset: Double { bits: 0 },
        };
    }
    if none.lt(numbers.denominator) {
        DlrResult {
            separation_arcsec: numbers.separation,
            directional_radius: numbers.radius,
            fractional_offset: numbers.offset,
        }
    } else {
        DlrResult {
            separation_arcsec: numbers.separation,
            directional_radius: ellipse.a,
            fractional_offset: numbers.offset_by_axis,
        }
    }
}

/// How far out in a galaxy a transient sits, by the galaxy's axes and the floor on the
/// minor one.
pub open spec fn dlr_by_axes(
    a: Double,
    b: Double,
    min_b_arcsec: Double,
    numbers: DlrNumbers,
) -> DlrResult {
    dlr_of(axes_of(a, b.greatest(min_b_arcsec)).0, numbers)
}

/// How far out in a candidate a transient sits; nothing for a shape that cannot be used.
pub fn dlr_in(
    candidate: &GalaxyCandidate,
    min_b_arcsec: Double,
    numbers: DlrNumbers,
) -> (dlr: Option<DlrResult>)
    ensures
        dlr == if candidate_fault(*candidate, min_b_arcsec) is None {
            Some(dlr_by_axes(candidate.a_arcsec, candidate.b_arcsec, min_b_arcsec, numbers))
        } else {
            None
        },
{
    let zero = Double { bits: 0 };
    match Ellipse::from_candidate(candidate, min_b_arcsec, zero, zero) {
        Ok(ellipse) => Some(compute_dlr(&ellipse, numbers)),
        Err(_) => None,
    }
}

}
