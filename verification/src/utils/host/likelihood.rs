//! Likelihoods of a host association.
use vstd::prelude::*;

use crate::binary::Double;

verus! {

/// The pattern of a million: the value at an offset of exactly zero, where the
/// density diverges. Large but finite, so that the total stays finite.
pub const OFFSET_LIKELIHOOD_AT_ZERO: u64 = 0x412E_8480_0000_0000;

/// The pattern of 1.
pub const NO_EVIDENCE: u64 = 0x3FF0_0000_0000_0000;

/// The likelihood of a fractional offset: `density`, which is the Gamma density at the
/// offset, for a positive finite one.
pub open spec fn likelihood_of(offset: Double, density: Double) -> Double {
    let zero = Double { bits: 0 };
    if !offset.is_finite_spec() || offset.less(zero) {
        zero
    } else if offset.equals(zero) {
        Double { bits: OFFSET_LIKELIHOOD_AT_ZERO }
    } else {
        density
    }
}

pub fn offset_likelihood(fractional_offset: Double, density: Double) -> (likelihood: Double)
    ensures
        likelihood == likelihood_of(fractional_offset, density),
{
    let zero = Double { bits: 0 };
    if !fractional_offset.is_finite() || fractional_offset.lt(zero) {
        return zero;
    }
    if fractional_offset.same(zero) {
        return Double { bits: OFFSET_LIKELIHOOD_AT_ZERO };
    }
    density
}

/// The likelihood of an absolute magnitude, which says nothing: it is always 1, so
/// that it does not affect the ranking.
pub fn absmag_likelihood(
    _mag: Option<Double>,
    _mag_err: Option<Double>,
    _redshift: Option<Double>,
) -> (likelihood: Double)
    ensures
        likelihood.bits == NO_EVIDENCE,
{
    Double { bits: NO_EVIDENCE }
}

}
