//! Prior probabilities of a host association.
use vstd::prelude::*;

use crate::binary::Double;

verus! {

/// The pattern of 0.5.
pub const P_OUTSIDE_ALONE: u64 = 0x3FE0_0000_0000_0000;

/// The pattern of 0.01.
pub const P_OUTSIDE: u64 = 0x3F84_7AE1_47AE_147B;

/// The pattern of 0.01.
pub const P_UNOBSERVED: u64 = 0x3F84_7AE1_47AE_147B;

/// The pattern of 0.005.
pub const P_HOSTLESS: u64 = 0x3F74_7AE1_47AE_147B;

/// The uniform density of the fractional offset: `uniform`, which is one over the
/// greatest offset, where the offset lies within it, and otherwise 0.
pub open spec fn uniform_prior(offset: Double, max_offset: Double, uniform: Double) -> Double {
    let zero = Double { bits: 0 };
    if max_offset.at_most(zero) {
        zero
    } else if zero.at_most(offset) && offset.at_most(max_offset) {
        uniform
    } else {
        zero
    }
}

pub fn offset_prior(fractional_offset: Double, max_offset: Double, uniform: Double) -> (p: Double)
    ensures
        p == uniform_prior(fractional_offset, max_offset, uniform),
{
    let zero = Double { bits: 0 };
    if max_offset.le(zero) {
        return zero;
    }
    if zero.le(fractional_offset) && fractional_offset.le(max_offset) {
        uniform
    } else {
        zero
    }
}

/// Prior probability that the true host lies outside the search radius.
pub fn p_outside(n_candidates: usize) -> (p: Double)
    ensures
        p.bits == if n_candidates == 0 {
            P_OUTSIDE_ALONE
        } else {
            P_OUTSIDE
        },
{
    if n_candidates == 0 {
        Double { bits: P_OUTSIDE_ALONE }
    } else {
        Double { bits: P_OUTSIDE }
    }
}

/// Prior probability that the true host is too faint to be in the catalog.
pub fn p_unobserved() -> (p: Double)
    ensures
        p.bits == P_UNOBSERVED,
{
    Double { bits: P_UNOBSERVED }
}

/// Prior probability that the transient is genuinely hostless.
pub fn p_hostless() -> (p: Double)
    ensures
        p.bits == P_HOSTLESS,
{
    Double { bits: P_HOSTLESS }
}

}
