//! Why a host association fails.
use vstd::prelude::*;

use crate::binary::Double;

verus! {

/// What is wrong with the shape of a galaxy.
#[derive(Clone, Copy, Debug, PartialEq, Eq, Structural)]
pub enum ShapeFault {
    NonFinite { a: Double, b: Double, pa: Double },
    NonPositiveAxes { a: Double, b: Double },
    NonPositiveRadius { shape_r: Double },
    NonFiniteEllipticity { e1: Double, e2: Double },
}

#[derive(Clone, Copy, Debug, PartialEq, Eq, Structural)]
pub enum HostError {
    /// No candidates were found within the search radius.
    NoCandidates,
    /// The shape parameters of a galaxy are invalid.
    InvalidShape(ShapeFault),
}

}
