//! The ellipses that galaxies are taken as.
use vstd::prelude::*;

use crate::binary::Double;
use crate::utils::host::error::{HostError, ShapeFault};
use crate::utils::host::types::GalaxyCandidate;

verus! {

#[derive(Clone, Copy, Debug, PartialEq, Eq, Structural)]
pub struct Ellipse {
    /// Semi-major axis, arcsec.
    pub a: Double,
    /// Semi-minor axis, arcsec.
    pub b: Double,
    /// Position angle, radians east of north.
    pub pa_rad: Double,
    /// Axis ratio.
    pub axis_ratio: Double,
}

/// What is wrong with two semi-axes and a position angle, or nothing.
pub open spec fn shape_fault(a: Double, b: Double, pa: Double) -> Option<ShapeFault> {
    let zero = Double { bits: 0 };
    if !(a.is_finite_spec() && b.is_finite_spec() && pa.is_finite_spec()) {
        Some(ShapeFault::NonFinite { a, b, pa })
    } else if a.at_most(zero) || b.at_most(zero) {
        Some(ShapeFault::NonPositiveAxes { a, b })
    } else {
        None
    }
}

/// What is wrong with a fitted shape, or nothing.
pub open spec fn tractor_fault(shape_r: Double, e1: Double, e2: Double) -> Option<ShapeFault> {
    if shape_r.at_most(Double { bits: 0 }) {
        Some(ShapeFault::NonPositiveRadius { shape_r })
    } else if !e1.is_finite_spec() || !e2.is_finite_spec() {
        Some(ShapeFault::NonFiniteEllipticity { e1, e2 })
    } else {
        None
    }
}

/// Two semi-axes, the greater one first.
pub open spec fn axes_of(a: Double, b: Double) -> (Double, Double) {
    if b.at_most(a) {
        (a, b)
    } else {
        (b, a)
    }
}

pub fn semi_axes(a: Double, b: Double) -> (axes: (Double, Double))
    ensures
        axes == axes_of(a, b),
{
    if b.le(a) {
        (a, b)
    } else {
        (b, a)
    }
}

impl Ellipse {
    /// An ellipse from its semi-axes, in either order, and its position angle in
    /// degrees. `pa_rad` is the angle in radians and `axis_ratio` the smaller axis over
    /// the greater one.
    pub fn new(
        a_arcsec: Double,
        b_arcsec: Double,
        pa_deg: Double,
        pa_rad: Double,
        axis_ratio: Double,
    ) -> (ellipse: Result<Ellipse, HostError>)
        ensures
            match ellipse {
                Ok(ellipse) => {
                    &&& shape_fault(a_arcsec, b_arcsec, pa_deg) is None
                    &&& (ellipse.a, ellipse.b) == axes_of(a_arcsec, b_arcsec)
                    &&& ellipse.b.at_most(ellipse.a)
                    &&& ellipse.pa_rad == pa_rad
                    &&& ellipse.axis_ratio == axis_ratio
                },
                Err(error) => shape_fault(a_arcsec, b_arcsec, pa_deg) == Some(
                    error->InvalidShape_0,
                ) && error is InvalidShape,
            },
    {
        if !(a_arcsec.is_finite() && b_arcsec.is_finite() && pa_deg.is_finite()) {
            return Err(
                HostError::InvalidShape(
                    ShapeFault::NonFinite { a: a_arcsec, b: b_arcsec, pa: pa_deg },
                ),
            );
        }
        if a_arcsec.le(Double { bits: 0 }) || b_arcsec.le(Double { bits: 0 }) {
            return Err(
                HostError::InvalidShape(ShapeFault::NonPositiveAxes { a: a_arcsec, b: b_arcsec }),
            );
        }
        let (a, b) = semi_axes(a_arcsec, b_arcsec);
        Ok(Ellipse { a, b, pa_rad, axis_ratio })
    }

    /// An ellipse from a half-light radius and two ellipticity components. `minor` is
    /// the radius times the axis ratio that the components give, and `axis_ratio` is
    /// taken after the floor on the minor axis.
    pub fn from_tractor(
        shape_r: Double,
        shape_e1: Double,
        shape_e2: Double,
        min_b_arcsec: Double,
        minor: Double,
        pa_rad: Double,
        axis_ratio: Double,
    ) -> (ellipse: Result<Ellipse, HostError>)
        ensures
            match ellipse {
                Ok(ellipse) => {
                    &&& tractor_fault(shape_r, shape_e1, shape_e2) is None
                    &&& ellipse == (Ellipse {
                        a: shape_r,
                        b: minor.greatest(min_b_arcsec),
                        pa_rad,
                        axis_ratio,
                    })
                },
                Err(error) => tractor_fault(shape_r, shape_e1, shape_e2) == Some(
                    error->InvalidShape_0,
                ) && error is InvalidShape,
            },
    {
        if shape_r.le(Double { bits: 0 }) {
            return Err(HostError::InvalidShape(ShapeFault::NonPositiveRadius { shape_r }));
        }
        if !shape_e1.is_finite() || !shape_e2.is_finite() {
            return Err(
                HostError::InvalidShape(
                    ShapeFault::NonFiniteEllipticity { e1: shape_e1, e2: shape_e2 },
                ),
            );
        }
        Ok(Ellipse { a: shape_r, b: minor.max(min_b_arcsec), pa_rad, axis_ratio })
    }

    /// The ellipse scaled to another semi-major axis, with floors on both axes. `minor`
    /// is the new semi-major axis times the old axis ratio.
    pub fn scaled_to_semi_major(
        &self,
        a_arcsec: Double,
        min_b_arcsec: Double,
        minor: Double,
        axis_ratio: Double,
    ) -> (ellipse: Ellipse)
        ensures
            ellipse == (Ellipse {
                a: a_arcsec.greatest(min_b_arcsec),
                b: minor.greatest(min_b_arcsec),
                pa_rad: self.pa_rad,
                axis_ratio,
            }),
    {
        Ellipse {
            a: a_arcsec.max(min_b_arcsec),
            b: minor.max(min_b_arcsec),
            pa_rad: self.pa_rad,
            axis_ratio,
        }
    }

    /// The ellipse of a candidate, with a floor on its minor axis.
    pub fn from_candidate(
        candidate: &GalaxyCandidate,
        min_b_arcsec: Double,
        pa_rad: Double,
        axis_ratio: Double,
    ) -> (ellipse: Result<Ellipse, HostError>)
        ensures
            match ellipse {
                Ok(ellipse) => {
                    &&& candidate_fault(*candidate, min_b_arcsec) is None
                    &&& (ellipse.a, ellipse.b) == axes_of(
                        candidate.a_arcsec,
                        candidate.b_arcsec.greatest(min_b_arcsec),
                    )
                    &&& ellipse.b.at_most(ellipse.a)
                    &&& ellipse.pa_rad == pa_rad
                    &&& ellipse.axis_ratio == axis_ratio
                },
                Err(error) => candidate_fault(*candidate, min_b_arcsec) == Some(
                    error->InvalidShape_0,
                ) && error is InvalidShape,
            },
    {
        Ellipse::new(
            candidate.a_arcsec,
            candidate.b_arcsec.max(min_b_arcsec),
            candidate.pa_deg,
            pa_rad,
            axis_ratio,
        )
    }
}

/// What is wrong with the shape of a candidate, or nothing.
pub open spec fn candidate_fault(candidate: GalaxyCandidate, min_b_arcsec: Double) -> Option<
    ShapeFault,
> {
    shape_fault(
        candidate.a_arcsec,
        candidate.b_arcsec.greatest(min_b_arcsec),
        candidate.pa_deg,
    )
}

}
