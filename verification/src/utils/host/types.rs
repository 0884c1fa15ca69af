//! Transients, galaxies and hosts.
use vstd::prelude::*;

use crate::binary::Double;

verus! {

#[derive(Clone, Copy, Debug, PartialEq, Eq, Structural)]
pub struct Transient {
    /// Right ascension, degrees.
    pub ra: Double,
    /// Declination, degrees.
    pub dec: Double,
}

impl Transient {
    pub fn new(ra: Double, dec: Double) -> (transient: Transient)
        ensures
            transient.ra == ra,
            transient.dec == dec,
    {
        Transient { ra, dec }
    }
}

#[derive(Debug)]
pub struct GalaxyCandidate {
    /// Right ascension, degrees.
    pub ra: Double,
    /// Declination, degrees.
    pub dec: Double,
    /// Semi-major axis, arcsec.
    pub a_arcsec: Double,
    /// Semi-minor axis, arcsec.
    pub b_arcsec: Double,
    /// Position angle, degrees east of north.
    pub pa_deg: Double,
    pub redshift: Option<Double>,
    pub redshift_err: Option<Double>,
    /// Adopted distance in Mpc, redshift-independent only when `dist_mpc_method` says
    /// so.
    pub dist_mpc: Option<Double>,
    /// `"zIndependent"` or `"Redshift"`.
    pub dist_mpc_method: Option<String>,
    pub mag: Option<Double>,
    pub mag_err: Option<Double>,
    pub objtype: Option<String>,
    pub objname: Option<String>,
    pub catalog: Option<String>,
    /// Whether the size is an isophotal one rather than a half-light radius, which
    /// undersizes the galaxy against catalogued diameters.
    pub size_is_isophotal: bool,
    /// Survey the catalogued diameter came from, where the catalog says.
    pub diam_survey: Option<String>,
    /// Whether the position angle is a catalogue default rather than measured.
    pub orientation_is_nominal: bool,
}

fn copy_name(s: &Option<String>) -> (copy: Option<String>)
    ensures
        copy == *s,
{
    match s {
        Some(s) => Some(s.clone()),
        None => None,
    }
}

impl GalaxyCandidate {
    pub fn copy(&self) -> (copy: GalaxyCandidate)
        ensures
            copy == *self,
    {
        GalaxyCandidate {
            ra: self.ra,
            dec: self.dec,
            a_arcsec: self.a_arcsec,
            b_arcsec: self.b_arcsec,
            pa_deg: self.pa_deg,
            redshift: self.redshift,
            redshift_err: self.redshift_err,
            dist_mpc: self.dist_mpc,
            dist_mpc_method: copy_name(&self.dist_mpc_method),
            mag: self.mag,
            mag_err: self.mag_err,
            objtype: copy_name(&self.objtype),
            objname: copy_name(&self.objname),
            catalog: copy_name(&self.catalog),
            size_is_isophotal: self.size_is_isophotal,
            diam_survey: copy_name(&self.diam_survey),
            orientation_is_nominal: self.orientation_is_nominal,
        }
    }
}

#[derive(Debug)]
pub struct HostCandidate {
    pub galaxy: GalaxyCandidate,
    /// Angular separation from the transient, arcsec.
    pub separation_arcsec: Double,
    /// Galaxy light radius toward the transient, arcsec.
    pub dlr: Double,
    /// Separation in units of `dlr`.
    pub fractional_offset: Double,
    /// Rank by `fractional_offset`; 1 is the galaxy the transient sits deepest in.
    pub dlr_rank: u32,
    pub posterior: Double,
    pub posterior_offset: Double,
    pub posterior_absmag: Double,
}

}
