//! The stored form of a host association.
use vstd::prelude::*;

use crate::binary::Double;
use crate::text::{copy_text, text_of};
use crate::utils::host::associate::AssociationResult;
use crate::utils::host::catalog::UNITY;
use crate::utils::host::config::HostGalaxyConfig;
use crate::utils::host::error::HostError;
use crate::utils::host::types::HostCandidate;

verus! {

#[derive(Debug)]
pub struct StoredHostCandidate {
    pub objname: Option<String>,
    pub catalog: Option<String>,
    pub objtype: Option<String>,
    /// Whether the size is an isophotal diameter rather than a half-light radius.
    pub size_is_isophotal: bool,
    /// Whether the position angle is a fixed one, which makes `d_dlr` directionally
    /// meaningless.
    pub orientation_is_nominal: bool,
    pub ra: Double,
    pub dec: Double,
    /// Angular separation from the transient, arcsec.
    pub sep_arcsec: Double,
    /// Projected separation in kpc, when a distance is available.
    pub sep_kpc: Option<Double>,
    /// Galaxy light radius toward the transient, arcsec.
    pub dlr_arcsec: Double,
    /// Separation in units of `dlr_arcsec`. This is what filters cut on.
    pub d_dlr: Double,
    /// Rank by `d_dlr`; 1 is the galaxy the transient sits deepest inside.
    pub dlr_rank: u32,
    /// Normalised over all candidates considered, not just the stored ones.
    pub posterior: Double,
    pub z: Option<Double>,
    /// Adopted distance in Mpc, redshift-independent only when `dist_mpc_method` says
    /// so.
    pub dist_mpc: Option<Double>,
    pub dist_mpc_method: Option<String>,
    pub a_arcsec: Double,
    pub b_arcsec: Double,
    pub pa_deg: Double,
}

/// What is stored of a candidate.
pub struct StoredView {
    pub objname: Option<Seq<char>>,
    pub catalog: Option<Seq<char>>,
    pub objtype: Option<Seq<char>>,
    pub size_is_isophotal: bool,
    pub orientation_is_nominal: bool,
    pub ra: Double,
    pub dec: Double,
    pub sep_arcsec: Double,
    pub sep_kpc: Option<Double>,
    pub dlr_arcsec: Double,
    pub d_dlr: Double,
    pub dlr_rank: u32,
    pub posterior: Double,
    pub z: Option<Double>,
    pub dist_mpc: Option<Double>,
    pub dist_mpc_method: Option<Seq<char>>,
    pub a_arcsec: Double,
    pub b_arcsec: Double,
    pub pa_deg: Double,
}

impl StoredHostCandidate {
    pub open spec fn view(&self) -> StoredView {
        StoredView {
            objname: text_of(self.objname),
            catalog: text_of(self.catalog),
            objtype: text_of(self.objtype),
            size_is_isophotal: self.size_is_isophotal,
            orientation_is_nominal: self.orientation_is_nominal,
            ra: self.ra,
            dec: self.dec,
            sep_arcsec: self.sep_arcsec,
            sep_kpc: self.sep_kpc,
            dlr_arcsec: self.dlr_arcsec,
            d_dlr: self.d_dlr,
            dlr_rank: self.dlr_rank,
            posterior: self.posterior,
            z: self.z,
            dist_mpc: self.dist_mpc,
            dist_mpc_method: text_of(self.dist_mpc_method),
            a_arcsec: self.a_arcsec,
            b_arcsec: self.b_arcsec,
            pa_deg: self.pa_deg,
        }
    }
}

/// What is stored of a host candidate. `kpc` is its separation at its distance, which
/// is stored where the distance is positive.
pub open spec fn stored(host: HostCandidate, kpc: Double) -> StoredView {
    StoredView {
        objname: text_of(host.galaxy.objname),
        catalog: text_of(host.galaxy.catalog),
        objtype: text_of(host.galaxy.objtype),
        size_is_isophotal: host.galaxy.size_is_isophotal,
        orientation_is_nominal: host.galaxy.orientation_is_nominal,
        ra: host.galaxy.ra,
        dec: host.galaxy.dec,
        sep_arcsec: host.separation_arcsec,
        sep_kpc: if host.galaxy.dist_mpc matches Some(d) && (Double { bits: 0 }).less(d) {
            Some(kpc)
        } else {
            None
        },
        dlr_arcsec: host.dlr,
        d_dlr: host.fractional_offset,
        dlr_rank: host.dlr_rank,
        posterior: host.posterior,
        z: host.galaxy.redshift,
        dist_mpc: host.galaxy.dist_mpc,
        dist_mpc_method: text_of(host.galaxy.dist_mpc_method),
        a_arcsec: host.galaxy.a_arcsec,
        b_arcsec: host.galaxy.b_arcsec,
        pa_deg: host.galaxy.pa_deg,
    }
}

fn store(host: &HostCandidate, kpc: Double) -> (kept: StoredHostCandidate)
    ensures
        kept@ == stored(*host, kpc),
{
    StoredHostCandidate {
        objname: copy_text(&host.galaxy.objname),
        catalog: copy_text(&host.galaxy.catalog),
        objtype: copy_text(&host.galaxy.objtype),
        size_is_isophotal: host.galaxy.size_is_isophotal,
        orientation_is_nominal: host.galaxy.orientation_is_nominal,
        ra: host.galaxy.ra,
        dec: host.galaxy.dec,
        sep_arcsec: host.separation_arcsec,
        sep_kpc: match host.galaxy.dist_mpc {
            Some(d) => if (Double { bits: 0 }).lt(d) {
                Some(kpc)
            } else {
                None
            },
            None => None,
        },
        dlr_arcsec: host.dlr,
        d_dlr: host.fractional_offset,
        dlr_rank: host.dlr_rank,
        posterior: host.posterior,
        z: host.galaxy.redshift,
        dist_mpc: host.galaxy.dist_mpc,
        dist_mpc_method: copy_text(&host.galaxy.dist_mpc_method),
        a_arcsec: host.galaxy.a_arcsec,
        b_arcsec: host.galaxy.b_arcsec,
        pa_deg: host.galaxy.pa_deg,
    }
}

/// Host association for one object.
#[derive(Debug)]
pub struct HostGalaxyAssociation {
    /// Duplicate of the first candidate, so that consumers need not index the list.
    pub best_host: Option<StoredHostCandidate>,
    pub candidates: Vec<StoredHostCandidate>,
    /// Galaxies supplied by the cross-match, before any shape or offset cut.
    pub n_candidates_searched: u32,
    /// Galaxies surviving the offset cut.
    pub n_candidates_after_dlr_cut: u32,
    pub p_host_none: Double,
}

impl HostGalaxyAssociation {
    /// The best host is the first candidate, and there is one whenever there is any.
    pub open spec fn wf(&self) -> bool {
        match self.best_host {
            Some(best) => self.candidates@.len() > 0 && best@ == self.candidates@[0]@,
            None => self.candidates@.len() == 0,
        }
    }

    /// The association of an object with some hosts. `kpc` holds for each candidate its
    /// separation at its distance.
    pub fn from_result(result: &AssociationResult, kpc: &Vec<Double>) -> (kept:
        HostGalaxyAssociation)
        requires
            kpc@.len() == result.candidates@.len(),
            result.n_considered <= u32::MAX,
            result.n_passed_dlr <= u32::MAX,
        ensures
            kept.wf(),
            kept.candidates@.len() == result.candidates@.len(),
            forall|i: int|
                0 <= i < kept.candidates@.len() ==> (#[trigger] kept.candidates@[i])@ == stored(
                    result.candidates@[i],
                    kpc@[i],
                ),
            kept.n_candidates_searched == result.n_considered,
            kept.n_candidates_after_dlr_cut == result.n_passed_dlr,
            kept.p_host_none == result.p_none,
    {
        let mut candidates: Vec<StoredHostCandidate> = Vec::new();
        let mut i: usize = 0;
        while i < result.candidates.len()
            invariant
                i <= result.candidates@.len(),
                kpc@.len() == result.candidates@.len(),
                candidates@.len() == i,
                forall|k: int|
                    0 <= k < i ==> (#[trigger] candidates@[k])@ == stored(
                        result.candidates@[k],
                        kpc@[k],
                    ),
            decreases result.candidates.len() - i,
        {
            candidates.push(store(&result.candidates[i], kpc[i]));
            i = i + 1;
        }
        let best_host = if result.candidates.len() > 0 {
            Some(store(&result.candidates[0], kpc[0]))
        } else {
            None
        };
        HostGalaxyAssociation {
            best_host,
            candidates,
            n_candidates_searched: result.n_considered as u32,
            n_candidates_after_dlr_cut: result.n_passed_dlr as u32,
            p_host_none: result.p_none,
        }
    }

    /// The association of an object with nothing.
    pub fn empty() -> (kept: HostGalaxyAssociation)
        ensures
            kept.wf(),
            kept.is_empty_spec(),
    {
        HostGalaxyAssociation {
            best_host: None,
            candidates: Vec::new(),
            n_candidates_searched: 0,
            n_candidates_after_dlr_cut: 0,
            p_host_none: Double { bits: UNITY },
        }
    }

    pub open spec fn is_empty_spec(&self) -> bool {
        &&& self.best_host is None
        &&& self.candidates@.len() == 0
        &&& self.n_candidates_searched == 0
        &&& self.n_candidates_after_dlr_cut == 0
        &&& self.p_host_none.bits == UNITY
    }
}

/// What is stored for an alert, from the result of ranking the galaxies among its
/// crossmatches. Nothing when association is disabled, so that the field is left off;
/// an empty association when it ran and there were no galaxies to rank.
pub fn associate_from_xmatches(
    config: &HostGalaxyConfig,
    result: &Result<AssociationResult, HostError>,
    kpc: &Vec<Double>,
) -> (kept: Option<HostGalaxyAssociation>)
    requires
        result matches Ok(result) ==> {
            &&& kpc@.len() == result.candidates@.len()
            &&& result.n_considered <= u32::MAX
            &&& result.n_passed_dlr <= u32::MAX
        },
    ensures
        kept is Some <==> config.enabled,
        kept matches Some(kept) ==> kept.wf() && match *result {
            Err(_) => kept.is_empty_spec(),
            Ok(result) => {
                &&& kept.candidates@.len() == result.candidates@.len()
                &&& forall|i: int|
                    0 <= i < kept.candidates@.len() ==> (#[trigger] kept.candidates@[i])@ == stored(
                        result.candidates@[i],
                        kpc@[i],
                    )
                &&& kept.n_candidates_searched == result.n_considered
                &&& kept.n_candidates_after_dlr_cut == result.n_passed_dlr
                &&& kept.p_host_none == result.p_none
            },
        },
{
    if !config.enabled {
        return None;
    }
    match result {
        Ok(result) => Some(HostGalaxyAssociation::from_result(result, kpc)),
        Err(_) => Some(HostGalaxyAssociation::empty()),
    }
}

}
