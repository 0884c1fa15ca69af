//! Turning catalog rows into galaxies.
//!
//! One catalog gives an angular diameter with an axis ratio and a position angle, the
//! other a fitted half-light radius with ellipticity components. Both end up as
//! semi-axes and a position angle.
use vstd::prelude::*;

use crate::binary::Double;
use crate::document::{Bson, Document, Node};
use crate::named::{lookup, Named};
use crate::text::{
    any_ignore_ascii_case, eq_ignore_ascii_case, lists_folded, same, same_folded, signed_decimal,
    text_of, write_i64,
};
use crate::utils::host::config::HostGalaxyConfig;
use crate::utils::host::dlr::{dlr_by_axes, dlr_in, DlrNumbers};
use crate::utils::host::ellipse::{shape_fault, tractor_fault, Ellipse};
use crate::utils::host::types::GalaxyCandidate;
use crate::utils::spatial::{finite_of, get_opt_f64_from_doc};

verus! {

pub const NED: &'static str = "NED";

pub const LS_DR10: &'static str = "LSDR10";

/// The model fitted to a marginally resolved source.
pub const REX_TYPE: &'static str = "REX";

/// The pattern of 1.
pub const UNITY: u64 = 0x3FF0_0000_0000_0000;

/// The pattern of -0.5. A redshift below it stands for none.
pub const ABSENT_REDSHIFT: u64 = 0xBFE0_0000_0000_0000;

/// What a galaxy is described by.
pub struct GalaxyView {
    pub ra: Double,
    pub dec: Double,
    pub a_arcsec: Double,
    pub b_arcsec: Double,
    pub pa_deg: Double,
    pub redshift: Option<Double>,
    pub redshift_err: Option<Double>,
    pub dist_mpc: Option<Double>,
    pub dist_mpc_method: Option<Seq<char>>,
    pub mag: Option<Double>,
    pub mag_err: Option<Double>,
    pub objtype: Option<Seq<char>>,
    pub objname: Option<Seq<char>>,
    pub catalog: Option<Seq<char>>,
    pub size_is_isophotal: bool,
    pub diam_survey: Option<Seq<char>>,
    pub orientation_is_nominal: bool,
}

impl GalaxyCandidate {
    pub open spec fn view(&self) -> GalaxyView {
        GalaxyView {
            ra: self.ra,
            dec: self.dec,
            a_arcsec: self.a_arcsec,
            b_arcsec: self.b_arcsec,
            pa_deg: self.pa_deg,
            redshift: self.redshift,
            redshift_err: self.redshift_err,
            dist_mpc: self.dist_mpc,
            dist_mpc_method: text_of(self.dist_mpc_method),
            mag: self.mag,
            mag_err: self.mag_err,
            objtype: text_of(self.objtype),
            objname: text_of(self.objname),
            catalog: text_of(self.catalog),
            size_is_isophotal: self.size_is_isophotal,
            diam_survey: text_of(self.diam_survey),
            orientation_is_nominal: self.orientation_is_nominal,
        }
    }
}

/// The text of a field; an empty one is none.
pub open spec fn string_of(fields: Seq<(Seq<char>, Node)>, key: Seq<char>) -> Option<Seq<char>> {
    match lookup(fields, key) {
        Some(Node::Text(s)) => if s.len() > 0 {
            Some(s)
        } else {
            None
        },
        _ => None,
    }
}

fn opt_string(doc: &Document, key: &str) -> (text: Option<String>)
    ensures
        text_of(text) == string_of(doc@, key@),
{
    match doc.get(key) {
        Some(value) => match value {
            Bson::Text(s) => if s.as_str().unicode_len() > 0 {
                Some(s.clone())
            } else {
                None
            },
            _ => None,
        },
        None => None,
    }
}

/// The name of an object: a text that is not empty, or a number.
pub open spec fn objname_of(fields: Seq<(Seq<char>, Node)>, key: Seq<char>) -> Option<Seq<char>> {
    match lookup(fields, key) {
        Some(Node::Text(s)) => if s.len() > 0 {
            Some(s)
        } else {
            None
        },
        Some(Node::Int64(n)) => Some(signed_decimal(n as int)),
        Some(Node::Int32(n)) => Some(signed_decimal(n as int)),
        _ => None,
    }
}

fn opt_objname(doc: &Document, key: &str) -> (name: Option<String>)
    ensures
        text_of(name) == objname_of(doc@, key@),
{
    match doc.get(key) {
        Some(value) => match value {
            Bson::Text(s) => if s.as_str().unicode_len() > 0 {
                Some(s.clone())
            } else {
                None
            },
            Bson::Int64(n) => Some(write_i64(*n)),
            Bson::Int32(n) => Some(write_i64(*n as i64)),
            _ => None,
        },
        None => None,
    }
}

/// An axis ratio that can be used: not so small that it is a fit failure, and
/// otherwise between the pinned one and 1.
pub open spec fn bounded_ratio(axis_ratio: Double, config: HostGalaxyConfig) -> Option<Double> {
    if !axis_ratio.is_finite_spec() || axis_ratio.less(config.min_axis_ratio) {
        None
    } else {
        Some(axis_ratio.greatest(config.pinned_axis_ratio).least(Double { bits: UNITY }))
    }
}

pub fn bounded_axis_ratio(axis_ratio: Double, config: &HostGalaxyConfig) -> (ratio: Option<Double>)
    ensures
        ratio == bounded_ratio(axis_ratio, *config),
{
    if !axis_ratio.is_finite() || axis_ratio.lt(config.min_axis_ratio) {
        return None;
    }
    Some(axis_ratio.max(config.pinned_axis_ratio).min(Double { bits: UNITY }))
}

/// The finite number of a field, where it is positive.
pub open spec fn positive_of(fields: Seq<(Seq<char>, Node)>, key: Seq<char>) -> Option<Double> {
    match finite_of(fields, key) {
        Some(x) => if (Double { bits: 0 }).less(x) {
            Some(x)
        } else {
            None
        },
        None => None,
    }
}

fn opt_positive(doc: &Document, key: &str) -> (x: Option<Double>)
    ensures
        x == positive_of(doc@, key@),
{
    match get_opt_f64_from_doc(doc, key) {
        Some(x) => if (Double { bits: 0 }).lt(x) {
            Some(x)
        } else {
            None
        },
        None => None,
    }
}

/// The finite number of a field, or a default.
pub open spec fn finite_or(
    fields: Seq<(Seq<char>, Node)>,
    key: Seq<char>,
    default: Double,
) -> Double {
    match finite_of(fields, key) {
        Some(x) => x,
        None => default,
    }
}

fn opt_or(doc: &Document, key: &str, default: Double) -> (x: Double)
    ensures
        x == finite_or(doc@, key@, default),
{
    match get_opt_f64_from_doc(doc, key) {
        Some(x) => x,
        None => default,
    }
}

/// Whether the type of a row is one of some types.
pub open spec fn typed_as(fields: Seq<(Seq<char>, Node)>, types: Seq<String>) -> bool {
    string_of(fields, "objtype"@) matches Some(t) && lists_folded(types, t)
}

fn is_typed_as(objtype: &Option<String>, types: &Vec<String>) -> (found: bool)
    ensures
        found == (text_of(*objtype) matches Some(t) && lists_folded(types@, t)),
{
    match objtype {
        Some(t) => any_ignore_ascii_case(types, t.as_str()),
        None => false,
    }
}

/// The axis ratio of a row: a catalogued one in range, or that of a circle, bounded.
pub open spec fn ned_ratio(
    fields: Seq<(Seq<char>, Node)>,
    config: HostGalaxyConfig,
) -> Option<Double> {
    let one = Double { bits: UNITY };
    bounded_ratio(
        match positive_of(fields, "Diam_ba"@) {
            Some(r) => if r.at_most(one) {
                r
            } else {
                one
            },
            None => one,
        },
        config,
    )
}

/// The diameter and the axis ratio of a row, where it can support a light radius.
/// Rows without a diameter are ordinary.
pub open spec fn ned_shape_of(
    fields: Seq<(Seq<char>, Node)>,
    config: HostGalaxyConfig,
) -> Option<(Double, Double)> {
    if finite_of(fields, "ra"@) is None || finite_of(fields, "dec"@) is None || typed_as(
        fields,
        config.ned_excluded_objtypes@,
    ) {
        None
    } else {
        match (positive_of(fields, "Diam"@), ned_ratio(fields, config)) {
            (Some(diameter), Some(ratio)) => Some((diameter, ratio)),
            _ => None,
        }
    }
}

/// Reads the shape of a row with a catalogued diameter.
pub fn ned_shape(doc: &Document, config: &HostGalaxyConfig) -> (shape: Option<(Double, Double)>)
    ensures
        shape == ned_shape_of(doc@, *config),
{
    if get_opt_f64_from_doc(doc, "ra").is_none() {
        return None;
    }
    if get_opt_f64_from_doc(doc, "dec").is_none() {
        return None;
    }
    if is_typed_as(&opt_string(doc, "objtype"), &config.ned_excluded_objtypes) {
        return None;
    }
    let diameter = match opt_positive(doc, "Diam") {
        Some(diameter) => diameter,
        None => {
            return None;
        },
    };
    let one = Double { bits: UNITY };
    let measured = match opt_positive(doc, "Diam_ba") {
        Some(r) => if r.le(one) {
            r
        } else {
            one
        },
        None => one,
    };
    match bounded_axis_ratio(measured, config) {
        Some(ratio) => Some((diameter, ratio)),
        None => None,
    }
}

/// What is computed for a row with a catalogued diameter.
#[derive(Clone, Copy, Debug)]
pub struct NedNumbers {
    /// Half the diameter.
    pub a_arcsec: Double,
    /// That times the axis ratio.
    pub b_arcsec: Double,
}

/// The galaxy that a row with a catalogued diameter describes.
pub open spec fn ned_galaxy(
    fields: Seq<(Seq<char>, Node)>,
    config: HostGalaxyConfig,
    numbers: NedNumbers,
) -> Option<GalaxyView> {
    match ned_shape_of(fields, config) {
        Some((_, ratio)) => Some(
            GalaxyView {
                ra: finite_of(fields, "ra"@)->0,
                dec: finite_of(fields, "dec"@)->0,
                a_arcsec: numbers.a_arcsec,
                b_arcsec: numbers.b_arcsec,
                pa_deg: finite_or(fields, "Diam_pa"@, Double { bits: 0 }),
                redshift: finite_of(fields, "z"@),
                redshift_err: finite_of(fields, "z_unc"@),
                dist_mpc: finite_of(fields, "DistMpc"@),
                dist_mpc_method: string_of(fields, "DistMpc_method"@),
                mag: finite_of(fields, "m_Ks"@),
                mag_err: finite_of(fields, "m_Ks_unc"@),
                objtype: string_of(fields, "objtype"@),
                objname: objname_of(fields, "_id"@),
                catalog: Some(NED@),
                size_is_isophotal: true,
                diam_survey: string_of(fields, "Diam_survey"@),
                orientation_is_nominal: (string_of(fields, "Diam_survey"@) matches Some(survey)
                    && same_folded(survey, "2MASS"@)) && ratio.less(Double { bits: UNITY }),
            },
        ),
        None => None,
    }
}

/// Reads a row with a catalogued diameter. The diameters of 2MASS carry a fixed
/// position angle, which means nothing for a galaxy that is not round.
pub fn galaxy_from_ned(
    doc: &Document,
    config: &HostGalaxyConfig,
    numbers: NedNumbers,
) -> (galaxy: Option<GalaxyCandidate>)
    ensures
        match galaxy {
            Some(galaxy) => ned_galaxy(doc@, *config, numbers) == Some(galaxy@),
            None => ned_galaxy(doc@, *config, numbers) is None,
        },
{
    let ratio = match ned_shape(doc, config) {
        Some((_, ratio)) => ratio,
        None => {
            return None;
        },
    };
    let (ra, dec) = match (get_opt_f64_from_doc(doc, "ra"), get_opt_f64_from_doc(doc, "dec")) {
        (Some(ra), Some(dec)) => (ra, dec),
        _ => {
            return None;
        },
    };
    let diam_survey = opt_string(doc, "Diam_survey");
    let two_mass = match &diam_survey {
        Some(survey) => eq_ignore_ascii_case(survey.as_str(), "2MASS"),
        None => false,
    };
    Some(
        GalaxyCandidate {
            ra,
            dec,
            a_arcsec: numbers.a_arcsec,
            b_arcsec: numbers.b_arcsec,
            pa_deg: opt_or(doc, "Diam_pa", Double { bits: 0 }),
            redshift: get_opt_f64_from_doc(doc, "z"),
            redshift_err: get_opt_f64_from_doc(doc, "z_unc"),
            dist_mpc: get_opt_f64_from_doc(doc, "DistMpc"),
            dist_mpc_method: opt_string(doc, "DistMpc_method"),
            mag: get_opt_f64_from_doc(doc, "m_Ks"),
            mag_err: get_opt_f64_from_doc(doc, "m_Ks_unc"),
            objtype: opt_string(doc, "objtype"),
            objname: opt_objname(doc, "_id"),
            catalog: Some(NED.to_string()),
            size_is_isophotal: true,
            diam_survey,
            orientation_is_nominal: two_mass && ratio.lt(Double { bits: UNITY }),
        },
    )
}

/// Whether a marginally resolved row is rejected: too small to separate from a point
/// source, too faint to be reliably shaped, or blended enough to be a fragment of the
/// galaxy it sits inside. A row whose flux was never measured is not too faint; one
/// whose flux was found not to be positive is. `snr` is the flux times the root of its
/// inverse variance.
pub open spec fn marginal(
    fields: Seq<(Seq<char>, Node)>,
    config: HostGalaxyConfig,
    snr: Double,
) -> bool {
    let zero = Double { bits: 0 };
    ||| finite_or(fields, "shape_r"@, zero).less(config.rex_min_shape_r_arcsec)
    ||| (finite_of(fields, "flux_r"@) matches Some(flux) && (finite_of(
        fields,
        "flux_ivar_r"@,
    ) matches Some(ivar) && (flux.at_most(zero) || (zero.less(ivar) && snr.less(
        config.rex_min_snr,
    )))))
    ||| (finite_of(fields, "fracflux_r"@) matches Some(f) && config.rex_max_fracflux.at_most(f))
}

pub fn rejected_as_marginal_rex(
    doc: &Document,
    config: &HostGalaxyConfig,
    snr: Double,
) -> (rejected: bool)
    ensures
        rejected == marginal(doc@, *config, snr),
{
    let zero = Double { bits: 0 };
    if opt_or(doc, "shape_r", zero).lt(config.rex_min_shape_r_arcsec) {
        return true;
    }
    match (get_opt_f64_from_doc(doc, "flux_r"), get_opt_f64_from_doc(doc, "flux_ivar_r")) {
        (Some(flux), Some(ivar)) => {
            if flux.le(zero) {
                return true;
            }
            if zero.lt(ivar) && snr.lt(config.rex_min_snr) {
                return true;
            }
        },
        _ => {},
    }
    match get_opt_f64_from_doc(doc, "fracflux_r") {
        Some(f) => config.rex_max_fracflux.le(f),
        None => false,
    }
}

/// A redshift column, where it does not hold the number that stands for none.
pub open spec fn measured_redshift(fields: Seq<(Seq<char>, Node)>, key: Seq<char>) -> Option<
    Double,
> {
    match finite_of(fields, key) {
        Some(z) => if (Double { bits: ABSENT_REDSHIFT }).less(z) {
            Some(z)
        } else {
            None
        },
        None => None,
    }
}

pub fn legacy_redshift(doc: &Document, key: &str) -> (z: Option<Double>)
    ensures
        z == measured_redshift(doc@, key@),
{
    match get_opt_f64_from_doc(doc, key) {
        Some(z) => if (Double { bits: ABSENT_REDSHIFT }).lt(z) {
            Some(z)
        } else {
            None
        },
        None => None,
    }
}

/// A half-light radius converted to an isophote.
#[derive(Clone, Copy, Debug, PartialEq, Eq, Structural)]
pub struct Isophote {
    /// The semi-major axis at the isophote.
    pub semi_major: Double,
    /// That, after its floor, times the axis ratio.
    pub minor: Double,
    /// The axis ratio after both floors.
    pub axis_ratio: Double,
}

/// What is computed for a row with a fitted shape.
#[derive(Clone, Copy, Debug)]
pub struct LsNumbers {
    /// The flux times the root of its inverse variance.
    pub snr: Double,
    /// The radius times the axis ratio that the ellipticity gives.
    pub minor: Double,
    /// The axis ratio after the floor on the minor axis.
    pub axis_ratio: Double,
    /// The position angle that the ellipticity gives, in radians.
    pub pa_rad: Double,
    /// The same in degrees.
    pub pa_deg: Double,
    /// The size at the isophote, where the profile, the total magnitude and the surface
    /// brightness give one.
    pub isophote: Option<Isophote>,
}

/// The ellipse of a row with a fitted shape, where it has one.
pub open spec fn ls_ellipse(
    fields: Seq<(Seq<char>, Node)>,
    config: HostGalaxyConfig,
    numbers: LsNumbers,
) -> Option<Ellipse> {
    let zero = Double { bits: 0 };
    let e1 = finite_or(fields, "shape_e1"@, zero);
    let e2 = finite_or(fields, "shape_e2"@, zero);
    match positive_of(fields, "shape_r"@) {
        Some(shape_r) => if tractor_fault(shape_r, e1, e2) is None && bounded_ratio(
            numbers.axis_ratio,
            config,
        ) is Some {
            Some(
                Ellipse {
                    a: shape_r,
                    b: numbers.minor.greatest(config.min_axis_arcsec),
                    pa_rad: numbers.pa_rad,
                    axis_ratio: numbers.axis_ratio,
                },
            )
        } else {
            None
        },
        None => None,
    }
}

/// The size of a row at the isophote, where it has a type and a flux to convert it by.
pub open spec fn isophote_of(
    fields: Seq<(Seq<char>, Node)>,
    numbers: LsNumbers,
) -> Option<Isophote> {
    if string_of(fields, "objtype"@) is Some && finite_of(fields, "flux_r"@) is Some {
        numbers.isophote
    } else {
        None
    }
}

/// Whether a row is no galaxy: a point source, where those are excluded, or a
/// marginally resolved source that is rejected.
pub open spec fn ls_excluded(
    fields: Seq<(Seq<char>, Node)>,
    config: HostGalaxyConfig,
    numbers: LsNumbers,
) -> bool {
    ||| config.exclude_star_like && typed_as(fields, config.star_type_values@)
    ||| string_of(fields, "objtype"@) == Some(REX_TYPE@) && marginal(fields, config, numbers.snr)
}

/// The galaxy that a row with a fitted shape describes.
pub open spec fn ls_galaxy(
    fields: Seq<(Seq<char>, Node)>,
    config: HostGalaxyConfig,
    numbers: LsNumbers,
) -> Option<GalaxyView> {
    match (finite_of(fields, "ra"@), finite_of(fields, "dec"@), ls_ellipse(fields, config, numbers)) {
        (Some(ra), Some(dec), Some(ellipse)) => if ls_excluded(fields, config, numbers) {
            None
        } else {
            let spectroscopic = measured_redshift(fields, "z_spec"@);
            let isophote = isophote_of(fields, numbers);
            Some(
                GalaxyView {
                    ra,
                    dec,
                    a_arcsec: match isophote {
                        Some(isophote) => isophote.semi_major.greatest(config.min_axis_arcsec),
                        None => ellipse.a,
                    },
                    b_arcsec: match isophote {
                        Some(isophote) => isophote.minor.greatest(config.min_axis_arcsec),
                        None => ellipse.b,
                    },
                    pa_deg: numbers.pa_deg,
                    redshift: if spectroscopic is Some {
                        spectroscopic
                    } else {
                        measured_redshift(fields, "z_phot_median"@)
                    },
                    redshift_err: if spectroscopic is Some {
                        None
                    } else {
                        measured_redshift(fields, "z_phot_std"@)
                    },
                    dist_mpc: None,
                    dist_mpc_method: None,
                    mag: None,
                    mag_err: None,
                    objtype: string_of(fields, "objtype"@),
                    objname: objname_of(fields, "_id"@),
                    catalog: Some(LS_DR10@),
                    size_is_isophotal: isophote is Some,
                    diam_survey: None,
                    orientation_is_nominal: false,
                },
            )
        },
        _ => None,
    }
}

/// Reads a row with a fitted shape. A row that cannot be converted to an isophote keeps
/// its half-light radius, and says so. A spectroscopic redshift is preferred; its error
/// is negligible.
pub fn galaxy_from_ls_dr10(
    doc: &Document,
    config: &HostGalaxyConfig,
    numbers: LsNumbers,
) -> (galaxy: Option<GalaxyCandidate>)
    ensures
        match galaxy {
            Some(galaxy) => ls_galaxy(doc@, *config, numbers) == Some(galaxy@),
            None => ls_galaxy(doc@, *config, numbers) is None,
        },
{
    let (ra, dec) = match (get_opt_f64_from_doc(doc, "ra"), get_opt_f64_from_doc(doc, "dec")) {
        (Some(ra), Some(dec)) => (ra, dec),
        _ => {
            return None;
        },
    };
    let objtype = opt_string(doc, "objtype");
    if config.exclude_star_like && is_typed_as(&objtype, &config.star_type_values) {
        return None;
    }
    let shape_r = match opt_positive(doc, "shape_r") {
        Some(shape_r) => shape_r,
        None => {
            return None;
        },
    };
    let zero = Double { bits: 0 };
    let shape_e1 = opt_or(doc, "shape_e1", zero);
    let shape_e2 = opt_or(doc, "shape_e2", zero);
    let is_rex = match &objtype {
        Some(t) => same(t.as_str(), REX_TYPE),
        None => false,
    };
    if is_rex && rejected_as_marginal_rex(doc, config, numbers.snr) {
        return None;
    }
    let fitted = Ellipse::from_tractor(
        shape_r,
        shape_e1,
        shape_e2,
        config.min_axis_arcsec,
        numbers.minor,
        numbers.pa_rad,
        numbers.axis_ratio,
    );
    let ellipse = match fitted {
        Ok(ellipse) => ellipse,
        Err(_) => {
            return None;
        },
    };
    if bounded_axis_ratio(ellipse.axis_ratio, config).is_none() {
        return None;
    }
    let isophote = if objtype.is_some() && get_opt_f64_from_doc(doc, "flux_r").is_some() {
        numbers.isophote
    } else {
        None
    };
    let sized = match isophote {
        Some(isophote) => ellipse.scaled_to_semi_major(
            isophote.semi_major,
            config.min_axis_arcsec,
            isophote.minor,
            isophote.axis_ratio,
        ),
        None => ellipse,
    };
    let (redshift, redshift_err) = match legacy_redshift(doc, "z_spec") {
        Some(z) => (Some(z), None),
        None => (legacy_redshift(doc, "z_phot_median"), legacy_redshift(doc, "z_phot_std")),
    };
    Some(
        GalaxyCandidate {
            ra,
            dec,
            a_arcsec: sized.a,
            b_arcsec: sized.b,
            pa_deg: numbers.pa_deg,
            redshift,
            redshift_err,
            dist_mpc: None,
            dist_mpc_method: None,
            mag: None,
            mag_err: None,
            objtype,
            objname: opt_objname(doc, "_id"),
            catalog: Some(LS_DR10.to_string()),
            size_is_isophotal: isophote.is_some(),
            diam_survey: None,
            orientation_is_nominal: false,
        },
    )
}

/// The galaxies among the first `n` rows with catalogued diameters.
pub open spec fn ned_galaxies(
    docs: Seq<Document>,
    config: HostGalaxyConfig,
    numbers: Seq<NedNumbers>,
    n: nat,
) -> Seq<GalaxyView>
    decreases n,
{
    if n == 0 {
        Seq::empty()
    } else {
        let before = ned_galaxies(docs, config, numbers, (n - 1) as nat);
        match ned_galaxy(docs[n - 1]@, config, numbers[n - 1]) {
            Some(galaxy) => before.push(galaxy),
            None => before,
        }
    }
}

/// Whether a position lies within one light radius of a galaxy.
pub open spec fn lies_in(galaxy: GalaxyView, numbers: DlrNumbers, min_axis_arcsec: Double) -> bool {
    usable(galaxy, min_axis_arcsec) && dlr_by_axes(
        galaxy.a_arcsec,
        galaxy.b_arcsec,
        min_axis_arcsec,
        numbers,
    ).fractional_offset.at_most(Double { bits: UNITY })
}

/// Whether a galaxy is a fragment of one that was accepted before: it lies in it.
/// `numbers` are its projections onto each of those.
pub open spec fn fragment_of(
    galaxies: Seq<GalaxyView>,
    numbers: Seq<DlrNumbers>,
    min_axis_arcsec: Double,
) -> bool {
    exists|g: int|
        0 <= g < galaxies.len() && lies_in(#[trigger] galaxies[g], numbers[g], min_axis_arcsec)
}

/// Whether a galaxy has a shape that can be used.
pub open spec fn usable(galaxy: GalaxyView, min_axis_arcsec: Double) -> bool {
    shape_fault(galaxy.a_arcsec, galaxy.b_arcsec.greatest(min_axis_arcsec), galaxy.pa_deg) is None
}

/// The galaxies among the first `n` rows with fitted shapes, without fragments.
pub open spec fn ls_galaxies(
    ned: Seq<GalaxyView>,
    docs: Seq<Document>,
    config: HostGalaxyConfig,
    numbers: Seq<LsNumbers>,
    near: Seq<Vec<DlrNumbers>>,
    n: nat,
) -> Seq<GalaxyView>
    decreases n,
{
    if n == 0 {
        Seq::empty()
    } else {
        let before = ls_galaxies(ned, docs, config, numbers, near, (n - 1) as nat);
        match ls_galaxy(docs[n - 1]@, config, numbers[n - 1]) {
            Some(galaxy) => if fragment_of(ned, near[n - 1]@, config.min_axis_arcsec) {
                before
            } else {
                before.push(galaxy)
            },
            None => before,
        }
    }
}

pub open spec fn views(galaxies: Seq<GalaxyCandidate>) -> Seq<GalaxyView> {
    galaxies.map_values(|galaxy: GalaxyCandidate| galaxy@)
}

/// The rows that a catalog gave.
pub open spec fn rows_of(
    xmatches: Seq<(Seq<char>, Vec<Document>)>,
    catalog: Seq<char>,
) -> Seq<Document> {
    match lookup(xmatches, catalog) {
        Some(docs) => docs@,
        None => Seq::empty(),
    }
}

/// The galaxies with catalogued diameters among the crossmatches.
pub open spec fn ned_part(
    xmatches: Seq<(Seq<char>, Vec<Document>)>,
    config: HostGalaxyConfig,
    ned: Seq<NedNumbers>,
) -> Seq<GalaxyView> {
    let docs = rows_of(xmatches, config.ned_catalog@);
    ned_galaxies(docs, config, ned, docs.len())
}

/// Whether a galaxy is a fragment of one of some galaxies.
fn is_fragment(
    galaxies: &Vec<GalaxyCandidate>,
    n: usize,
    numbers: &Vec<DlrNumbers>,
    min_axis_arcsec: Double,
) -> (found: bool)
    requires
        n <= galaxies@.len(),
        numbers@.len() == n,
    ensures
        found == fragment_of(views(galaxies@).take(n as int), numbers@, min_axis_arcsec),
{
    let ghost known = views(galaxies@).take(n as int);
    let mut g: usize = 0;
    while g < n
        invariant
            g <= n <= galaxies@.len(),
            numbers@.len() == n,
            known == views(galaxies@).take(n as int),
            forall|k: int|
                0 <= k < g ==> !lies_in(#[trigger] known[k], numbers@[k], min_axis_arcsec),
        decreases n - g,
    {
        assert(known[g as int] == galaxies@[g as int]@);
        match dlr_in(&galaxies[g], min_axis_arcsec, numbers[g]) {
            Some(dlr) => {
                if dlr.fractional_offset.le(Double { bits: UNITY }) {
                    assert(lies_in(known[g as int], numbers@[g as int], min_axis_arcsec));
                    return true;
                }
            },
            None => {},
        }
        g = g + 1;
    }
    false
}

/// Collects the galaxies among crossmatches: first those with catalogued diameters,
/// then those with fitted shapes that are no fragments of one of the first. Row by row,
/// `ned` and `ls` hold what is computed, and `near` the projection of each row with a fitted
/// shape onto each galaxy of the first part.
pub fn collect_galaxies(
    xmatches: &Named<Vec<Document>>,
    config: &HostGalaxyConfig,
    ned: &Vec<NedNumbers>,
    ls: &Vec<LsNumbers>,
    near: &Vec<Vec<DlrNumbers>>,
) -> (galaxies: Vec<GalaxyCandidate>)
    requires
        ned@.len() == rows_of(xmatches@, config.ned_catalog@).len(),
        ls@.len() == rows_of(xmatches@, config.ls_dr10_catalog@).len(),
        near@.len() == ls@.len(),
        forall|k: int|
            0 <= k < near@.len() ==> (#[trigger] near@[k])@.len() == ned_part(
                xmatches@,
                *config,
                ned@,
            ).len(),
    ensures
        ({
            let first = ned_part(xmatches@, *config, ned@);
            let docs = rows_of(xmatches@, config.ls_dr10_catalog@);
            views(galaxies@) == first + ls_galaxies(
                first,
                docs,
                *config,
                ls@,
                near@,
                docs.len(),
            )
        }),
{
    let mut galaxies: Vec<GalaxyCandidate> = Vec::new();
    let ghost first = ned_part(xmatches@, *config, ned@);
    assert(views(galaxies@) =~= Seq::empty());
    match xmatches.get(config.ned_catalog.as_str()) {
        Some(docs) => {
            let mut i: usize = 0;
            while i < docs.len()
                invariant
                    i <= docs@.len(),
                    ned@.len() == docs@.len(),
                    views(galaxies@) == ned_galaxies(docs@, *config, ned@, i as nat),
                decreases docs.len() - i,
            {
                match galaxy_from_ned(&docs[i], config, ned[i]) {
                    Some(galaxy) => {
                        let ghost before = views(galaxies@);
                        galaxies.push(galaxy);
                        assert(views(galaxies@) =~= before.push(galaxy@));
                    },
                    None => {},
                }
                i = i + 1;
            }
        },
        None => {},
    }
    let n: usize = galaxies.len();
    assert(views(galaxies@).len() == n);
    match xmatches.get(config.ls_dr10_catalog.as_str()) {
        Some(docs) => {
            let mut i: usize = 0;
            assert(views(galaxies@) =~= first + Seq::empty());
            while i < docs.len()
                invariant
                    i <= docs@.len(),
                    ls@.len() == docs@.len(),
                    near@.len() == ls@.len(),
                    n == first.len(),
                    n <= galaxies@.len(),
                    forall|k: int|
                        0 <= k < near@.len() ==> (#[trigger] near@[k])@.len() == n,
                    views(galaxies@) == first + ls_galaxies(
                        first,
                        docs@,
                        *config,
                        ls@,
                        near@,
                        i as nat,
                    ),
                decreases docs.len() - i,
            {
                match galaxy_from_ls_dr10(&docs[i], config, ls[i]) {
                    Some(galaxy) => {
                        assert(views(galaxies@).take(n as int) =~= first);
                        if !is_fragment(&galaxies, n, &near[i], config.min_axis_arcsec) {
                            let ghost before = views(galaxies@);
                            galaxies.push(galaxy);
                            assert(views(galaxies@) =~= before.push(galaxy@));
                            assert(views(galaxies@) =~= first + ls_galaxies(
                                first,
                                docs@,
                                *config,
                                ls@,
                                near@,
                                (i + 1) as nat,
                            ));
                        }
                    },
                    None => {},
                }
                i = i + 1;
            }
        },
        None => {
            assert(views(galaxies@) =~= first + Seq::empty());
        },
    }
    galaxies
}

/// A galaxy that is collected lies in no galaxy with a catalogued diameter, unless it
/// is one of those itself.
pub proof fn no_fragment_is_collected(
    ned: Seq<GalaxyView>,
    docs: Seq<Document>,
    config: HostGalaxyConfig,
    numbers: Seq<LsNumbers>,
    near: Seq<Vec<DlrNumbers>>,
    n: nat,
    i: int,
)
    requires
        0 <= i < ls_galaxies(ned, docs, config, numbers, near, n).len(),
    ensures
        exists|k: int|
            0 <= k < n && #[trigger] ls_galaxy(docs[k]@, config, numbers[k]) == Some(
                ls_galaxies(ned, docs, config, numbers, near, n)[i],
            ) && !fragment_of(ned, near[k]@, config.min_axis_arcsec),
    decreases n,
{
    let before = ls_galaxies(ned, docs, config, numbers, near, (n - 1) as nat);
    if i < before.len() {
        no_fragment_is_collected(ned, docs, config, numbers, near, (n - 1) as nat, i);
        let k = choose|k: int|
            0 <= k < n - 1 && #[trigger] ls_galaxy(docs[k]@, config, numbers[k]) == Some(before[i])
                && !fragment_of(ned, near[k]@, config.min_axis_arcsec);
        assert(ls_galaxy(docs[k]@, config, numbers[k]) == Some(before[i]));
    } else {
        assert(ls_galaxy(docs[n - 1]@, config, numbers[n - 1]) is Some);
    }
}

}
