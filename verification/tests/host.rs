//! The geometry and the probabilities are computed here in floating point; the library
//! works on the bit patterns of the same numbers.
use std::f64::consts::{FRAC_PI_2, FRAC_PI_4};

use boom::binary::Double;
use boom::document::{Bson, Document};
use boom::named::Named;
use boom::utils::host::associate as ranking;
use boom::utils::host::association as stored;
use boom::utils::host::catalog as rows;
use boom::utils::host::catalog::{LS_DR10, NED};
use boom::utils::host::config as settings;
use boom::utils::host::dlr as radius;
use boom::utils::host::ellipse as shape;
use boom::utils::host::error::{HostError, ShapeFault};
use boom::utils::host::likelihood as likelihoods;
use boom::utils::host::prior as priors;
use boom::utils::host::types as kinds;
use boom::utils::spatial::get_opt_f64_from_doc;

const GAMMA_0_75: f64 = 1.2254167024651776;
const OFFSET_LIKELIHOOD_AT_ZERO: f64 = 1e6;
const ARCSEC_PER_RADIAN: f64 = 206_264.806_247_096_36;

fn d(x: f64) -> Double {
    Double { bits: x.to_bits() }
}

fn f(x: Double) -> f64 {
    f64::from_bits(x.bits)
}

fn assert_close(a: f64, b: f64) {
    assert_close_within(a, b, 1e-9)
}

fn assert_close_within(a: f64, b: f64, eps: f64) {
    assert!((a - b).abs() <= eps, "{} !~= {} (|delta| > {})", a, b, eps);
}

trait Field {
    fn bson(self) -> Bson;
}

impl Field for f64 {
    fn bson(self) -> Bson {
        Bson::Double(d(self))
    }
}

impl Field for &str {
    fn bson(self) -> Bson {
        Bson::text(self)
    }
}

impl Field for Bson {
    fn bson(self) -> Bson {
        self
    }
}

fn b(value: impl Field) -> Bson {
    value.bson()
}

fn doc(fields: Vec<(&str, Bson)>) -> Document {
    let mut doc = Document::new();
    for (key, value) in fields {
        doc.insert(key, value);
    }
    doc
}

fn remove(doc: &mut Document, key: &str) {
    doc.entries.retain(|(name, _)| name != key);
}

fn offset_prior(offset: f64, max_offset: f64) -> f64 {
    f(priors::offset_prior(d(offset), d(max_offset), d(1.0 / max_offset)))
}

fn p_outside(n: usize) -> f64 {
    f(priors::p_outside(n))
}

fn offset_likelihood(offset: f64) -> f64 {
    let density = offset.powf(-0.25) * (-offset).exp() / GAMMA_0_75;
    f(likelihoods::offset_likelihood(d(offset), d(density)))
}

#[derive(Clone, Copy, Debug)]
struct Ellipse {
    a: f64,
    b: f64,
    pa_rad: f64,
    axis_ratio: f64,
}

impl Ellipse {
    fn read(ellipse: shape::Ellipse) -> Ellipse {
        Ellipse {
            a: f(ellipse.a),
            b: f(ellipse.b),
            pa_rad: f(ellipse.pa_rad),
            axis_ratio: f(ellipse.axis_ratio),
        }
    }

    fn bits(&self) -> shape::Ellipse {
        shape::Ellipse {
            a: d(self.a),
            b: d(self.b),
            pa_rad: d(self.pa_rad),
            axis_ratio: d(self.axis_ratio),
        }
    }

    fn new(a: f64, b: f64, pa_deg: f64) -> Result<Ellipse, HostError> {
        let (major, minor) = shape::semi_axes(d(a), d(b));
        shape::Ellipse::new(
            d(a),
            d(b),
            d(pa_deg),
            d(pa_deg.to_radians()),
            d(f(minor) / f(major)),
        )
        .map(Ellipse::read)
    }

    fn from_tractor(r: f64, e1: f64, e2: f64, min_b: f64) -> Result<Ellipse, HostError> {
        let e = e1.hypot(e2).min(0.999);
        let q = (1.0 - e) / (1.0 + e);
        let minor = r * q;
        shape::Ellipse::from_tractor(
            d(r),
            d(e1),
            d(e2),
            d(min_b),
            d(minor),
            d(0.5 * e2.atan2(e1)),
            d(minor.max(min_b) / r),
        )
        .map(Ellipse::read)
    }

    fn from_candidate(g: &GalaxyCandidate, min_b: f64) -> Result<Ellipse, HostError> {
        Ellipse::new(g.a_arcsec, g.b_arcsec.max(min_b), g.pa_deg)
    }
}

struct DlrResult {
    separation_arcsec: f64,
    directional_radius: f64,
    fractional_offset: f64,
}

fn dlr_numbers(
    transient_ra: f64,
    transient_dec: f64,
    galaxy_ra: f64,
    galaxy_dec: f64,
    ellipse: &Ellipse,
) -> radius::DlrNumbers {
    let difference = transient_ra - galaxy_ra;
    let dra_deg = f(radius::wrap_ra(d(difference), d(difference - 360.0), d(difference + 360.0)));
    let dra = dra_deg * galaxy_dec.to_radians().cos() * 3600.0;
    let ddec = (transient_dec - galaxy_dec) * 3600.0;
    let separation = dra.hypot(ddec);
    let (sin_pa, cos_pa) = ellipse.pa_rad.sin_cos();
    let x_maj = dra * sin_pa + ddec * cos_pa;
    let y_min = dra * cos_pa - ddec * sin_pa;
    let (sin_t, cos_t) = y_min.atan2(x_maj).sin_cos();
    let denominator = (ellipse.b * cos_t).hypot(ellipse.a * sin_t);
    let r = ellipse.a * ellipse.b / denominator;
    radius::DlrNumbers {
        separation: d(separation),
        denominator: d(denominator),
        radius: d(r),
        offset: d(separation / r),
        offset_by_axis: d(separation / ellipse.a),
    }
}

/// The projection of a position onto a galaxy; of no use for one without a usable shape.
fn projection(ra: f64, dec: f64, galaxy: &GalaxyCandidate, min_b: f64) -> radius::DlrNumbers {
    match Ellipse::from_candidate(galaxy, min_b) {
        Ok(e) => dlr_numbers(ra, dec, galaxy.ra, galaxy.dec, &e),
        Err(_) => radius::DlrNumbers {
            separation: d(0.0),
            denominator: d(0.0),
            radius: d(0.0),
            offset: d(0.0),
            offset_by_axis: d(0.0),
        },
    }
}

fn compute_dlr(
    transient_ra: f64,
    transient_dec: f64,
    galaxy_ra: f64,
    galaxy_dec: f64,
    ellipse: &Ellipse,
) -> DlrResult {
    let found = radius::compute_dlr(
        &ellipse.bits(),
        dlr_numbers(transient_ra, transient_dec, galaxy_ra, galaxy_dec, ellipse),
    );
    DlrResult {
        separation_arcsec: f(found.separation_arcsec),
        directional_radius: f(found.directional_radius),
        fractional_offset: f(found.fractional_offset),
    }
}

#[derive(Clone, Debug)]
struct GalaxyCandidate {
    ra: f64,
    dec: f64,
    a_arcsec: f64,
    b_arcsec: f64,
    pa_deg: f64,
    redshift: Option<f64>,
    redshift_err: Option<f64>,
    dist_mpc: Option<f64>,
    dist_mpc_method: Option<String>,
    mag: Option<f64>,
    mag_err: Option<f64>,
    objtype: Option<String>,
    objname: Option<String>,
    catalog: Option<String>,
    size_is_isophotal: bool,
    diam_survey: Option<String>,
    orientation_is_nominal: bool,
}

impl GalaxyCandidate {
    fn bits(&self) -> kinds::GalaxyCandidate {
        kinds::GalaxyCandidate {
            ra: d(self.ra),
            dec: d(self.dec),
            a_arcsec: d(self.a_arcsec),
            b_arcsec: d(self.b_arcsec),
            pa_deg: d(self.pa_deg),
            redshift: self.redshift.map(d),
            redshift_err: self.redshift_err.map(d),
            dist_mpc: self.dist_mpc.map(d),
            dist_mpc_method: self.dist_mpc_method.clone(),
            mag: self.mag.map(d),
            mag_err: self.mag_err.map(d),
            objtype: self.objtype.clone(),
            objname: self.objname.clone(),
            catalog: self.catalog.clone(),
            size_is_isophotal: self.size_is_isophotal,
            diam_survey: self.diam_survey.clone(),
            orientation_is_nominal: self.orientation_is_nominal,
        }
    }

    fn read(g: &kinds::GalaxyCandidate) -> GalaxyCandidate {
        GalaxyCandidate {
            ra: f(g.ra),
            dec: f(g.dec),
            a_arcsec: f(g.a_arcsec),
            b_arcsec: f(g.b_arcsec),
            pa_deg: f(g.pa_deg),
            redshift: g.redshift.map(f),
            redshift_err: g.redshift_err.map(f),
            dist_mpc: g.dist_mpc.map(f),
            dist_mpc_method: g.dist_mpc_method.clone(),
            mag: g.mag.map(f),
            mag_err: g.mag_err.map(f),
            objtype: g.objtype.clone(),
            objname: g.objname.clone(),
            catalog: g.catalog.clone(),
            size_is_isophotal: g.size_is_isophotal,
            diam_survey: g.diam_survey.clone(),
            orientation_is_nominal: g.orientation_is_nominal,
        }
    }
}

/// The settings that tests change; the rest are the library's defaults.
#[derive(Clone)]
struct HostGalaxyConfig {
    enabled: bool,
    exclude_star_like: bool,
    max_dlr: f64,
    max_candidates: usize,
    ned_catalog: String,
    ls_dr10_catalog: String,
    pinned_axis_ratio: f64,
    rex_min_shape_r_arcsec: f64,
}

impl Default for HostGalaxyConfig {
    fn default() -> HostGalaxyConfig {
        let config = settings::HostGalaxyConfig::default();
        HostGalaxyConfig {
            enabled: config.enabled,
            exclude_star_like: config.exclude_star_like,
            max_dlr: f(config.max_dlr),
            max_candidates: config.max_candidates,
            ned_catalog: config.ned_catalog,
            ls_dr10_catalog: config.ls_dr10_catalog,
            pinned_axis_ratio: f(config.pinned_axis_ratio),
            rex_min_shape_r_arcsec: f(config.rex_min_shape_r_arcsec),
        }
    }
}

impl HostGalaxyConfig {
    fn bits(&self) -> settings::HostGalaxyConfig {
        settings::HostGalaxyConfig {
            enabled: self.enabled,
            exclude_star_like: self.exclude_star_like,
            max_dlr: d(self.max_dlr),
            max_candidates: self.max_candidates,
            ..settings::HostGalaxyConfig::default()
        }
    }

    fn association_config(&self) -> AssociationConfig {
        AssociationConfig::read(self.bits().association_config())
    }
}

fn gamma(x: f64) -> f64 {
    let coefficients = [
        676.5203681218851,
        -1259.1392167224028,
        771.32342877765313,
        -176.61502916214059,
        12.507343278686905,
        -0.13857109526572012,
        9.9843695780195716e-6,
        1.5056327351493116e-7,
    ];
    let x = x - 1.0;
    let mut sum = 0.99999999999980993;
    for (i, c) in coefficients.iter().enumerate() {
        sum += c / (x + i as f64 + 1.0);
    }
    let t = x + 7.5;
    (2.0 * std::f64::consts::PI).sqrt() * t.powf(x + 0.5) * (-t).exp() * sum
}

/// The semi-major axis of a Sersic profile at an isophote.
fn isophotal_semi_major(r_e: f64, q: f64, n: f64, m_tot: f64, mu: f64) -> Option<f64> {
    let bn = 2.0 * n - 1.0 / 3.0 + 4.0 / (405.0 * n);
    let luminosity = 2.0 * std::f64::consts::PI * n * q * r_e * r_e * bn.exp()
        * bn.powf(-2.0 * n)
        * gamma(2.0 * n);
    let mu_e = m_tot + 2.5 * luminosity.log10();
    let x = 1.0 + (mu - mu_e) * std::f64::consts::LN_10 / (2.5 * bn);
    if x > 0.0 {
        Some(r_e * x.powf(n))
    } else {
        None
    }
}

fn text(doc: &Document, key: &str) -> Option<String> {
    match doc.get(key) {
        Some(Bson::Text(s)) => Some(s.clone()),
        _ => None,
    }
}

fn ned_numbers(doc: &Document, config: &settings::HostGalaxyConfig) -> rows::NedNumbers {
    let (diameter, ratio) = rows::ned_shape(doc, config).unwrap_or((d(0.0), d(1.0)));
    let a = f(diameter) / 2.0;
    rows::NedNumbers { a_arcsec: d(a), b_arcsec: d(a * f(ratio)) }
}

fn ls_numbers(doc: &Document, config: &settings::HostGalaxyConfig) -> rows::LsNumbers {
    let get = |key: &str| get_opt_f64_from_doc(doc, key).map(f);
    let min_b = f(config.min_axis_arcsec);
    let r = get("shape_r").unwrap_or(0.0);
    let e1 = get("shape_e1").unwrap_or(0.0);
    let e2 = get("shape_e2").unwrap_or(0.0);
    let e = e1.hypot(e2).min(0.999);
    let minor = r * ((1.0 - e) / (1.0 + e));
    let axis_ratio = minor.max(min_b) / r;
    let pa_rad = 0.5 * e2.atan2(e1);
    let index = match text(doc, "objtype").as_deref() {
        Some("REX") | Some("EXP") => Some(1.0),
        Some("DEV") => Some(4.0),
        Some("SER") => get("sersic"),
        _ => None,
    };
    let isophote = index.and_then(|n| {
        let flux = get("flux_r").filter(|x| *x > 0.0)?;
        let m_tot = 22.5 - 2.5 * flux.log10();
        let a25 = isophotal_semi_major(r, axis_ratio, n, m_tot, f(config.isophote_mag))?;
        let a = a25.max(min_b);
        let scaled = a * axis_ratio;
        Some(rows::Isophote {
            semi_major: d(a25),
            minor: d(scaled),
            axis_ratio: d(scaled.max(min_b) / a),
        })
    });
    rows::LsNumbers {
        snr: d(get("flux_r").unwrap_or(0.0) * get("flux_ivar_r").unwrap_or(0.0).sqrt()),
        minor: d(minor),
        axis_ratio: d(axis_ratio),
        pa_rad: d(pa_rad),
        pa_deg: d(pa_rad.to_degrees()),
        isophote,
    }
}

fn galaxy_from_ned(doc: &Document, config: &HostGalaxyConfig) -> Option<GalaxyCandidate> {
    let config = config.bits();
    rows::galaxy_from_ned(doc, &config, ned_numbers(doc, &config))
        .as_ref()
        .map(GalaxyCandidate::read)
}

fn galaxy_from_ls_dr10(doc: &Document, config: &HostGalaxyConfig) -> Option<GalaxyCandidate> {
    let config = config.bits();
    rows::galaxy_from_ls_dr10(doc, &config, ls_numbers(doc, &config))
        .as_ref()
        .map(GalaxyCandidate::read)
}

fn rejected_as_marginal_rex(doc: &Document, config: &HostGalaxyConfig) -> bool {
    let config = config.bits();
    rows::rejected_as_marginal_rex(doc, &config, ls_numbers(doc, &config).snr)
}

fn legacy_redshift(doc: &Document, key: &str) -> Option<f64> {
    rows::legacy_redshift(doc, key).map(f)
}

fn collect_galaxies(
    xmatches: &Named<Vec<Document>>,
    config: &HostGalaxyConfig,
) -> Vec<GalaxyCandidate> {
    let settings = config.bits();
    let none = vec![];
    let ned_docs = xmatches.get(&config.ned_catalog).unwrap_or(&none);
    let ls_docs = xmatches.get(&config.ls_dr10_catalog).unwrap_or(&none);
    let ned: Vec<_> = ned_docs.iter().map(|doc| ned_numbers(doc, &settings)).collect();
    let ls: Vec<_> = ls_docs.iter().map(|doc| ls_numbers(doc, &settings)).collect();
    let known: Vec<GalaxyCandidate> =
        ned_docs.iter().filter_map(|doc| galaxy_from_ned(doc, config)).collect();
    let near: Vec<Vec<radius::DlrNumbers>> = ls_docs
        .iter()
        .map(|doc| {
            let get = |key: &str| get_opt_f64_from_doc(doc, key).map(f).unwrap_or(0.0);
            known
                .iter()
                .map(|g| projection(get("ra"), get("dec"), g, f(settings.min_axis_arcsec)))
                .collect()
        })
        .collect();
    rows::collect_galaxies(xmatches, &settings, &ned, &ls, &near)
        .iter()
        .map(GalaxyCandidate::read)
        .collect()
}

struct Transient {
    ra: f64,
    dec: f64,
}

impl Transient {
    fn new(ra: f64, dec: f64) -> Transient {
        let t = kinds::Transient::new(d(ra), d(dec));
        Transient { ra: f(t.ra), dec: f(t.dec) }
    }
}

struct AssociationConfig {
    max_fractional_offset: f64,
    min_b_arcsec: f64,
    max_candidates: usize,
    use_absmag: bool,
}

impl AssociationConfig {
    fn read(config: ranking::AssociationConfig) -> AssociationConfig {
        AssociationConfig {
            max_fractional_offset: f(config.max_fractional_offset),
            min_b_arcsec: f(config.min_b_arcsec),
            max_candidates: config.max_candidates,
            use_absmag: config.use_absmag,
        }
    }

    fn bits(&self) -> ranking::AssociationConfig {
        ranking::AssociationConfig {
            max_fractional_offset: d(self.max_fractional_offset),
            min_b_arcsec: d(self.min_b_arcsec),
            max_candidates: self.max_candidates,
            use_absmag: self.use_absmag,
        }
    }
}

impl Default for AssociationConfig {
    fn default() -> AssociationConfig {
        AssociationConfig::read(ranking::AssociationConfig::default())
    }
}

#[derive(Debug)]
struct HostCandidate {
    galaxy: GalaxyCandidate,
    fractional_offset: f64,
    dlr_rank: u32,
    posterior: f64,
}

#[derive(Debug)]
struct AssociationResult {
    candidates: Vec<HostCandidate>,
    p_none: f64,
    n_considered: usize,
    n_passed_dlr: usize,
    bits: ranking::AssociationResult,
}

fn associate_host(
    transient: &Transient,
    galaxies: &[GalaxyCandidate],
    config: &AssociationConfig,
) -> Result<AssociationResult, HostError> {
    let settings = config.bits();
    let list: Vec<kinds::GalaxyCandidate> = galaxies.iter().map(|g| g.bits()).collect();
    let numbers: Vec<radius::DlrNumbers> = galaxies
        .iter()
        .map(|g| projection(transient.ra, transient.dec, g, config.min_b_arcsec))
        .collect();
    let order = ranking::rank_by_offset(&list, &numbers, &settings);
    let posteriors: Vec<f64> = order
        .iter()
        .map(|(_, dlr)| {
            let x = f(dlr.fractional_offset);
            offset_likelihood(x) * offset_prior(x, config.max_fractional_offset)
        })
        .collect();
    let p_null = p_outside(order.len()) + f(priors::p_unobserved()) + f(priors::p_hostless());
    let total = posteriors.iter().sum::<f64>() + p_null;
    let scores: Vec<ranking::Score> = posteriors
        .iter()
        .map(|p| ranking::Score { posterior_offset: d(*p), normalised: d(p / total) })
        .collect();
    let totals = ranking::Totals { total: d(total), none: d(p_null / total) };
    let found = ranking::associate_host(&list, &numbers, &settings, &scores, totals)?;
    Ok(AssociationResult {
        candidates: found
            .candidates
            .iter()
            .map(|c| HostCandidate {
                galaxy: GalaxyCandidate::read(&c.galaxy),
                fractional_offset: f(c.fractional_offset),
                dlr_rank: c.dlr_rank,
                posterior: f(c.posterior),
            })
            .collect(),
        p_none: f(found.p_none),
        n_considered: found.n_considered,
        n_passed_dlr: found.n_passed_dlr,
        bits: found,
    })
}

#[derive(Clone, Debug, PartialEq)]
struct StoredHostCandidate {
    objname: Option<String>,
    catalog: Option<String>,
    sep_arcsec: f64,
    sep_kpc: Option<f64>,
    d_dlr: f64,
    dlr_rank: u32,
    posterior: f64,
    dist_mpc: Option<f64>,
    dist_mpc_method: Option<String>,
}

#[derive(Clone, Debug, PartialEq)]
struct HostGalaxyAssociation {
    best_host: Option<StoredHostCandidate>,
    candidates: Vec<StoredHostCandidate>,
    n_candidates_searched: u32,
    n_candidates_after_dlr_cut: u32,
    p_host_none: f64,
}

impl HostGalaxyAssociation {
    fn read(kept: &stored::HostGalaxyAssociation) -> HostGalaxyAssociation {
        let one = |c: &stored::StoredHostCandidate| StoredHostCandidate {
            objname: c.objname.clone(),
            catalog: c.catalog.clone(),
            sep_arcsec: f(c.sep_arcsec),
            sep_kpc: c.sep_kpc.map(f),
            d_dlr: f(c.d_dlr),
            dlr_rank: c.dlr_rank,
            posterior: f(c.posterior),
            dist_mpc: c.dist_mpc.map(f),
            dist_mpc_method: c.dist_mpc_method.clone(),
        };
        HostGalaxyAssociation {
            best_host: kept.best_host.as_ref().map(one),
            candidates: kept.candidates.iter().map(one).collect(),
            n_candidates_searched: kept.n_candidates_searched,
            n_candidates_after_dlr_cut: kept.n_candidates_after_dlr_cut,
            p_host_none: f(kept.p_host_none),
        }
    }

    fn from_result(result: &AssociationResult) -> HostGalaxyAssociation {
        let kpc = kpc_of(&result.bits);
        HostGalaxyAssociation::read(&stored::HostGalaxyAssociation::from_result(
            &result.bits,
            &kpc,
        ))
    }

    fn empty() -> HostGalaxyAssociation {
        HostGalaxyAssociation::read(&stored::HostGalaxyAssociation::empty())
    }
}

fn kpc_of(result: &ranking::AssociationResult) -> Vec<Double> {
    result
        .candidates
        .iter()
        .map(|c| {
            let distance = c.galaxy.dist_mpc.map(f).unwrap_or(0.0);
            d(f(c.separation_arcsec) / ARCSEC_PER_RADIAN * distance * 1000.0)
        })
        .collect()
}

fn associate_from_xmatches(
    ra: f64,
    dec: f64,
    xmatches: &Named<Vec<Document>>,
    config: &HostGalaxyConfig,
) -> Option<HostGalaxyAssociation> {
    let galaxies = collect_galaxies(xmatches, config);
    let result =
        associate_host(&Transient::new(ra, dec), &galaxies, &config.association_config());
    let kpc = result.as_ref().map(|r| kpc_of(&r.bits)).unwrap_or_default();
    stored::associate_from_xmatches(&config.bits(), &result.map(|r| r.bits), &kpc)
        .as_ref()
        .map(HostGalaxyAssociation::read)
}

fn make_galaxy(ra: f64, dec: f64, a: f64, b: f64, pa: f64) -> GalaxyCandidate {
    GalaxyCandidate {
        ra,
        dec,
        a_arcsec: a,
        b_arcsec: b,
        pa_deg: pa,
        redshift: None,
        redshift_err: None,
        dist_mpc: None,
        dist_mpc_method: None,
        mag: None,
        mag_err: None,
        objtype: None,
        objname: None,
        catalog: None,
        size_is_isophotal: true,
        diam_survey: None,
        orientation_is_nominal: false,
    }
}

fn galaxy(dec_offset_arcsec: f64, dist_mpc: Option<f64>) -> GalaxyCandidate {
    GalaxyCandidate {
        redshift: Some(0.004),
        redshift_err: Some(0.000_1),
        dist_mpc,
        dist_mpc_method: dist_mpc.map(|_| "zIndependent".to_string()),
        objtype: Some("G".to_string()),
        objname: Some("test-galaxy".to_string()),
        catalog: Some("NED".to_string()),
        ..make_galaxy(180.0, 45.0 + dec_offset_arcsec / 3600.0, 20.0, 10.0, 0.0)
    }
}

fn ned_doc() -> Document {
    doc(vec![
        ("_id", b("NGC 4321")),
        ("ra", b(185.728_75)),
        ("dec", b(15.822_3)),
        ("objtype", b("G")),
        ("z", b(0.005_24)),
        ("z_unc", b(0.000_01)),
        ("Diam", b(444.0_f64)),
        ("Diam_ba", b(0.87_f64)),
        ("Diam_pa", b(30.0_f64)),
        ("Diam_survey", b("SGA")),
    ])
}

/// M100, a large face-on spiral: a = 222 arcsec.
fn ngc4321() -> Document {
    let mut d = ned_doc();
    remove(&mut d, "Diam_survey");
    d.insert("DistMpc", b(16.8_f64));
    d
}

fn ls_doc(id: &str, ra: f64, dec: f64) -> Document {
    doc(vec![
        ("_id", b(id)),
        ("ra", b(ra)),
        ("dec", b(dec)),
        ("objtype", b("SER")),
        ("shape_r", b(1.5_f64)),
        ("shape_e1", b(0.2_f64)),
        ("shape_e2", b(0.0_f64)),
    ])
}

/// A REX row that passes every cut: resolved, well measured, unblended.
fn good_rex() -> Document {
    doc(vec![
        ("_id", b("ls-rex")),
        ("ra", b(10.0)),
        ("dec", b(20.0)),
        ("objtype", b("REX")),
        ("shape_r", b(1.2_f64)),
        ("shape_e1", b(0.0_f64)),
        ("shape_e2", b(0.0_f64)),
        ("flux_r", b(100.0_f64)),
        ("flux_ivar_r", b(1.0_f64)),
        ("fracflux_r", b(0.1_f64)),
    ])
}

fn accepted(doc: &Document) -> bool {
    galaxy_from_ls_dr10(doc, &HostGalaxyConfig::default()).is_some()
}

fn ned(objtype: &str, ba: f64, survey: &str) -> Document {
    doc(vec![
        ("_id", b("NGC 1234")),
        ("ra", b(10.0)),
        ("dec", b(20.0)),
        ("Diam", b(60.0)),
        ("Diam_ba", b(ba)),
        ("Diam_pa", b(90.0)),
        ("objtype", b(objtype)),
        ("Diam_survey", b(survey)),
    ])
}

fn enabled_config() -> HostGalaxyConfig {
    HostGalaxyConfig { enabled: true, ..Default::default() }
}

#[test]
fn test_offset_prior_in_range() {
    assert_close(offset_prior(3.0, 10.0), 0.1);
}

#[test]
fn test_offset_prior_at_boundary() {
    assert_close(offset_prior(10.0, 10.0), 0.1);
    assert_close(offset_prior(0.0, 10.0), 0.1);
}

#[test]
fn test_offset_prior_out_of_range() {
    assert_close(offset_prior(11.0, 10.0), 0.0);
    assert_close(offset_prior(-1.0, 10.0), 0.0);
}

#[test]
fn test_offset_prior_degenerate_max() {
    assert_close(offset_prior(0.0, 0.0), 0.0);
    assert_close(offset_prior(1.0, -5.0), 0.0);
}

#[test]
fn test_p_outside_no_candidates() {
    assert_close(p_outside(0), 0.5);
}

#[test]
fn test_p_outside_with_candidates() {
    assert_close(p_outside(5), 0.01);
}

#[test]
fn test_offset_likelihood_zero() {
    assert_close(offset_likelihood(0.0), OFFSET_LIKELIHOOD_AT_ZERO);
}

#[test]
fn test_offset_likelihood_decreasing() {
    let l1 = offset_likelihood(0.1);
    let l2 = offset_likelihood(1.0);
    let l3 = offset_likelihood(5.0);
    assert!(l1 > l2);
    assert!(l2 > l3);
}

#[test]
fn test_offset_likelihood_at_one() {
    let expected = (-1.0_f64).exp() / GAMMA_0_75;
    assert_close_within(offset_likelihood(1.0), expected, 1e-10);
}

#[test]
fn test_offset_likelihood_rejects_bad_input() {
    assert_close(offset_likelihood(-1.0), 0.0);
    assert_close(offset_likelihood(f64::NAN), 0.0);
    assert_close(offset_likelihood(f64::INFINITY), 0.0);
}

#[test]
fn test_ellipse_new() {
    let e = Ellipse::new(2.0, 1.0, 45.0).unwrap();
    assert_close(e.a, 2.0);
    assert_close(e.b, 1.0);
    assert_close(e.axis_ratio, 0.5);
    assert_close(e.pa_rad, std::f64::consts::FRAC_PI_4);
}

#[test]
fn test_ellipse_swaps_axes() {
    let e = Ellipse::new(1.0, 3.0, 0.0).unwrap();
    assert_close(e.a, 3.0);
    assert_close(e.b, 1.0);
}

#[test]
fn test_ellipse_invalid() {
    assert!(Ellipse::new(-1.0, 1.0, 0.0).is_err());
    assert!(Ellipse::new(1.0, 0.0, 0.0).is_err());
}

#[test]
fn test_ellipse_non_finite() {
    // NED-LVS stores absent diameters as null, which must not reach the DLR.
    assert!(Ellipse::new(f64::NAN, 1.0, 0.0).is_err());
    assert!(Ellipse::new(2.0, 1.0, f64::NAN).is_err());
}

#[test]
fn test_from_tractor_round() {
    let e = Ellipse::from_tractor(1.5, 0.0, 0.0, 0.05).unwrap();
    assert_close(e.a, 1.5);
    assert_close(e.b, 1.5);
    assert_close(e.axis_ratio, 1.0);
}

#[test]
fn test_from_tractor_elongated() {
    let e = Ellipse::from_tractor(2.0, 0.5, 0.0, 0.05).unwrap();
    assert_close_within(e.b, 2.0 * (0.5 / 1.5), 1e-10);
}

#[test]
fn test_from_tractor_min_b_floor() {
    let e = Ellipse::from_tractor(0.1, 0.99, 0.0, 0.05).unwrap();
    assert_close(e.b, 0.05);
}

#[test]
fn test_from_tractor_pa_is_east_of_north() {
    // Tractor's 0.5*atan2(e2, e1) is already east of north, matching NED's Diam_pa.
    assert_close(
        Ellipse::from_tractor(2.0, 0.5, 0.0, 0.05).unwrap().pa_rad,
        0.0);
    assert_close(
        Ellipse::from_tractor(2.0, -0.5, 0.0, 0.05).unwrap().pa_rad,
        FRAC_PI_2);
    assert_close(
        Ellipse::from_tractor(2.0, 0.0, 0.5, 0.05).unwrap().pa_rad,
        FRAC_PI_4);
}

#[test]
fn test_from_tractor_invalid() {
    assert!(Ellipse::from_tractor(0.0, 0.0, 0.0, 0.05).is_err());
    assert!(Ellipse::from_tractor(1.0, f64::NAN, 0.0, 0.05).is_err());
}

#[test]
fn test_dlr_on_center() {
    let e = Ellipse::new(2.0, 1.0, 0.0).unwrap();
    let result = compute_dlr(180.0, 45.0, 180.0, 45.0, &e);
    assert_close(result.separation_arcsec, 0.0);
    assert_close(result.fractional_offset, 0.0);
}

#[test]
fn test_dlr_along_major_axis_at_pa_zero() {
    let e = Ellipse::new(4.0, 2.0, 0.0).unwrap();
    let result = compute_dlr(0.0, 2.0 / 3600.0, 0.0, 0.0, &e);
    assert_close_within(result.separation_arcsec, 2.0, 0.01);
    assert_close_within(result.directional_radius, 4.0, 0.01);
    assert_close_within(result.fractional_offset, 0.5, 0.01);
}

#[test]
fn test_dlr_along_minor_axis_at_pa_zero() {
    let e = Ellipse::new(4.0, 2.0, 0.0).unwrap();
    let result = compute_dlr(2.0 / 3600.0, 0.0, 0.0, 0.0, &e);
    assert_close_within(result.separation_arcsec, 2.0, 0.01);
    assert_close_within(result.directional_radius, 2.0, 0.01);
    assert_close_within(result.fractional_offset, 1.0, 0.01);
}

#[test]
fn test_dlr_convention_at_pa_ninety() {
    // At PA=90 the major axis lies east-west.
    let e = Ellipse::new(4.0, 2.0, 90.0).unwrap();
    let east = compute_dlr(2.0 / 3600.0, 0.0, 0.0, 0.0, &e);
    assert_close_within(east.directional_radius, 4.0, 0.01);
    let north = compute_dlr(0.0, 2.0 / 3600.0, 0.0, 0.0, &e);
    assert_close_within(north.directional_radius, 2.0, 0.01);
}

#[test]
fn test_dlr_circular_galaxy() {
    let e = Ellipse::new(3.0, 3.0, 0.0).unwrap();
    let result = compute_dlr(10.001, 45.0, 10.0, 45.0, &e);
    assert_close_within(result.directional_radius, 3.0, 0.01);
}

#[test]
fn test_dlr_ra_wraparound() {
    let e = Ellipse::new(3.0, 3.0, 0.0).unwrap();
    let r1 = compute_dlr(359.999, 0.0, 0.001, 0.0, &e);
    assert_close_within(r1.separation_arcsec, 7.2, 0.01);
}

#[test]
fn test_dlr_ra_wraparound_at_high_dec() {
    // Wrapping after the cos(dec)*3600 scaling gives ~648000 arcsec here.
    let e = Ellipse::new(3.0, 3.0, 0.0).unwrap();
    let r = compute_dlr(359.999, 60.0, 0.001, 60.0, &e);
    assert_close_within(r.separation_arcsec, 3.6, 0.01);
}

#[test]
fn test_dlr_symmetric_across_ra_zero() {
    let e = Ellipse::new(5.0, 2.0, 30.0).unwrap();
    let a = compute_dlr(359.999, 0.0, 0.001, 0.0, &e);
    let b = compute_dlr(0.001, 0.0, 359.999, 0.0, &e);
    assert_close_within(a.separation_arcsec, b.separation_arcsec, 1e-9);
    assert_close_within(a.directional_radius, b.directional_radius, 1e-9);
}

#[test]
fn test_dlr_scales_with_cos_dec() {
    let e = Ellipse::new(3.0, 3.0, 0.0).unwrap();
    let equator = compute_dlr(0.001, 0.0, 0.0, 0.0, &e);
    let high_dec = compute_dlr(0.001, 60.0, 0.0, 60.0, &e);
    assert_close_within(
        high_dec.separation_arcsec,
        equator.separation_arcsec * 0.5, 1e-6);
}

#[test]
fn test_disabled_by_default() {
    assert!(!HostGalaxyConfig::default().enabled);
}

#[test]
fn test_association_config_carries_the_cuts_over() {
    let config = HostGalaxyConfig {
        max_dlr: 4.0,
        max_candidates: 3,
        ..Default::default()
    };
    let association = config.association_config();
    assert_close(association.max_fractional_offset, 4.0);
    assert_eq!(association.max_candidates, 3);
}

/// A measured non-positive flux is a row with no signal, not a row with no
/// measurement, so it must not pass the S/N cut by skipping it.
#[test]
fn test_rex_with_no_positive_flux_is_rejected() {
    let config = HostGalaxyConfig::default();
    let usable = doc(vec![
        ("shape_r", b(config.rex_min_shape_r_arcsec + 1.0)),
        ("flux_r", b(100.0)),
        ("flux_ivar_r", b(100.0)),
    ]);
    assert!(
        !rejected_as_marginal_rex(&usable, &config),
        "a bright, well-measured REX should survive"
    );

    for flux in [0.0, -5.0] {
        let mut doc = usable.copy();
        doc.insert("flux_r", b(flux));
        assert!(
            rejected_as_marginal_rex(&doc, &config),
            "flux_r {flux} was accepted"
        );
    }

    // An absent measurement still must not reject the row.
    let unmeasured = doc(vec![
        ("shape_r", b(config.rex_min_shape_r_arcsec + 1.0)),
    ]);
    assert!(!rejected_as_marginal_rex(&unmeasured, &config));
}

#[test]
fn test_legacy_redshift_rejects_the_absent_sentinel() {
    let doc = doc(vec![
        ("z_spec", b(-99.0)),
        ("z_phot_median", b(0.21)),
        ("z_phot_std", b(-99.0)),
    ]);
    assert_eq!(legacy_redshift(&doc, "z_spec"), None);
    assert_eq!(legacy_redshift(&doc, "z_phot_median"), Some(0.21));
    assert_eq!(legacy_redshift(&doc, "z_phot_std"), None);
    assert_eq!(legacy_redshift(&doc, "missing"), None);
}

#[test]
fn test_from_ned_maps_diameter_to_semi_major() {
    let g = galaxy_from_ned(&ned_doc(), &HostGalaxyConfig::default()).unwrap();
    assert_close(g.a_arcsec, 222.0);
    assert_close(g.b_arcsec, 222.0 * 0.87);
    assert_close(g.pa_deg, 30.0);
    assert_close(g.redshift.unwrap(), 0.005_24);
    assert_eq!(g.objname.as_deref(), Some("NGC 4321"));
    assert_eq!(g.catalog.as_deref(), Some(NED));
}

#[test]
fn test_from_ned_rejects_rows_without_a_diameter() {
    // The ~19% of NED-LVS with no diameter arrives as explicit nulls.
    let mut d = ned_doc();
    d.insert("Diam", b(Bson::Null));
    d.insert("Diam_ba", b(Bson::Null));
    d.insert("Diam_pa", b(Bson::Null));
    assert!(galaxy_from_ned(&d, &HostGalaxyConfig::default()).is_none());

    let mut d = ned_doc();
    remove(&mut d, "Diam");
    assert!(galaxy_from_ned(&d, &HostGalaxyConfig::default()).is_none());

    let mut d = ned_doc();
    d.insert("Diam", b(0.0_f64));
    assert!(galaxy_from_ned(&d, &HostGalaxyConfig::default()).is_none());
}

#[test]
fn test_from_ned_missing_axis_ratio_is_circular() {
    let mut d = ned_doc();
    d.insert("Diam_ba", b(Bson::Null));
    d.insert("Diam_pa", b(Bson::Null));
    let g = galaxy_from_ned(&d, &HostGalaxyConfig::default()).unwrap();
    assert_close(g.b_arcsec, g.a_arcsec);
    assert_close(g.pa_deg, 0.0);
}

#[test]
fn test_from_ned_requires_a_position() {
    let mut d = ned_doc();
    d.insert("ra", b(Bson::Null));
    assert!(galaxy_from_ned(&d, &HostGalaxyConfig::default()).is_none());
}

#[test]
fn test_from_ned_empty_strings_are_absent() {
    // Absent string columns arrive as "" from the ingest.
    let mut d = ned_doc();
    d.insert("objtype", b(""));
    let g = galaxy_from_ned(&d, &HostGalaxyConfig::default()).unwrap();
    assert!(g.objtype.is_none());
}

#[test]
fn test_from_ned_carries_distance_and_its_method() {
    // NED-LVS fills dist_mpc for every row, only ~1% redshift-independently.
    let mut d = ned_doc();
    d.insert("DistMpc", b(16.8_f64));
    d.insert("DistMpc_method", b("zIndependent"));
    let g = galaxy_from_ned(&d, &HostGalaxyConfig::default()).unwrap();
    assert_close(g.dist_mpc.unwrap(), 16.8);
    assert_eq!(g.dist_mpc_method.as_deref(), Some("zIndependent"));

    let mut d = ned_doc();
    d.insert("DistMpc", b(3200.0_f64));
    d.insert("DistMpc_method", b("Redshift"));
    let g = galaxy_from_ned(&d, &HostGalaxyConfig::default()).unwrap();
    assert_eq!(g.dist_mpc_method.as_deref(), Some("Redshift"));

    let g = galaxy_from_ned(&ned_doc(), &HostGalaxyConfig::default()).unwrap();
    assert!(g.dist_mpc.is_none());
    assert!(g.dist_mpc_method.is_none());
}

#[test]
fn test_from_ls_dr10_uses_tractor_shape() {
    let g =
        galaxy_from_ls_dr10(&ls_doc("ls-1", 10.0, 20.0), &HostGalaxyConfig::default()).unwrap();
    assert_close(g.a_arcsec, 1.5);
    assert_close_within(g.b_arcsec, 1.5 * (0.8 / 1.2), 1e-9);
    assert_eq!(g.catalog.as_deref(), Some(LS_DR10));
}

#[test]
fn test_from_ls_dr10_excludes_point_sources() {
    let config = HostGalaxyConfig::default();
    let mut d = ls_doc("ls-1", 10.0, 20.0);
    d.insert("objtype", b("PSF"));
    assert!(galaxy_from_ls_dr10(&d, &config).is_none());

    let config = HostGalaxyConfig {
        exclude_star_like: false,
        ..Default::default()
    };
    assert!(galaxy_from_ls_dr10(&d, &config).is_some());
}

#[test]
fn test_from_ls_dr10_requires_a_shape() {
    let config = HostGalaxyConfig::default();
    let mut d = ls_doc("ls-1", 10.0, 20.0);
    d.insert("shape_r", b(Bson::Null));
    assert!(galaxy_from_ls_dr10(&d, &config).is_none());
}

#[test]
fn test_collect_prefers_ned_and_drops_shredded_fragments() {
    let config = HostGalaxyConfig::default();
    // NGC 4321 spans a = 222 arcsec, so rows landing inside it are fragments.
    let inside_a = ls_doc("frag-1", 185.728_75, 15.822_3 + 20.0 / 3600.0);
    let inside_b = ls_doc("frag-2", 185.728_75 + 25.0 / 3600.0, 15.822_3);
    let outside = ls_doc("other", 185.728_75 + 600.0 / 3600.0, 15.822_3);

    let mut xmatches = Named::new();
    xmatches.insert(&config.ned_catalog, vec![ned_doc()]);
    xmatches.insert(
        &config.ls_dr10_catalog,
        vec![inside_a, inside_b, outside],
    );

    let galaxies = collect_galaxies(&xmatches, &config);

    assert_eq!(galaxies.len(), 2, "fragments should be absorbed");
    assert_eq!(galaxies[0].catalog.as_deref(), Some(NED));
    assert_eq!(galaxies[1].objname.as_deref(), Some("other"));
}

#[test]
fn test_collect_falls_back_to_ls_when_ned_has_no_shape() {
    let config = HostGalaxyConfig::default();
    let mut no_diam = ned_doc();
    no_diam.insert("Diam", b(Bson::Null));

    let mut xmatches = Named::new();
    xmatches.insert(&config.ned_catalog, vec![no_diam]);
    xmatches.insert(
        &config.ls_dr10_catalog,
        vec![ls_doc("ls-1", 185.728_75, 15.822_3)],
    );

    let galaxies = collect_galaxies(&xmatches, &config);
    assert_eq!(galaxies.len(), 1);
    assert_eq!(galaxies[0].catalog.as_deref(), Some(LS_DR10));
}

#[test]
fn test_collect_handles_missing_catalogs() {
    let config = HostGalaxyConfig::default();
    assert!(collect_galaxies(&Named::new(), &config).is_empty());
}

#[test]
fn test_well_measured_rex_is_kept() {
    assert!(accepted(&good_rex()));
}

#[test]
fn test_small_rex_is_rejected() {
    let mut d = good_rex();
    d.insert("shape_r", b(0.2_f64));
    assert!(!accepted(&d));
}

#[test]
fn test_low_snr_rex_is_rejected() {
    let mut d = good_rex();
    // snr = flux * sqrt(ivar) = 2, below the default cut of 5.
    d.insert("flux_r", b(2.0_f64));
    d.insert("flux_ivar_r", b(1.0_f64));
    assert!(!accepted(&d));
}

#[test]
fn test_blended_rex_is_rejected() {
    let mut d = good_rex();
    d.insert("fracflux_r", b(0.9_f64));
    assert!(!accepted(&d));
}

#[test]
fn test_rex_without_a_signal_to_noise_measurement_is_still_judged_on_size() {
    for key in ["flux_r", "flux_ivar_r"] {
        let mut d = good_rex();
        remove(&mut d, key);
        assert!(
            accepted(&d),
            "REX missing {key} has no S/N to judge, so size and blending decide"
        );
    }

    let mut small = good_rex();
    remove(&mut small, "flux_ivar_r");
    small.insert("shape_r", b(0.05_f64));
    assert!(!accepted(&small), "an unmeasurable REX is still too small");
}

#[test]
fn test_rex_cuts_do_not_apply_to_other_types() {
    for objtype in ["EXP", "DEV", "SER"] {
        let mut d = good_rex();
        d.insert("objtype", b(objtype));
        d.insert("shape_r", b(0.2_f64));
        d.insert("flux_r", b(2.0_f64));
        assert!(accepted(&d), "{objtype} should not face the REX cuts");
    }
}

#[test]
fn test_legacy_shape_is_rescaled_to_the_isophote() {
    let mut d = good_rex();
    d.insert("shape_r", b(2.0_f64));
    d.insert("flux_r", b(1000.0_f64)); // ~15 mag, comfortably above the isophote
    let g = galaxy_from_ls_dr10(&d, &HostGalaxyConfig::default()).expect("kept");
    assert!(
        g.a_arcsec > 2.0,
        "semi-major {} should exceed R_e = 2 after conversion",
        g.a_arcsec
    );
}

#[test]
fn test_row_without_flux_keeps_its_half_light_radius() {
    let mut d = good_rex();
    d.insert("objtype", b("EXP"));
    remove(&mut d, "flux_r");
    let g = galaxy_from_ls_dr10(&d, &HostGalaxyConfig::default()).expect("kept");
    assert!((g.a_arcsec - 1.2).abs() < 1e-9, "got {}", g.a_arcsec);
}

#[test]
fn test_conversion_preserves_the_axis_ratio() {
    let mut d = good_rex();
    d.insert("objtype", b("EXP"));
    d.insert("shape_e1", b(0.3_f64));
    d.insert("flux_r", b(1000.0_f64));
    let mut unconverted = d.copy();
    remove(&mut unconverted, "flux_r");

    let converted = galaxy_from_ls_dr10(&d, &HostGalaxyConfig::default()).unwrap();
    let plain = galaxy_from_ls_dr10(&unconverted, &HostGalaxyConfig::default()).unwrap();
    let q_converted = converted.b_arcsec / converted.a_arcsec;
    let q_plain = plain.b_arcsec / plain.a_arcsec;
    assert!(
        (q_converted - q_plain).abs() < 1e-9,
        "axis ratio changed: {q_converted} vs {q_plain}"
    );
    assert!(converted.a_arcsec > plain.a_arcsec);
}

#[test]
fn test_non_host_object_types_are_excluded() {
    let config = HostGalaxyConfig::default();
    for objtype in ["QSO", "AbLS", "EmLS", "EmObj", "Q_Lens", "G_Lens"] {
        assert!(
            galaxy_from_ned(&ned(objtype, 0.5, "SDSS"), &config).is_none(),
            "{objtype} should not be a host candidate"
        );
    }
    assert!(galaxy_from_ned(&ned("G", 0.5, "SDSS"), &config).is_some());
}

#[test]
fn test_axis_ratio_is_bounded_rather_than_the_minor_axis() {
    let config = HostGalaxyConfig::default();

    assert!(galaxy_from_ned(&ned("G", 0.02, "SDSS"), &config).is_none());

    let pinned = galaxy_from_ned(&ned("G", 0.07, "SDSS"), &config).expect("pinned");
    assert_close(pinned.a_arcsec, 30.0);
    assert_close(pinned.b_arcsec, 30.0 * config.pinned_axis_ratio);

    let kept = galaxy_from_ned(&ned("G", 0.4, "SDSS"), &config).expect("kept");
    assert_close(kept.b_arcsec, 30.0 * 0.4);
}

#[test]
fn test_a_2mass_orientation_is_flagged_as_nominal() {
    let config = HostGalaxyConfig::default();

    let two_mass = galaxy_from_ned(&ned("G", 0.4, "2MASS"), &config).expect("2mass");
    assert_eq!(two_mass.diam_survey.as_deref(), Some("2MASS"));
    assert!(two_mass.orientation_is_nominal);

    // Round: the position angle carries no information either way.
    let round = galaxy_from_ned(&ned("G", 1.0, "2MASS"), &config).expect("round");
    assert!(!round.orientation_is_nominal);

    let sdss = galaxy_from_ned(&ned("G", 0.4, "SDSS"), &config).expect("sdss");
    assert!(!sdss.orientation_is_nominal);
}

#[test]
fn test_duplicate_rows_are_excluded_with_point_sources() {
    let config = HostGalaxyConfig::default();
    for objtype in ["PSF", "DUP"] {
        let d = doc(vec![
        ("_id", b("x")),
        ("ra", b(10.0)),
        ("dec", b(20.0)),
        ("objtype", b(objtype)),
        ("shape_r", b(2.0)),
        ("shape_e1", b(0.1)),
        ("shape_e2", b(0.0)),
        ("flux_r", b(100.0)),
    ]);
        assert!(
            galaxy_from_ls_dr10(&d, &config).is_none(),
            "{objtype} has no galaxy extent"
        );
    }
}

#[test]
fn test_a_half_light_fallback_is_reported() {
    let config = HostGalaxyConfig::default();
    let base = doc(vec![
        ("_id", b("x")),
        ("ra", b(10.0)),
        ("dec", b(20.0)),
        ("objtype", b("EXP")),
        ("shape_r", b(2.0)),
        ("shape_e1", b(0.1)),
        ("shape_e2", b(0.0)),
        ("flux_r", b(100.0)),
    ]);
    let converted = galaxy_from_ls_dr10(&base, &config).expect("converted");
    assert!(converted.size_is_isophotal);

    // No flux, so no total magnitude, so no isophote.
    let mut no_flux = base.copy();
    remove(&mut no_flux, "flux_r");
    let fallback = galaxy_from_ls_dr10(&no_flux, &config).expect("still a candidate");
    assert!(!fallback.size_is_isophotal);

    // A SER row without a Sersic index falls back to its half-light radius.
    let mut ser = base.copy();
    ser.insert("objtype", b("SER"));
    let ser = galaxy_from_ls_dr10(&ser, &config).expect("ser");
    assert!(!ser.size_is_isophotal);
}

#[test]
fn test_associate_single_nearby() {
    let transient = Transient::new(180.0, 45.0);
    let galaxy = make_galaxy(180.0, 45.0 + 1.0 / 3600.0, 5.0, 3.0, 0.0);

    let result = associate_host(&transient, &[galaxy], &AssociationConfig::default()).unwrap();

    assert_eq!(result.candidates.len(), 1);
    assert!(result.candidates[0].posterior > 0.5);
    assert!(result.p_none < 0.5);
}

#[test]
fn test_associate_empty() {
    let transient = Transient::new(180.0, 45.0);
    assert!(associate_host(&transient, &[], &AssociationConfig::default()).is_err());
}

#[test]
fn test_associate_ranking() {
    let transient = Transient::new(180.0, 45.0);
    let g1 = make_galaxy(180.0, 45.0 + 0.5 / 3600.0, 5.0, 3.0, 0.0);
    let g2 = make_galaxy(180.0, 45.0 + 10.0 / 3600.0, 5.0, 3.0, 0.0);

    let result = associate_host(&transient, &[g1, g2], &AssociationConfig::default()).unwrap();

    assert_eq!(result.candidates.len(), 2);
    assert!(result.candidates[0].posterior > result.candidates[1].posterior);
    assert_eq!(result.candidates[0].dlr_rank, 1);
    assert_eq!(result.candidates[1].dlr_rank, 2);
}

#[test]
fn test_posteriors_sum_to_one() {
    let transient = Transient::new(180.0, 45.0);
    let galaxies: Vec<GalaxyCandidate> = (1..=5)
        .map(|i| make_galaxy(180.0, 45.0 + (i as f64) / 3600.0, 4.0, 2.0, 0.0))
        .collect();

    let result = associate_host(&transient, &galaxies, &AssociationConfig::default()).unwrap();

    let sum: f64 = result.candidates.iter().map(|c| c.posterior).sum::<f64>() + result.p_none;
    assert_close_within(sum, 1.0, 1e-6);
}

#[test]
fn test_dlr_rank_numbers_candidates_by_offset() {
    let transient = Transient::new(180.0, 45.0);
    let near = make_galaxy(180.0, 45.0 + 1.0 / 3600.0, 5.0, 3.0, 0.0);
    let far = make_galaxy(180.0, 45.0 + 4.0 / 3600.0, 5.0, 3.0, 0.0);

    let result =
        associate_host(&transient, &[far, near], &AssociationConfig::default()).unwrap();

    // Input order does not set the rank; fractional offset does.
    assert_eq!(result.candidates[0].dlr_rank, 1);
    assert!(result.candidates[0].fractional_offset < result.candidates[1].fractional_offset);
}

#[test]
fn test_skips_unusable_shapes_but_keeps_the_rest() {
    let transient = Transient::new(180.0, 45.0);
    let good = make_galaxy(180.0, 45.0 + 1.0 / 3600.0, 5.0, 3.0, 0.0);
    let no_shape = make_galaxy(180.0, 45.0 + 1.0 / 3600.0, 0.0, 0.0, 0.0);
    let nan_shape = make_galaxy(180.0, 45.0 + 1.0 / 3600.0, f64::NAN, f64::NAN, 0.0);

    let result = associate_host(
        &transient,
        &[no_shape, good, nan_shape],
        &AssociationConfig::default(),
    )
    .unwrap();

    assert_eq!(result.candidates.len(), 1);
    assert_eq!(result.n_considered, 3);
    assert_close(result.candidates[0].galaxy.a_arcsec, 5.0);
}

#[test]
fn test_all_candidates_beyond_cutoff() {
    let transient = Transient::new(180.0, 45.0);
    // d_DLR = 100, far past the cutoff.
    let far = make_galaxy(180.0, 45.0 + 100.0 / 3600.0, 1.0, 1.0, 0.0);

    let result = associate_host(&transient, &[far], &AssociationConfig::default()).unwrap();

    assert!(result.candidates.is_empty());
    assert_close(result.p_none, 1.0);
    assert_eq!(result.n_considered, 1);
}

#[test]
fn test_truncation_does_not_inflate_posteriors() {
    let transient = Transient::new(180.0, 45.0);
    let galaxies: Vec<GalaxyCandidate> = (1..=8)
        .map(|i| make_galaxy(180.0, 45.0 + (i as f64) / 3600.0, 4.0, 2.0, 0.0))
        .collect();

    let config = AssociationConfig {
        max_candidates: 3,
        ..Default::default()
    };
    let result = associate_host(&transient, &galaxies, &config).unwrap();

    assert_eq!(result.candidates.len(), 3);
    // Normalised over all 8, so the returned three sum to well under 1.
    let sum: f64 = result.candidates.iter().map(|c| c.posterior).sum();
    assert!(sum + result.p_none < 1.0);
    assert!(result.candidates.iter().all(|c| c.posterior <= 1.0));
}

#[test]
fn test_flattens_and_picks_best_host() {
    let transient = Transient::new(180.0, 45.0);
    let result = associate_host(
        &transient,
        &[galaxy(5.0, None), galaxy(15.0, None)],
        &AssociationConfig::default(),
    )
    .unwrap();

    let stored = HostGalaxyAssociation::from_result(&result);

    assert_eq!(stored.candidates.len(), 2);
    assert_eq!(stored.n_candidates_searched, 2);
    assert_eq!(stored.n_candidates_after_dlr_cut, 2);
    let best = stored.best_host.as_ref().unwrap();
    assert_eq!(best, &stored.candidates[0]);
    assert!(best.posterior >= stored.candidates[1].posterior);
    assert_eq!(best.dlr_rank, 1);
    assert_eq!(best.catalog.as_deref(), Some("NED"));
}

#[test]
fn test_sep_kpc_computed_only_with_a_distance() {
    let transient = Transient::new(180.0, 45.0);

    let without = HostGalaxyAssociation::from_result(
        &associate_host(
            &transient,
            &[galaxy(5.0, None)],
            &AssociationConfig::default(),
        )
        .unwrap(),
    );
    assert!(without.best_host.unwrap().sep_kpc.is_none());

    let with = HostGalaxyAssociation::from_result(
        &associate_host(
            &transient,
            &[galaxy(5.0, Some(16.8))],
            &AssociationConfig::default(),
        )
        .unwrap(),
    );
    let best = with.best_host.unwrap();
    assert_close_within(
        best.sep_kpc.unwrap(),
        5.0 / ARCSEC_PER_RADIAN * 16.8 * 1000.0, 1e-9);
    assert!(best.sep_kpc.unwrap() < 1.0);
    assert_eq!(best.dist_mpc_method.as_deref(), Some("zIndependent"));
}

#[test]
fn test_empty_association_is_well_formed() {
    let empty = HostGalaxyAssociation::empty();
    assert!(empty.best_host.is_none());
    assert!(empty.candidates.is_empty());
    assert_close(empty.p_host_none, 1.0);
}

#[test]
fn test_no_surviving_candidates_reports_p_none_one() {
    let transient = Transient::new(180.0, 45.0);
    // 500 arcsec from a 20 arcsec galaxy: far beyond the cutoff.
    let result = associate_host(
        &transient,
        &[galaxy(500.0, None)],
        &AssociationConfig::default(),
    )
    .unwrap();

    let stored = HostGalaxyAssociation::from_result(&result);
    assert!(stored.best_host.is_none());
    assert_eq!(stored.n_candidates_searched, 1);
    assert_eq!(stored.n_candidates_after_dlr_cut, 0);
    assert_close(stored.p_host_none, 1.0);
}

#[test]
fn test_disabled_returns_none() {
    let mut xmatches = Named::new();
    xmatches.insert(NED, vec![ngc4321()]);
    assert!(associate_from_xmatches(
        185.728_75,
        15.822_3,
        &xmatches,
        &HostGalaxyConfig::default()
    )
    .is_none());
}

#[test]
fn test_end_to_end_from_crossmatch_documents() {
    let mut xmatches = Named::new();
    xmatches.insert(NED, vec![ngc4321()]);

    let assoc = associate_from_xmatches(
        185.728_75,
        15.822_3 + 30.0 / 3600.0,
        &xmatches,
        &enabled_config(),
    )
    .unwrap();

    let best = assoc.best_host.as_ref().unwrap();
    assert_eq!(best.objname.as_deref(), Some("NGC 4321"));
    assert_eq!(best.catalog.as_deref(), Some(NED));
    assert_close_within(best.sep_arcsec, 30.0, 0.01);
    assert!(best.d_dlr < 1.0, "d_DLR was {}", best.d_dlr);
    assert!(best.posterior > 0.5);
    assert!(best.sep_kpc.unwrap() > 0.0);
    assert_close(best.dist_mpc.unwrap(), 16.8);
}

#[test]
fn test_no_matches_yields_empty_association() {
    let assoc =
        associate_from_xmatches(10.0, 20.0, &Named::new(), &enabled_config()).unwrap();
    assert!(assoc.best_host.is_none());
    assert_eq!(assoc.n_candidates_searched, 0);
    assert_close(assoc.p_host_none, 1.0);
}

#[test]
fn test_far_outside_every_galaxy_yields_no_host() {
    let mut xmatches = Named::new();
    xmatches.insert(NED, vec![ngc4321()]);

    let assoc =
        associate_from_xmatches(185.728_75, 15.822_3 + 1.0, &xmatches, &enabled_config())
            .unwrap();

    assert!(assoc.best_host.is_none());
    assert_eq!(assoc.n_candidates_searched, 1);
    assert_eq!(assoc.n_candidates_after_dlr_cut, 0);
    assert_close(assoc.p_host_none, 1.0);
}

#[test]
fn test_m31_scale_host_is_found_far_from_centre() {
    let m31 = doc(vec![
        ("_id", b("MESSIER 031")),
        ("ra", b(10.684_7)),
        ("dec", b(41.269_1)),
        ("objtype", b("G")),
        ("z", b(-0.001_001_f64)),
        ("Diam", b(11_400.0_f64)),
        ("Diam_ba", b(0.32_f64)),
        ("Diam_pa", b(35.0_f64)),
        ("DistMpc", b(0.79_f64)),
    ]);
    let mut xmatches = Named::new();
    xmatches.insert(NED, vec![m31]);

    // 0.4 deg north of centre = 1440 arcsec, far past any 100 arcsec circle.
    let assoc = associate_from_xmatches(10.684_7, 41.269_1 + 0.4, &xmatches, &enabled_config())
        .unwrap();

    let best = assoc.best_host.as_ref().unwrap();
    assert_eq!(best.objname.as_deref(), Some("MESSIER 031"));
    assert_close_within(best.sep_arcsec, 1440.0, 1.0);
    assert!(
        best.d_dlr < 5.0,
        "M31 should still be the host at 0.4 deg, d_DLR was {}",
        best.d_dlr
    );
}

#[test]
fn defaults_are_the_documented_ones() {
    let config = settings::HostGalaxyConfig::default();
    assert_eq!(config.ned_catalog, NED);
    assert_eq!(config.ls_dr10_catalog, LS_DR10);
    assert_eq!(f(config.max_dlr), 5.0);
    assert_eq!(f(config.min_axis_arcsec), 0.05);
    assert_eq!(f(config.min_axis_ratio), 0.05);
    assert_eq!(f(config.pinned_axis_ratio), 0.1);
    assert_eq!(config.max_candidates, 10);
    assert!(config.exclude_star_like);
    assert_eq!(f(config.rex_min_shape_r_arcsec), 0.3);
    assert_eq!(f(config.rex_min_snr), 5.0);
    assert_eq!(f(config.rex_max_fracflux), 0.5);
    assert_eq!(f(config.isophote_mag), 25.0);
    let association = ranking::AssociationConfig::default();
    assert_eq!(f(association.max_fractional_offset), 10.0);
    assert_eq!(f(association.min_b_arcsec), 0.05);
}

#[test]
fn a_row_blended_at_the_limit_is_rejected() {
    let mut d = good_rex();
    d.insert("fracflux_r", b(0.5));
    assert!(!accepted(&d));
    d.insert("fracflux_r", b(0.499));
    assert!(accepted(&d));
}

#[test]
fn each_shape_fault_is_told() {
    let zero = d(0.0);
    let invalid = |fault| Err(HostError::InvalidShape(fault));
    assert_eq!(
        shape::Ellipse::new(d(-1.0), d(1.0), zero, zero, zero),
        invalid(ShapeFault::NonPositiveAxes { a: d(-1.0), b: d(1.0) })
    );
    assert_eq!(
        shape::Ellipse::new(d(f64::INFINITY), d(1.0), zero, zero, zero),
        invalid(ShapeFault::NonFinite { a: d(f64::INFINITY), b: d(1.0), pa: zero })
    );
    assert_eq!(
        shape::Ellipse::from_tractor(zero, zero, zero, zero, zero, zero, zero),
        invalid(ShapeFault::NonPositiveRadius { shape_r: zero })
    );
    let nan = d(f64::NAN);
    assert_eq!(
        shape::Ellipse::from_tractor(d(1.0), zero, nan, zero, zero, zero, zero),
        invalid(ShapeFault::NonFiniteEllipticity { e1: zero, e2: nan })
    );
    assert_eq!(
        ranking::associate_host(
            &vec![],
            &vec![],
            &ranking::AssociationConfig::default(),
            &vec![],
            ranking::Totals { total: d(1.0), none: d(1.0) },
        )
        .unwrap_err(),
        HostError::NoCandidates
    );
}

#[test]
fn numeric_ids_name_a_galaxy() {
    let mut d = ned_doc();
    d.insert("_id", Bson::Int64(-12345678901));
    let g = galaxy_from_ned(&d, &HostGalaxyConfig::default()).unwrap();
    assert_eq!(g.objname.as_deref(), Some("-12345678901"));
    d.insert("_id", Bson::Int32(42));
    let g = galaxy_from_ned(&d, &HostGalaxyConfig::default()).unwrap();
    assert_eq!(g.objname.as_deref(), Some("42"));
    d.insert("_id", Bson::Other);
    let g = galaxy_from_ned(&d, &HostGalaxyConfig::default()).unwrap();
    assert_eq!(g.objname, None);
}

#[test]
fn a_spectroscopic_redshift_is_preferred() {
    let mut d = ls_doc("x", 10.0, 20.0);
    d.insert("z_spec", b(0.3));
    d.insert("z_phot_median", b(0.2));
    d.insert("z_phot_std", b(0.05));
    let g = galaxy_from_ls_dr10(&d, &HostGalaxyConfig::default()).unwrap();
    assert_eq!((g.redshift, g.redshift_err), (Some(0.3), None));
    d.insert("z_spec", b(-99.0));
    let g = galaxy_from_ls_dr10(&d, &HostGalaxyConfig::default()).unwrap();
    assert_eq!((g.redshift, g.redshift_err), (Some(0.2), Some(0.05)));
}

#[test]
fn a_total_that_cannot_normalise_gives_no_posteriors() {
    let galaxies = vec![make_galaxy(180.0, 45.0, 5.0, 3.0, 0.0).bits()];
    let numbers = vec![radius::DlrNumbers {
        separation: d(1.0),
        denominator: d(3.75),
        radius: d(4.0),
        offset: d(0.25),
        offset_by_axis: d(0.2),
    }];
    let scores = vec![ranking::Score { posterior_offset: d(0.5), normalised: d(7.0) }];
    let config = ranking::AssociationConfig::default();
    let run = |total: f64, none: f64| {
        let totals = ranking::Totals { total: d(total), none: d(none) };
        ranking::associate_host(&galaxies, &numbers, &config, &scores, totals).unwrap()
    };
    for total in [0.0, -1.0, f64::INFINITY, f64::NAN] {
        let found = run(total, 0.3);
        assert_eq!(f(found.p_none), 1.0);
        assert_eq!(f(found.candidates[0].posterior), 0.0);
    }
    let found = run(2.0, 1.5);
    assert_eq!(f(found.p_none), 1.0, "clamped");
    assert_eq!(f(found.candidates[0].posterior), 7.0);
    assert_eq!(found.candidates[0].dlr_rank, 1);
    assert_eq!(f(found.candidates[0].fractional_offset), 0.25);
    assert_eq!(f(found.candidates[0].dlr), 4.0);
    assert_eq!(f(found.candidates[0].posterior_absmag), 1.0);
}

#[test]
fn a_projection_is_read_only_on_a_usable_shape() {
    let numbers = |separation: f64, denominator: f64| radius::DlrNumbers {
        separation: d(separation),
        denominator: d(denominator),
        radius: d(4.0),
        offset: d(0.25),
        offset_by_axis: d(0.2),
    };
    let galaxy = make_galaxy(180.0, 45.0, 5.0, 3.0, 0.0).bits();
    let read = |n: radius::DlrNumbers| {
        let dlr = radius::dlr_in(&galaxy, d(0.5), n).unwrap();
        (f(dlr.separation_arcsec), f(dlr.directional_radius), f(dlr.fractional_offset))
    };
    assert_eq!(read(numbers(1.0, 3.75)), (1.0, 4.0, 0.25));
    assert_eq!(read(numbers(0.0, 3.75)), (0.0, 5.0, 0.0), "on the centre");
    assert_eq!(read(numbers(1.0, 0.0)), (1.0, 5.0, 0.2), "no direction");
    let unusable = make_galaxy(180.0, 45.0, f64::NAN, 3.0, 0.0).bits();
    assert!(radius::dlr_in(&unusable, d(0.5), numbers(1.0, 3.75)).is_none());
}
