//! The curves are written and read in floating point; the library works on the bit
//! patterns of the same numbers.
use boom::binary::{Double, Single};
use boom::utils::lightcurves as lib;
use boom::utils::lightcurves::Band;

const LSST_ZP_AB_NJY: f32 = 8.90 + 22.5;
const RECENT_WINDOW_DAYS: f64 = 30.0;

fn d(x: f64) -> Double {
    Double { bits: x.to_bits() }
}

fn f(x: Double) -> f64 {
    f64::from_bits(x.bits)
}

fn s(x: f32) -> Single {
    Single { bits: x.to_bits() }
}

fn g(x: Single) -> f32 {
    f32::from_bits(x.bits)
}

fn flux2mag(flux: f32, flux_err: f32, zp: f32) -> (f32, f32) {
    let mag = -2.5 * (flux).log10() + zp;
    let sigma = (2.5 / 10.0_f32.ln()) * (flux_err / flux);
    (mag, sigma)
}

#[derive(Clone, Debug)]
struct PhotometryMag {
    time: f64,
    mag: f32,
    mag_err: f32,
    band: Band,
}

impl PhotometryMag {
    fn bits(&self) -> lib::PhotometryMag {
        lib::PhotometryMag {
            time: d(self.time),
            mag: s(self.mag),
            mag_err: s(self.mag_err),
            band: self.band,
        }
    }

    fn number(p: &lib::PhotometryMag) -> PhotometryMag {
        PhotometryMag { time: f(p.time), mag: g(p.mag), mag_err: g(p.mag_err), band: p.band }
    }
}

#[derive(Clone, Debug, PartialEq)]
struct BandRateProperties {
    rate: f32,
    rate_error: f32,
    chi2: f32,
    dof: i32,
    red_chi2: Option<f32>,
    nb_data: i32,
    dt: f32,
}

fn rate(p: &lib::BandRateProperties) -> BandRateProperties {
    BandRateProperties {
        rate: g(p.rate),
        rate_error: g(p.rate_error),
        chi2: g(p.chi2),
        dof: p.dof,
        red_chi2: p.red_chi2.map(g),
        nb_data: p.nb_data,
        dt: g(p.dt),
    }
}

#[derive(Clone, Debug)]
struct RecentProperties {
    window_days: f32,
    nb_data: i32,
    rising: Option<BandRateProperties>,
    fading: Option<BandRateProperties>,
}

#[derive(Clone, Debug)]
struct BandProperties {
    peak_jd: f64,
    peak_mag: f32,
    peak_mag_err: f32,
    dt: f32,
    rising: Option<BandRateProperties>,
    fading: Option<BandRateProperties>,
    recent: Option<RecentProperties>,
}

fn band(p: &lib::BandProperties) -> BandProperties {
    BandProperties {
        peak_jd: f(p.peak_jd),
        peak_mag: g(p.peak_mag),
        peak_mag_err: g(p.peak_mag_err),
        dt: g(p.dt),
        rising: p.rising.as_ref().map(rate),
        fading: p.fading.as_ref().map(rate),
        recent: p.recent.as_ref().map(|r| RecentProperties {
            window_days: g(r.window_days),
            nb_data: r.nb_data,
            rising: r.rising.as_ref().map(rate),
            fading: r.fading.as_ref().map(rate),
        }),
    }
}

struct PerBandProperties {
    g: Option<BandProperties>,
    r: Option<BandProperties>,
    i: Option<BandProperties>,
    z: Option<BandProperties>,
    y: Option<BandProperties>,
    u: Option<BandProperties>,
    j: Option<BandProperties>,
    h: Option<BandProperties>,
    k: Option<BandProperties>,
}

struct AllBandsProperties {
    peak_jd: f64,
    peak_mag: f32,
    peak_mag_err: f32,
    peak_band: Band,
    faintest_jd: f64,
    faintest_mag: f32,
    faintest_band: Band,
    first_jd: f64,
    last_jd: f64,
}

/// The sums of a weighted fit of a line, centered.
fn fit_numbers(x: &[f32], y: &[f32], sigma: &[f32]) -> lib::FitNumbers {
    let n = x.len().min(y.len()).min(sigma.len());
    let weight = |i: usize| 1.0 / (sigma[i] * sigma[i]);
    let (mut sum_w, mut sum_wx, mut sum_wy) = (0.0f32, 0.0f32, 0.0f32);
    for i in 0..n {
        sum_w += weight(i);
        sum_wx += weight(i) * x[i];
        sum_wy += weight(i) * y[i];
    }
    let x_mean = sum_wx / sum_w;
    let y_mean = sum_wy / sum_w;
    let (mut sxx, mut sxy) = (0.0f32, 0.0f32);
    for i in 0..n {
        let dx = x[i] - x_mean;
        let dy = y[i] - y_mean;
        sxx += weight(i) * dx * dx;
        sxy += weight(i) * dx * dy;
    }
    let a = sxy / sxx;
    let b = y_mean - a * x_mean;
    let mut chi2 = 0.0f32;
    for i in 0..n {
        chi2 += ((y[i] - (a * x[i] + b)) / sigma[i]).powi(2);
    }
    lib::FitNumbers {
        rate: s(a),
        rate_error: s((1.0 / sxx).sqrt()),
        chi2: s(chi2),
        red_chi2: s(chi2 / n.saturating_sub(2) as f32),
        spread: s(sxx.abs()),
        dt: s(if n > 0 { x[n - 1] - x[0] } else { 0.0 }),
    }
}

fn fit_bits(x: &[f32], y: &[f32], sigma: &[f32]) -> Option<lib::BandRateProperties> {
    let weights: Vec<Single> = sigma.iter().map(|e| s(1.0 / (e * e))).collect();
    let errors: Vec<Single> = sigma.iter().map(|e| s(*e)).collect();
    lib::weighted_least_squares_centered(
        x.len(),
        y.len(),
        &errors,
        &weights,
        fit_numbers(x, y, sigma),
    )
}

fn weighted_least_squares_centered(
    x: &[f32],
    y: &[f32],
    sigma: &[f32],
) -> Option<BandRateProperties> {
    fit_bits(x, y, sigma).as_ref().map(rate)
}

fn measure(points: &Vec<lib::PhotometryMag>, found: lib::Extremes) -> lib::SegmentNumbers {
    let first = points.first().map(|p| f(p.time)).unwrap_or(0.0);
    let last = points.last().map(|p| f(p.time)).unwrap_or(0.0);
    let x: Vec<f32> = points.iter().map(|p| (f(p.time) - first) as f32).collect();
    let y: Vec<f32> = points.iter().map(|p| g(p.mag)).collect();
    let sigma: Vec<f32> = points.iter().map(|p| g(p.mag_err)).collect();
    lib::SegmentNumbers {
        span: d(last - first),
        dt: s((last - first) as f32),
        cutoff: d(last - RECENT_WINDOW_DAYS),
        bright_edge: s(g(found.min_mag) + g(found.min_mag_err)),
        faint_edge: s(g(found.max_mag) - g(found.max_mag_err)),
        weights: sigma.iter().map(|e| s(1.0 / (e * e))).collect(),
        line: fit_numbers(&x, &y, &sigma),
    }
}

fn prepare_photometry(photometry: &mut Vec<PhotometryMag>) {
    let mut points: Vec<lib::PhotometryMag> = photometry.iter().map(|p| p.bits()).collect();
    lib::prepare_photometry(&mut points);
    *photometry = points.iter().map(PhotometryMag::number).collect();
}

fn analyze_photometry(
    photometry: &Vec<PhotometryMag>,
) -> (PerBandProperties, AllBandsProperties, bool) {
    let points: Vec<lib::PhotometryMag> = photometry.iter().map(|p| p.bits()).collect();
    let (bands, all, stationary) = lib::analyze_photometry(&points, &measure);
    (
        PerBandProperties {
            g: bands.g.as_ref().map(band),
            r: bands.r.as_ref().map(band),
            i: bands.i.as_ref().map(band),
            z: bands.z.as_ref().map(band),
            y: bands.y.as_ref().map(band),
            u: bands.u.as_ref().map(band),
            j: bands.j.as_ref().map(band),
            h: bands.h.as_ref().map(band),
            k: bands.k.as_ref().map(band),
        },
        AllBandsProperties {
            peak_jd: f(all.peak_jd),
            peak_mag: g(all.peak_mag),
            peak_mag_err: g(all.peak_mag_err),
            peak_band: all.peak_band,
            faintest_jd: f(all.faintest_jd),
            faintest_mag: g(all.faintest_mag),
            faintest_band: all.faintest_band,
            first_jd: f(all.first_jd),
            last_jd: f(all.last_jd),
        },
        stationary,
    )
}

struct ActivityMetrics {
    aperture_excess: Option<f32>,
}

impl ActivityMetrics {
    fn from_magnitudes(magpsf: Option<f32>, magap: Option<f32>) -> Self {
        let difference = magpsf.unwrap_or(0.0) - magap.unwrap_or(0.0);
        let found = lib::ActivityMetrics::from_magnitudes(
            magpsf.map(s),
            magap.map(s),
            s(difference),
        );
        ActivityMetrics { aperture_excess: found.aperture_excess.map(g) }
    }

    fn from_fluxes(psf_flux: Option<f32>, ap_flux: Option<f32>) -> Self {
        let ratio = ap_flux.unwrap_or(0.0) / psf_flux.unwrap_or(0.0);
        let found = lib::ActivityMetrics::from_fluxes(
            psf_flux.map(s),
            ap_flux.map(s),
            s(2.5 * ratio.log10()),
        );
        ActivityMetrics { aperture_excess: found.aperture_excess.map(g) }
    }
}

fn fit(x: &[f32], y: &[f32], s: &[f32]) -> BandRateProperties {
    weighted_least_squares_centered(x, y, s).expect("fit")
}

fn point(time: f64, mag: f32, band: Band) -> PhotometryMag {
    PhotometryMag { time, mag, mag_err: 0.05, band }
}

/// Years of flat history, then a genuine rise in the last few days. This is the case the
/// unbounded fit gets wrong: it averages the real rise into a baseline stretching back
/// years and reports a rate near zero.
fn old_history_then_a_rise() -> Vec<PhotometryMag> {
    let mut lc = Vec::new();
    let mut t = 2_459_000.0;
    while t < 2_459_000.0 + 1200.0 {
        lc.push(point(t, 20.0, Band::G));
        t += 20.0;
    }
    let last = 2_459_000.0 + 1200.0;
    for (i, mag) in [19.5_f32, 19.0, 18.4, 17.9].iter().enumerate() {
        lc.push(point(last + 2.0 * i as f64, *mag, Band::G));
    }
    lc.sort_by(|a, b| a.time.partial_cmp(&b.time).unwrap());
    lc
}

#[test]
fn test_weighted_least_squares_centered() {
    // Test case 1: simple linear data (approximately y = 2x) with small errors
    // => expecting a good fit
    let x = vec![1.0, 2.0, 3.0, 4.0, 5.0];
    let y = vec![2.0, 4.1, 6.0, 8.1, 10.2];
    let sigma = vec![0.1, 0.1, 0.1, 0.1, 0.1];

    let result = weighted_least_squares_centered(&x, &y, &sigma).unwrap();
    assert!((result.rate - 2.04).abs() < 1e-2);
    assert!((result.rate_error - 0.031623).abs() < 1e-6);
    assert!((result.red_chi2.unwrap() - 0.400001).abs() < 1e-6);
    assert_eq!(result.nb_data, 5);
    assert!((result.dt - 4.0).abs() < 1e-5);

    // Test case 2: insufficient data points
    // => should return None
    let x = vec![1.0];
    let y = vec![2.0];
    let sigma = vec![0.1];
    let result = weighted_least_squares_centered(&x, &y, &sigma);
    assert!(result.is_none());

    // Test case 3: singular matrix (all x values are the same)
    // => should return None
    let x = vec![1.0, 1.0, 1.0];
    let y = vec![2.0, 2.1, 1.9];
    let sigma = vec![0.1, 0.1, 0.1];
    let result = weighted_least_squares_centered(&x, &y, &sigma);
    assert!(result.is_none());

    // Test case 4: mismatched input lengths
    // => should return None
    let x = vec![1.0, 2.0];
    let y = vec![2.0, 4.0, 6.0];
    let sigma = vec![0.1, 0.1];
    let result = weighted_least_squares_centered(&x, &y, &sigma);
    assert!(result.is_none());

    // Test case 5: zero or negative sigma values
    // => should return None
    let x = vec![1.0, 2.0, 3.0];
    let y = vec![2.0, 4.0, 6.0];
    let sigma = vec![0.1, 0.0, -0.1];
    let result = weighted_least_squares_centered(&x, &y, &sigma);
    assert!(result.is_none());

    // Test case 6: non-finite sigma values
    let x = vec![1.0, 2.0, 3.0];
    let y = vec![2.0, 4.0, 6.0];
    let sigma = vec![0.1, f32::NAN, 0.1];
    let result = weighted_least_squares_centered(&x, &y, &sigma);
    assert!(result.is_none());

    // Test case 7: non-finite weights due to very small sigma
    let x = vec![1.0, 2.0, 3.0];
    let y = vec![2.0, 4.0, 6.0];
    let sigma = vec![1e-40, 1e-40, 1e-40];
    let result = weighted_least_squares_centered(&x, &y, &sigma);
    assert!(result.is_none());

    // Test case 8: bad fit due to large scatter
    let x = vec![1.0, 2.0, 3.0, 4.0, 5.0];
    let y = vec![2.0, 8.0, 1.0, 7.0, 3.0];
    let sigma = vec![0.1, 0.1, 0.1, 0.1, 0.1];
    let result = weighted_least_squares_centered(&x, &y, &sigma).unwrap();
    assert!((result.red_chi2.unwrap() - 1290.0).abs() < 1e-1);

    // Test case 9: exactly two data points
    let x = vec![1.0, 2.0];
    let y = vec![2.0, 4.0];
    let sigma = vec![0.1, 0.1];
    let result = weighted_least_squares_centered(&x, &y, &sigma).unwrap();
    assert!((result.rate - 2.0).abs() < 1e-6);
    assert!((result.rate_error - 0.141421).abs() < 1e-6);
    // Two points define the line exactly: chi2 is 0 with no degrees of
    // freedom left, so there is no reduced chi2 to report.
    assert!(result.red_chi2.is_none());
    assert_eq!(result.dof, 0);
    assert!(result.chi2.abs() < 1e-9);
    assert_eq!(result.nb_data, 2);
    assert!((result.dt - 1.0).abs() < 1e-6);
}

#[test]
fn test_prepare_photometry() {
    let mut photometry = vec![
        PhotometryMag {
            time: 2459001.5,
            mag: 19.5,
            mag_err: 0.1,
            band: Band::R,
        }, // later point that should be sorted down
        PhotometryMag {
            time: 2459000.5,
            mag: 20.0,
            mag_err: 0.1,
            band: Band::R,
        }, // earlier point that should be sorted up
        PhotometryMag {
            time: 2459000.5,
            mag: 20.0,
            mag_err: 0.1,
            band: Band::R,
        }, // duplicate that should be removed
    ];
    prepare_photometry(&mut photometry);
    assert_eq!(photometry.len(), 2);
    assert_eq!(photometry[0].time, 2459000.5);
    assert_eq!(photometry[1].time, 2459001.5);
}

#[test]
fn test_analyze_photometry_empty_lightcurve() {
    // Regression: an empty lightcurve must not panic (it previously indexed
    // `[0]` unconditionally). It should return neutral defaults with no
    // per-band properties and stationary = false.
    let data: Vec<PhotometryMag> = Vec::new();
    let (results, all_bands_props, stationary) = analyze_photometry(&data);

    assert_eq!(stationary, false);
    assert!(results.g.is_none());
    assert!(results.r.is_none());
    assert!(results.i.is_none());
    assert!(results.z.is_none());
    assert!(results.y.is_none());
    assert!(results.u.is_none());
    assert!(results.j.is_none());
    assert!(results.h.is_none());
    assert!(results.k.is_none());
    assert_eq!(all_bands_props.peak_jd, 0.0);
    assert_eq!(all_bands_props.peak_mag, 0.0);
    assert_eq!(all_bands_props.first_jd, 0.0);
    assert_eq!(all_bands_props.last_jd, 0.0);
}

#[test]
fn test_analyze_photometry() {
    // Test case 1: only one data point
    let mut data = vec![PhotometryMag {
        time: 2459000.5,
        mag: 20.0,
        mag_err: 0.1,
        band: Band::R,
    }];
    prepare_photometry(&mut data);
    let (results, all_bands_props, stationary) = analyze_photometry(&data);

    // Verify results
    assert_eq!(stationary, false);
    let r_stats = results.r.unwrap();
    let r_peak_jd = r_stats.peak_jd;
    let r_peak_mag = r_stats.peak_mag;
    let r_peak_mag_err = r_stats.peak_mag_err;
    let r_dt = r_stats.dt;
    assert!((data[0].time - r_peak_jd).abs() < 1e-6);
    assert!((data[0].mag - r_peak_mag).abs() < 1e-6);
    assert!((data[0].mag_err - r_peak_mag_err).abs() < 1e-6);
    assert!((r_dt - 0.0).abs() < 1e-6);
    assert_eq!(r_stats.rising.is_some(), false);
    assert_eq!(r_stats.fading.is_some(), false);

    // the all band properties should also just match the one data point we have
    let peak_jd = all_bands_props.peak_jd;
    let peak_mag = all_bands_props.peak_mag;
    let peak_mag_err = all_bands_props.peak_mag_err;
    let peak_band = all_bands_props.peak_band;
    assert!((data[0].time - peak_jd).abs() < 1e-6);
    assert!((data[0].mag - peak_mag).abs() < 1e-6);
    assert!((data[0].mag_err - peak_mag_err).abs() < 1e-6);
    assert_eq!(data[0].band, peak_band);

    // Test case 2: 2 data points in the same band, rising
    let mut data = vec![
        PhotometryMag {
            time: 2459000.5,
            mag: 20.0,
            mag_err: 0.1,
            band: Band::R,
        },
        PhotometryMag {
            time: 2459001.5,
            mag: 19.0,
            mag_err: 0.1,
            band: Band::R,
        },
    ];
    prepare_photometry(&mut data);
    let (results, all_bands_props, stationary) = analyze_photometry(&data);

    // Verify results
    assert_eq!(stationary, true);
    let r_stats = results.r.unwrap();
    let r_peak_jd = r_stats.peak_jd;
    let r_peak_mag = r_stats.peak_mag;
    let r_peak_mag_err = r_stats.peak_mag_err;
    let r_dt = r_stats.dt;
    assert!((data[1].time - r_peak_jd).abs() < 1e-6);
    assert!((data[1].mag - r_peak_mag).abs() < 1e-6);
    assert!((data[1].mag_err - r_peak_mag_err).abs() < 1e-6);
    assert!((r_dt - 1.0).abs() < 1e-6);
    assert_eq!(r_stats.rising.is_some(), true);
    assert_eq!(r_stats.fading.is_none(), true);

    let rising_stats = r_stats.rising.clone().unwrap();
    let rising_rate = rising_stats.rate;
    let rising_red_chi2 = rising_stats.red_chi2;
    let rising_nb_data = rising_stats.nb_data;
    let rising_dt = rising_stats.dt;
    assert!((rising_rate + 1.0).abs() < 1e-6); // should be -1 mag/day
    assert!(rising_red_chi2.is_none()); // 2 points: exact line, no degrees of freedom
    assert_eq!(rising_nb_data, 2);
    assert!((rising_dt - 1.0).abs() < 1e-6);

    // the all band properties should also just match the one data point we have
    let peak_jd = all_bands_props.peak_jd;
    let peak_mag = all_bands_props.peak_mag;
    let peak_mag_err = all_bands_props.peak_mag_err;
    let peak_band = all_bands_props.peak_band;
    assert!((data[1].time - peak_jd).abs() < 1e-6);
    assert!((data[1].mag - peak_mag).abs() < 1e-6);
    assert!((data[1].mag_err - peak_mag_err).abs() < 1e-6);
    assert_eq!(data[1].band, peak_band);

    // Test case 3: 2 data points in the same band, fading
    let mut data = vec![
        PhotometryMag {
            time: 2459000.5,
            mag: 19.0,
            mag_err: 0.1,
            band: Band::R,
        },
        PhotometryMag {
            time: 2459001.5,
            mag: 20.0,
            mag_err: 0.1,
            band: Band::R,
        },
    ];
    prepare_photometry(&mut data);
    let (results, all_bands_props, stationary) = analyze_photometry(&data);

    // Verify results
    assert_eq!(stationary, true);
    let r_stats = results.r.unwrap();
    let r_peak_jd = r_stats.peak_jd;
    let r_peak_mag = r_stats.peak_mag;
    let r_peak_mag_err = r_stats.peak_mag_err;
    let r_dt = r_stats.dt;
    assert!((data[0].time - r_peak_jd).abs() < 1e-6);
    assert!((data[0].mag - r_peak_mag).abs() < 1e-6);
    assert!((data[0].mag_err - r_peak_mag_err).abs() < 1e-6);
    assert!((r_dt - 1.0).abs() < 1e-6);
    assert_eq!(r_stats.rising.is_none(), true);
    assert_eq!(r_stats.fading.is_some(), true);
    let fading_stats = r_stats.fading.clone().unwrap();
    let fading_rate = fading_stats.rate;
    let red_chi2 = fading_stats.red_chi2;
    let fading_nb_data = fading_stats.nb_data;
    let fading_dt = fading_stats.dt;
    assert!((fading_rate - 1.0).abs() < 1e-6); // should be 1 mag/day
    assert!(red_chi2.is_none()); // 2 points: exact line, no degrees of freedom
    assert_eq!(fading_nb_data, 2);
    assert!((fading_dt - 1.0).abs() < 1e-6);
    // the all band properties should also just match the one data point we have
    let peak_jd = all_bands_props.peak_jd;
    let peak_mag = all_bands_props.peak_mag;
    let peak_mag_err = all_bands_props.peak_mag_err;
    let peak_band = all_bands_props.peak_band;
    assert!((data[0].time - peak_jd).abs() < 1e-6);
    assert!((data[0].mag - peak_mag).abs() < 1e-6);
    assert!((data[0].mag_err - peak_mag_err).abs() < 1e-6);
    assert_eq!(data[0].band, peak_band);

    // Test case 4: 3 data points in the same band, rising then fading
    let mut data = vec![
        PhotometryMag {
            time: 2459000.5,
            mag: 20.0,
            mag_err: 0.1,
            band: Band::R,
        },
        PhotometryMag {
            time: 2459001.5,
            mag: 19.0,
            mag_err: 0.1,
            band: Band::R,
        },
        PhotometryMag {
            time: 2459002.5,
            mag: 20.0,
            mag_err: 0.1,
            band: Band::R,
        },
    ];
    prepare_photometry(&mut data);
    let (results, all_bands_props, stationary) = analyze_photometry(&data);

    // Verify results
    assert_eq!(stationary, true);
    let r_stats = results.r.unwrap();
    let r_peak_jd = r_stats.peak_jd;
    let r_peak_mag = r_stats.peak_mag;
    let r_peak_mag_err = r_stats.peak_mag_err;
    let r_dt = r_stats.dt;
    assert!((data[1].time - r_peak_jd).abs() < 1e-6);
    assert!((data[1].mag - r_peak_mag).abs() < 1e-6);
    assert!((data[1].mag_err - r_peak_mag_err).abs() < 1e-6);
    assert!((r_dt - 2.0).abs() < 1e-6);
    assert_eq!(r_stats.rising.is_some(), true);
    assert_eq!(r_stats.fading.is_some(), true);
    let rising_stats = r_stats.rising.clone().unwrap();
    let rising_rate = rising_stats.rate;
    let rising_red_chi2 = rising_stats.red_chi2;
    let rising_nb_data = rising_stats.nb_data;
    let rising_dt = rising_stats.dt;
    assert!((rising_rate + 1.0).abs() < 1e-6); // should be -1 mag/day
    assert!(rising_red_chi2.is_none()); // 2 points: exact line, no degrees of freedom
    assert_eq!(rising_nb_data, 2);
    assert!((rising_dt - 1.0).abs() < 1e-6);

    let fading_stats = r_stats.fading.clone().unwrap();
    let fading_rate = fading_stats.rate;
    let fading_red_chi2 = fading_stats.red_chi2;
    let fading_nb_data = fading_stats.nb_data;
    let fading_dt = fading_stats.dt;
    assert!((fading_rate - 1.0).abs() < 1e-6); // should be 1 mag/day
    assert!(fading_red_chi2.is_none()); // 2 points: exact line, no degrees of freedom
    assert_eq!(fading_nb_data, 2);
    assert!((fading_dt - 1.0).abs() < 1e-6);

    // the all band properties should also just match the one data point we have
    let peak_jd = all_bands_props.peak_jd;
    let peak_mag = all_bands_props.peak_mag;
    let peak_mag_err = all_bands_props.peak_mag_err;
    let peak_band = all_bands_props.peak_band;
    assert!((data[1].time - peak_jd).abs() < 1e-6);
    assert!((data[1].mag - peak_mag).abs() < 1e-6);
    assert!((data[1].mag_err - peak_mag_err).abs() < 1e-6);
    assert_eq!(data[1].band, peak_band);

    // Test case 5: multiple bands
    // - rising and fading in r band (3 points)
    // - only rising in g band (2 points)
    let mut data = vec![
        PhotometryMag {
            time: 2459000.5,
            mag: 20.0,
            mag_err: 0.1,
            band: Band::R,
        },
        PhotometryMag {
            time: 2459001.5,
            mag: 19.0,
            mag_err: 0.1,
            band: Band::R,
        },
        PhotometryMag {
            time: 2459002.5,
            mag: 18.0,
            mag_err: 0.1,
            band: Band::R,
        },
        PhotometryMag {
            time: 2459000.5,
            mag: 20.0,
            mag_err: 0.1,
            band: Band::G,
        },
        PhotometryMag {
            time: 2459001.5,
            mag: 21.0,
            mag_err: 0.1,
            band: Band::G,
        },
    ];
    prepare_photometry(&mut data);
    let (results, all_bands_props, stationary) = analyze_photometry(&data);

    // Verify results
    assert_eq!(stationary, true);
    // r band
    let r_stats = results.r.unwrap();
    let r_peak_jd = r_stats.peak_jd;
    let r_peak_mag = r_stats.peak_mag;
    let r_peak_mag_err = r_stats.peak_mag_err;
    let r_dt = r_stats.dt;
    // the original array was sorted and deduplicated,
    // so the r-band peak is now at index 2 (not 1)
    assert!((data[4].time - r_peak_jd).abs() < 1e-6);
    assert!((data[4].mag - r_peak_mag).abs() < 1e-6);
    assert!((data[4].mag_err - r_peak_mag_err).abs() < 1e-6);
    assert!((r_dt - 2.0).abs() < 1e-6);
    assert_eq!(r_stats.rising.is_some(), true);
    assert_eq!(r_stats.fading.is_none(), true);

    // check the rising stats in r band
    let rising_stats = r_stats.rising.clone().unwrap();
    let rising_rate = rising_stats.rate;
    let rising_red_chi2 = rising_stats.red_chi2;
    let rising_nb_data = rising_stats.nb_data;
    let rising_dt = rising_stats.dt;
    assert!((rising_rate + 1.0).abs() < 1e-6); // should be -1 mag/day
    assert!(rising_red_chi2.unwrap().abs() < 1e-6); // perfect fit
    assert_eq!(rising_nb_data, 3);
    assert!((rising_dt - 2.0).abs() < 1e-6);

    // g band
    let g_stats = results.g.unwrap();
    let g_peak_jd = g_stats.peak_jd;
    let g_peak_mag = g_stats.peak_mag;
    let g_peak_mag_err = g_stats.peak_mag_err;
    let g_dt = g_stats.dt;
    // the original array was sorted and deduplicated,
    // so the g-band peak is now at index 3 (not 4)
    assert!((data[1].time - g_peak_jd).abs() < 1e-6);
    assert!((data[1].mag - g_peak_mag).abs() < 1e-6);
    assert!((data[1].mag_err - g_peak_mag_err).abs() < 1e-6);
    assert!((g_dt - 1.0).abs() < 1e-6);
    assert_eq!(g_stats.rising.is_some(), false);
    assert_eq!(g_stats.fading.is_some(), true);
    // check the fading stats in g band
    let fading_stats = g_stats.fading.clone().unwrap();
    let fading_rate = fading_stats.rate;
    let fading_red_chi2 = fading_stats.red_chi2;
    let fading_nb_data = fading_stats.nb_data;
    let fading_dt = fading_stats.dt;
    assert!((fading_rate - 1.0).abs() < 1e-6); // should be 1 mag/day
    assert!(fading_red_chi2.is_none()); // 2 points: exact line, no degrees of freedom
    assert_eq!(fading_nb_data, 2);
    assert!((fading_dt - 1.0).abs() < 1e-6);

    // the all band properties should match the peak in r band
    let peak_jd = all_bands_props.peak_jd;
    let peak_mag = all_bands_props.peak_mag;
    let peak_mag_err = all_bands_props.peak_mag_err;
    let peak_band = all_bands_props.peak_band;
    assert!((data[4].time - peak_jd).abs() < 1e-6);
    assert!((data[4].mag - peak_mag).abs() < 1e-6);
    assert!((data[4].mag_err - peak_mag_err).abs() < 1e-6);
    assert_eq!(data[4].band, peak_band);

    // Edge case 1: duplicated points (same time and band, different mag)
    let mut data = vec![
        PhotometryMag {
            time: 2459000.5,
            mag: 20.0,
            mag_err: 0.1,
            band: Band::R,
        },
        // duplicate of the first point
        PhotometryMag {
            time: 2459000.5,
            mag: 20.5,
            mag_err: 0.1,
            band: Band::R,
        },
        PhotometryMag {
            time: 2459001.5,
            mag: 19.0,
            mag_err: 0.1,
            band: Band::R,
        },
    ];
    prepare_photometry(&mut data);
    let (results, _, stationary) = analyze_photometry(&data);
    // make sure that only 2 points were used (the duplicate should be removed)
    assert_eq!(stationary, true);
    let r_stats = results.r.unwrap();
    let r_peak_jd = r_stats.peak_jd;
    let r_peak_mag = r_stats.peak_mag;
    let r_peak_mag_err = r_stats.peak_mag_err;
    let r_dt = r_stats.dt;
    // the original array was sorted and deduplicated,
    // so the r-band peak is now at index 1 (not 2)
    assert!((data[1].time - r_peak_jd).abs() < 1e-6);
    assert!((data[1].mag - r_peak_mag).abs() < 1e-6);
    assert!((data[1].mag_err - r_peak_mag_err).abs() < 1e-6);
    assert!((r_dt - 1.0).abs() < 1e-6);
    assert_eq!(r_stats.rising.is_some(), true);
    assert_eq!(r_stats.fading.is_none(), true);
    let rising_stats = r_stats.rising.clone().unwrap();
    let rising_nb_data = rising_stats.nb_data;
    let rising_dt = rising_stats.dt;
    assert_eq!(rising_nb_data, 2);
    assert!((rising_dt - 1.0).abs() < 1e-6);
}

#[test]
fn test_ztf_aperture_excess_positive_when_aperture_brighter() {
    // Brighter aperture => smaller magnitude => positive excess.
    let a = ActivityMetrics::from_magnitudes(Some(18.0), Some(17.5));
    assert_eq!(a.aperture_excess, Some(0.5));

    let point = ActivityMetrics::from_magnitudes(Some(18.0), Some(18.0));
    assert_eq!(point.aperture_excess, Some(0.0));
}

#[test]
fn test_lsst_flux_ratio_matches_the_magnitude_scale() {
    // A 1.585x aperture/psf flux ratio is 0.5 mag, so both surveys agree.
    let a = ActivityMetrics::from_fluxes(Some(100.0), Some(158.489));
    let excess = a.aperture_excess.unwrap();
    assert!((excess - 0.5).abs() < 1e-3, "got {excess}");
}

#[test]
fn test_zero_or_missing_fluxes_yield_no_measurement() {
    for (psf, ap) in [
        (Some(0.0), Some(10.0)),
        (Some(10.0), Some(0.0)),
        (None, Some(10.0)),
    ] {
        let a = ActivityMetrics::from_fluxes(psf, ap);
        assert!(a.aperture_excess.is_none());
    }
}

#[test]
fn test_same_sign_negative_fluxes_measure_the_same_excess() {
    let positive = ActivityMetrics::from_fluxes(Some(100.0), Some(150.0));
    let negative = ActivityMetrics::from_fluxes(Some(-100.0), Some(-150.0));
    assert_eq!(positive.aperture_excess, negative.aperture_excess);
    assert!(positive.aperture_excess.expect("measured") > 0.0);
}

#[test]
fn test_flux_and_magnitude_paths_agree_on_same_sign_input() {
    for (psf, ap) in [(100.0f32, 150.0f32), (-100.0, -150.0)] {
        let (magpsf, _) = flux2mag(psf.abs(), 1.0, LSST_ZP_AB_NJY);
        let (magap, _) = flux2mag(ap.abs(), 1.0, LSST_ZP_AB_NJY);
        let from_flux = ActivityMetrics::from_fluxes(Some(psf), Some(ap))
            .aperture_excess
            .expect("measured");
        let from_mag = ActivityMetrics::from_magnitudes(Some(magpsf), Some(magap))
            .aperture_excess
            .expect("measured");
        assert!(
            (from_flux - from_mag).abs() < 1e-4,
            "{from_flux} vs {from_mag}"
        );
    }
}

#[test]
fn test_mixed_sign_fluxes_yield_no_measurement() {
    for (psf, ap) in [(100.0, -150.0), (-100.0, 150.0)] {
        assert!(
            ActivityMetrics::from_fluxes(Some(psf), Some(ap))
                .aperture_excess
                .is_none(),
            "from_fluxes({psf}, {ap})"
        );
    }
}

#[test]
fn test_finite_fluxes_with_an_overflowing_ratio_yield_no_measurement() {
    let a = ActivityMetrics::from_fluxes(Some(f32::MIN_POSITIVE), Some(f32::MAX));
    assert!(a.aperture_excess.is_none(), "got {:?}", a.aperture_excess);
}

#[test]
fn test_non_finite_inputs_yield_no_measurement() {
    for (psf, ap) in [
        (Some(f32::INFINITY), Some(10.0)),
        (Some(10.0), Some(f32::INFINITY)),
        (Some(f32::INFINITY), Some(f32::INFINITY)),
        (Some(f32::NAN), Some(10.0)),
    ] {
        assert!(
            ActivityMetrics::from_fluxes(psf, ap)
                .aperture_excess
                .is_none(),
            "from_fluxes({psf:?}, {ap:?})"
        );
        assert!(
            ActivityMetrics::from_magnitudes(psf, ap)
                .aperture_excess
                .is_none(),
            "from_magnitudes({psf:?}, {ap:?})"
        );
    }
}

#[test]
fn test_missing_magnitudes_yield_no_measurement() {
    let a = ActivityMetrics::from_magnitudes(Some(18.0), None);
    assert!(a.aperture_excess.is_none());
}

#[test]
fn test_two_point_fit_has_no_reduced_chi2_but_a_real_chi2() {
    let r = fit(&[0.0, 1.0], &[20.0, 19.0], &[0.1, 0.1]);
    assert_eq!(r.dof, 0);
    assert_eq!(r.nb_data, 2);
    assert!(r.chi2.abs() < 1e-9, "exact fit, got chi2 = {}", r.chi2);
    assert!(r.red_chi2.is_none());
}

#[test]
fn test_chi2_is_defined_for_every_fit_including_two_point() {
    for n in 2..6 {
        let x: Vec<f32> = (0..n).map(|i| i as f32).collect();
        let y: Vec<f32> = (0..n).map(|i| 20.0 - 0.1 * i as f32).collect();
        let s = vec![0.1_f32; n];
        let r = fit(&x, &y, &s);
        assert!(r.chi2.is_finite(), "chi2 must be defined at n = {n}");
        assert_eq!(r.dof, (n as i32) - 2);
        assert_eq!(r.red_chi2.is_some(), n > 2);
    }
}

#[test]
fn test_reduced_chi2_is_chi2_over_dof() {
    // Three points not on a line, so the fit leaves a residual.
    let r = fit(&[0.0, 1.0, 2.0], &[20.0, 19.0, 19.5], &[0.1, 0.1, 0.1]);
    assert_eq!(r.dof, 1);
    let expected = r.chi2 / r.dof as f32;
    assert!((r.red_chi2.unwrap() - expected).abs() < 1e-6);
}

#[test]
fn test_a_range_cut_on_reduced_chi2_alone_excludes_two_point_bands() {
    let sparse = fit(&[0.0, 1.0], &[20.0, 19.0], &[0.1, 0.1]);
    let clean = fit(&[0.0, 1.0, 2.0], &[20.0, 19.9, 19.8], &[0.1, 0.1, 0.1]);

    let passes_range_cut = |b: &BandRateProperties| b.red_chi2.is_some_and(|c| c <= 2.0);
    assert!(passes_range_cut(&clean));
    assert!(!passes_range_cut(&sparse), "this is the trap");

    // With chi2/dof the same intent is expressible without dropping it.
    let passes_with_dof = |b: &BandRateProperties| b.dof == 0 || b.chi2 <= 2.0 * b.dof as f32;
    assert!(passes_with_dof(&clean));
    assert!(passes_with_dof(&sparse));
}

#[test]
fn test_recent_rate_is_steeper_than_the_whole_history_rate() {
    let (props, _, _) = analyze_photometry(&old_history_then_a_rise());
    let g = props.g.expect("g band");

    let whole = g.rising.expect("unbounded rising fit").rate;
    let recent = g
        .recent
        .as_ref()
        .expect("recent block")
        .rising
        .as_ref()
        .expect("recent rising fit")
        .rate;

    // Magnitudes fall as the object brightens, so a rise is a negative rate.
    assert!(
        recent < whole,
        "recent rate {recent} should be steeper than whole-history {whole}"
    );
    assert!(
        recent.abs() > 10.0 * whole.abs(),
        "the whole-history rate is diluted by the baseline: {whole} vs {recent}"
    );
}

#[test]
fn test_recent_window_only_covers_the_configured_span() {
    let (props, _, _) = analyze_photometry(&old_history_then_a_rise());
    let recent = props.g.unwrap().recent.expect("recent block");
    assert_eq!(recent.window_days, RECENT_WINDOW_DAYS as f32);
    // 4 points in the burst plus the couple of baseline points inside 30 d.
    assert!(
        recent.nb_data >= 4 && recent.nb_data <= 8,
        "got {}",
        recent.nb_data
    );
}

#[test]
fn test_single_recent_point_reports_the_block_without_a_fit() {
    let lc = vec![
        point(2_459_000.0, 20.0, Band::G),
        point(2_459_400.0, 19.0, Band::G),
    ];
    let (props, _, _) = analyze_photometry(&lc);
    let recent = props
        .g
        .unwrap()
        .recent
        .expect("window holds the last point");
    assert_eq!(recent.nb_data, 1);
    assert!(recent.rising.is_none());
    assert!(recent.fading.is_none());
}

#[test]
fn test_band_with_no_recent_detection_has_no_block() {
    let lc = vec![
        point(2_459_000.0, 20.0, Band::R),
        point(2_459_002.0, 19.5, Band::R),
        point(2_459_400.0, 19.0, Band::G),
    ];
    let (props, _, _) = analyze_photometry(&lc);
    assert!(
        props.r.unwrap().recent.is_none(),
        "r band last seen 400 d ago, well outside the window"
    );
    assert!(props.g.unwrap().recent.is_some());
}

#[test]
fn test_window_is_shared_across_bands() {
    let lc = vec![
        point(2_459_400.0, 19.0, Band::G),
        point(2_459_405.0, 18.5, Band::G),
        point(2_459_402.0, 19.2, Band::R),
        point(2_459_404.0, 18.9, Band::R),
    ];
    let (props, _, _) = analyze_photometry(&lc);
    let g = props.g.unwrap().recent.expect("g recent");
    let r = props.r.unwrap().recent.expect("r recent");
    assert_eq!(g.window_days, r.window_days);
    assert_eq!(g.nb_data, 2);
    assert_eq!(r.nb_data, 2);
}

#[test]
fn the_first_point_of_each_time_and_band_is_kept() {
    let mut photometry = vec![
        point(2.0, 19.0, Band::G),
        point(1.0, 20.0, Band::R),
        point(1.0, 21.0, Band::G),
        point(1.0, 22.0, Band::R),
        point(1.0, 23.0, Band::R),
    ];
    prepare_photometry(&mut photometry);
    let mags: Vec<f32> = photometry.iter().map(|p| p.mag).collect();
    assert_eq!(mags, vec![20.0, 21.0, 19.0]);
    let again = photometry.clone();
    prepare_photometry(&mut photometry);
    assert_eq!(photometry.len(), again.len());
}

#[test]
fn a_fit_counts_its_own_points() {
    let fit = |errors: [f32; 3], n: usize| {
        let points: Vec<lib::PhotometryMag> = (0..n)
            .map(|i| {
                let mut p = point(i as f64, 20.0 - i as f32, Band::R);
                p.mag_err = errors[i];
                p.bits()
            })
            .collect();
        let numbers = measure(&points, lib::extremes(&points));
        lib::fit_segment(&points, &numbers)
    };
    let three = fit([0.1, 0.1, 0.1], 3).unwrap();
    assert_eq!((three.nb_data, three.dof), (3, 1));
    assert!((g(three.rate) + 1.0).abs() < 1e-5);
    let two = fit([0.1, 0.1, 0.1], 2).unwrap();
    assert_eq!((two.nb_data, two.dof, two.red_chi2), (2, 0, None));
    assert!(fit([0.1, 0.1, 0.1], 1).is_none());
    assert!(fit([0.1, 0.0, 0.1], 3).is_none());
    assert!(fit([0.1, f32::NAN, 0.1], 3).is_none());
}

#[test]
fn duplicates_need_not_be_neighbours() {
    let mut photometry = vec![
        point(2459000.5, 20.0, Band::R),
        point(2459000.5, 20.0, Band::G),
        point(2459000.5, 20.0, Band::R),
    ];
    prepare_photometry(&mut photometry);
    let bands: Vec<Band> = photometry.iter().map(|p| p.band).collect();
    assert_eq!(bands, vec![Band::R, Band::G]);
}

#[test]
fn the_faintest_point_of_all_bands_is_reported() {
    let lc = vec![
        point(1.0, 19.0, Band::R),
        point(2.0, 21.5, Band::K),
        point(3.0, 18.0, Band::U),
        point(4.0, 21.5, Band::G),
    ];
    let (_, all, stationary) = analyze_photometry(&lc);
    assert!(stationary);
    assert_eq!((all.peak_jd, all.peak_mag, all.peak_band), (3.0, 18.0, Band::U));
    assert_eq!(all.faintest_mag, 21.5);
    assert_eq!((all.faintest_jd, all.faintest_band), (4.0, Band::G));
    assert_eq!((all.first_jd, all.last_jd), (1.0, 4.0));
}

#[test]
fn a_spread_inside_the_error_bars_is_not_fit() {
    let mut lc = vec![point(1.0, 20.0, Band::G), point(3.0, 19.95, Band::G)];
    let (bands, _, _) = analyze_photometry(&lc);
    assert!(bands.g.unwrap().rising.is_none());
    lc[1].mag = 19.0;
    let (bands, _, _) = analyze_photometry(&lc);
    assert!(bands.g.unwrap().rising.is_some());
    // Less than a hundredth of a day is too short.
    lc[1].time = 1.005;
    let (bands, _, stationary) = analyze_photometry(&lc);
    assert!(!stationary);
    assert!(bands.g.unwrap().rising.is_none());
}

#[test]
fn bands_have_names() {
    let names: Vec<&str> = [
        Band::G,
        Band::R,
        Band::I,
        Band::Z,
        Band::Y,
        Band::U,
        Band::J,
        Band::H,
        Band::K,
    ]
    .iter()
    .map(|b| b.as_str())
    .collect();
    assert_eq!(names, vec!["g", "r", "i", "z", "y", "u", "j", "h", "k"]);
}
