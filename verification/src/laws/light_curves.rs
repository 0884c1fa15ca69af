//! What is reported of a light curve.
use vstd::prelude::*;

use crate::binary::{Double, Single};
use crate::order::{a_ranking_exists, precedes, ranked};
use crate::utils::lightcurves::{
    analyze_photometry, band_of, brightest, brightest_index, by_time, deduped, errors_of, extremes,
    extremes_of, faintest, faintest_over, fit_segment, fitted, holds_epoch, in_band, measured,
    nothing_outshines_the_overall_peak, peak_over, preparing_invents_no_point,
    preparing_loses_no_epoch, preparing_twice_changes_nothing, recent_of, same_epoch, segment_fit,
    since, time_keys, weighable, weighted_least_squares_centered, ActivityMetrics,
    AllBandsProperties, Band, BandProperties, BandRateProperties, Extremes, FitNumbers,
    PerBandProperties, PhotometryMag, RecentProperties, SegmentNumbers, BANDS, MIN_SPAN,
};

verus! {

/// Whether every magnitude is a number.
pub open spec fn all_numbers(points: Seq<PhotometryMag>) -> bool {
    forall|i: int| 0 <= i < points.len() ==> !(#[trigger] points[i]).mag.is_nan_spec()
}

/// Whether the point at `k` is the first of the brightest of some points. Magnitudes that are
/// not numbers are passed over, unless it is the first: then that point stands for all.
pub open spec fn is_peak(points: Seq<PhotometryMag>, k: int) -> bool {
    &&& 0 <= k < points.len()
    &&& points[0].mag.is_nan_spec() ==> k == 0
    &&& !points[0].mag.is_nan_spec() ==> {
        &&& !points[k].mag.is_nan_spec()
        &&& forall|j: int|
            0 <= j < points.len() ==> (#[trigger] points[j]).mag.is_nan_spec()
                || points[k].mag.at_most(points[j].mag)
        &&& forall|j: int|
            0 <= j < k ==> (#[trigger] points[j]).mag.is_nan_spec() || points[k].mag.less(
                points[j].mag,
            )
    }
}

/// The points of one band.
pub open spec fn of_band(points: Seq<PhotometryMag>, band: Band) -> Seq<PhotometryMag> {
    points.filter(|p: PhotometryMag| p.band == band)
}

/// The points from a time on.
pub open spec fn not_before(points: Seq<PhotometryMag>, cutoff: Double) -> Seq<PhotometryMag> {
    points.filter(|p: PhotometryMag| cutoff.at_most(p.time))
}

/// Whether a report on recent points is one on `window`: it counts them and tells the
/// brightest of them, up to which the one fit goes and from which the other does.
pub open spec fn tells_of_window<F: Fn(&Vec<PhotometryMag>, Extremes) -> SegmentNumbers>(
    measure: F,
    window: Seq<PhotometryMag>,
    recent: RecentProperties,
    k: int,
) -> bool {
    &&& is_peak(window, k)
    &&& recent.nb_data == window.len()
    &&& recent.window_days.bits == 0x41F0_0000
    &&& recent.peak_jd == window[k].time
    &&& recent.peak_mag == window[k].mag
    &&& fitted(measure, window.subrange(0, k + 1), recent.rising)
    &&& fitted(measure, window.subrange(k, window.len() as int), recent.fading)
}

/// Whether a report on the points of a band is one on `held`.
pub open spec fn tells_of_band<F: Fn(&Vec<PhotometryMag>, Extremes) -> SegmentNumbers>(
    measure: F,
    held: Seq<PhotometryMag>,
    properties: BandProperties,
    k: int,
) -> bool {
    &&& is_peak(held, k)
    &&& properties.peak_jd == held[k].time
    &&& properties.peak_mag == held[k].mag
    &&& properties.peak_mag_err == held[k].mag_err
    &&& fitted(measure, held.subrange(0, k + 1), properties.rising)
    &&& fitted(measure, held.subrange(k, held.len() as int), properties.fading)
}

/// Whether what is reported of a band is right: there is a report when the band has points,
/// it is one on those, its duration is measured on all of them, and it holds a report on the
/// recent ones when there are any.
pub open spec fn right_band<F: Fn(&Vec<PhotometryMag>, Extremes) -> SegmentNumbers>(
    measure: F,
    points: Seq<PhotometryMag>,
    band: Band,
    cutoff: Double,
    properties: Option<BandProperties>,
) -> bool {
    let held = of_band(points, band);
    let window = not_before(held, cutoff);
    match properties {
        None => held.len() == 0,
        Some(properties) => {
            &&& exists|k: int| tells_of_band(measure, held, properties, k)
            &&& exists|numbers: SegmentNumbers| #[trigger]
                measured(measure, held, numbers) && properties.dt == numbers.dt
            &&& match properties.recent {
                None => window.len() == 0,
                Some(recent) => exists|k: int| tells_of_window(measure, window, recent, k),
            }
        },
    }
}

proof fn lemma_in_band(points: Seq<PhotometryMag>, band: Band)
    ensures
        in_band(points, band) == of_band(points, band),
    decreases points.len(),
{
    reveal(Seq::filter);
    if points.len() > 0 {
        lemma_in_band(points.drop_last(), band);
    }
}

proof fn lemma_since(points: Seq<PhotometryMag>, cutoff: Double)
    ensures
        since(points, cutoff) == not_before(points, cutoff),
    decreases points.len(),
{
    reveal(Seq::filter);
    if points.len() > 0 {
        lemma_since(points.drop_last(), cutoff);
    }
}

proof fn lemma_brightest_is_peak(points: Seq<PhotometryMag>)
    requires
        points.len() > 0,
    ensures
        is_peak(points, brightest(points)),
    decreases points.len(),
{
    if points.len() > 1 {
        let before = points.drop_last();
        lemma_brightest_is_peak(before);
        let best = brightest(before);
        assert(before[0] == points[0] && before[best] == points[best]);
        if !points[0].mag.is_nan_spec() {
            assert forall|j: int| 0 <= j < points.len() implies (
            #[trigger] points[j]).mag.is_nan_spec() || points[brightest(points)].mag.at_most(
                points[j].mag,
            ) by {
                if j < before.len() {
                    assert(before[j] == points[j]);
                }
            }
            assert forall|j: int| 0 <= j < brightest(points) implies (
            #[trigger] points[j]).mag.is_nan_spec() || points[brightest(points)].mag.less(
                points[j].mag,
            ) by {
                assert(before[j] == points[j]);
            }
        }
    }
}

proof fn lemma_right_band<F: Fn(&Vec<PhotometryMag>, Extremes) -> SegmentNumbers>(
    measure: F,
    points: Seq<PhotometryMag>,
    band: Band,
    cutoff: Double,
    properties: Option<BandProperties>,
)
    requires
        band_of(measure, in_band(points, band), cutoff, properties),
    ensures
        right_band(measure, points, band, cutoff, properties),
{
    let held = of_band(points, band);
    lemma_in_band(points, band);
    let window = not_before(held, cutoff);
    lemma_since(held, cutoff);
    if let Some(told) = properties {
        let k = brightest(held);
        lemma_brightest_is_peak(held);
        assert(tells_of_band(measure, held, told, k));
        if let Some(recent) = told.recent {
            assert(recent_of(measure, window, Some(recent)));
            let j = brightest(window);
            lemma_brightest_is_peak(window);
            assert(tells_of_window(measure, window, recent, j));
        }
    }
}

/// A report on a light curve tells of each band under its name: its first brightest point,
/// fits of the points up to that and from it on, and the same for its recent points. What
/// is recent is reckoned from the whole light curve, and so is whether it lasts more than a
/// hundredth of a day.
pub proof fn each_band_is_told_by_its_own_points<
    F: Fn(&Vec<PhotometryMag>, Extremes) -> SegmentNumbers,
>(
    points: Vec<PhotometryMag>,
    measure: F,
    report: (PerBandProperties, AllBandsProperties, bool),
)
    requires
        call_ensures(analyze_photometry::<F>, (&points, &measure), report),
        points@.len() > 0,
    ensures
        exists|numbers: SegmentNumbers|
            {
                &&& #[trigger] measured(measure, points@, numbers)
                &&& report.2 <==> (Double { bits: 0x3F84_7AE1_47AE_147B }).less(numbers.span)
                &&& right_band(measure, points@, Band::G, numbers.cutoff, report.0.g)
                &&& right_band(measure, points@, Band::R, numbers.cutoff, report.0.r)
                &&& right_band(measure, points@, Band::I, numbers.cutoff, report.0.i)
                &&& right_band(measure, points@, Band::Z, numbers.cutoff, report.0.z)
                &&& right_band(measure, points@, Band::Y, numbers.cutoff, report.0.y)
                &&& right_band(measure, points@, Band::U, numbers.cutoff, report.0.u)
                &&& right_band(measure, points@, Band::J, numbers.cutoff, report.0.j)
                &&& right_band(measure, points@, Band::H, numbers.cutoff, report.0.h)
                &&& right_band(measure, points@, Band::K, numbers.cutoff, report.0.k)
            },
{
    let bands = report.0;
    let numbers = choose|numbers: SegmentNumbers| #[trigger]
        measured(measure, points@, numbers) && report.2 == (Double { bits: MIN_SPAN }).less(
            numbers.span,
        ) && forall|band: Band|
            band_of(measure, in_band(points@, band), numbers.cutoff, #[trigger] bands.of(band));
    let cutoff = numbers.cutoff;
    assert(bands.of(Band::G) == bands.g);
    assert(bands.of(Band::R) == bands.r);
    assert(bands.of(Band::I) == bands.i);
    assert(bands.of(Band::Z) == bands.z);
    assert(bands.of(Band::Y) == bands.y);
    assert(bands.of(Band::U) == bands.u);
    assert(bands.of(Band::J) == bands.j);
    assert(bands.of(Band::H) == bands.h);
    assert(bands.of(Band::K) == bands.k);
    lemma_right_band(measure, points@, Band::G, cutoff, bands.g);
    lemma_right_band(measure, points@, Band::R, cutoff, bands.r);
    lemma_right_band(measure, points@, Band::I, cutoff, bands.i);
    lemma_right_band(measure, points@, Band::Z, cutoff, bands.z);
    lemma_right_band(measure, points@, Band::Y, cutoff, bands.y);
    lemma_right_band(measure, points@, Band::U, cutoff, bands.u);
    lemma_right_band(measure, points@, Band::J, cutoff, bands.j);
    lemma_right_band(measure, points@, Band::H, cutoff, bands.h);
    lemma_right_band(measure, points@, Band::K, cutoff, bands.k);
}

/// A light curve without points has no band to tell of and does not last, and what is told
/// of all bands is 0.
pub proof fn nothing_is_told_of_no_points<
    F: Fn(&Vec<PhotometryMag>, Extremes) -> SegmentNumbers,
>(
    points: Vec<PhotometryMag>,
    measure: F,
    report: (PerBandProperties, AllBandsProperties, bool),
)
    requires
        call_ensures(analyze_photometry::<F>, (&points, &measure), report),
        points@.len() == 0,
    ensures
        !report.2,
        report.0.g is None && report.0.r is None && report.0.i is None,
        report.0.z is None && report.0.y is None && report.0.u is None,
        report.0.j is None && report.0.h is None && report.0.k is None,
        report.1.peak_jd.bits == 0 && report.1.faintest_jd.bits == 0,
        report.1.peak_mag.bits == 0 && report.1.faintest_mag.bits == 0,
        report.1.peak_mag_err.bits == 0 && report.1.faintest_mag_err.bits == 0,
        report.1.peak_band == Band::G && report.1.faintest_band == Band::G,
        report.1.first_jd.bits == 0 && report.1.last_jd.bits == 0,
{
    let bands = report.0;
    assert(bands.of(Band::G) is None && bands.of(Band::R) is None && bands.of(Band::I) is None);
    assert(bands.of(Band::Z) is None && bands.of(Band::Y) is None && bands.of(Band::U) is None);
    assert(bands.of(Band::J) is None && bands.of(Band::H) is None && bands.of(Band::K) is None);
}

proof fn lemma_in_band_is_of_points(points: Seq<PhotometryMag>, band: Band, k: int)
    requires
        0 <= k < in_band(points, band).len(),
    ensures
        points.contains(in_band(points, band)[k]),
    decreases points.len(),
{
    let before = points.drop_last();
    if k < in_band(before, band).len() {
        lemma_in_band_is_of_points(before, band, k);
        let i = choose|i: int| 0 <= i < before.len() && before[i] == in_band(before, band)[k];
        assert(points[i] == before[i]);
    } else {
        assert(points[points.len() - 1] == points.last());
    }
}

proof fn lemma_faintest_bounds(points: Seq<PhotometryMag>)
    requires
        points.len() > 0,
    ensures
        0 <= faintest(points) < points.len(),
    decreases points.len(),
{
    if points.len() > 1 {
        lemma_faintest_bounds(points.drop_last());
    }
}

proof fn lemma_overall_are_points(points: Seq<PhotometryMag>, n: nat)
    requires
        points.len() > 0,
    ensures
        points.contains(peak_over(points, n)),
        points.contains(faintest_over(points, n)),
    decreases n,
{
    if n == 0 {
        assert(points[0] == peak_over(points, n));
        assert(points[0] == faintest_over(points, n));
    } else {
        lemma_overall_are_points(points, (n - 1) as nat);
        let band = Band::at(n - 1);
        let held = in_band(points, band);
        if held.len() > 0 {
            lemma_brightest_is_peak(held);
            lemma_faintest_bounds(held);
            lemma_in_band_is_of_points(points, band, brightest(held));
            lemma_in_band_is_of_points(points, band, faintest(held));
        }
    }
}

/// Whether what is told of all bands as their brightest is one of some points.
pub open spec fn tells_the_peak(all: AllBandsProperties, point: PhotometryMag) -> bool {
    &&& all.peak_jd == point.time
    &&& all.peak_mag == point.mag
    &&& all.peak_mag_err == point.mag_err
    &&& all.peak_band == point.band
}

/// Whether what is told of all bands as their faintest is one of some points.
pub open spec fn tells_the_faintest(all: AllBandsProperties, point: PhotometryMag) -> bool {
    &&& all.faintest_jd == point.time
    &&& all.faintest_mag == point.mag
    &&& all.faintest_mag_err == point.mag_err
    &&& all.faintest_band == point.band
}

/// What is told of all bands is the times of the first and the last point and, with all that
/// is known of them, a brightest and a faintest one, where every magnitude is a number.
pub proof fn all_bands_are_told_by_their_extremes<
    F: Fn(&Vec<PhotometryMag>, Extremes) -> SegmentNumbers,
>(
    points: Vec<PhotometryMag>,
    measure: F,
    report: (PerBandProperties, AllBandsProperties, bool),
)
    requires
        call_ensures(analyze_photometry::<F>, (&points, &measure), report),
        points@.len() > 0,
    ensures
        report.1.first_jd == points@[0].time,
        report.1.last_jd == points@[points@.len() - 1].time,
        exists|k: int| 0 <= k < points@.len() && tells_the_peak(report.1, #[trigger] points@[k]),
        exists|k: int| 0 <= k < points@.len() && tells_the_faintest(report.1, #[trigger] points@[k]),
        all_numbers(points@) ==> forall|j: int|
            0 <= j < points@.len() ==> report.1.peak_mag.at_most((#[trigger] points@[j]).mag)
                && points@[j].mag.at_most(report.1.faintest_mag),
{
    lemma_overall_are_points(points@, BANDS as nat);
    let peak = peak_over(points@, BANDS as nat);
    let faint = faintest_over(points@, BANDS as nat);
    let k = choose|k: int| 0 <= k < points@.len() && points@[k] == peak;
    assert(tells_the_peak(report.1, points@[k]));
    let m = choose|m: int| 0 <= m < points@.len() && points@[m] == faint;
    assert(tells_the_faintest(report.1, points@[m]));
    if all_numbers(points@) {
        assert forall|j: int| 0 <= j < points@.len() implies report.1.peak_mag.at_most(
            (#[trigger] points@[j]).mag,
        ) && points@[j].mag.at_most(report.1.faintest_mag) by {
            nothing_outshines_the_overall_peak(points@, j);
        }
    }
}

/// The brightest point of a list is looked for by its place.
pub proof fn the_brightest_point_is_found(points: Vec<PhotometryMag>, at: Option<usize>)
    requires
        call_ensures(brightest_index, (&points,), at),
    ensures
        at is None <==> points@.len() == 0,
        at matches Some(at) ==> is_peak(points@, at as int),
{
    if points@.len() > 0 {
        lemma_brightest_is_peak(points@);
    }
}

/// A side of a peak is fit exactly when it has at least two points, lasts more than a
/// hundredth of a day, spreads beyond its errors, has an error and a weight that can be used
/// at every point, and spreads in time. The fit is the line that was computed, with the
/// number of its points.
pub proof fn which_sides_are_fit<F: Fn(&Vec<PhotometryMag>, Extremes) -> SegmentNumbers>(
    measure: F,
    points: Seq<PhotometryMag>,
    fit: Option<BandRateProperties>,
)
    requires
        fitted(measure, points, fit),
        points.len() <= i32::MAX,
    ensures
        exists|numbers: SegmentNumbers|
            {
                &&& #[trigger] measured(measure, points, numbers)
                &&& fit is Some <==> {
                    &&& points.len() >= 2
                    &&& !numbers.span.at_most(Double { bits: 0x3F84_7AE1_47AE_147B })
                    &&& !numbers.faint_edge.at_most(numbers.bright_edge)
                    &&& !numbers.line.spread.less(Single { bits: 0x2EDB_E6FF })
                    &&& forall|i: int|
                        0 <= i < points.len() ==> !(#[trigger] points[i]).mag_err.at_most(
                            Single { bits: 0 },
                        ) && points[i].mag_err.is_finite_spec()
                            && numbers.weights@[i].is_finite_spec()
                }
                &&& fit matches Some(fit) ==> {
                    &&& fit.rate == numbers.line.rate
                    &&& fit.rate_error == numbers.line.rate_error
                    &&& fit.chi2 == numbers.line.chi2
                    &&& fit.dt == numbers.line.dt
                    &&& fit.nb_data == points.len()
                    &&& fit.dof == points.len() - 2
                    &&& points.len() == 2 ==> fit.red_chi2 is None
                    &&& points.len() > 2 ==> fit.red_chi2 == Some(numbers.line.red_chi2)
                }
            },
{
    let numbers = choose|numbers: SegmentNumbers| #[trigger]
        measured(measure, points, numbers) && fit == segment_fit(points, numbers);
    let errors = errors_of(points);
    let good = forall|i: int|
        0 <= i < points.len() ==> !(#[trigger] points[i]).mag_err.at_most(Single { bits: 0 })
            && points[i].mag_err.is_finite_spec() && numbers.weights@[i].is_finite_spec();
    if fit is Some {
        assert forall|i: int| 0 <= i < points.len() implies !(#[trigger] points[i]).mag_err.at_most(
            Single { bits: 0 },
        ) && points[i].mag_err.is_finite_spec() && numbers.weights@[i].is_finite_spec() by {
            assert(weighable(errors[i], numbers.weights@[i]));
        }
    }
    if good {
        assert forall|i: int| 0 <= i < points.len() implies weighable(
            #[trigger] errors[i],
            numbers.weights@[i],
        ) by {
            assert(!points[i].mag_err.at_most(Single { bits: 0 }));
        }
    }
}

/// What is measured on some points is measured with their brightest and their faintest
/// magnitude, each with the error of the first point that has it.
pub proof fn measurements_know_the_extremes<
    F: Fn(&Vec<PhotometryMag>, Extremes) -> SegmentNumbers,
>(measure: F, points: Seq<PhotometryMag>, numbers: SegmentNumbers)
    requires
        measured(measure, points, numbers),
        points.len() > 0,
        forall|i: int| 0 <= i < points.len() ==> (#[trigger] points[i]).mag.is_finite_spec(),
    ensures
        exists|list: Vec<PhotometryMag>, found: Extremes, a: int, b: int|
            {
                &&& list@ == points
                &&& #[trigger] call_ensures(measure, (&list, found), numbers)
                &&& #[trigger] are_extremes(points, found, a, b)
            },
{
    let list = choose|list: Vec<PhotometryMag>| #[trigger]
        list@ == points && call_ensures(measure, (&list, extremes_of(points)), numbers);
    let (a, b) = lemma_extremes(points);
    assert(call_ensures(measure, (&list, extremes_of(points)), numbers) && are_extremes(
        points,
        extremes_of(points),
        a,
        b,
    ));
}

/// Whether the points at `a` and `b` are the first brightest and the first faintest.
pub open spec fn are_extremes(
    points: Seq<PhotometryMag>,
    found: Extremes,
    a: int,
    b: int,
) -> bool {
    &&& 0 <= a < points.len()
    &&& 0 <= b < points.len()
    &&& found.min_mag == points[a].mag
    &&& found.min_mag_err == points[a].mag_err
    &&& found.max_mag == points[b].mag
    &&& found.max_mag_err == points[b].mag_err
    &&& forall|j: int|
        0 <= j < points.len() ==> points[a].mag.at_most((#[trigger] points[j]).mag)
            && points[j].mag.at_most(points[b].mag)
    &&& forall|j: int| 0 <= j < a ==> points[a].mag.less((#[trigger] points[j]).mag)
    &&& forall|j: int| 0 <= j < b ==> (#[trigger] points[j]).mag.less(points[b].mag)
}

proof fn lemma_extremes(points: Seq<PhotometryMag>) -> (at: (int, int))
    requires
        points.len() > 0,
        forall|i: int| 0 <= i < points.len() ==> (#[trigger] points[i]).mag.is_finite_spec(),
    ensures
        are_extremes(points, extremes_of(points), at.0, at.1),
    decreases points.len(),
{
    let n = points.len();
    let before = points.drop_last();
    reveal_with_fuel(extremes_of, 2);
    if n == 1 {
        assert(before =~= Seq::empty());
        assert(points[0].mag.is_finite_spec());
        (0, 0)
    } else {
        assert forall|i: int| 0 <= i < before.len() implies (
        #[trigger] before[i]).mag.is_finite_spec() by {
            assert(points[i].mag.is_finite_spec());
        }
        let (a, b) = lemma_extremes(before);
        let last = points.last();
        assert(last == points[n - 1]);
        let bright = last.mag.less(before[a].mag);
        let faint = before[b].mag.less(last.mag);
        let c = if bright {
            n - 1
        } else {
            a
        };
        let d = if faint {
            n - 1
        } else {
            b
        };
        assert forall|j: int| 0 <= j < points.len() implies points[c].mag.at_most(
            (#[trigger] points[j]).mag,
        ) && points[j].mag.at_most(points[d].mag) by {
            if j < n - 1 {
                assert(points[j] == before[j]);
            }
        }
        assert forall|j: int| 0 <= j < c implies points[c].mag.less((#[trigger] points[j]).mag) by {
            assert(points[j] == before[j]);
        }
        assert forall|j: int| 0 <= j < d implies (#[trigger] points[j]).mag.less(points[d].mag) by {
            assert(points[j] == before[j]);
        }
        (c, d)
    }
}

/// A line is fit when there are at least two points with a value and an error each, every
/// error is positive and finite with a finite weight, and the times spread.
pub proof fn which_lines_are_fit(
    n: usize,
    n_values: usize,
    sigma: Vec<Single>,
    weights: Vec<Single>,
    numbers: FitNumbers,
    fit: Option<BandRateProperties>,
)
    requires
        call_ensures(
            weighted_least_squares_centered,
            (n, n_values, &sigma, &weights, numbers),
            fit,
        ),
        n <= i32::MAX,
    ensures
        fit is Some <==> {
            &&& n >= 2
            &&& n_values == n
            &&& sigma@.len() == n
            &&& forall|i: int|
                0 <= i < n ==> !(#[trigger] sigma@[i]).at_most(Single { bits: 0 })
                    && sigma@[i].is_finite_spec() && weights@[i].is_finite_spec()
            &&& !numbers.spread.less(Single { bits: 0x2EDB_E6FF })
        },
        fit matches Some(fit) ==> {
            &&& fit.rate == numbers.rate
            &&& fit.rate_error == numbers.rate_error
            &&& fit.chi2 == numbers.chi2
            &&& fit.dt == numbers.dt
            &&& fit.nb_data == n
            &&& fit.dof == n - 2
            &&& n == 2 ==> fit.red_chi2 is None
            &&& n > 2 ==> fit.red_chi2 == Some(numbers.red_chi2)
        },
{
    if fit is Some {
        assert forall|i: int| 0 <= i < n implies !(#[trigger] sigma@[i]).at_most(
            Single { bits: 0 },
        ) && sigma@[i].is_finite_spec() && weights@[i].is_finite_spec() by {
            assert(weighable(sigma@[i], weights@[i]));
        }
    } else if forall|i: int|
        0 <= i < n ==> !(#[trigger] sigma@[i]).at_most(Single { bits: 0 })
            && sigma@[i].is_finite_spec() && weights@[i].is_finite_spec() {
        assert forall|i: int| 0 <= i < n implies weighable(#[trigger] sigma@[i], weights@[i]) by {
            assert(!sigma@[i].at_most(Single { bits: 0 }));
        }
    }
}

proof fn lemma_first_of_its_epoch(points: Seq<PhotometryMag>, i: int) -> (at: int)
    requires
        0 <= i < deduped(points).len(),
        forall|k: int| 0 <= k < points.len() ==> !(#[trigger] points[k]).time.is_nan_spec(),
    ensures
        0 <= at < points.len(),
        points[at] == deduped(points)[i],
        forall|k: int| 0 <= k < at ==> !same_epoch(#[trigger] points[k], points[at]),
    decreases points.len(),
{
    let before = points.drop_last();
    assert forall|k: int| 0 <= k < before.len() implies !(
    #[trigger] before[k]).time.is_nan_spec() by {
        assert(!points[k].time.is_nan_spec());
    }
    if i < deduped(before).len() {
        let at = lemma_first_of_its_epoch(before, i);
        assert forall|k: int| 0 <= k < at implies !same_epoch(
            #[trigger] points[k],
            points[at],
        ) by {
            assert(before[k] == points[k]);
        }
        at
    } else {
        let at = points.len() - 1;
        assert forall|k: int| 0 <= k < at implies !same_epoch(
            #[trigger] points[k],
            points[at],
        ) by {
            if same_epoch(points[k], points[at]) {
                let m = lemma_keeps_every_epoch(before, k);
                assert(same_epoch(deduped(before)[m], points.last()));
                assert(holds_epoch(deduped(before), points.last()));
            }
        }
        at
    }
}

proof fn lemma_keeps_every_epoch(points: Seq<PhotometryMag>, k: int) -> (i: int)
    requires
        0 <= k < points.len(),
        !points[k].time.is_nan_spec(),
    ensures
        0 <= i < deduped(points).len(),
        same_epoch(deduped(points)[i], points[k]),
    decreases points.len(),
{
    let before = deduped(points.drop_last());
    if k < points.len() - 1 {
        let i = lemma_keeps_every_epoch(points.drop_last(), k);
        i
    } else if holds_epoch(before, points.last()) {
        choose|k: int| 0 <= k < before.len() && same_epoch(#[trigger] before[k], points.last())
    } else {
        before.len() as int
    }
}

/// A prepared light curve runs forward in time and has one point for each time and band that
/// was given: the one that was given first.
pub proof fn the_first_point_of_each_epoch_is_kept(points: Seq<PhotometryMag>)
    requires
        points.len() <= usize::MAX,
        forall|k: int| 0 <= k < points.len() ==> !(#[trigger] points[k]).time.is_nan_spec(),
    ensures
        ({
            let prepared = deduped(by_time(points));
            &&& forall|i: int, j: int|
                0 <= i < j < prepared.len() ==> {
                    let a = #[trigger] prepared[i];
                    let b = #[trigger] prepared[j];
                    a.time.less(b.time) || (a.time.equals(b.time) && a.band != b.band)
                }
            &&& forall|i: int| 0 <= i < prepared.len() ==> points.contains(#[trigger] prepared[i])
            &&& forall|k: int|
                0 <= k < points.len() && (forall|m: int|
                    0 <= m < k ==> !((#[trigger] points[m]).time.equals(points[k].time)
                        && points[m].band == points[k].band)) ==> prepared.contains(
                    #[trigger] points[k],
                )
        }),
{
    let sorted = by_time(points);
    let keys = time_keys(points);
    let rows = ranked(keys);
    let prepared = deduped(sorted);
    a_ranking_exists(keys);
    preparing_twice_changes_nothing(points);
    assert forall|k: int| 0 <= k < sorted.len() implies !(
    #[trigger] sorted[k]).time.is_nan_spec() by {
        assert(!points[rows[k] as int].time.is_nan_spec());
    }
    assert forall|i: int| 0 <= i < prepared.len() implies points.contains(
        #[trigger] prepared[i],
    ) && !prepared[i].time.is_nan_spec() by {
        preparing_invents_no_point(points, i);
        let k = choose|k: int| 0 <= k < points.len() && points[k] == prepared[i];
        assert(!points[k].time.is_nan_spec());
    }
    assert forall|i: int, j: int| 0 <= i < j < prepared.len() implies {
        let a = #[trigger] prepared[i];
        let b = #[trigger] prepared[j];
        a.time.less(b.time) || (a.time.equals(b.time) && a.band != b.band)
    } by {
        assert(!prepared[i].time.is_nan_spec() && !prepared[j].time.is_nan_spec());
        assert(prepared[i].time.position() <= prepared[j].time.position());
        assert(!same_epoch(prepared[i], prepared[j]));
    }
    assert forall|k: int|
        0 <= k < points.len() && (forall|m: int|
            0 <= m < k ==> !((#[trigger] points[m]).time.equals(points[k].time)
                && points[m].band == points[k].band)) implies prepared.contains(
        #[trigger] points[k],
    ) by {
        preparing_loses_no_epoch(points, k);
        let i = choose|i: int|
            0 <= i < prepared.len() && same_epoch(#[trigger] prepared[i], points[k]);
        let at = lemma_first_of_its_epoch(sorted, i);
        let row = rows[at] as int;
        assert(sorted[at] == points[row]);
        assert(rows.contains(k as usize));
        let place = choose|place: int| 0 <= place < rows.len() && rows[place] == k as usize;
        assert(sorted[place] == points[k]);
        assert(same_epoch(sorted[place], sorted[at]));
        if row < k {
            assert(points[row].time.equals(points[k].time) && points[row].band == points[k].band);
        }
        if place < at {
            assert(!same_epoch(sorted[place], sorted[at]));
        }
        if at < place {
            assert(precedes(keys, rows[at] as int, rows[place] as int));
            assert(keys[rows[at] as int] == keys[k]);
        }
        assert(row == k);
        assert(prepared[i] == points[k]);
    }
}

/// The excess in the aperture is told where both magnitudes and their difference are finite.
pub proof fn excess_by_magnitudes(
    psf: Option<Single>,
    aperture: Option<Single>,
    difference: Single,
    metrics: ActivityMetrics,
)
    requires
        call_ensures(ActivityMetrics::from_magnitudes, (psf, aperture, difference), metrics),
    ensures
        metrics.aperture_excess is Some <==> {
            &&& psf matches Some(x) && x.is_finite_spec()
            &&& aperture matches Some(x) && x.is_finite_spec()
            &&& difference.is_finite_spec()
        },
        metrics.aperture_excess matches Some(x) ==> x == difference,
{
}

/// The excess in the aperture is told where both fluxes are above 0 or both are below, and
/// the excess is finite.
pub proof fn excess_by_fluxes(
    psf: Option<Single>,
    aperture: Option<Single>,
    excess: Single,
    metrics: ActivityMetrics,
)
    requires
        call_ensures(ActivityMetrics::from_fluxes, (psf, aperture, excess), metrics),
    ensures
        metrics.aperture_excess is Some <==> {
            let zero = Single { bits: 0 };
            &&& psf is Some && aperture is Some
            &&& (zero.less(psf->0) && zero.less(aperture->0)) || ((psf->0).less(zero)
                && (aperture->0).less(zero))
            &&& excess.is_finite_spec()
        },
        metrics.aperture_excess matches Some(x) ==> x == excess,
{
}

/// The place of a band among the nine.
pub open spec fn place_of(band: Band) -> int {
    match band {
        Band::G => 0,
        Band::R => 1,
        Band::I => 2,
        Band::Z => 3,
        Band::Y => 4,
        Band::U => 5,
        Band::J => 6,
        Band::H => 7,
        Band::K => 8,
    }
}

/// Whether the point at `k` is the first of the faintest of some points. Magnitudes that are
/// not numbers are passed over, unless it is the first: then that point stands for all.
pub open spec fn is_dimmest(points: Seq<PhotometryMag>, k: int) -> bool {
    &&& 0 <= k < points.len()
    &&& points[0].mag.is_nan_spec() ==> k == 0
    &&& !points[0].mag.is_nan_spec() ==> {
        &&& !points[k].mag.is_nan_spec()
        &&& forall|j: int|
            0 <= j < points.len() ==> (#[trigger] points[j]).mag.is_nan_spec()
                || points[j].mag.at_most(points[k].mag)
        &&& forall|j: int|
            0 <= j < k ==> (#[trigger] points[j]).mag.is_nan_spec() || points[j].mag.less(
                points[k].mag,
            )
    }
}

proof fn lemma_faintest_is_dimmest(points: Seq<PhotometryMag>)
    requires
        points.len() > 0,
    ensures
        is_dimmest(points, faintest(points)),
    decreases points.len(),
{
    if points.len() > 1 {
        let before = points.drop_last();
        lemma_faintest_is_dimmest(before);
        let best = faintest(before);
        assert(before[0] == points[0] && before[best] == points[best]);
        if !points[0].mag.is_nan_spec() {
            assert forall|j: int| 0 <= j < points.len() implies (
            #[trigger] points[j]).mag.is_nan_spec() || points[j].mag.at_most(
                points[faintest(points)].mag,
            ) by {
                if j < before.len() {
                    assert(before[j] == points[j]);
                }
            }
            assert forall|j: int| 0 <= j < faintest(points) implies (
            #[trigger] points[j]).mag.is_nan_spec() || points[j].mag.less(
                points[faintest(points)].mag,
            ) by {
                assert(before[j] == points[j]);
            }
        }
    }
}

proof fn lemma_bands_hold_numbers(points: Seq<PhotometryMag>, band: Band)
    requires
        all_numbers(points),
    ensures
        all_numbers(in_band(points, band)),
{
    let held = in_band(points, band);
    assert forall|k: int| 0 <= k < held.len() implies !(#[trigger] held[k]).mag.is_nan_spec() by {
        lemma_in_band_is_of_points(points, band, k);
        let i = choose|i: int| 0 <= i < points.len() && points[i] == held[k];
        assert(!points[i].mag.is_nan_spec());
    }
}

proof fn lemma_point_in_band(points: Seq<PhotometryMag>, j: int) -> (k: int)
    requires
        0 <= j < points.len(),
    ensures
        0 <= k < in_band(points, points[j].band).len(),
        in_band(points, points[j].band)[k] == points[j],
    decreases points.len(),
{
    let band = points[j].band;
    if j < points.len() - 1 {
        let k = lemma_point_in_band(points.drop_last(), j);
        k
    } else {
        in_band(points.drop_last(), band).len() as int
    }
}

/// Which band the brightest of the first `n` bands and the first point is of; none where it
/// is the first point.
proof fn lemma_peak_band(points: Seq<PhotometryMag>, n: nat) -> (b: int)
    requires
        points.len() > 0,
        all_numbers(points),
    ensures
        -1 <= b < n,
        b == -1 ==> peak_over(points, n) == points[0],
        b >= 0 ==> {
            let held = in_band(points, Band::at(b));
            &&& held.len() > 0
            &&& peak_over(points, n) == held[brightest(held)]
            &&& peak_over(points, n).mag.less(points[0].mag)
        },
        forall|c: int|
            0 <= c < b ==> {
                let held = in_band(points, #[trigger] Band::at(c));
                held.len() > 0 ==> peak_over(points, n).mag.less(held[brightest(held)].mag)
            },
        peak_over(points, n).mag.at_most(points[0].mag),
        !peak_over(points, n).mag.is_nan_spec(),
    decreases n,
{
    if n == 0 {
        assert(!points[0].mag.is_nan_spec());
        -1
    } else {
        let b = lemma_peak_band(points, (n - 1) as nat);
        let before = peak_over(points, (n - 1) as nat);
        let band = Band::at(n - 1);
        let held = in_band(points, band);
        lemma_bands_hold_numbers(points, band);
        if held.len() > 0 {
            lemma_brightest_is_peak(held);
        }
        if held.len() > 0 && held[brightest(held)].mag.less(before.mag) {
            assert forall|c: int| 0 <= c < n - 1 implies {
                let other = in_band(points, #[trigger] Band::at(c));
                other.len() > 0 ==> peak_over(points, n).mag.less(other[brightest(other)].mag)
            } by {
                let other = in_band(points, Band::at(c));
                lemma_bands_hold_numbers(points, Band::at(c));
                if other.len() > 0 {
                    lemma_brightest_is_peak(other);
                    lemma_peak_is_least(points, (n - 1) as nat, c);
                }
            }
            n - 1
        } else {
            b
        }
    }
}

proof fn lemma_peak_is_least(points: Seq<PhotometryMag>, n: nat, c: int)
    requires
        points.len() > 0,
        all_numbers(points),
        0 <= c < n,
        in_band(points, Band::at(c)).len() > 0,
    ensures
        ({
            let other = in_band(points, Band::at(c));
            peak_over(points, n).mag.at_most(other[brightest(other)].mag)
        }),
        !peak_over(points, n).mag.is_nan_spec(),
    decreases n,
{
    let before = peak_over(points, (n - 1) as nat);
    let held = in_band(points, Band::at(n - 1));
    lemma_bands_hold_numbers(points, Band::at(n - 1));
    if held.len() > 0 {
        lemma_brightest_is_peak(held);
    }
    if c < n - 1 {
        lemma_peak_is_least(points, (n - 1) as nat, c);
    } else {
        lemma_peak_is_number(points, (n - 1) as nat);
    }
}

proof fn lemma_peak_is_number(points: Seq<PhotometryMag>, n: nat)
    requires
        points.len() > 0,
        all_numbers(points),
    ensures
        !peak_over(points, n).mag.is_nan_spec(),
        !faintest_over(points, n).mag.is_nan_spec(),
{
    lemma_overall_are_points(points, n);
    let i = choose|i: int| 0 <= i < points.len() && points[i] == peak_over(points, n);
    let j = choose|j: int| 0 <= j < points.len() && points[j] == faintest_over(points, n);
    assert(!points[i].mag.is_nan_spec() && !points[j].mag.is_nan_spec());
}

/// Of several brightest points the one that is told is the first of all, if it is one of
/// them, and else the first of the first band that has one, in the order g, r, i, z, y, u, j,
/// h, k.
pub proof fn the_first_of_equal_peaks_is_told<
    F: Fn(&Vec<PhotometryMag>, Extremes) -> SegmentNumbers,
>(
    points: Vec<PhotometryMag>,
    measure: F,
    report: (PerBandProperties, AllBandsProperties, bool),
)
    requires
        call_ensures(analyze_photometry::<F>, (&points, &measure), report),
        points@.len() > 0,
        all_numbers(points@),
    ensures
        (forall|j: int| 0 <= j < points@.len() ==> points@[0].mag.at_most((#[trigger] points@[j]).mag))
            ==> tells_the_peak(report.1, points@[0]),
        !(forall|j: int|
            0 <= j < points@.len() ==> points@[0].mag.at_most((#[trigger] points@[j]).mag)) ==> {
            let held = of_band(points@, report.1.peak_band);
            &&& exists|k: int| is_peak(held, k) && tells_the_peak(report.1, #[trigger] held[k])
            &&& forall|j: int|
                0 <= j < points@.len() && (#[trigger] points@[j]).mag.at_most(report.1.peak_mag)
                    ==> place_of(report.1.peak_band) <= place_of(points@[j].band)
        },
{
    let n = BANDS as nat;
    let b = lemma_peak_band(points@, n);
    let peak = peak_over(points@, n);
    if b >= 0 {
        let band = Band::at(b);
        let held = in_band(points@, band);
        lemma_brightest_is_peak(held);
        lemma_in_band(points@, band);
        lemma_in_band_has_band(points@, band, brightest(held));
        assert(peak.band == band);
        assert(tells_the_peak(report.1, held[brightest(held)]));
        lemma_in_band_is_of_points(points@, band, brightest(held));
        let i = choose|i: int| 0 <= i < points@.len() && points@[i] == held[brightest(held)];
        assert(!points@[0].mag.at_most(points@[i].mag));
        assert forall|j: int|
            0 <= j < points@.len() && (#[trigger] points@[j]).mag.at_most(
                report.1.peak_mag,
            ) implies place_of(report.1.peak_band) <= place_of(points@[j].band) by {
            let c = place_of(points@[j].band);
            assert(Band::at(c) == points@[j].band);
            let other = in_band(points@, Band::at(c));
            let m = lemma_point_in_band(points@, j);
            lemma_bands_hold_numbers(points@, Band::at(c));
            lemma_brightest_is_peak(other);
            assert(other[brightest(other)].mag.at_most(other[m].mag));
            assert(place_of(band) == b);
        }
    } else {
        assert(tells_the_peak(report.1, points@[0]));
        assert forall|j: int| 0 <= j < points@.len() implies points@[0].mag.at_most(
            (#[trigger] points@[j]).mag,
        ) by {
            nothing_outshines_the_overall_peak(points@, j);
        }
    }
}

proof fn lemma_in_band_has_band(points: Seq<PhotometryMag>, band: Band, k: int)
    requires
        0 <= k < in_band(points, band).len(),
    ensures
        in_band(points, band)[k].band == band,
    decreases points.len(),
{
    if k < in_band(points.drop_last(), band).len() {
        lemma_in_band_has_band(points.drop_last(), band, k);
    }
}

/// Which band the faintest of the first `n` bands and the first point is of; none where it is
/// the first point.
proof fn lemma_faintest_band(points: Seq<PhotometryMag>, n: nat) -> (b: int)
    requires
        points.len() > 0,
        all_numbers(points),
    ensures
        -1 <= b < n,
        b == -1 ==> faintest_over(points, n) == points[0],
        b >= 0 ==> {
            let held = in_band(points, Band::at(b));
            &&& held.len() > 0
            &&& faintest_over(points, n) == held[faintest(held)]
            &&& points[0].mag.less(faintest_over(points, n).mag)
        },
        forall|c: int|
            0 <= c < b ==> {
                let held = in_band(points, #[trigger] Band::at(c));
                held.len() > 0 ==> held[faintest(held)].mag.less(faintest_over(points, n).mag)
            },
        points[0].mag.at_most(faintest_over(points, n).mag),
    decreases n,
{
    lemma_peak_is_number(points, n);
    if n == 0 {
        assert(!points[0].mag.is_nan_spec());
        -1
    } else {
        let b = lemma_faintest_band(points, (n - 1) as nat);
        let before = faintest_over(points, (n - 1) as nat);
        let band = Band::at(n - 1);
        let held = in_band(points, band);
        lemma_bands_hold_numbers(points, band);
        if held.len() > 0 {
            lemma_faintest_is_dimmest(held);
        }
        if held.len() > 0 && before.mag.less(held[faintest(held)].mag) {
            assert forall|c: int| 0 <= c < n - 1 implies {
                let other = in_band(points, #[trigger] Band::at(c));
                other.len() > 0 ==> other[faintest(other)].mag.less(faintest_over(points, n).mag)
            } by {
                let other = in_band(points, Band::at(c));
                lemma_bands_hold_numbers(points, Band::at(c));
                if other.len() > 0 {
                    lemma_faintest_is_dimmest(other);
                    lemma_faintest_is_greatest(points, (n - 1) as nat, c);
                }
            }
            n - 1
        } else {
            b
        }
    }
}

proof fn lemma_faintest_is_greatest(points: Seq<PhotometryMag>, n: nat, c: int)
    requires
        points.len() > 0,
        all_numbers(points),
        0 <= c < n,
        in_band(points, Band::at(c)).len() > 0,
    ensures
        ({
            let other = in_band(points, Band::at(c));
            other[faintest(other)].mag.at_most(faintest_over(points, n).mag)
        }),
    decreases n,
{
    let before = faintest_over(points, (n - 1) as nat);
    let held = in_band(points, Band::at(n - 1));
    lemma_bands_hold_numbers(points, Band::at(n - 1));
    lemma_peak_is_number(points, n);
    lemma_peak_is_number(points, (n - 1) as nat);
    if held.len() > 0 {
        lemma_faintest_is_dimmest(held);
    }
    if c < n - 1 {
        lemma_faintest_is_greatest(points, (n - 1) as nat, c);
    }
}

/// Of several faintest points the one that is told is chosen in the same way.
pub proof fn the_first_of_equal_faintest_points_is_told<
    F: Fn(&Vec<PhotometryMag>, Extremes) -> SegmentNumbers,
>(
    points: Vec<PhotometryMag>,
    measure: F,
    report: (PerBandProperties, AllBandsProperties, bool),
)
    requires
        call_ensures(analyze_photometry::<F>, (&points, &measure), report),
        points@.len() > 0,
        all_numbers(points@),
    ensures
        (forall|j: int| 0 <= j < points@.len() ==> (#[trigger] points@[j]).mag.at_most(points@[0].mag))
            ==> tells_the_faintest(report.1, points@[0]),
        !(forall|j: int|
            0 <= j < points@.len() ==> (#[trigger] points@[j]).mag.at_most(points@[0].mag)) ==> {
            let held = of_band(points@, report.1.faintest_band);
            &&& exists|k: int|
                is_dimmest(held, k) && tells_the_faintest(report.1, #[trigger] held[k])
            &&& forall|j: int|
                0 <= j < points@.len() && report.1.faintest_mag.at_most((#[trigger] points@[j]).mag)
                    ==> place_of(report.1.faintest_band) <= place_of(points@[j].band)
        },
{
    let n = BANDS as nat;
    let b = lemma_faintest_band(points@, n);
    let faint = faintest_over(points@, n);
    if b >= 0 {
        let band = Band::at(b);
        let held = in_band(points@, band);
        lemma_faintest_is_dimmest(held);
        lemma_in_band(points@, band);
        lemma_in_band_has_band(points@, band, faintest(held));
        assert(faint.band == band);
        assert(tells_the_faintest(report.1, held[faintest(held)]));
        lemma_in_band_is_of_points(points@, band, faintest(held));
        let i = choose|i: int| 0 <= i < points@.len() && points@[i] == held[faintest(held)];
        assert(!points@[i].mag.at_most(points@[0].mag));
        assert forall|j: int|
            0 <= j < points@.len() && report.1.faintest_mag.at_most(
                (#[trigger] points@[j]).mag,
            ) implies place_of(report.1.faintest_band) <= place_of(points@[j].band) by {
            let c = place_of(points@[j].band);
            assert(Band::at(c) == points@[j].band);
            let other = in_band(points@, Band::at(c));
            let m = lemma_point_in_band(points@, j);
            lemma_bands_hold_numbers(points@, Band::at(c));
            lemma_faintest_is_dimmest(other);
            assert(other[m].mag.at_most(other[faintest(other)].mag));
            assert(place_of(band) == b);
        }
    } else {
        assert(tells_the_faintest(report.1, points@[0]));
        assert forall|j: int| 0 <= j < points@.len() implies (#[trigger] points@[j]).mag.at_most(
            points@[0].mag,
        ) by {
            nothing_outshines_the_overall_peak(points@, j);
        }
    }
}

/// The extremes of points with finite magnitudes are the first brightest and the first
/// faintest. Without a point the brightest is infinitely faint and the faintest infinitely
/// bright.
pub proof fn extremes_are_those_of_points(points: Vec<PhotometryMag>, found: Extremes)
    requires
        call_ensures(extremes, (&points,), found),
        forall|i: int| 0 <= i < points@.len() ==> (#[trigger] points@[i]).mag.is_finite_spec(),
    ensures
        points@.len() > 0 ==> exists|a: int, b: int| are_extremes(points@, found, a, b),
        points@.len() == 0 ==> found.min_mag.bits == 0x7F80_0000 && found.max_mag.bits
            == 0xFF80_0000 && found.min_mag_err.bits == 0x7F80_0000 && found.max_mag_err.bits
            == 0xFF80_0000,
{
    if points@.len() > 0 {
        let (a, b) = lemma_extremes(points@);
        assert(are_extremes(points@, found, a, b));
    }
}


/// A segment is fit by what was computed of it, and by nothing else.
pub proof fn which_segments_are_fit(
    points: Vec<PhotometryMag>,
    numbers: SegmentNumbers,
    fit: Option<BandRateProperties>,
)
    requires
        call_ensures(fit_segment, (&points, &numbers), fit),
        points@.len() <= i32::MAX,
    ensures
        fit is Some <==> {
            &&& points@.len() >= 2
            &&& !numbers.span.at_most(Double { bits: 0x3F84_7AE1_47AE_147B })
            &&& !numbers.faint_edge.at_most(numbers.bright_edge)
            &&& !numbers.line.spread.less(Single { bits: 0x2EDB_E6FF })
            &&& forall|i: int|
                0 <= i < points@.len() ==> !(#[trigger] points@[i]).mag_err.at_most(
                    Single { bits: 0 },
                ) && points@[i].mag_err.is_finite_spec() && numbers.weights@[i].is_finite_spec()
        },
        fit matches Some(fit) ==> {
            &&& fit.rate == numbers.line.rate
            &&& fit.rate_error == numbers.line.rate_error
            &&& fit.chi2 == numbers.line.chi2
            &&& fit.dt == numbers.line.dt
            &&& fit.nb_data == points@.len()
            &&& fit.dof == points@.len() - 2
            &&& points@.len() == 2 ==> fit.red_chi2 is None
            &&& points@.len() > 2 ==> fit.red_chi2 == Some(numbers.line.red_chi2)
        },
{
    let errors = errors_of(points@);
    let good = forall|i: int|
        0 <= i < points@.len() ==> !(#[trigger] points@[i]).mag_err.at_most(Single { bits: 0 })
            && points@[i].mag_err.is_finite_spec() && numbers.weights@[i].is_finite_spec();
    if fit is Some {
        assert forall|i: int| 0 <= i < points@.len() implies !(
        #[trigger] points@[i]).mag_err.at_most(Single { bits: 0 })
            && points@[i].mag_err.is_finite_spec() && numbers.weights@[i].is_finite_spec() by {
            assert(weighable(errors[i], numbers.weights@[i]));
        }
    }
    if good {
        assert forall|i: int| 0 <= i < points@.len() implies weighable(
            #[trigger] errors[i],
            numbers.weights@[i],
        ) by {
            assert(!points@[i].mag_err.at_most(Single { bits: 0 }));
        }
    }
}

}
