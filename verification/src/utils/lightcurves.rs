//! Light curves: their preparation, their peaks and the fits on either side.
//!
//! Differences, sums and least-squares fits are computed outside and handed in;
//! what is decided here is which points they are computed from and what is
//! reported of them.
use vstd::prelude::*;

use crate::binary::{Double, Single, SINGLE_INFINITY, SINGLE_SIGN};
use crate::order::{a_ranking_exists, a_ranking_is_unique, is_ranking, precedes, ranked, ranking, Key};

verus! {

/// The filters of the surveys.
#[derive(Clone, Copy, Debug, PartialEq, Eq, Hash, Structural)]
pub enum Band {
    G,
    R,
    I,
    Z,
    Y,
    U,
    J,
    H,
    K,
}

impl Band {
    pub open spec fn name(self) -> Seq<char> {
        match self {
            Band::G => "g"@,
            Band::R => "r"@,
            Band::I => "i"@,
            Band::Z => "z"@,
            Band::Y => "y"@,
            Band::U => "u"@,
            Band::J => "j"@,
            Band::H => "h"@,
            Band::K => "k"@,
        }
    }

    pub fn as_str(self) -> (name: &'static str)
        ensures
            name@ == self.name(),
    {
        match self {
            Band::G => "g",
            Band::R => "r",
            Band::I => "i",
            Band::Z => "z",
            Band::Y => "y",
            Band::U => "u",
            Band::J => "j",
            Band::H => "h",
            Band::K => "k",
        }
    }

    /// The bands in the order in which they are looked at.
    pub open spec fn at(i: int) -> Band {
        if i == 0 {
            Band::G
        } else if i == 1 {
            Band::R
        } else if i == 2 {
            Band::I
        } else if i == 3 {
            Band::Z
        } else if i == 4 {
            Band::Y
        } else if i == 5 {
            Band::U
        } else if i == 6 {
            Band::J
        } else if i == 7 {
            Band::H
        } else {
            Band::K
        }
    }

    fn nth(i: usize) -> (band: Band)
        ensures
            band == Band::at(i as int),
    {
        match i {
            0 => Band::G,
            1 => Band::R,
            2 => Band::I,
            3 => Band::Z,
            4 => Band::Y,
            5 => Band::U,
            6 => Band::J,
            7 => Band::H,
            _ => Band::K,
        }
    }
}

/// Number of bands.
pub const BANDS: usize = 9;

/// One point of a light curve.
#[derive(Clone, Copy, Debug, PartialEq, Eq, Structural)]
pub struct PhotometryMag {
    pub time: Double,
    pub mag: Single,
    pub mag_err: Single,
    pub band: Band,
}

/// A fit of one side of a peak.
#[derive(Clone, Copy, Debug, PartialEq, Eq, Structural)]
pub struct BandRateProperties {
    pub rate: Single,
    pub rate_error: Single,
    /// Chi-square of the fit, exactly zero for a fit of two points.
    pub chi2: Single,
    /// Degrees of freedom, two less than the number of points.
    pub dof: i32,
    /// Chi-square per degree of freedom; nothing when there is none of them.
    pub red_chi2: Option<Single>,
    pub nb_data: i32,
    pub dt: Single,
}

/// Fits over the last days only. Present whenever the window holds a detection, so
/// that no recent data and recent data that cannot be fit stay distinguishable.
#[derive(Clone, Copy, Debug, PartialEq, Eq, Structural)]
pub struct RecentProperties {
    /// Width of the window in days.
    pub window_days: Single,
    /// Detections inside the window.
    pub nb_data: i32,
    pub peak_jd: Double,
    pub peak_mag: Single,
    pub rising: Option<BandRateProperties>,
    pub fading: Option<BandRateProperties>,
}

#[derive(Clone, Copy, Debug, PartialEq, Eq, Structural)]
pub struct BandProperties {
    pub peak_jd: Double,
    pub peak_mag: Single,
    pub peak_mag_err: Single,
    pub dt: Single,
    /// Fits over the whole light curve.
    pub rising: Option<BandRateProperties>,
    pub fading: Option<BandRateProperties>,
    /// The same fits over the last days, or nothing when no detection falls there.
    pub recent: Option<RecentProperties>,
}

#[derive(Clone, Copy, Debug)]
pub struct PerBandProperties {
    pub g: Option<BandProperties>,
    pub r: Option<BandProperties>,
    pub i: Option<BandProperties>,
    pub z: Option<BandProperties>,
    pub y: Option<BandProperties>,
    pub u: Option<BandProperties>,
    pub j: Option<BandProperties>,
    pub h: Option<BandProperties>,
    pub k: Option<BandProperties>,
}

#[derive(Clone, Copy, Debug)]
pub struct AllBandsProperties {
    pub peak_jd: Double,
    pub peak_mag: Single,
    pub peak_mag_err: Single,
    pub peak_band: Band,
    pub faintest_jd: Double,
    pub faintest_mag: Single,
    pub faintest_mag_err: Single,
    pub faintest_band: Band,
    pub first_jd: Double,
    pub last_jd: Double,
}

impl PerBandProperties {
    pub open spec fn of(self, band: Band) -> Option<BandProperties> {
        match band {
            Band::G => self.g,
            Band::R => self.r,
            Band::I => self.i,
            Band::Z => self.z,
            Band::Y => self.y,
            Band::U => self.u,
            Band::J => self.j,
            Band::H => self.h,
            Band::K => self.k,
        }
    }

    pub fn none() -> (properties: PerBandProperties)
        ensures
            forall|band: Band| #[trigger] properties.of(band) is None,
    {
        PerBandProperties {
            g: None,
            r: None,
            i: None,
            z: None,
            y: None,
            u: None,
            j: None,
            h: None,
            k: None,
        }
    }

    fn set(&mut self, band: Band, properties: BandProperties)
        ensures
            final(self).of(band) == Some(properties),
            forall|other: Band|
                other != band ==> #[trigger] final(self).of(other) == old(self).of(other),
    {
        match band {
            Band::G => self.g = Some(properties),
            Band::R => self.r = Some(properties),
            Band::I => self.i = Some(properties),
            Band::Z => self.z = Some(properties),
            Band::Y => self.y = Some(properties),
            Band::U => self.u = Some(properties),
            Band::J => self.j = Some(properties),
            Band::H => self.h = Some(properties),
            Band::K => self.k = Some(properties),
        }
    }
}

/// What points are ordered by.
pub open spec fn time_keys(points: Seq<PhotometryMag>) -> Seq<Key> {
    points.map_values(|point: PhotometryMag| (point.time.position() as i64, 0i64, 0i64))
}

/// Some points in the order of their times; those of one time keep their order.
pub open spec fn by_time(points: Seq<PhotometryMag>) -> Seq<PhotometryMag> {
    ranked(time_keys(points)).map_values(|row: usize| points[row as int])
}

/// Whether two points were taken at one time in one band.
pub open spec fn same_epoch(a: PhotometryMag, b: PhotometryMag) -> bool {
    a.time.equals(b.time) && a.band == b.band
}

/// Whether some points hold one of the time and band of `point`.
pub open spec fn holds_epoch(points: Seq<PhotometryMag>, point: PhotometryMag) -> bool {
    exists|k: int| 0 <= k < points.len() && same_epoch(#[trigger] points[k], point)
}

/// The first point of each time and band.
pub open spec fn deduped(points: Seq<PhotometryMag>) -> Seq<PhotometryMag>
    decreases points.len(),
{
    if points.len() == 0 {
        points
    } else {
        let before = deduped(points.drop_last());
        if holds_epoch(before, points.last()) {
            before
        } else {
            before.push(points.last())
        }
    }
}

/// Whether points can be ordered by time: a time that is not a number has no place.
pub open spec fn sortable(points: Seq<PhotometryMag>) -> bool {
    points.len() >= 2 ==> forall|i: int|
        0 <= i < points.len() ==> !(#[trigger] points[i]).time.is_nan_spec()
}

/// Whether a point of the time and band of `point` stands among some points, none of
/// which is later.
fn find_epoch(points: &Vec<PhotometryMag>, point: PhotometryMag) -> (found: bool)
    requires
        chronological(points@),
        points@.len() > 0 ==> points@.last().time.position() <= point.time.position(),
    ensures
        found == holds_epoch(points@, point),
{
    let mut k: usize = points.len();
    while k > 0 && points[k - 1].time.place() == point.time.place()
        invariant
            k <= points@.len(),
            forall|m: int| k <= m < points@.len() ==> !same_epoch(#[trigger] points@[m], point),
        decreases k,
    {
        k = k - 1;
        if points[k].time.same(point.time) && points[k].band == point.band {
            assert(same_epoch(points@[k as int], point));
            return true;
        }
    }
    assert forall|m: int| 0 <= m < points@.len() implies !same_epoch(
        #[trigger] points@[m],
        point,
    ) by {
        if m < k {
            let newest = points@.last();
            assert(points@[k - 1].time.position() <= newest.time.position());
            assert(points@[m].time.position() <= points@[k - 1].time.position());
        }
    }
    false
}

/// Sorts a light curve by time and removes duplicates, which are points of one time and
/// band.
pub fn prepare_photometry(photometry: &mut Vec<PhotometryMag>)
    requires
        sortable(old(photometry)@),
    ensures
        final(photometry)@ == deduped(by_time(old(photometry)@)),
        forall|i: int, j: int|
            0 <= i < j < final(photometry)@.len() ==> !same_epoch(
                #[trigger] final(photometry)@[i],
                #[trigger] final(photometry)@[j],
            ),
{
    let mut keys: Vec<Key> = Vec::new();
    let ghost points = photometry@;
    let mut i: usize = 0;
    while i < photometry.len()
        invariant
            i <= photometry@.len(),
            points == photometry@,
            keys@ == time_keys(points).take(i as int),
        decreases photometry.len() - i,
    {
        keys.push((photometry[i].time.place(), 0, 0));
        i = i + 1;
        assert(keys@ =~= time_keys(points).take(i as int));
    }
    assert(keys@ =~= time_keys(points));
    let order = ranking(&keys);
    let mut prepared: Vec<PhotometryMag> = Vec::new();
    let mut j: usize = 0;
    let ghost sorted = by_time(points);
    assert(sorted.take(0) =~= Seq::empty());
    proof {
        lemma_by_time_is_chronological(points);
    }
    while j < order.len()
        invariant
            j <= order@.len(),
            points == photometry@,
            sorted == by_time(points),
            order@ == ranked(time_keys(points)),
            is_ranking(time_keys(points), order@),
            chronological(sorted),
            sorted.len() == order@.len(),
            prepared@ == deduped(sorted.take(j as int)),
        decreases order.len() - j,
    {
        let point: PhotometryMag = photometry[order[j]];
        assert(sorted.take(j + 1).drop_last() =~= sorted.take(j as int));
        assert(sorted.take(j + 1).last() == point);
        proof {
            let earlier = sorted.take(j as int);
            lemma_deduped_keeps_order(earlier);
            if j > 0 {
                assert(earlier.last() == sorted[j - 1]);
                assert(sorted[j - 1].time.position() <= sorted[j as int].time.position());
            }
        }
        if !find_epoch(&prepared, point) {
            prepared.push(point);
        }
        j = j + 1;
    }
    assert(sorted.take(j as int) =~= sorted);
    proof {
        lemma_deduped_keeps_order(sorted);
    }
    *photometry = prepared;
}

proof fn lemma_deduped_is_contained(points: Seq<PhotometryMag>, i: int)
    requires
        0 <= i < deduped(points).len(),
    ensures
        points.contains(deduped(points)[i]),
    decreases points.len(),
{
    let before = deduped(points.drop_last());
    if i < before.len() {
        lemma_deduped_is_contained(points.drop_last(), i);
        let k = choose|k: int|
            0 <= k < points.drop_last().len() && points.drop_last()[k] == before[i];
        assert(points[k] == before[i]);
    } else {
        assert(points[points.len() - 1] == points.last());
    }
}

/// Whether points stand in the order of their times.
pub open spec fn chronological(points: Seq<PhotometryMag>) -> bool {
    forall|i: int, j: int|
        0 <= i < j < points.len() ==> (#[trigger] points[i]).time.position() <= (
        #[trigger] points[j]).time.position()
}

/// Whether no two points are of one time and band.
pub open spec fn without_repeats(points: Seq<PhotometryMag>) -> bool {
    forall|i: int, j: int|
        0 <= i < j < points.len() ==> !same_epoch(#[trigger] points[i], #[trigger] points[j])
}

proof fn lemma_positions_fit(x: Double)
    ensures
        x.position() as i64 == x.position(),
{
}

proof fn lemma_by_time_is_chronological(points: Seq<PhotometryMag>)
    requires
        points.len() <= usize::MAX,
    ensures
        chronological(by_time(points)),
        by_time(points).len() == points.len(),
{
    a_ranking_exists(time_keys(points));
    let keys = time_keys(points);
    let rows = ranked(keys);
    let sorted = by_time(points);
    assert forall|i: int, j: int| 0 <= i < j < sorted.len() implies (
    #[trigger] sorted[i]).time.position() <= (#[trigger] sorted[j]).time.position() by {
        assert(precedes(keys, rows[i] as int, rows[j] as int));
        lemma_positions_fit(points[rows[i] as int].time);
        lemma_positions_fit(points[rows[j] as int].time);
    }
}

proof fn lemma_deduped_keeps_order(points: Seq<PhotometryMag>)
    requires
        chronological(points),
    ensures
        chronological(deduped(points)),
        without_repeats(deduped(points)),
        deduped(points).len() > 0 ==> points.len() > 0
            && deduped(points).last().time.position() <= points.last().time.position(),
    decreases points.len(),
{
    if points.len() > 0 {
        let before = points.drop_last();
        assert(chronological(before));
        lemma_deduped_keeps_order(before);
        let kept = deduped(before);
        if kept.len() > 0 {
            assert(before.last() == points[points.len() - 2]);
            assert(points.last() == points[points.len() - 1]);
        }
        let after = deduped(points);
        assert forall|i: int, j: int| 0 <= i < j < after.len() implies (
        #[trigger] after[i]).time.position() <= (#[trigger] after[j]).time.position() by {
            if j == kept.len() {
                if i < kept.len() - 1 {
                    assert(kept[i].time.position() <= kept[kept.len() - 1].time.position());
                }
                assert(kept.last().time.position() <= before.last().time.position());
            }
        }
    }
}

proof fn lemma_deduping_what_has_no_repeats(points: Seq<PhotometryMag>)
    requires
        without_repeats(points),
    ensures
        deduped(points) == points,
    decreases points.len(),
{
    if points.len() > 0 {
        let before = points.drop_last();
        assert(without_repeats(before));
        lemma_deduping_what_has_no_repeats(before);
        assert forall|k: int| 0 <= k < before.len() implies !same_epoch(
            #[trigger] before[k],
            points.last(),
        ) by {
            assert(!same_epoch(points[k], points[points.len() - 1]));
        }
        assert(before.push(points.last()) =~= points);
    }
}

/// What stands in order already is not moved.
proof fn lemma_sorting_what_is_sorted(points: Seq<PhotometryMag>)
    requires
        chronological(points),
        points.len() <= usize::MAX,
    ensures
        by_time(points) == points,
{
    let keys = time_keys(points);
    let rows = Seq::new(points.len(), |i: int| i as usize);
    assert forall|i: int, j: int| 0 <= i < j < rows.len() implies precedes(
        keys,
        #[trigger] rows[i] as int,
        #[trigger] rows[j] as int,
    ) by {
        lemma_positions_fit(points[i].time);
        lemma_positions_fit(points[j].time);
        assert(points[i].time.position() <= points[j].time.position());
    }
    assert forall|row: usize| 0 <= row < keys.len() implies #[trigger] rows.contains(row) by {
        assert(rows[row as int] == row);
    }
    assert(is_ranking(keys, rows));
    a_ranking_is_unique(keys, rows, ranked(keys));
    assert(by_time(points) =~= points);
}

/// Every point of a prepared light curve was given.
pub proof fn preparing_invents_no_point(points: Seq<PhotometryMag>, i: int)
    requires
        points.len() <= usize::MAX,
        0 <= i < deduped(by_time(points)).len(),
    ensures
        points.contains(deduped(by_time(points))[i]),
{
    let sorted = by_time(points);
    lemma_deduped_is_contained(sorted, i);
    a_ranking_exists(time_keys(points));
    let k = choose|k: int| 0 <= k < sorted.len() && sorted[k] == deduped(sorted)[i];
    let row = ranked(time_keys(points))[k];
    assert(points[row as int] == sorted[k]);
}

/// A prepared light curve runs forward in time and holds no time and band twice, and
/// preparing it again changes nothing.
pub proof fn preparing_twice_changes_nothing(points: Seq<PhotometryMag>)
    requires
        points.len() <= usize::MAX,
    ensures
        ({
            let prepared = deduped(by_time(points));
            &&& chronological(prepared)
            &&& without_repeats(prepared)
            &&& deduped(by_time(prepared)) == prepared
        }),
{
    lemma_by_time_is_chronological(points);
    lemma_deduped_keeps_order(by_time(points));
    let prepared = deduped(by_time(points));
    lemma_deduped_is_shorter(by_time(points));
    lemma_sorting_what_is_sorted(prepared);
    lemma_deduping_what_has_no_repeats(prepared);
}

proof fn lemma_deduped_is_shorter(points: Seq<PhotometryMag>)
    ensures
        deduped(points).len() <= points.len(),
    decreases points.len(),
{
    if points.len() > 0 {
        lemma_deduped_is_shorter(points.drop_last());
    }
}

proof fn lemma_deduping_loses_no_epoch(points: Seq<PhotometryMag>, k: int) -> (i: int)
    requires
        0 <= k < points.len(),
        !points[k].time.is_nan_spec(),
    ensures
        0 <= i < deduped(points).len(),
        same_epoch(deduped(points)[i], points[k]),
    decreases points.len(),
{
    let before = deduped(points.drop_last());
    if k < points.len() - 1 {
        let i = lemma_deduping_loses_no_epoch(points.drop_last(), k);
        i
    } else if holds_epoch(before, points.last()) {
        choose|k: int| 0 <= k < before.len() && same_epoch(#[trigger] before[k], points.last())
    } else {
        before.len() as int
    }
}

/// Every point that was given is still there, or another of its time and band.
pub proof fn preparing_loses_no_epoch(points: Seq<PhotometryMag>, k: int)
    requires
        points.len() <= usize::MAX,
        0 <= k < points.len(),
        !points[k].time.is_nan_spec(),
    ensures
        exists|i: int|
            0 <= i < deduped(by_time(points)).len() && same_epoch(
                #[trigger] deduped(by_time(points))[i],
                points[k],
            ),
{
    let sorted = by_time(points);
    let rows = ranked(time_keys(points));
    a_ranking_exists(time_keys(points));
    assert(rows.contains(k as usize));
    let at = choose|at: int| 0 <= at < rows.len() && rows[at] == k as usize;
    assert(sorted[at] == points[k]);
    let i = lemma_deduping_loses_no_epoch(sorted, at);
    assert(same_epoch(deduped(sorted)[i], points[k]));
}

/// The pattern of 0.01, the shortest span in days that counts.
pub const MIN_SPAN: u64 = 0x3F84_7AE1_47AE_147B;

/// The pattern of 30. A recent point is at most that many days older than the
/// newest one in any band.
pub const RECENT_WINDOW_DAYS: u64 = 0x403E_0000_0000_0000;

/// The 32-bit pattern of the same number.
pub const RECENT_WINDOW_DAYS_SINGLE: u32 = 0x41F0_0000;

/// The 32-bit pattern of 1e-10. Points whose times spread less cannot be fit.
pub const MIN_TIME_SPREAD: u32 = 0x2EDB_E6FF;

/// The brightest and the faintest magnitude of some points, each with its error.
#[derive(Clone, Copy, Debug, PartialEq, Eq, Structural)]
pub struct Extremes {
    pub min_mag: Single,
    pub min_mag_err: Single,
    pub max_mag: Single,
    pub max_mag_err: Single,
}

/// The extremes of some points. Without any the brightest is infinitely faint and
/// the faintest infinitely bright.
pub open spec fn extremes_of(points: Seq<PhotometryMag>) -> Extremes
    decreases points.len(),
{
    if points.len() == 0 {
        Extremes {
            min_mag: Single { bits: SINGLE_INFINITY },
            min_mag_err: Single { bits: SINGLE_INFINITY },
            max_mag: Single { bits: 0xFF80_0000 },
            max_mag_err: Single { bits: 0xFF80_0000 },
        }
    } else {
        let before = extremes_of(points.drop_last());
        let point = points.last();
        let bright = point.mag.less(before.min_mag);
        let faint = before.max_mag.less(point.mag);
        Extremes {
            min_mag: if bright {
                point.mag
            } else {
                before.min_mag
            },
            min_mag_err: if bright {
                point.mag_err
            } else {
                before.min_mag_err
            },
            max_mag: if faint {
                point.mag
            } else {
                before.max_mag
            },
            max_mag_err: if faint {
                point.mag_err
            } else {
                before.max_mag_err
            },
        }
    }
}

pub fn extremes(points: &Vec<PhotometryMag>) -> (found: Extremes)
    ensures
        found == extremes_of(points@),
{
    let mut found = Extremes {
        min_mag: Single { bits: SINGLE_INFINITY },
        min_mag_err: Single { bits: SINGLE_INFINITY },
        max_mag: Single { bits: 0xFF80_0000 },
        max_mag_err: Single { bits: 0xFF80_0000 },
    };
    let mut i: usize = 0;
    assert(points@.take(0) =~= Seq::empty());
    while i < points.len()
        invariant
            i <= points@.len(),
            found == extremes_of(points@.take(i as int)),
        decreases points.len() - i,
    {
        assert(points@.take(i + 1).drop_last() =~= points@.take(i as int));
        let point: PhotometryMag = points[i];
        if point.mag.lt(found.min_mag) {
            found.min_mag = point.mag;
            found.min_mag_err = point.mag_err;
        }
        if found.max_mag.lt(point.mag) {
            found.max_mag = point.mag;
            found.max_mag_err = point.mag_err;
        }
        i = i + 1;
    }
    assert(points@.take(i as int) =~= points@);
    found
}

/// What is computed for a weighted least-squares fit of a line.
#[derive(Clone, Copy, Debug)]
pub struct FitNumbers {
    pub rate: Single,
    pub rate_error: Single,
    pub chi2: Single,
    /// `chi2` per degree of freedom, where there is one.
    pub red_chi2: Single,
    /// The weighted spread of the times, without its sign.
    pub spread: Single,
    /// The last time minus the first.
    pub dt: Single,
}

/// What is computed from some points of a light curve.
#[derive(Debug)]
pub struct SegmentNumbers {
    /// Time of the last point minus time of the first.
    pub span: Double,
    /// The same in 32 bits.
    pub dt: Single,
    /// Time of the last point minus [`RECENT_WINDOW_DAYS`].
    pub cutoff: Double,
    /// The brightest magnitude plus its error.
    pub bright_edge: Single,
    /// The faintest magnitude minus its error.
    pub faint_edge: Single,
    /// One over the square of the error of each point.
    pub weights: Vec<Single>,
    /// The line through the points.
    pub line: FitNumbers,
}

/// Whether a point can be weighted: its error is a positive number, and one over
/// its square is finite.
pub open spec fn weighable(sigma: Single, weight: Single) -> bool {
    !sigma.at_most(Single { bits: 0 }) && sigma.is_finite_spec() && weight.is_finite_spec()
}

/// Whether a line can be fit to `n` points.
pub open spec fn can_fit(
    n: nat,
    n_values: nat,
    sigma: Seq<Single>,
    weights: Seq<Single>,
    numbers: FitNumbers,
) -> bool {
    &&& n >= 2
    &&& n_values == n
    &&& sigma.len() == n
    &&& forall|i: int| 0 <= i < n ==> weighable(#[trigger] sigma[i], weights[i])
    &&& !numbers.spread.less(Single { bits: MIN_TIME_SPREAD })
}

/// What is reported of a line that was fit to `n` points.
pub open spec fn line_of(n: int, numbers: FitNumbers) -> BandRateProperties {
    BandRateProperties {
        rate: numbers.rate,
        rate_error: numbers.rate_error,
        chi2: numbers.chi2,
        dof: (n - 2) as i32,
        red_chi2: if n > 2 {
            Some(numbers.red_chi2)
        } else {
            None
        },
        nb_data: n as i32,
        dt: numbers.dt,
    }
}

/// The fit of a line to `n` points, or nothing when there are too few of them, when
/// one cannot be weighted, or when their times do not spread. `weights` are the
/// inverse squares of `sigma`.
pub fn weighted_least_squares_centered(
    n: usize,
    n_values: usize,
    sigma: &Vec<Single>,
    weights: &Vec<Single>,
    numbers: FitNumbers,
) -> (fit: Option<BandRateProperties>)
    requires
        n <= i32::MAX,
        weights@.len() == sigma@.len(),
    ensures
        fit == if can_fit(n as nat, n_values as nat, sigma@, weights@, numbers) {
            Some(line_of(n as int, numbers))
        } else {
            None
        },
{
    if n < 2 || n_values != n || sigma.len() != n {
        return None;
    }
    let mut i: usize = 0;
    while i < n
        invariant
            i <= n,
            n == sigma@.len(),
            weights@.len() == sigma@.len(),
            forall|k: int| 0 <= k < i ==> weighable(#[trigger] sigma@[k], weights@[k]),
        decreases n - i,
    {
        let s: Single = sigma[i];
        let w: Single = weights[i];
        if s.le(Single { bits: 0 }) || !s.is_finite() || !w.is_finite() {
            assert(!weighable(sigma@[i as int], weights@[i as int]));
            return None;
        }
        i = i + 1;
    }
    if numbers.spread.lt(Single { bits: MIN_TIME_SPREAD }) {
        return None;
    }
    Some(
        BandRateProperties {
            rate: numbers.rate,
            rate_error: numbers.rate_error,
            chi2: numbers.chi2,
            dof: (n - 2) as i32,
            red_chi2: if n > 2 {
                Some(numbers.red_chi2)
            } else {
                None
            },
            nb_data: n as i32,
            dt: numbers.dt,
        },
    )
}

/// The errors of some points.
pub open spec fn errors_of(points: Seq<PhotometryMag>) -> Seq<Single> {
    points.map_values(|point: PhotometryMag| point.mag_err)
}

/// The fit of one side of a peak. A side that is too short, or whose spread sits inside
/// its own error bars, supports no line, nor does one to whose points no line can be fit.
pub open spec fn segment_fit(points: Seq<PhotometryMag>, numbers: SegmentNumbers) -> Option<
    BandRateProperties,
> {
    let n = points.len();
    if n >= 2 && !numbers.span.at_most(Double { bits: MIN_SPAN }) && !numbers.faint_edge.at_most(
        numbers.bright_edge,
    ) && can_fit(n, n, errors_of(points), numbers.weights@, numbers.line) {
        Some(line_of(n as int, numbers.line))
    } else {
        None
    }
}

pub fn fit_segment(points: &Vec<PhotometryMag>, numbers: &SegmentNumbers) -> (fit: Option<
    BandRateProperties,
>)
    requires
        points@.len() <= i32::MAX,
        numbers.weights@.len() == points@.len(),
    ensures
        fit == segment_fit(points@, *numbers),
{
    if points.len() < 2 {
        return None;
    }
    if numbers.span.le(Double { bits: MIN_SPAN }) {
        return None;
    }
    if numbers.faint_edge.le(numbers.bright_edge) {
        return None;
    }
    let mut sigma: Vec<Single> = Vec::new();
    let mut i: usize = 0;
    while i < points.len()
        invariant
            i <= points@.len(),
            sigma@ == errors_of(points@).take(i as int),
        decreases points.len() - i,
    {
        sigma.push(points[i].mag_err);
        i = i + 1;
        assert(sigma@ =~= errors_of(points@).take(i as int));
    }
    assert(sigma@ =~= errors_of(points@));
    weighted_least_squares_centered(
        points.len(),
        points.len(),
        &sigma,
        &numbers.weights,
        numbers.line,
    )
}

/// Position of the brightest point, the first of several.
pub open spec fn brightest(points: Seq<PhotometryMag>) -> int
    decreases points.len(),
{
    if points.len() <= 1 {
        0
    } else {
        let best = brightest(points.drop_last());
        if points.last().mag.less(points[best].mag) {
            points.len() - 1
        } else {
            best
        }
    }
}

/// Position of the faintest point, the first of several.
pub open spec fn faintest(points: Seq<PhotometryMag>) -> int
    decreases points.len(),
{
    if points.len() <= 1 {
        0
    } else {
        let best = faintest(points.drop_last());
        if points[best].mag.less(points.last().mag) {
            points.len() - 1
        } else {
            best
        }
    }
}

proof fn lemma_peak_bounds(points: Seq<PhotometryMag>)
    requires
        points.len() > 0,
    ensures
        0 <= brightest(points) < points.len(),
        0 <= faintest(points) < points.len(),
    decreases points.len(),
{
    if points.len() > 1 {
        lemma_peak_bounds(points.drop_last());
    }
}

/// No point is brighter than the brightest or fainter than the faintest. The first
/// point must have a magnitude that is a number, or it stands for both.
pub proof fn nothing_outshines_the_peak(points: Seq<PhotometryMag>, i: int)
    requires
        0 <= i < points.len(),
        !points[0].mag.is_nan_spec(),
    ensures
        !points[brightest(points)].mag.is_nan_spec(),
        !points[faintest(points)].mag.is_nan_spec(),
        !points[i].mag.less(points[brightest(points)].mag),
        !points[faintest(points)].mag.less(points[i].mag),
    decreases points.len(),
{
    if points.len() > 1 {
        let before = points.drop_last();
        lemma_peak_bounds(before);
        nothing_outshines_the_peak(
            before,
            if i < before.len() {
                i
            } else {
                0
            },
        );
    }
}

/// Position of the brightest of some points; nothing without any.
pub fn brightest_index(points: &Vec<PhotometryMag>) -> (at: Option<usize>)
    ensures
        at is Some <==> points@.len() > 0,
        at matches Some(at) ==> at == brightest(points@) && at < points@.len(),
{
    if points.len() == 0 {
        return None;
    }
    let mut best: usize = 0;
    let mut i: usize = 1;
    while i < points.len()
        invariant
            1 <= i <= points@.len(),
            best < i,
            best == brightest(points@.take(i as int)),
        decreases points.len() - i,
    {
        assert(points@.take(i + 1).drop_last() =~= points@.take(i as int));
        if points[i].mag.lt(points[best].mag) {
            best = i;
        }
        i = i + 1;
    }
    assert(points@.take(i as int) =~= points@);
    Some(best)
}

fn faintest_index(points: &Vec<PhotometryMag>) -> (at: usize)
    requires
        points@.len() > 0,
    ensures
        at == faintest(points@),
        at < points@.len(),
{
    let mut best: usize = 0;
    let mut i: usize = 1;
    while i < points.len()
        invariant
            1 <= i <= points@.len(),
            best < i,
            best == faintest(points@.take(i as int)),
        decreases points.len() - i,
    {
        assert(points@.take(i + 1).drop_last() =~= points@.take(i as int));
        if points[best].mag.lt(points[i].mag) {
            best = i;
        }
        i = i + 1;
    }
    assert(points@.take(i as int) =~= points@);
    best
}

/// The points of one band, in their order.
pub open spec fn in_band(points: Seq<PhotometryMag>, band: Band) -> Seq<PhotometryMag>
    decreases points.len(),
{
    if points.len() == 0 {
        Seq::empty()
    } else {
        let before = in_band(points.drop_last(), band);
        if points.last().band == band {
            before.push(points.last())
        } else {
            before
        }
    }
}

fn select_band(points: &[PhotometryMag], band: Band) -> (selected: Vec<PhotometryMag>)
    ensures
        selected@ == in_band(points@, band),
        selected@.len() <= points@.len(),
{
    let mut selected: Vec<PhotometryMag> = Vec::new();
    let mut i: usize = 0;
    assert(points@.take(0) =~= Seq::empty());
    while i < points.len()
        invariant
            i <= points@.len(),
            selected@ == in_band(points@.take(i as int), band),
            selected@.len() <= i,
        decreases points.len() - i,
    {
        assert(points@.take(i + 1).drop_last() =~= points@.take(i as int));
        if points[i].band == band {
            selected.push(points[i]);
        }
        i = i + 1;
    }
    assert(points@.take(i as int) =~= points@);
    selected
}

/// The points from a time on, in their order.
pub open spec fn since(points: Seq<PhotometryMag>, cutoff: Double) -> Seq<PhotometryMag>
    decreases points.len(),
{
    if points.len() == 0 {
        Seq::empty()
    } else {
        let before = since(points.drop_last(), cutoff);
        if cutoff.at_most(points.last().time) {
            before.push(points.last())
        } else {
            before
        }
    }
}

fn select_since(points: &Vec<PhotometryMag>, cutoff: Double) -> (selected: Vec<PhotometryMag>)
    ensures
        selected@ == since(points@, cutoff),
        selected@.len() <= points@.len(),
{
    let mut selected: Vec<PhotometryMag> = Vec::new();
    let mut i: usize = 0;
    assert(points@.take(0) =~= Seq::empty());
    while i < points.len()
        invariant
            i <= points@.len(),
            selected@ == since(points@.take(i as int), cutoff),
            selected@.len() <= i,
        decreases points.len() - i,
    {
        assert(points@.take(i + 1).drop_last() =~= points@.take(i as int));
        if cutoff.le(points[i].time) {
            selected.push(points[i]);
        }
        i = i + 1;
    }
    assert(points@.take(i as int) =~= points@);
    selected
}

/// The points up to the brightest, which is one of them.
pub open spec fn rise(points: Seq<PhotometryMag>) -> Seq<PhotometryMag> {
    points.subrange(0, brightest(points) + 1)
}

/// The points from the brightest on, which is one of them.
pub open spec fn fade(points: Seq<PhotometryMag>) -> Seq<PhotometryMag> {
    points.subrange(brightest(points), points.len() as int)
}

fn part(points: &Vec<PhotometryMag>, from: usize, to: usize) -> (copy: Vec<PhotometryMag>)
    requires
        from <= to <= points@.len(),
    ensures
        copy@ == points@.subrange(from as int, to as int),
{
    let mut copy: Vec<PhotometryMag> = Vec::new();
    let mut i: usize = from;
    while i < to
        invariant
            from <= i <= to <= points@.len(),
            copy@ == points@.subrange(from as int, i as int),
        decreases to - i,
    {
        copy.push(points[i]);
        i = i + 1;
        assert(copy@ =~= points@.subrange(from as int, i as int));
    }
    copy
}

/// Whether `numbers` is what `measure` can give for some points.
pub open spec fn measured<F: Fn(&Vec<PhotometryMag>, Extremes) -> SegmentNumbers>(
    measure: F,
    points: Seq<PhotometryMag>,
    numbers: SegmentNumbers,
) -> bool {
    exists|list: Vec<PhotometryMag>| #[trigger]
        list@ == points && call_ensures(measure, (&list, extremes_of(points)), numbers)
}

/// Whether `fit` is what `measure` can give for one side of a peak.
pub open spec fn fitted<F: Fn(&Vec<PhotometryMag>, Extremes) -> SegmentNumbers>(
    measure: F,
    points: Seq<PhotometryMag>,
    fit: Option<BandRateProperties>,
) -> bool {
    exists|numbers: SegmentNumbers| #[trigger]
        measured(measure, points, numbers) && fit == segment_fit(points, numbers)
}

/// A fit that is reported is one of at least two points, each of which has an error by
/// which it can be weighted, and it counts them and the degrees of freedom they leave.
pub proof fn a_fit_speaks_of_its_points<
    F: Fn(&Vec<PhotometryMag>, Extremes) -> SegmentNumbers,
>(measure: F, points: Seq<PhotometryMag>, fit: BandRateProperties, i: int)
    requires
        fitted(measure, points, Some(fit)),
        points.len() <= i32::MAX,
        0 <= i < points.len(),
    ensures
        points.len() >= 2,
        fit.nb_data == points.len(),
        fit.dof == points.len() - 2,
        fit.red_chi2 is Some <==> points.len() > 2,
        !points[i].mag_err.at_most(Single { bits: 0 }),
        points[i].mag_err.is_finite_spec(),
{
    let numbers = choose|numbers: SegmentNumbers| #[trigger]
        measured(measure, points, numbers) && Some(fit) == segment_fit(points, numbers);
    assert(weighable(errors_of(points)[i], numbers.weights@[i]));
}

/// Whether `measure` can be asked for any points, and gives a weight for each of them.
pub open spec fn measures_all<F: Fn(&Vec<PhotometryMag>, Extremes) -> SegmentNumbers>(
    measure: F,
) -> bool {
    &&& forall|list: &Vec<PhotometryMag>, found: Extremes| #[trigger]
        call_requires(measure, (list, found))
    &&& forall|list: &Vec<PhotometryMag>, found: Extremes, numbers: SegmentNumbers| #[trigger]
        call_ensures(measure, (list, found), numbers) ==> numbers.weights@.len() == list@.len()
}

fn take_measure<F: Fn(&Vec<PhotometryMag>, Extremes) -> SegmentNumbers>(
    measure: &F,
    points: &Vec<PhotometryMag>,
) -> (numbers: SegmentNumbers)
    requires
        measures_all(*measure),
    ensures
        measured(*measure, points@, numbers),
        numbers.weights@.len() == points@.len(),
{
    let found = extremes(points);
    let numbers = measure(points, found);
    assert(points@ == points@ && call_ensures(*measure, (points, found), numbers));
    numbers
}

/// Fits both sides of the peak of some points.
fn fit_rising_and_fading<F: Fn(&Vec<PhotometryMag>, Extremes) -> SegmentNumbers>(
    measure: &F,
    points: &Vec<PhotometryMag>,
    peak: usize,
) -> (fits: (Option<BandRateProperties>, Option<BandRateProperties>))
    requires
        measures_all(*measure),
        peak == brightest(points@),
        peak < points@.len() <= i32::MAX,
    ensures
        fitted(*measure, rise(points@), fits.0),
        fitted(*measure, fade(points@), fits.1),
{
    let n: usize = points.len();
    let before = part(points, 0, peak + 1);
    let after = part(points, peak, n);
    let rising = take_measure(measure, &before);
    let fading = take_measure(measure, &after);
    (fit_segment(&before, &rising), fit_segment(&after, &fading))
}

/// Whether `recent` is what can be reported of the recent points of a band.
pub open spec fn recent_of<F: Fn(&Vec<PhotometryMag>, Extremes) -> SegmentNumbers>(
    measure: F,
    window: Seq<PhotometryMag>,
    recent: Option<RecentProperties>,
) -> bool {
    match recent {
        Some(recent) => {
            &&& window.len() > 0
            &&& recent.window_days == Single { bits: RECENT_WINDOW_DAYS_SINGLE }
            &&& recent.nb_data == window.len()
            &&& recent.peak_jd == window[brightest(window)].time
            &&& recent.peak_mag == window[brightest(window)].mag
            &&& fitted(measure, rise(window), recent.rising)
            &&& fitted(measure, fade(window), recent.fading)
        },
        None => window.len() == 0,
    }
}

/// Whether `properties` is what can be reported of the points of a band.
pub open spec fn band_of<F: Fn(&Vec<PhotometryMag>, Extremes) -> SegmentNumbers>(
    measure: F,
    points: Seq<PhotometryMag>,
    cutoff: Double,
    properties: Option<BandProperties>,
) -> bool {
    match properties {
        Some(properties) => {
            &&& points.len() > 0
            &&& properties.peak_jd == points[brightest(points)].time
            &&& properties.peak_mag == points[brightest(points)].mag
            &&& properties.peak_mag_err == points[brightest(points)].mag_err
            &&& exists|numbers: SegmentNumbers| #[trigger]
                measured(measure, points, numbers) && properties.dt == numbers.dt
            &&& fitted(measure, rise(points), properties.rising)
            &&& fitted(measure, fade(points), properties.fading)
            &&& recent_of(measure, since(points, cutoff), properties.recent)
        },
        None => points.len() == 0,
    }
}

/// Reports on the points of one band.
fn describe_band<F: Fn(&Vec<PhotometryMag>, Extremes) -> SegmentNumbers>(
    measure: &F,
    points: &Vec<PhotometryMag>,
    peak: usize,
    cutoff: Double,
) -> (properties: BandProperties)
    requires
        measures_all(*measure),
        peak == brightest(points@),
        peak < points@.len() <= i32::MAX,
    ensures
        band_of(*measure, points@, cutoff, Some(properties)),
{
    let whole = take_measure(measure, points);
    let (rising, fading) = fit_rising_and_fading(measure, points, peak);
    let window = select_since(points, cutoff);
    let recent = match brightest_index(&window) {
        Some(at) => {
            let (rising, fading) = fit_rising_and_fading(measure, &window, at);
            Some(
                RecentProperties {
                    window_days: Single { bits: RECENT_WINDOW_DAYS_SINGLE },
                    nb_data: window.len() as i32,
                    peak_jd: window[at].time,
                    peak_mag: window[at].mag,
                    rising,
                    fading,
                },
            )
        },
        None => None,
    };
    BandProperties {
        peak_jd: points[peak].time,
        peak_mag: points[peak].mag,
        peak_mag_err: points[peak].mag_err,
        dt: whole.dt,
        rising,
        fading,
        recent,
    }
}

/// The brightest point of the first `n` bands and the first point of all.
pub open spec fn peak_over(points: Seq<PhotometryMag>, n: nat) -> PhotometryMag
    decreases n,
{
    if n == 0 {
        points[0]
    } else {
        let before = peak_over(points, (n - 1) as nat);
        let held = in_band(points, Band::at(n - 1));
        if held.len() > 0 && held[brightest(held)].mag.less(before.mag) {
            held[brightest(held)]
        } else {
            before
        }
    }
}

/// The faintest point of the first `n` bands and the first point of all.
pub open spec fn faintest_over(points: Seq<PhotometryMag>, n: nat) -> PhotometryMag
    decreases n,
{
    if n == 0 {
        points[0]
    } else {
        let before = faintest_over(points, (n - 1) as nat);
        let held = in_band(points, Band::at(n - 1));
        if held.len() > 0 && before.mag.less(held[faintest(held)].mag) {
            held[faintest(held)]
        } else {
            before
        }
    }
}

/// Whether every magnitude is a number.
pub open spec fn all_magnitudes(points: Seq<PhotometryMag>) -> bool {
    forall|i: int| 0 <= i < points.len() ==> !(#[trigger] points[i]).mag.is_nan_spec()
}

proof fn lemma_in_band_keeps_magnitudes(points: Seq<PhotometryMag>, band: Band)
    requires
        all_magnitudes(points),
    ensures
        all_magnitudes(in_band(points, band)),
    decreases points.len(),
{
    if points.len() > 0 {
        lemma_in_band_keeps_magnitudes(points.drop_last(), band);
    }
}

proof fn lemma_in_band_holds(points: Seq<PhotometryMag>, i: int) -> (k: int)
    requires
        0 <= i < points.len(),
    ensures
        0 <= k < in_band(points, points[i].band).len(),
        in_band(points, points[i].band)[k] == points[i],
    decreases points.len(),
{
    let band = points[i].band;
    let before = in_band(points.drop_last(), band);
    if i < points.len() - 1 {
        let k = lemma_in_band_holds(points.drop_last(), i);
        k
    } else {
        before.len() as int
    }
}

proof fn lemma_extremes_widen(points: Seq<PhotometryMag>, n: nat, m: nat)
    requires
        points.len() > 0,
        all_magnitudes(points),
        n <= m,
    ensures
        !peak_over(points, m).mag.is_nan_spec(),
        !faintest_over(points, m).mag.is_nan_spec(),
        peak_over(points, m).mag.position() <= peak_over(points, n).mag.position(),
        faintest_over(points, n).mag.position() <= faintest_over(points, m).mag.position(),
    decreases m,
{
    if m > 0 {
        let held = in_band(points, Band::at(m - 1));
        lemma_in_band_keeps_magnitudes(points, Band::at(m - 1));
        if held.len() > 0 {
            lemma_peak_bounds(held);
        }
        if n < m {
            lemma_extremes_widen(points, n, (m - 1) as nat);
        } else {
            lemma_extremes_widen(points, (m - 1) as nat, (m - 1) as nat);
        }
    }
}

/// No point of a light curve is brighter than the peak that is reported for all
/// bands, or fainter than the faintest point, when every magnitude is a number.
pub proof fn nothing_outshines_the_overall_peak(points: Seq<PhotometryMag>, i: int)
    requires
        0 <= i < points.len(),
        all_magnitudes(points),
    ensures
        all_bands_of(points).peak_mag.at_most(points[i].mag),
        points[i].mag.at_most(all_bands_of(points).faintest_mag),
{
    let band = points[i].band;
    let b: nat = match band {
        Band::G => 0,
        Band::R => 1,
        Band::I => 2,
        Band::Z => 3,
        Band::Y => 4,
        Band::U => 5,
        Band::J => 6,
        Band::H => 7,
        Band::K => 8,
    };
    assert(Band::at(b as int) == band);
    let held = in_band(points, band);
    lemma_in_band_keeps_magnitudes(points, band);
    let k = lemma_in_band_holds(points, i);
    lemma_peak_bounds(held);
    nothing_outshines_the_peak(held, k);
    lemma_extremes_widen(points, b, (b + 1) as nat);
    lemma_extremes_widen(points, (b + 1) as nat, BANDS as nat);
}

/// What is reported of a light curve without points.
pub open spec fn no_photometry() -> AllBandsProperties {
    AllBandsProperties {
        peak_jd: Double { bits: 0 },
        peak_mag: Single { bits: 0 },
        peak_mag_err: Single { bits: 0 },
        peak_band: Band::G,
        faintest_jd: Double { bits: 0 },
        faintest_mag: Single { bits: 0 },
        faintest_mag_err: Single { bits: 0 },
        faintest_band: Band::G,
        first_jd: Double { bits: 0 },
        last_jd: Double { bits: 0 },
    }
}

/// What is reported of all bands together.
pub open spec fn all_bands_of(points: Seq<PhotometryMag>) -> AllBandsProperties {
    if points.len() == 0 {
        no_photometry()
    } else {
        let peak = peak_over(points, BANDS as nat);
        let faint = faintest_over(points, BANDS as nat);
        AllBandsProperties {
            peak_jd: peak.time,
            peak_mag: peak.mag,
            peak_mag_err: peak.mag_err,
            peak_band: peak.band,
            faintest_jd: faint.time,
            faintest_mag: faint.mag,
            faintest_mag_err: faint.mag_err,
            faintest_band: faint.band,
            first_jd: points[0].time,
            last_jd: points.last().time,
        }
    }
}

/// Whether the bands were reported on from one common window, and the object found
/// stationary by one common span.
pub open spec fn bands_of<F: Fn(&Vec<PhotometryMag>, Extremes) -> SegmentNumbers>(
    measure: F,
    points: Seq<PhotometryMag>,
    bands: PerBandProperties,
    stationary: bool,
) -> bool {
    if points.len() == 0 {
        !stationary && forall|band: Band| #[trigger] bands.of(band) is None
    } else {
        exists|numbers: SegmentNumbers| #[trigger]
            measured(measure, points, numbers) && stationary == (Double {
                bits: MIN_SPAN,
            }).less(numbers.span) && forall|band: Band|
                band_of(measure, in_band(points, band), numbers.cutoff, #[trigger] bands.of(band))
    }
}

/// Reports on a light curve: its bands one by one, all of them together, and
/// whether the object was seen long enough in one place. An empty light curve gives
/// neutral values.
pub fn analyze_photometry<F: Fn(&Vec<PhotometryMag>, Extremes) -> SegmentNumbers>(
    sorted_photometry: &Vec<PhotometryMag>,
    measure: &F,
) -> (report: (PerBandProperties, AllBandsProperties, bool))
    requires
        sorted_photometry@.len() <= i32::MAX,
        measures_all(*measure),
    ensures
        report.1 == all_bands_of(sorted_photometry@),
        bands_of(*measure, sorted_photometry@, report.0, report.2),
{
    let mut results = PerBandProperties::none();
    if sorted_photometry.len() == 0 {
        let zero = Double { bits: 0 };
        let none = Single { bits: 0 };
        return (
            results,
            AllBandsProperties {
                peak_jd: zero,
                peak_mag: none,
                peak_mag_err: none,
                peak_band: Band::G,
                faintest_jd: zero,
                faintest_mag: none,
                faintest_mag_err: none,
                faintest_band: Band::G,
                first_jd: zero,
                last_jd: zero,
            },
            false,
        );
    }
    let ghost points = sorted_photometry@;
    let whole = take_measure(measure, sorted_photometry);
    let stationary = (Double { bits: MIN_SPAN }).lt(whole.span);
    let mut peak: PhotometryMag = sorted_photometry[0];
    let mut faint: PhotometryMag = sorted_photometry[0];
    let mut i: usize = 0;
    while i < BANDS
        invariant
            i <= BANDS,
            points == sorted_photometry@,
            0 < points.len() <= i32::MAX,
            measures_all(*measure),
            peak == peak_over(points, i as nat),
            faint == faintest_over(points, i as nat),
            forall|k: int|
                0 <= k < i ==> band_of(
                    *measure,
                    in_band(points, #[trigger] Band::at(k)),
                    whole.cutoff,
                    results.of(Band::at(k)),
                ),
            forall|k: int| i <= k < BANDS ==> results.of(#[trigger] Band::at(k)) is None,
        decreases BANDS - i,
    {
        let band: Band = Band::nth(i);
        let held = select_band(sorted_photometry, band);
        match brightest_index(&held) {
            Some(at) => {
                if held[at].mag.lt(peak.mag) {
                    peak = held[at];
                }
                let dim: usize = faintest_index(&held);
                if faint.mag.lt(held[dim].mag) {
                    faint = held[dim];
                }
                let properties = describe_band(measure, &held, at, whole.cutoff);
                results.set(band, properties);
            },
            None => {},
        }
        i = i + 1;
    }
    assert forall|band: Band|
        band_of(*measure, in_band(points, band), whole.cutoff, #[trigger] results.of(band)) by {
        let k = match band {
            Band::G => 0int,
            Band::R => 1,
            Band::I => 2,
            Band::Z => 3,
            Band::Y => 4,
            Band::U => 5,
            Band::J => 6,
            Band::H => 7,
            Band::K => 8,
        };
        assert(Band::at(k) == band);
    }
    let all = AllBandsProperties {
        peak_jd: peak.time,
        peak_mag: peak.mag,
        peak_mag_err: peak.mag_err,
        peak_band: peak.band,
        faintest_jd: faint.time,
        faintest_mag: faint.mag,
        faintest_mag_err: faint.mag_err,
        faintest_band: faint.band,
        first_jd: sorted_photometry[0].time,
        last_jd: sorted_photometry[sorted_photometry.len() - 1].time,
    };
    (results, all, stationary)
}

/// How far a source is spread out beyond a point source, in magnitudes.
#[derive(Clone, Copy, Debug, PartialEq, Eq, Structural)]
pub struct ActivityMetrics {
    /// Flux in the aperture beyond what a point source would put there. A value that
    /// is not finite is dropped.
    pub aperture_excess: Option<Single>,
}

pub open spec fn finite_only(x: Option<Single>) -> Option<Single> {
    match x {
        Some(x) => if x.is_finite_spec() {
            Some(x)
        } else {
            None
        },
        None => None,
    }
}

pub open spec fn negative(x: Single) -> bool {
    x.bits >= SINGLE_SIGN
}

impl ActivityMetrics {
    /// From magnitudes, where both are finite; `difference` is the first minus the
    /// second.
    pub fn from_magnitudes(
        magpsf: Option<Single>,
        magap: Option<Single>,
        difference: Single,
    ) -> (metrics: ActivityMetrics)
        ensures
            metrics.aperture_excess == finite_only(
                if finite_only(magpsf) is Some && finite_only(magap) is Some {
                    Some(difference)
                } else {
                    None
                },
            ),
    {
        let excess = match (magpsf, magap) {
            (Some(psf), Some(ap)) => if psf.is_finite() && ap.is_finite() {
                Some(difference)
            } else {
                None
            },
            _ => None,
        };
        ActivityMetrics::from_excess(excess)
    }

    /// From fluxes, where both have the same sign and neither is zero; `excess` is 2.5
    /// times the decimal logarithm of their ratio.
    pub fn from_fluxes(
        psf_flux: Option<Single>,
        ap_flux: Option<Single>,
        excess: Single,
    ) -> (metrics: ActivityMetrics)
        ensures
            metrics.aperture_excess == finite_only(
                match (psf_flux, ap_flux) {
                    (Some(psf), Some(ap)) => if !psf.is_nan_spec() && !ap.is_nan_spec()
                        && psf.position() != 0 && ap.position() != 0 && negative(psf) == negative(
                        ap,
                    ) {
                        Some(excess)
                    } else {
                        None
                    },
                    _ => None,
                },
            ),
    {
        let excess = match (psf_flux, ap_flux) {
            (Some(psf), Some(ap)) => if !psf.is_nan() && !ap.is_nan() && psf.place() != 0
                && ap.place() != 0 && (psf.bits >= SINGLE_SIGN) == (ap.bits >= SINGLE_SIGN) {
                Some(excess)
            } else {
                None
            },
            _ => None,
        };
        ActivityMetrics::from_excess(excess)
    }

    fn from_excess(aperture_excess: Option<Single>) -> (metrics: ActivityMetrics)
        ensures
            metrics.aperture_excess == finite_only(aperture_excess),
    {
        ActivityMetrics {
            aperture_excess: match aperture_excess {
                Some(x) => if x.is_finite() {
                    Some(x)
                } else {
                    None
                },
                None => None,
            },
        }
    }
}

}
