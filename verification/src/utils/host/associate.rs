//! Ranking the galaxies round a transient by how likely each is its host.
use vstd::prelude::*;

use crate::binary::Double;
use crate::order::{a_ranking_exists, is_ranking, precedes, ranked, ranking, Key};
use crate::utils::host::catalog::UNITY;
use crate::utils::host::dlr::{dlr_by_axes, dlr_in, DlrNumbers, DlrResult};
use crate::utils::host::ellipse::candidate_fault;
use crate::utils::host::error::HostError;
use crate::utils::host::likelihood::{absmag_likelihood, NO_EVIDENCE};
use crate::utils::host::types::{GalaxyCandidate, HostCandidate};

verus! {

#[derive(Clone, Copy, Debug, PartialEq, Eq, Structural)]
pub struct AssociationConfig {
    /// Largest offset still admitted as a candidate, looser than the cut a filter would
    /// apply so that the posterior normalises over the full set.
    pub max_fractional_offset: Double,
    /// Floor on the semi-minor axis, arcsec, for degenerate shapes.
    pub min_b_arcsec: Double,
    pub max_candidates: usize,
    pub use_absmag: bool,
}

/// The pattern of 10.
pub const DEFAULT_MAX_OFFSET: u64 = 0x4024_0000_0000_0000;

/// The pattern of 0.05.
pub const DEFAULT_MIN_B: u64 = 0x3FA9_9999_9999_999A;

impl Default for AssociationConfig {
    fn default() -> (config: AssociationConfig)
        ensures
            config == (AssociationConfig {
                max_fractional_offset: Double { bits: DEFAULT_MAX_OFFSET },
                min_b_arcsec: Double { bits: DEFAULT_MIN_B },
                max_candidates: 10,
                use_absmag: false,
            }),
    {
        AssociationConfig {
            max_fractional_offset: Double { bits: DEFAULT_MAX_OFFSET },
            min_b_arcsec: Double { bits: DEFAULT_MIN_B },
            max_candidates: 10,
            use_absmag: false,
        }
    }
}

#[derive(Debug)]
pub struct AssociationResult {
    /// Ranked host candidates, best posterior first.
    pub candidates: Vec<HostCandidate>,
    pub p_none: Double,
    /// Galaxies considered, before any shape or offset cut.
    pub n_considered: usize,
    /// Galaxies passing the offset cut, counted before the cap on their number.
    pub n_passed_dlr: usize,
}

/// What is computed for an admitted galaxy.
#[derive(Clone, Copy, Debug)]
pub struct Score {
    /// Likelihood of the offset times its prior. The absolute magnitude says nothing, so
    /// this is the posterior before it is normalised.
    pub posterior_offset: Double,
    /// That over the total.
    pub normalised: Double,
}

/// What is computed over all admitted galaxies.
#[derive(Clone, Copy, Debug)]
pub struct Totals {
    /// The sum of all posteriors and of the probability that there is no host.
    pub total: Double,
    /// The probability that there is no host over the total.
    pub none: Double,
}

/// How far out in each of some galaxies the transient sits.
pub open spec fn dlrs_of(
    galaxies: Seq<GalaxyCandidate>,
    numbers: Seq<DlrNumbers>,
    config: AssociationConfig,
) -> Seq<DlrResult> {
    Seq::new(
        galaxies.len(),
        |i: int|
            dlr_by_axes(
                galaxies[i].a_arcsec,
                galaxies[i].b_arcsec,
                config.min_b_arcsec,
                numbers[i],
            ),
    )
}

/// Whether a galaxy is admitted: its shape can be used, and its offset is a finite
/// number within the bound.
pub open spec fn admits(
    galaxy: GalaxyCandidate,
    dlr: DlrResult,
    config: AssociationConfig,
) -> bool {
    &&& candidate_fault(galaxy, config.min_b_arcsec) is None
    &&& dlr.fractional_offset.is_finite_spec()
    &&& dlr.fractional_offset.at_most(config.max_fractional_offset)
}

/// The admitted ones of the first `n` galaxies.
pub open spec fn admitted(
    galaxies: Seq<GalaxyCandidate>,
    dlrs: Seq<DlrResult>,
    config: AssociationConfig,
    n: nat,
) -> Seq<usize>
    decreases n,
{
    if n == 0 {
        Seq::empty()
    } else {
        let before = admitted(galaxies, dlrs, config, (n - 1) as nat);
        if admits(galaxies[n - 1], dlrs[n - 1], config) {
            before.push((n - 1) as usize)
        } else {
            before
        }
    }
}

/// What admitted galaxies are ordered by: their offsets.
pub open spec fn offset_keys(picked: Seq<usize>, dlrs: Seq<DlrResult>) -> Seq<Key> {
    picked.map_values(
        |i: usize| (dlrs[i as int].fractional_offset.total_position() as i64, 0i64, 0i64),
    )
}

/// The admitted galaxies, the one the transient sits deepest in first.
pub open spec fn by_offset(
    galaxies: Seq<GalaxyCandidate>,
    dlrs: Seq<DlrResult>,
    config: AssociationConfig,
) -> Seq<usize> {
    let picked = admitted(galaxies, dlrs, config, galaxies.len());
    ranked(offset_keys(picked, dlrs)).map_values(|at: usize| picked[at as int])
}

/// What scores are ordered by: their posteriors, the greatest first.
pub open spec fn score_keys(scores: Seq<Score>) -> Seq<Key> {
    scores.map_values(
        |score: Score| ((-1 - score.posterior_offset.total_position()) as i64, 0i64, 0i64),
    )
}

/// Whether probabilities can be normalised by a total.
pub open spec fn normalisable(total: Double) -> bool {
    (Double { bits: 0 }).less(total) && total.is_finite_spec()
}

/// A number kept between 0 and 1; NaN stays what it is.
pub open spec fn clamped(x: Double) -> Double {
    let zero = Double { bits: 0 };
    let one = Double { bits: UNITY };
    if x.less(zero) {
        zero
    } else if one.less(x) {
        one
    } else {
        x
    }
}

fn clamp_unit(x: Double) -> (y: Double)
    ensures
        y == clamped(x),
{
    let zero = Double { bits: 0 };
    let one = Double { bits: UNITY };
    if x.lt(zero) {
        zero
    } else if one.lt(x) {
        one
    } else {
        x
    }
}

/// The host candidate of rank `rank` by offset, which is galaxy `at`.
pub open spec fn host_of(
    galaxies: Seq<GalaxyCandidate>,
    dlrs: Seq<DlrResult>,
    scores: Seq<Score>,
    total: Double,
    at: int,
    rank: int,
) -> HostCandidate {
    HostCandidate {
        galaxy: galaxies[at],
        separation_arcsec: dlrs[at].separation_arcsec,
        dlr: dlrs[at].directional_radius,
        fractional_offset: dlrs[at].fractional_offset,
        dlr_rank: (rank + 1) as u32,
        posterior: if normalisable(total) {
            scores[rank].normalised
        } else {
            Double { bits: 0 }
        },
        posterior_offset: scores[rank].posterior_offset,
        posterior_absmag: Double { bits: NO_EVIDENCE },
    }
}

/// All host candidates, best posterior first.
pub open spec fn hosts_of(
    galaxies: Seq<GalaxyCandidate>,
    dlrs: Seq<DlrResult>,
    config: AssociationConfig,
    scores: Seq<Score>,
    total: Double,
) -> Seq<HostCandidate> {
    let order = by_offset(galaxies, dlrs, config);
    ranked(score_keys(scores)).map_values(
        |rank: usize|
            host_of(galaxies, dlrs, scores, total, order[rank as int] as int, rank as int),
    )
}

/// The galaxies that are admitted, the one the transient sits deepest in first, each with
/// how far out that is.
pub fn rank_by_offset(
    galaxies: &Vec<GalaxyCandidate>,
    numbers: &Vec<DlrNumbers>,
    config: &AssociationConfig,
) -> (order: Vec<(usize, DlrResult)>)
    requires
        numbers@.len() == galaxies@.len(),
    ensures
        order@.len() == by_offset(
            galaxies@,
            dlrs_of(galaxies@, numbers@, *config),
            *config,
        ).len(),
        order@.len() <= galaxies@.len(),
        forall|r: int|
            0 <= r < order@.len() ==> {
                let dlrs = dlrs_of(galaxies@, numbers@, *config);
                let at = by_offset(galaxies@, dlrs, *config)[r];
                (#[trigger] order@[r]).0 == at && order@[r].1 == dlrs[at as int] && at
                    < galaxies@.len()
            },
{
    let ghost dlrs = dlrs_of(galaxies@, numbers@, *config);
    let mut picked: Vec<(usize, DlrResult)> = Vec::new();
    let ghost mut places: Seq<usize> = Seq::empty();
    let mut keys: Vec<Key> = Vec::new();
    let mut i: usize = 0;
    while i < galaxies.len()
        invariant
            i <= galaxies@.len(),
            numbers@.len() == galaxies@.len(),
            dlrs == dlrs_of(galaxies@, numbers@, *config),
            places == admitted(galaxies@, dlrs, *config, i as nat),
            keys@ == offset_keys(places, dlrs),
            picked@.len() == places.len(),
            picked@.len() <= i,
            forall|k: int| 0 <= k < picked@.len() ==> (#[trigger] picked@[k]).0 == places[k],
            forall|k: int|
                0 <= k < picked@.len() ==> (#[trigger] picked@[k]).1 == dlrs[picked@[k].0 as int],
            forall|k: int| 0 <= k < picked@.len() ==> (#[trigger] picked@[k]).0 < i,
        decreases galaxies.len() - i,
    {
        match dlr_in(&galaxies[i], config.min_b_arcsec, numbers[i]) {
            Some(dlr) => {
                assert(dlrs[i as int] == dlr);
                let offset: Double = dlr.fractional_offset;
                if offset.is_finite() && offset.le(config.max_fractional_offset) {
                    picked.push((i, dlr));
                    keys.push((offset.total_place(), 0, 0));
                    proof {
                        places = places.push(i);
                    }
                    assert(keys@ =~= offset_keys(places, dlrs));
                }
            },
            None => {},
        }
        i = i + 1;
    }
    let rows = ranking(&keys);
    let mut order: Vec<(usize, DlrResult)> = Vec::new();
    let mut j: usize = 0;
    let ghost wanted = by_offset(galaxies@, dlrs, *config);
    while j < rows.len()
        invariant
            j <= rows@.len(),
            is_ranking(keys@, rows@),
            keys@.len() == picked@.len(),
            picked@.len() == places.len(),
            wanted == rows@.map_values(|at: usize| places[at as int]),
            forall|k: int| 0 <= k < picked@.len() ==> (#[trigger] picked@[k]).0 == places[k],
            forall|k: int|
                0 <= k < picked@.len() ==> (#[trigger] picked@[k]).1 == dlrs[picked@[k].0 as int],
            forall|k: int| 0 <= k < picked@.len() ==> (#[trigger] picked@[k]).0 < galaxies@.len(),
            order@.len() == j,
            forall|r: int|
                0 <= r < j ==> (#[trigger] order@[r]).0 == wanted[r] && order@[r].1
                    == dlrs[wanted[r] as int] && wanted[r] < galaxies@.len(),
        decreases rows.len() - j,
    {
        let at: usize = rows[j];
        assert(wanted[j as int] == places[at as int]);
        order.push(picked[at]);
        j = j + 1;
    }
    order
}

/// Ranks the galaxies round a transient. `numbers` holds for each galaxy the projection of
/// the transient, `scores` for each admitted galaxy, in the order of [`rank_by_offset`],
/// what its offset is worth. The posteriors are normalised over every admitted galaxy, so
/// that the cap does not inflate those that are kept.
pub fn associate_host(
    galaxies: &Vec<GalaxyCandidate>,
    numbers: &Vec<DlrNumbers>,
    config: &AssociationConfig,
    scores: &Vec<Score>,
    totals: Totals,
) -> (result: Result<AssociationResult, HostError>)
    requires
        numbers@.len() == galaxies@.len(),
        galaxies@.len() < u32::MAX,
        scores@.len() == by_offset(
            galaxies@,
            dlrs_of(galaxies@, numbers@, *config),
            *config,
        ).len(),
    ensures
        result is Err <==> galaxies@.len() == 0,
        result matches Err(error) ==> error == HostError::NoCandidates,
        result matches Ok(found) ==> {
            let dlrs = dlrs_of(galaxies@, numbers@, *config);
            let all = hosts_of(galaxies@, dlrs, *config, scores@, totals.total);
            &&& found.n_considered == galaxies@.len()
            &&& found.n_passed_dlr == scores@.len()
            &&& found.candidates@ == if config.max_candidates < all.len() {
                all.take(config.max_candidates as int)
            } else {
                all
            }
            &&& found.p_none == if scores@.len() > 0 && normalisable(totals.total) {
                clamped(totals.none)
            } else {
                Double { bits: UNITY }
            }
        },
{
    if galaxies.len() == 0 {
        return Err(HostError::NoCandidates);
    }
    let ghost dlrs = dlrs_of(galaxies@, numbers@, *config);
    let order = rank_by_offset(galaxies, numbers, config);
    let mut keys: Vec<Key> = Vec::new();
    let mut i: usize = 0;
    while i < scores.len()
        invariant
            i <= scores@.len(),
            keys@ == score_keys(scores@).take(i as int),
        decreases scores.len() - i,
    {
        let place: i64 = scores[i].posterior_offset.total_place();
        keys.push((-1 - place, 0, 0));
        i = i + 1;
        assert(keys@ =~= score_keys(scores@).take(i as int));
    }
    assert(keys@ =~= score_keys(scores@));
    let best = ranking(&keys);
    let ghost all = hosts_of(galaxies@, dlrs, *config, scores@, totals.total);
    let countable = (Double { bits: 0 }).lt(totals.total) && totals.total.is_finite();
    let limit: usize = if config.max_candidates < best.len() {
        config.max_candidates
    } else {
        best.len()
    };
    let mut candidates: Vec<HostCandidate> = Vec::new();
    let mut j: usize = 0;
    while j < limit
        invariant
            j <= limit <= best@.len(),
            best@ == ranked(score_keys(scores@)),
            is_ranking(score_keys(scores@), best@),
            order@.len() == scores@.len(),
            order@.len() <= galaxies@.len(),
            galaxies@.len() < u32::MAX,
            forall|r: int|
                0 <= r < order@.len() ==> {
                    let at = by_offset(galaxies@, dlrs, *config)[r];
                    (#[trigger] order@[r]).0 == at && order@[r].1 == dlrs[at as int] && at
                        < galaxies@.len()
                },
            countable == normalisable(totals.total),
            all == hosts_of(galaxies@, dlrs, *config, scores@, totals.total),
            candidates@ == all.take(j as int),
        decreases limit - j,
    {
        let rank: usize = best[j];
        let (at, dlr): (usize, DlrResult) = order[rank];
        let galaxy = &galaxies[at];
        candidates.push(
            HostCandidate {
                galaxy: galaxy.copy(),
                separation_arcsec: dlr.separation_arcsec,
                dlr: dlr.directional_radius,
                fractional_offset: dlr.fractional_offset,
                dlr_rank: (rank + 1) as u32,
                posterior: if countable {
                    scores[rank].normalised
                } else {
                    Double { bits: 0 }
                },
                posterior_offset: scores[rank].posterior_offset,
                posterior_absmag: if config.use_absmag {
                    absmag_likelihood(galaxy.mag, galaxy.mag_err, galaxy.redshift)
                } else {
                    Double { bits: NO_EVIDENCE }
                },
            },
        );
        j = j + 1;
        assert(candidates@ =~= all.take(j as int));
    }
    assert(all.take(all.len() as int) =~= all);
    let p_none = if scores.len() > 0 && countable {
        clamp_unit(totals.none)
    } else {
        Double { bits: UNITY }
    };
    Ok(
        AssociationResult {
            candidates,
            p_none,
            n_considered: galaxies.len(),
            n_passed_dlr: scores.len(),
        },
    )
}

/// A better rank by offset means that the transient sits at least as deep.
pub proof fn ranks_follow_offsets(
    galaxies: Seq<GalaxyCandidate>,
    dlrs: Seq<DlrResult>,
    config: AssociationConfig,
    r: int,
    s: int,
)
    requires
        galaxies.len() <= usize::MAX,
        0 <= r < s < by_offset(galaxies, dlrs, config).len(),
    ensures
        ({
            let order = by_offset(galaxies, dlrs, config);
            dlrs[order[r] as int].fractional_offset.total_position()
                <= dlrs[order[s] as int].fractional_offset.total_position()
        }),
{
    let picked = admitted(galaxies, dlrs, config, galaxies.len());
    lemma_admitted_bound(galaxies, dlrs, config, galaxies.len());
    let keys = offset_keys(picked, dlrs);
    a_ranking_exists(keys);
    let rows = ranked(keys);
    assert(precedes(keys, rows[r] as int, rows[s] as int));
}

proof fn lemma_admitted_bound(
    galaxies: Seq<GalaxyCandidate>,
    dlrs: Seq<DlrResult>,
    config: AssociationConfig,
    n: nat,
)
    ensures
        admitted(galaxies, dlrs, config, n).len() <= n,
    decreases n,
{
    if n > 0 {
        lemma_admitted_bound(galaxies, dlrs, config, (n - 1) as nat);
    }
}

/// Host candidates come by posterior, the greatest first, and no rank is given twice.
pub proof fn hosts_come_by_posterior(
    galaxies: Seq<GalaxyCandidate>,
    dlrs: Seq<DlrResult>,
    config: AssociationConfig,
    scores: Seq<Score>,
    total: Double,
    i: int,
    j: int,
)
    requires
        scores.len() < u32::MAX,
        0 <= i < j < hosts_of(galaxies, dlrs, config, scores, total).len(),
    ensures
        ({
            let hosts = hosts_of(galaxies, dlrs, config, scores, total);
            &&& hosts[j].posterior_offset.total_position()
                <= hosts[i].posterior_offset.total_position()
            &&& hosts[i].dlr_rank != hosts[j].dlr_rank
        }),
{
    let keys = score_keys(scores);
    a_ranking_exists(keys);
    let rows = ranked(keys);
    assert(precedes(keys, rows[i] as int, rows[j] as int));
    assert(rows[i] < scores.len() && rows[j] < scores.len());
}

}
