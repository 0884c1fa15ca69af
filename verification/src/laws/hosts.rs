//! Which galaxies are ranked as hosts, and how.
use vstd::prelude::*;

use crate::binary::Double;
use crate::order::{a_ranking_exists, precedes, ranked};
use crate::named::{lookup, Named};
use crate::document::{Document, Node};
use crate::text::{same_folded, signed_decimal, text_of};
use crate::utils::host::associate::{
    admits, admitted, associate_host, by_offset, dlrs_of, hosts_of, offset_keys, rank_by_offset,
    score_keys, AssociationConfig, AssociationResult, Score, Totals,
};
use crate::utils::host::association::{
    associate_from_xmatches, HostGalaxyAssociation, StoredHostCandidate,
};
use crate::utils::host::catalog::{
    bounded_axis_ratio, collect_galaxies, fragment_of, galaxy_from_ls_dr10, galaxy_from_ned,
    legacy_redshift, ls_galaxies, ls_galaxy, ned_galaxies, ned_galaxy, ned_part, ned_shape,
    objname_of, rejected_as_marginal_rex, string_of, views, GalaxyView, LsNumbers, NedNumbers,
};
use crate::utils::host::config::HostGalaxyConfig;
use crate::utils::host::dlr::{compute_dlr, dlr_in, wrap_ra, DlrNumbers, DlrResult};
use crate::utils::host::ellipse::{semi_axes, Ellipse};
use crate::utils::host::error::{HostError, ShapeFault};
use crate::utils::host::likelihood::{absmag_likelihood, offset_likelihood};
use crate::utils::host::prior::{offset_prior, p_hostless, p_outside, p_unobserved};
use crate::utils::host::types::{GalaxyCandidate, HostCandidate};
use crate::utils::spatial::finite_of;

verus! {

/// Whether two semi-axes and a position angle make an ellipse.
pub open spec fn makes_an_ellipse(a: Double, b: Double, pa: Double) -> bool {
    let zero = Double { bits: 0 };
    &&& a.is_finite_spec() && b.is_finite_spec() && pa.is_finite_spec()
    &&& zero.less(a) && zero.less(b)
}

/// Whether `offset` is how far out a transient sits, by what was computed of it.
pub open spec fn is_offset(numbers: DlrNumbers, offset: Double) -> bool {
    let none = Double { bits: 0x3CD2_03AF_9EE7_5616 };
    &&& numbers.separation.less(none) ==> offset.bits == 0
    &&& !numbers.separation.less(none) && none.less(numbers.denominator) ==> offset
        == numbers.offset
    &&& !numbers.separation.less(none) && !none.less(numbers.denominator) ==> offset
        == numbers.offset_by_axis
}

proof fn lemma_admitted(
    galaxies: Seq<GalaxyCandidate>,
    dlrs: Seq<DlrResult>,
    config: AssociationConfig,
    n: nat,
)
    requires
        n <= galaxies.len() <= usize::MAX,
    ensures
        ({
            let picked = admitted(galaxies, dlrs, config, n);
            &&& picked.len() <= n
            &&& forall|k: int|
                0 <= k < picked.len() ==> (#[trigger] picked[k]) < n && admits(
                    galaxies[picked[k] as int],
                    dlrs[picked[k] as int],
                    config,
                )
            &&& forall|k: int, m: int|
                0 <= k < m < picked.len() ==> #[trigger] picked[k] < #[trigger] picked[m]
            &&& forall|i: int|
                0 <= i < n && #[trigger] admits(galaxies[i], dlrs[i], config) ==> picked.contains(
                    i as usize,
                )
        }),
    decreases n,
{
    if n > 0 {
        let before = admitted(galaxies, dlrs, config, (n - 1) as nat);
        lemma_admitted(galaxies, dlrs, config, (n - 1) as nat);
        let picked = admitted(galaxies, dlrs, config, n);
        assert forall|i: int|
            0 <= i < n && #[trigger] admits(galaxies[i], dlrs[i], config) implies picked.contains(
            i as usize,
        ) by {
            if i < n - 1 {
                let k = choose|k: int| 0 <= k < before.len() && before[k] == i as usize;
                assert(picked[k] == i as usize);
            } else {
                assert(picked[before.len() as int] == i as usize);
            }
        }
    }
}

/// Every galaxy that makes an ellipse, and in which the transient sits a finite distance
/// within the bound out, is ranked once, whatever else is known of it. No other one is.
pub proof fn which_galaxies_are_ranked(
    galaxies: Vec<GalaxyCandidate>,
    numbers: Vec<DlrNumbers>,
    config: AssociationConfig,
    order: Vec<(usize, DlrResult)>,
    i: int,
    offset: Double,
)
    requires
        numbers@.len() == galaxies@.len(),
        galaxies@.len() <= usize::MAX,
        call_ensures(rank_by_offset, (&galaxies, &numbers, &config), order),
        0 <= i < galaxies@.len(),
        is_offset(numbers@[i], offset),
    ensures
        (exists|r: int| 0 <= r < order@.len() && (#[trigger] order@[r]).0 == i) <==> {
            &&& makes_an_ellipse(
                galaxies@[i].a_arcsec,
                galaxies@[i].b_arcsec.greatest(config.min_b_arcsec),
                galaxies@[i].pa_deg,
            )
            &&& offset.is_finite_spec()
            &&& offset.at_most(config.max_fractional_offset)
        },
        forall|r: int, s: int|
            0 <= r < s < order@.len() ==> (#[trigger] order@[r]).0 != (#[trigger] order@[s]).0,
{
    let dlrs = dlrs_of(galaxies@, numbers@, config);
    let picked = admitted(galaxies@, dlrs, config, galaxies@.len());
    lemma_admitted(galaxies@, dlrs, config, galaxies@.len());
    let keys = offset_keys(picked, dlrs);
    a_ranking_exists(keys);
    let rows = ranked(keys);
    let places = by_offset(galaxies@, dlrs, config);
    assert(dlrs[i].fractional_offset == offset);
    if admits(galaxies@[i], dlrs[i], config) {
        let k = choose|k: int| 0 <= k < picked.len() && picked[k] == i as usize;
        assert(rows.contains(k as usize));
        let r = choose|r: int| 0 <= r < rows.len() && rows[r] == k as usize;
        assert(places[r] == i as usize);
        assert(order@[r].0 == i);
    }
    if exists|r: int| 0 <= r < order@.len() && (#[trigger] order@[r]).0 == i {
        let r = choose|r: int| 0 <= r < order@.len() && (#[trigger] order@[r]).0 == i;
        assert(places[r] == picked[rows[r] as int]);
    }
    assert forall|r: int, s: int| 0 <= r < s < order@.len() implies (#[trigger] order@[r]).0 != (
    #[trigger] order@[s]).0 by {
        assert(precedes(keys, rows[r] as int, rows[s] as int));
        assert(places[r] == picked[rows[r] as int]);
        assert(places[s] == picked[rows[s] as int]);
    }
}

/// Two galaxies of one shape, in which the transient sits alike, are both ranked or both
/// not.
pub proof fn galaxies_of_one_shape_are_ranked_alike(
    galaxies: Vec<GalaxyCandidate>,
    numbers: Vec<DlrNumbers>,
    config: AssociationConfig,
    order: Vec<(usize, DlrResult)>,
    i: int,
    j: int,
)
    requires
        numbers@.len() == galaxies@.len(),
        galaxies@.len() <= usize::MAX,
        call_ensures(rank_by_offset, (&galaxies, &numbers, &config), order),
        0 <= i < galaxies@.len(),
        0 <= j < galaxies@.len(),
        galaxies@[i].a_arcsec == galaxies@[j].a_arcsec,
        galaxies@[i].b_arcsec == galaxies@[j].b_arcsec,
        galaxies@[i].pa_deg == galaxies@[j].pa_deg,
        numbers@[i] == numbers@[j],
    ensures
        (exists|r: int| 0 <= r < order@.len() && (#[trigger] order@[r]).0 == i) <==> (exists|r: int|
            0 <= r < order@.len() && (#[trigger] order@[r]).0 == j),
{
    let none = Double { bits: 0x3CD2_03AF_9EE7_5616 };
    let offset = if numbers@[i].separation.less(none) {
        Double { bits: 0 }
    } else if none.less(numbers@[i].denominator) {
        numbers@[i].offset
    } else {
        numbers@[i].offset_by_axis
    };
    which_galaxies_are_ranked(galaxies, numbers, config, order, i, offset);
    which_galaxies_are_ranked(galaxies, numbers, config, order, j, offset);
}

/// Whether `dlr` is right for an ellipse of a semi-major axis: a transient on the centre has
/// no separation and the radius along the axis, and every other one the radius toward it,
/// where that could be computed, and else that along the axis.
pub open spec fn is_dlr(semi_major: Double, numbers: DlrNumbers, dlr: DlrResult) -> bool {
    let none = Double { bits: 0x3CD2_03AF_9EE7_5616 };
    let centred = numbers.separation.less(none);
    let directed = none.less(numbers.denominator);
    &&& is_offset(numbers, dlr.fractional_offset)
    &&& centred ==> dlr.separation_arcsec.bits == 0
    &&& !centred ==> dlr.separation_arcsec == numbers.separation
    &&& !centred && directed ==> dlr.directional_radius == numbers.radius
    &&& centred || !directed ==> dlr.directional_radius == semi_major
}

/// The light radius toward a transient is that of an ellipse at an angle.
pub proof fn light_radii_point_toward_the_transient(
    ellipse: Ellipse,
    numbers: DlrNumbers,
    dlr: DlrResult,
)
    requires
        call_ensures(compute_dlr, (&ellipse, numbers), dlr),
    ensures
        is_dlr(ellipse.a, numbers, dlr),
{
}

/// Galaxies are ranked by how deep the transient sits, and each with that.
pub proof fn the_deepest_galaxy_comes_first(
    galaxies: Vec<GalaxyCandidate>,
    numbers: Vec<DlrNumbers>,
    config: AssociationConfig,
    order: Vec<(usize, DlrResult)>,
    r: int,
    s: int,
)
    requires
        numbers@.len() == galaxies@.len(),
        galaxies@.len() <= usize::MAX,
        call_ensures(rank_by_offset, (&galaxies, &numbers, &config), order),
        0 <= r < s < order@.len(),
    ensures
        ({
            let a = order@[r];
            let b = order@[s];
            let galaxy = galaxies@[a.0 as int];
            let minor = galaxy.b_arcsec.greatest(config.min_b_arcsec);
            &&& a.1.fractional_offset.at_most(b.1.fractional_offset)
            &&& a.1.fractional_offset == b.1.fractional_offset ==> a.0 < b.0
            &&& minor.at_most(galaxy.a_arcsec) ==> is_dlr(
                galaxy.a_arcsec,
                numbers@[a.0 as int],
                a.1,
            )
            &&& galaxy.a_arcsec.less(minor) ==> is_dlr(minor, numbers@[a.0 as int], a.1)
        }),
{
    let dlrs = dlrs_of(galaxies@, numbers@, config);
    let picked = admitted(galaxies@, dlrs, config, galaxies@.len());
    lemma_admitted(galaxies@, dlrs, config, galaxies@.len());
    let keys = offset_keys(picked, dlrs);
    a_ranking_exists(keys);
    let rows = ranked(keys);
    let places = by_offset(galaxies@, dlrs, config);
    assert(precedes(keys, rows[r] as int, rows[s] as int));
    assert(places[r] == picked[rows[r] as int]);
    assert(places[s] == picked[rows[s] as int]);
    assert(order@[r].0 == places[r] && order@[s].0 == places[s]);
}

/// Whether a host candidate is the galaxy of a rank: it has what is known of the galaxy, how
/// deep the transient sits, and what that is worth, normalised where the total allows it.
pub open spec fn is_host_of_rank(
    host: HostCandidate,
    galaxies: Seq<GalaxyCandidate>,
    order: Seq<(usize, DlrResult)>,
    scores: Seq<Score>,
    total: Double,
    rank: int,
) -> bool {
    let positive = (Double { bits: 0 }).less(total) && total.is_finite_spec();
    &&& 0 <= rank < order.len()
    &&& host.dlr_rank == rank + 1
    &&& host.galaxy == galaxies[order[rank].0 as int]
    &&& host.separation_arcsec == order[rank].1.separation_arcsec
    &&& host.dlr == order[rank].1.directional_radius
    &&& host.fractional_offset == order[rank].1.fractional_offset
    &&& host.posterior_offset == scores[rank].posterior_offset
    &&& host.posterior_absmag.bits == 0x3FF0_0000_0000_0000
    &&& positive ==> host.posterior == scores[rank].normalised
    &&& !positive ==> host.posterior.bits == 0
}

/// The hosts of a transient are its ranked galaxies, by their posteriors and without those
/// over the limit. The probability that there is no host is 1 where nothing was ranked or
/// the total cannot be used, and else what was computed, kept between 0 and 1.
pub proof fn hosts_are_the_ranked_galaxies(
    galaxies: Vec<GalaxyCandidate>,
    numbers: Vec<DlrNumbers>,
    config: AssociationConfig,
    scores: Vec<Score>,
    totals: Totals,
    order: Vec<(usize, DlrResult)>,
    result: Result<AssociationResult, HostError>,
)
    requires
        numbers@.len() == galaxies@.len(),
        galaxies@.len() < u32::MAX,
        galaxies@.len() <= usize::MAX,
        call_ensures(rank_by_offset, (&galaxies, &numbers, &config), order),
        scores@.len() == order@.len(),
        call_ensures(associate_host, (&galaxies, &numbers, &config, &scores, totals), result),
    ensures
        galaxies@.len() == 0 ==> result matches Err(HostError::NoCandidates),
        galaxies@.len() > 0 ==> result is Ok,
        result matches Ok(found) ==> {
            &&& found.n_considered == galaxies@.len()
            &&& found.n_passed_dlr == order@.len()
            &&& found.candidates@.len() == if config.max_candidates < order@.len() {
                config.max_candidates as nat
            } else {
                order@.len()
            }
            &&& forall|k: int|
                0 <= k < found.candidates@.len() ==> is_host_of_rank(
                    #[trigger] found.candidates@[k],
                    galaxies@,
                    order@,
                    scores@,
                    totals.total,
                    found.candidates@[k].dlr_rank - 1,
                )
            &&& forall|k: int, m: int|
                0 <= k < m < found.candidates@.len() ==> {
                    let a = #[trigger] found.candidates@[k];
                    let b = #[trigger] found.candidates@[m];
                    &&& b.posterior_offset.total_position() <= a.posterior_offset.total_position()
                    &&& a.posterior_offset == b.posterior_offset ==> a.dlr_rank < b.dlr_rank
                    &&& a.dlr_rank != b.dlr_rank
                }
            &&& forall|k: int, rank: int|
                #![trigger found.candidates@[k], scores@[rank]]
                0 <= k < found.candidates@.len() && 0 <= rank < scores@.len() && (forall|m: int|
                    0 <= m < found.candidates@.len() ==> (#[trigger] found.candidates@[m]).dlr_rank
                        != rank + 1) ==> scores@[rank].posterior_offset.total_position()
                    <= found.candidates@[k].posterior_offset.total_position()
            &&& {
                let positive = (Double { bits: 0 }).less(totals.total)
                    && totals.total.is_finite_spec();
                let one = Double { bits: 0x3FF0_0000_0000_0000 };
                &&& order@.len() == 0 || !positive ==> found.p_none == one
                &&& order@.len() > 0 && positive ==> {
                    &&& totals.none.less(Double { bits: 0 }) ==> found.p_none.bits == 0
                    &&& one.less(totals.none) ==> found.p_none == one
                    &&& (Double { bits: 0 }).at_most(totals.none) && totals.none.at_most(one)
                        ==> found.p_none == totals.none
                }
            }
        },
{
    if let Ok(found) = result {
        let dlrs = dlrs_of(galaxies@, numbers@, config);
        let places = by_offset(galaxies@, dlrs, config);
        let keys = score_keys(scores@);
        a_ranking_exists(keys);
        let rows = ranked(keys);
        let all = hosts_of(galaxies@, dlrs, config, scores@, totals.total);
        assert(all.len() == order@.len());
        assert forall|k: int| 0 <= k < found.candidates@.len() implies is_host_of_rank(
            #[trigger] found.candidates@[k],
            galaxies@,
            order@,
            scores@,
            totals.total,
            found.candidates@[k].dlr_rank - 1,
        ) && found.candidates@[k].dlr_rank == rows[k] + 1 by {
            assert(found.candidates@[k] == all[k]);
            let rank = rows[k] as int;
            assert(0 <= rank < scores@.len());
            assert(order@[rank].0 == places[rank]);
        }
        assert forall|k: int, m: int| 0 <= k < m < found.candidates@.len() implies {
            let a = #[trigger] found.candidates@[k];
            let b = #[trigger] found.candidates@[m];
            &&& b.posterior_offset.total_position() <= a.posterior_offset.total_position()
            &&& a.posterior_offset == b.posterior_offset ==> a.dlr_rank < b.dlr_rank
            &&& a.dlr_rank != b.dlr_rank
        } by {
            assert(precedes(keys, rows[k] as int, rows[m] as int));
        }
        assert forall|k: int, rank: int|
            #![trigger found.candidates@[k], scores@[rank]]
            0 <= k < found.candidates@.len() && 0 <= rank < scores@.len() && (forall|m: int|
                0 <= m < found.candidates@.len() ==> (#[trigger] found.candidates@[m]).dlr_rank
                    != rank + 1) implies scores@[rank].posterior_offset.total_position()
            <= found.candidates@[k].posterior_offset.total_position() by {
            assert(rows.contains(rank as usize));
            let at = choose|at: int| 0 <= at < rows.len() && rows[at] == rank as usize;
            if at < found.candidates@.len() {
                assert(found.candidates@[at].dlr_rank == rank + 1);
            }
            assert(precedes(keys, rows[k] as int, rows[at] as int));
        }
    }
}

/// A difference of right ascensions is taken on the short way round.
pub proof fn right_ascensions_differ_by_half_a_circle_at_most(
    difference: Double,
    back: Double,
    forth: Double,
    wrapped: Double,
)
    requires
        call_ensures(wrap_ra, (difference, back, forth), wrapped),
    ensures
        (Double { bits: 0x4066_8000_0000_0000 }).less(difference) ==> wrapped == back,
        difference.less(Double { bits: 0xC066_8000_0000_0000 }) ==> wrapped == forth,
        (Double { bits: 0xC066_8000_0000_0000 }).at_most(difference) && difference.at_most(
            Double { bits: 0x4066_8000_0000_0000 },
        ) ==> wrapped == difference,
{
}

/// An ellipse is made of two positive finite axes and a finite angle; the greater axis is
/// the first. What is not finite is refused before what is not positive.
pub proof fn which_ellipses_are_made(
    a: Double,
    b: Double,
    pa: Double,
    pa_rad: Double,
    axis_ratio: Double,
    ellipse: Result<Ellipse, HostError>,
)
    requires
        call_ensures(Ellipse::new, (a, b, pa, pa_rad, axis_ratio), ellipse),
    ensures
        ellipse is Ok <==> makes_an_ellipse(a, b, pa),
        ellipse matches Ok(made) ==> {
            &&& made.b.at_most(made.a)
            &&& (made.a == a && made.b == b) || (made.a == b && made.b == a)
            &&& made.pa_rad == pa_rad && made.axis_ratio == axis_ratio
        },
        !(a.is_finite_spec() && b.is_finite_spec() && pa.is_finite_spec()) ==> ellipse == Err::<
            Ellipse,
            HostError,
        >(HostError::InvalidShape(ShapeFault::NonFinite { a, b, pa })),
        a.is_finite_spec() && b.is_finite_spec() && pa.is_finite_spec() && !makes_an_ellipse(
            a,
            b,
            pa,
        ) ==> ellipse == Err::<Ellipse, HostError>(
            HostError::InvalidShape(ShapeFault::NonPositiveAxes { a, b }),
        ),
{
}

/// A fitted shape makes an ellipse when its radius is not at most 0 and its ellipticity is
/// finite. The floor applies to the minor axis only.
pub proof fn which_fitted_shapes_make_ellipses(
    shape_r: Double,
    e1: Double,
    e2: Double,
    floor: Double,
    minor: Double,
    pa_rad: Double,
    axis_ratio: Double,
    ellipse: Result<Ellipse, HostError>,
)
    requires
        call_ensures(
            Ellipse::from_tractor,
            (shape_r, e1, e2, floor, minor, pa_rad, axis_ratio),
            ellipse,
        ),
    ensures
        ellipse is Ok <==> !shape_r.at_most(Double { bits: 0 }) && e1.is_finite_spec()
            && e2.is_finite_spec(),
        shape_r.at_most(Double { bits: 0 }) ==> ellipse == Err::<Ellipse, HostError>(
            HostError::InvalidShape(ShapeFault::NonPositiveRadius { shape_r }),
        ),
        !shape_r.at_most(Double { bits: 0 }) && !(e1.is_finite_spec() && e2.is_finite_spec())
            ==> ellipse == Err::<Ellipse, HostError>(
            HostError::InvalidShape(ShapeFault::NonFiniteEllipticity { e1, e2 }),
        ),
        ellipse matches Ok(made) ==> {
            &&& made.a == shape_r
            &&& made.pa_rad == pa_rad && made.axis_ratio == axis_ratio
            &&& floor.at_most(minor) ==> made.b == minor
            &&& minor.less(floor) ==> made.b == floor
        },
{
}

/// An ellipse that is scaled keeps its angle, and the floor applies to both its axes.
pub proof fn scaled_ellipses_keep_their_angle(
    ellipse: Ellipse,
    a: Double,
    floor: Double,
    minor: Double,
    axis_ratio: Double,
    scaled: Ellipse,
)
    requires
        call_ensures(
            Ellipse::scaled_to_semi_major,
            (&ellipse, a, floor, minor, axis_ratio),
            scaled,
        ),
    ensures
        scaled.pa_rad == ellipse.pa_rad,
        scaled.axis_ratio == axis_ratio,
        floor.at_most(a) ==> scaled.a == a,
        a.less(floor) ==> scaled.a == floor,
        floor.at_most(minor) ==> scaled.b == minor,
        minor.less(floor) ==> scaled.b == floor,
{
}

/// The likelihood of an offset is its density, but a million on the centre and 0 where the
/// offset is negative or not finite. The absolute magnitude counts for nothing.
pub proof fn what_offsets_are_worth(
    offset: Double,
    density: Double,
    likelihood: Double,
    mag: Option<Double>,
    mag_err: Option<Double>,
    redshift: Option<Double>,
    by_mag: Double,
)
    requires
        call_ensures(offset_likelihood, (offset, density), likelihood),
        call_ensures(absmag_likelihood, (mag, mag_err, redshift), by_mag),
    ensures
        (Double { bits: 0 }).less(offset) && offset.is_finite_spec() ==> likelihood == density,
        offset.equals(Double { bits: 0 }) ==> likelihood.bits == 0x412E_8480_0000_0000,
        offset.less(Double { bits: 0 }) || !offset.is_finite_spec() ==> likelihood.bits == 0,
        by_mag.bits == 0x3FF0_0000_0000_0000,
{
}

/// The prior of an offset is uniform from 0 to the greatest one and 0 outside. Without
/// candidates the host is likelier to lie outside the search.
pub proof fn what_is_expected_of_hosts(
    offset: Double,
    max: Double,
    uniform: Double,
    prior: Double,
    n: usize,
    outside: Double,
    unobserved: Double,
    hostless: Double,
)
    requires
        call_ensures(offset_prior, (offset, max, uniform), prior),
        call_ensures(p_outside, (n,), outside),
        call_ensures(p_unobserved, (), unobserved),
        call_ensures(p_hostless, (), hostless),
    ensures
        (Double { bits: 0 }).less(max) && (Double { bits: 0 }).at_most(offset) && offset.at_most(max)
            ==> prior == uniform,
        max.at_most(Double { bits: 0 }) ==> prior.bits == 0,
        offset.less(Double { bits: 0 }) ==> prior.bits == 0,
        max.less(offset) ==> prior.bits == 0,
        offset.is_nan_spec() ==> prior.bits == 0,
        n == 0 ==> outside.bits == 0x3FE0_0000_0000_0000,
        n > 0 ==> outside.bits == 0x3F84_7AE1_47AE_147B,
        unobserved.bits == 0x3F84_7AE1_47AE_147B,
        hostless.bits == 0x3F74_7AE1_47AE_147B,
{
}

/// Whether what is stored is what is known of a host. The separation at its distance is
/// stored where that distance is positive.
pub open spec fn is_stored(kept: StoredHostCandidate, host: HostCandidate, kpc: Double) -> bool {
    let galaxy = host.galaxy;
    &&& text_of(kept.objname) == text_of(galaxy.objname)
    &&& text_of(kept.catalog) == text_of(galaxy.catalog)
    &&& text_of(kept.objtype) == text_of(galaxy.objtype)
    &&& kept.size_is_isophotal == galaxy.size_is_isophotal
    &&& kept.orientation_is_nominal == galaxy.orientation_is_nominal
    &&& kept.ra == galaxy.ra
    &&& kept.dec == galaxy.dec
    &&& kept.sep_arcsec == host.separation_arcsec
    &&& kept.sep_kpc == if galaxy.dist_mpc matches Some(d) && (Double { bits: 0 }).less(d) {
        Some(kpc)
    } else {
        None
    }
    &&& kept.dlr_arcsec == host.dlr
    &&& kept.d_dlr == host.fractional_offset
    &&& kept.dlr_rank == host.dlr_rank
    &&& kept.posterior == host.posterior
    &&& kept.z == galaxy.redshift
    &&& kept.dist_mpc == galaxy.dist_mpc
    &&& text_of(kept.dist_mpc_method) == text_of(galaxy.dist_mpc_method)
    &&& kept.a_arcsec == galaxy.a_arcsec
    &&& kept.b_arcsec == galaxy.b_arcsec
    &&& kept.pa_deg == galaxy.pa_deg
}

/// What is stored of an association: nothing where associations are off, an empty one where
/// there was nothing to rank, and else every host in its order, the first one once more as
/// the best, and the counts.
pub proof fn what_is_stored_of_an_association(
    config: HostGalaxyConfig,
    result: Result<AssociationResult, HostError>,
    kpc: Vec<Double>,
    kept: Option<HostGalaxyAssociation>,
)
    requires
        call_ensures(associate_from_xmatches, (&config, &result, &kpc), kept),
        result matches Ok(found) ==> kpc@.len() == found.candidates@.len(),
    ensures
        kept is None <==> !config.enabled,
        kept matches Some(kept) ==> match result {
            Err(_) => {
                &&& kept.best_host is None
                &&& kept.candidates@.len() == 0
                &&& kept.n_candidates_searched == 0
                &&& kept.n_candidates_after_dlr_cut == 0
                &&& kept.p_host_none.bits == 0x3FF0_0000_0000_0000
            },
            Ok(found) => {
                &&& kept.candidates@.len() == found.candidates@.len()
                &&& forall|i: int|
                    0 <= i < found.candidates@.len() ==> is_stored(
                        #[trigger] kept.candidates@[i],
                        found.candidates@[i],
                        kpc@[i],
                    )
                &&& kept.best_host is Some <==> found.candidates@.len() > 0
                &&& kept.best_host matches Some(best) ==> is_stored(
                    best,
                    found.candidates@[0],
                    kpc@[0],
                )
                &&& kept.n_candidates_searched == found.n_considered
                &&& kept.n_candidates_after_dlr_cut == found.n_passed_dlr
                &&& kept.p_host_none == found.p_none
            },
        },
{
    if let (Some(kept), Ok(found)) = (kept, result) {
        assert forall|i: int| 0 <= i < found.candidates@.len() implies is_stored(
            #[trigger] kept.candidates@[i],
            found.candidates@[i],
            kpc@[i],
        ) by {
            let view = kept.candidates@[i]@;
        }
        if let Some(best) = kept.best_host {
            let view = kept.candidates@[0]@;
            assert(best@ == view);
        }
    }
}

/// The association reads its bounds from the configuration and leaves magnitudes aside.
pub proof fn associations_follow_the_configuration(
    config: HostGalaxyConfig,
    made: AssociationConfig,
)
    requires
        call_ensures(HostGalaxyConfig::association_config, (&config,), made),
    ensures
        made.max_fractional_offset == config.max_dlr,
        made.min_b_arcsec == config.min_axis_arcsec,
        made.max_candidates == config.max_candidates,
        !made.use_absmag,
{
}

/// A text is read where it is not empty, and the name of an object may be a number.
pub proof fn which_texts_are_read(fields: Seq<(Seq<char>, Node)>, key: Seq<char>)
    ensures
        match lookup(fields, key) {
            Some(Node::Text(s)) => {
                &&& s.len() > 0 ==> string_of(fields, key) == Some(s) && objname_of(fields, key)
                    == Some(s)
                &&& s.len() == 0 ==> string_of(fields, key) is None && objname_of(
                    fields,
                    key,
                ) is None
            },
            Some(Node::Int32(n)) => string_of(fields, key) is None && objname_of(fields, key)
                == Some(signed_decimal(n as int)),
            Some(Node::Int64(n)) => string_of(fields, key) is None && objname_of(fields, key)
                == Some(signed_decimal(n as int)),
            _ => string_of(fields, key) is None && objname_of(fields, key) is None,
        },
{
}

/// An axis ratio is used when it is finite and not below the smallest. It is then at least
/// the pinned one and at most 1, and left as it is where it lies between.
pub proof fn which_axis_ratios_are_used(
    axis_ratio: Double,
    config: HostGalaxyConfig,
    ratio: Option<Double>,
)
    requires
        call_ensures(bounded_axis_ratio, (axis_ratio, &config), ratio),
        !config.min_axis_ratio.is_nan_spec(),
        !config.pinned_axis_ratio.is_nan_spec(),
    ensures
        ratio is Some <==> axis_ratio.is_finite_spec() && config.min_axis_ratio.at_most(axis_ratio),
        ratio matches Some(ratio) ==> {
            let one = Double { bits: 0x3FF0_0000_0000_0000 };
            &&& ratio.at_most(one)
            &&& config.pinned_axis_ratio.at_most(axis_ratio) && axis_ratio.at_most(one) ==> ratio
                == axis_ratio
            &&& axis_ratio.less(config.pinned_axis_ratio) && config.pinned_axis_ratio.at_most(one)
                ==> ratio == config.pinned_axis_ratio
            &&& one.less(axis_ratio) ==> ratio == one
        },
{
}

/// Whether some types name a type, in whatever case.
pub open spec fn names_type(types: Seq<String>, kind: Seq<char>) -> bool {
    exists|i: int| 0 <= i < types.len() && same_folded(#[trigger] types[i]@, kind)
}

/// Whether a field holds a finite number above 0.
pub open spec fn holds_positive(fields: Seq<(Seq<char>, Node)>, key: Seq<char>) -> bool {
    finite_of(fields, key) matches Some(x) && (Double { bits: 0 }).less(x)
}

/// A row with a catalogued diameter is a galaxy when it has a position and a positive
/// diameter, is of no excluded type, and has an axis ratio that can be used; a ratio that is
/// not between 0 and 1 counts as that of a circle.
pub proof fn which_catalogued_rows_are_galaxies(
    doc: Document,
    config: HostGalaxyConfig,
    shape: Option<(Double, Double)>,
    measured: Double,
    bounded: Option<Double>,
)
    requires
        call_ensures(ned_shape, (&doc, &config), shape),
        call_ensures(bounded_axis_ratio, (measured, &config), bounded),
        ({
            let one = Double { bits: 0x3FF0_0000_0000_0000 };
            let usable = holds_positive(doc@, "Diam_ba"@) && finite_of(
                doc@,
                "Diam_ba"@,
            )->0.at_most(one);
            &&& usable ==> Some(measured) == finite_of(doc@, "Diam_ba"@)
            &&& !usable ==> measured == one
        }),
    ensures
        shape is Some <==> {
            &&& finite_of(doc@, "ra"@) is Some
            &&& finite_of(doc@, "dec"@) is Some
            &&& holds_positive(doc@, "Diam"@)
            &&& !(string_of(doc@, "objtype"@) matches Some(kind) && names_type(
                config.ned_excluded_objtypes@,
                kind,
            ))
            &&& bounded is Some
        },
        shape matches Some(shape) ==> Some(shape.0) == finite_of(doc@, "Diam"@) && Some(shape.1)
            == bounded,
{
}

/// What a row with a catalogued diameter tells of its galaxy. The position angle of a 2MASS
/// diameter is a nominal one, unless the galaxy is round.
pub proof fn what_catalogued_rows_tell(
    doc: Document,
    config: HostGalaxyConfig,
    numbers: NedNumbers,
    shape: Option<(Double, Double)>,
    galaxy: Option<GalaxyCandidate>,
)
    requires
        call_ensures(ned_shape, (&doc, &config), shape),
        call_ensures(galaxy_from_ned, (&doc, &config, numbers), galaxy),
    ensures
        galaxy is Some <==> shape is Some,
        galaxy matches Some(galaxy) ==> {
            &&& Some(galaxy.ra) == finite_of(doc@, "ra"@)
            &&& Some(galaxy.dec) == finite_of(doc@, "dec"@)
            &&& galaxy.a_arcsec == numbers.a_arcsec
            &&& galaxy.b_arcsec == numbers.b_arcsec
            &&& finite_of(doc@, "Diam_pa"@) is Some ==> Some(galaxy.pa_deg) == finite_of(
                doc@,
                "Diam_pa"@,
            )
            &&& finite_of(doc@, "Diam_pa"@) is None ==> galaxy.pa_deg.bits == 0
            &&& galaxy.redshift == finite_of(doc@, "z"@)
            &&& galaxy.redshift_err == finite_of(doc@, "z_unc"@)
            &&& galaxy.dist_mpc == finite_of(doc@, "DistMpc"@)
            &&& galaxy.mag == finite_of(doc@, "m_Ks"@)
            &&& galaxy.mag_err == finite_of(doc@, "m_Ks_unc"@)
            &&& text_of(galaxy.dist_mpc_method) == string_of(doc@, "DistMpc_method"@)
            &&& text_of(galaxy.objtype) == string_of(doc@, "objtype"@)
            &&& text_of(galaxy.objname) == objname_of(doc@, "_id"@)
            &&& text_of(galaxy.catalog) == Some("NED"@)
            &&& text_of(galaxy.diam_survey) == string_of(doc@, "Diam_survey"@)
            &&& galaxy.size_is_isophotal
            &&& galaxy.orientation_is_nominal <==> {
                &&& string_of(doc@, "Diam_survey"@) matches Some(survey) && same_folded(
                    survey,
                    "2MASS"@,
                )
                &&& (shape->0).1.less(Double { bits: 0x3FF0_0000_0000_0000 })
            }
        },
{
    if let Some(galaxy) = galaxy {
        let view = galaxy@;
        assert(ned_galaxy(doc@, config, numbers) == Some(view));
    }
}

/// A redshift column counts where it lies above the number that stands for none.
pub proof fn which_redshifts_are_measured(doc: Document, key: &str, z: Option<Double>)
    requires
        call_ensures(legacy_redshift, (&doc, key), z),
    ensures
        z is Some <==> (finite_of(doc@, key@) matches Some(held) && (Double {
            bits: 0xBFE0_0000_0000_0000,
        }).less(held)),
        z is Some ==> z == finite_of(doc@, key@),
{
}

/// A marginally resolved row is rejected when it is too small, when its flux was measured
/// and is not positive or has too little signal, or when too much of it is its neighbours'.
pub proof fn which_marginal_rows_are_rejected(
    doc: Document,
    config: HostGalaxyConfig,
    snr: Double,
    rejected: bool,
)
    requires
        call_ensures(rejected_as_marginal_rex, (&doc, &config, snr), rejected),
    ensures
        rejected <==> {
            ||| finite_of(doc@, "shape_r"@) matches Some(r) && r.less(
                config.rex_min_shape_r_arcsec,
            )
            ||| finite_of(doc@, "shape_r"@) is None && (Double { bits: 0 }).less(
                config.rex_min_shape_r_arcsec,
            )
            ||| finite_of(doc@, "flux_ivar_r"@) is Some && (finite_of(
                doc@,
                "flux_r"@,
            ) matches Some(flux) && flux.at_most(Double { bits: 0 }))
            ||| finite_of(doc@, "flux_r"@) is Some && holds_positive(doc@, "flux_ivar_r"@)
                && snr.less(config.rex_min_snr)
            ||| finite_of(doc@, "fracflux_r"@) matches Some(f) && config.rex_max_fracflux.at_most(f)
        },
{
}

/// A row with a fitted shape is a galaxy when it has a position and a positive radius, is no
/// point source where those are excluded, is not rejected as marginally resolved, and has an
/// axis ratio that can be used.
pub proof fn which_fitted_rows_are_galaxies(
    doc: Document,
    config: HostGalaxyConfig,
    numbers: LsNumbers,
    galaxy: Option<GalaxyCandidate>,
    bounded: Option<Double>,
    rejected: bool,
)
    requires
        call_ensures(galaxy_from_ls_dr10, (&doc, &config, numbers), galaxy),
        call_ensures(bounded_axis_ratio, (numbers.axis_ratio, &config), bounded),
        call_ensures(rejected_as_marginal_rex, (&doc, &config, numbers.snr), rejected),
    ensures
        galaxy is Some <==> {
            &&& finite_of(doc@, "ra"@) is Some
            &&& finite_of(doc@, "dec"@) is Some
            &&& holds_positive(doc@, "shape_r"@)
            &&& !(config.exclude_star_like && (string_of(doc@, "objtype"@) matches Some(kind)
                && names_type(config.star_type_values@, kind)))
            &&& !(string_of(doc@, "objtype"@) == Some("REX"@) && rejected)
            &&& bounded is Some
        },
{
}

/// What a row with a fitted shape tells of its galaxy. It is sized at the isophote where
/// that was computed and the row has a type and a flux, and else keeps its radius. A
/// spectroscopic redshift is taken before a photometric one, and has no error.
pub proof fn what_fitted_rows_tell(
    doc: Document,
    config: HostGalaxyConfig,
    numbers: LsNumbers,
    galaxy: GalaxyCandidate,
    spectroscopic: Option<Double>,
    photometric: Option<Double>,
    error: Option<Double>,
)
    requires
        call_ensures(galaxy_from_ls_dr10, (&doc, &config, numbers), Some(galaxy)),
        call_ensures(legacy_redshift, (&doc, "z_spec"), spectroscopic),
        call_ensures(legacy_redshift, (&doc, "z_phot_median"), photometric),
        call_ensures(legacy_redshift, (&doc, "z_phot_std"), error),
    ensures
        Some(galaxy.ra) == finite_of(doc@, "ra"@),
        Some(galaxy.dec) == finite_of(doc@, "dec"@),
        galaxy.pa_deg == numbers.pa_deg,
        spectroscopic is Some ==> galaxy.redshift == spectroscopic && galaxy.redshift_err is None,
        spectroscopic is None ==> galaxy.redshift == photometric && galaxy.redshift_err == error,
        galaxy.dist_mpc is None && galaxy.dist_mpc_method is None,
        galaxy.mag is None && galaxy.mag_err is None,
        text_of(galaxy.objtype) == string_of(doc@, "objtype"@),
        text_of(galaxy.objname) == objname_of(doc@, "_id"@),
        text_of(galaxy.catalog) == Some("LSDR10"@),
        galaxy.diam_survey is None,
        !galaxy.orientation_is_nominal,
        galaxy.size_is_isophotal <==> string_of(doc@, "objtype"@) is Some && finite_of(
            doc@,
            "flux_r"@,
        ) is Some && numbers.isophote is Some,
        galaxy.size_is_isophotal ==> {
            let isophote = numbers.isophote->0;
            let floor = config.min_axis_arcsec;
            &&& floor.at_most(isophote.semi_major) ==> galaxy.a_arcsec == isophote.semi_major
            &&& isophote.semi_major.less(floor) ==> galaxy.a_arcsec == floor
            &&& floor.at_most(isophote.minor) ==> galaxy.b_arcsec == isophote.minor
            &&& isophote.minor.less(floor) ==> galaxy.b_arcsec == floor
        },
        !galaxy.size_is_isophotal ==> {
            let floor = config.min_axis_arcsec;
            &&& Some(galaxy.a_arcsec) == finite_of(doc@, "shape_r"@)
            &&& floor.at_most(numbers.minor) ==> galaxy.b_arcsec == numbers.minor
            &&& numbers.minor.less(floor) ==> galaxy.b_arcsec == floor
        },
{
    let view = galaxy@;
    assert(ls_galaxy(doc@, config, numbers) == Some(view));
}

/// The galaxies among some rows, in the order of the rows.
pub open spec fn found_in(read: Seq<Option<GalaxyView>>) -> Seq<GalaxyView> {
    read.filter(|galaxy: Option<GalaxyView>| galaxy is Some).map_values(
        |galaxy: Option<GalaxyView>| galaxy->0,
    )
}

/// Whether a transient sits within one light radius of a galaxy.
pub open spec fn sits_within(galaxy: GalaxyView, numbers: DlrNumbers, floor: Double) -> bool {
    &&& makes_an_ellipse(galaxy.a_arcsec, galaxy.b_arcsec.greatest(floor), galaxy.pa_deg)
    &&& exists|offset: Double|
        #![trigger is_offset(numbers, offset)]
        is_offset(numbers, offset) && offset.at_most(Double { bits: 0x3FF0_0000_0000_0000 })
}

/// What is collected of a row with a fitted shape: its galaxy, unless that is a fragment of
/// one with a catalogued diameter.
pub open spec fn whole_galaxy(
    first: Seq<GalaxyView>,
    galaxy: Option<GalaxyView>,
    near: Seq<DlrNumbers>,
    floor: Double,
) -> Option<GalaxyView> {
    if exists|g: int| 0 <= g < first.len() && sits_within(#[trigger] first[g], near[g], floor) {
        None
    } else {
        galaxy
    }
}

proof fn lemma_found_in_push(read: Seq<Option<GalaxyView>>)
    requires
        read.len() > 0,
    ensures
        found_in(read) == match read.last() {
            Some(galaxy) => found_in(read.drop_last()).push(galaxy),
            None => found_in(read.drop_last()),
        },
{
    reveal(Seq::filter);
    if let Some(galaxy) = read.last() {
        assert(found_in(read) =~= found_in(read.drop_last()).push(galaxy));
    }
}

proof fn lemma_ned_galaxies(
    docs: Seq<Document>,
    config: HostGalaxyConfig,
    numbers: Seq<NedNumbers>,
    n: nat,
)
    ensures
        ned_galaxies(docs, config, numbers, n) == found_in(
            Seq::new(n, |i: int| ned_galaxy(docs[i]@, config, numbers[i])),
        ),
    decreases n,
{
    let read = Seq::new(n, |i: int| ned_galaxy(docs[i]@, config, numbers[i]));
    if n == 0 {
        reveal(Seq::filter);
        assert(found_in(read) =~= Seq::empty());
    } else {
        let less = Seq::new(
            (n - 1) as nat,
            |i: int| ned_galaxy(docs[i]@, config, numbers[i]),
        );
        lemma_ned_galaxies(docs, config, numbers, (n - 1) as nat);
        assert(read.drop_last() =~= less);
        lemma_found_in_push(read);
    }
}

proof fn lemma_fragments(first: Seq<GalaxyView>, near: Seq<DlrNumbers>, floor: Double)
    ensures
        fragment_of(first, near, floor) == exists|g: int|
            0 <= g < first.len() && sits_within(#[trigger] first[g], near[g], floor),
{
    let none = Double { bits: 0x3CD2_03AF_9EE7_5616 };
    assert forall|g: int| 0 <= g < first.len() implies sits_within(
        #[trigger] first[g],
        near[g],
        floor,
    ) == crate::utils::host::catalog::lies_in(first[g], near[g], floor) by {
        let numbers = near[g];
        let offset = if numbers.separation.less(none) {
            Double { bits: 0 }
        } else if none.less(numbers.denominator) {
            numbers.offset
        } else {
            numbers.offset_by_axis
        };
        assert(is_offset(numbers, offset));
        assert forall|other: Double| #[trigger] is_offset(numbers, other) implies other == offset by {}
    }
}

proof fn lemma_ls_galaxies(
    first: Seq<GalaxyView>,
    docs: Seq<Document>,
    config: HostGalaxyConfig,
    numbers: Seq<LsNumbers>,
    near: Seq<Vec<DlrNumbers>>,
    n: nat,
)
    ensures
        ls_galaxies(first, docs, config, numbers, near, n) == found_in(
            Seq::new(
                n,
                |i: int|
                    whole_galaxy(
                        first,
                        ls_galaxy(docs[i]@, config, numbers[i]),
                        near[i]@,
                        config.min_axis_arcsec,
                    ),
            ),
        ),
    decreases n,
{
    let read = Seq::new(
        n,
        |i: int|
            whole_galaxy(
                first,
                ls_galaxy(docs[i]@, config, numbers[i]),
                near[i]@,
                config.min_axis_arcsec,
            ),
    );
    if n == 0 {
        reveal(Seq::filter);
        assert(found_in(read) =~= Seq::empty());
    } else {
        let less = Seq::new(
            (n - 1) as nat,
            |i: int|
                whole_galaxy(
                    first,
                    ls_galaxy(docs[i]@, config, numbers[i]),
                    near[i]@,
                    config.min_axis_arcsec,
                ),
        );
        lemma_ls_galaxies(first, docs, config, numbers, near, (n - 1) as nat);
        lemma_fragments(first, near[n - 1]@, config.min_axis_arcsec);
        assert(read.drop_last() =~= less);
        lemma_found_in_push(read);
    }
}

/// What is collected from crossmatches: every galaxy with a catalogued diameter, then every
/// one with a fitted shape that sits within none of the first, both in their order.
pub proof fn which_galaxies_are_collected(
    xmatches: Named<Vec<Document>>,
    config: HostGalaxyConfig,
    ned: Vec<NedNumbers>,
    ls: Vec<LsNumbers>,
    near: Vec<Vec<DlrNumbers>>,
    galaxies: Vec<GalaxyCandidate>,
    catalogued: Vec<Document>,
    fitted: Vec<Document>,
)
    requires
        call_ensures(collect_galaxies, (&xmatches, &config, &ned, &ls, &near), galaxies),
        lookup(xmatches@, config.ned_catalog@) == Some(catalogued),
        lookup(xmatches@, config.ls_dr10_catalog@) == Some(fitted),
    ensures
        ({
            let first = found_in(
                Seq::new(
                    catalogued@.len(),
                    |i: int| ned_galaxy(catalogued@[i]@, config, ned@[i]),
                ),
            );
            views(galaxies@) == first + found_in(
                Seq::new(
                    fitted@.len(),
                    |i: int|
                        whole_galaxy(
                            first,
                            ls_galaxy(fitted@[i]@, config, ls@[i]),
                            near@[i]@,
                            config.min_axis_arcsec,
                        ),
                ),
            )
        }),
{
    lemma_ned_galaxies(catalogued@, config, ned@, catalogued@.len());
    let first = ned_part(xmatches@, config, ned@);
    lemma_ls_galaxies(first, fitted@, config, ls@, near@, fitted@.len());
}

/// A catalog that was not matched brings no galaxies.
pub proof fn nothing_is_collected_from_no_crossmatches(
    xmatches: Named<Vec<Document>>,
    config: HostGalaxyConfig,
    ned: Vec<NedNumbers>,
    ls: Vec<LsNumbers>,
    near: Vec<Vec<DlrNumbers>>,
    galaxies: Vec<GalaxyCandidate>,
)
    requires
        call_ensures(collect_galaxies, (&xmatches, &config, &ned, &ls, &near), galaxies),
        lookup(xmatches@, config.ned_catalog@) is None,
        lookup(xmatches@, config.ls_dr10_catalog@) is None,
    ensures
        galaxies@.len() == 0,
{
    assert(views(galaxies@).len() == galaxies@.len());
}

/// What the association is set to where nothing is said: it is off, and reads the two
/// catalogs, within five light radii, at most ten candidates, without point sources,
/// duplicates and what is no host.
pub proof fn how_associations_are_set(config: HostGalaxyConfig, plain: AssociationConfig)
    requires
        call_ensures(<HostGalaxyConfig as Default>::default, (), config),
        call_ensures(<AssociationConfig as Default>::default, (), plain),
    ensures
        !config.enabled,
        config.ned_catalog@ == "NED"@ && config.ls_dr10_catalog@ == "LSDR10"@,
        config.max_dlr.bits == 0x4014_0000_0000_0000,
        config.min_axis_arcsec.bits == 0x3FA9_9999_9999_999A,
        config.min_axis_ratio.bits == 0x3FA9_9999_9999_999A,
        config.pinned_axis_ratio.bits == 0x3FB9_9999_9999_999A,
        config.max_candidates == 10,
        config.exclude_star_like,
        config.star_type_values@.len() == 2,
        config.star_type_values@[0]@ == "PSF"@ && config.star_type_values@[1]@ == "DUP"@,
        config.ned_excluded_objtypes@.len() == 6,
        names_type(config.ned_excluded_objtypes@, "QSO"@),
        names_type(config.ned_excluded_objtypes@, "AbLS"@),
        names_type(config.ned_excluded_objtypes@, "EmLS"@),
        names_type(config.ned_excluded_objtypes@, "EmObj"@),
        names_type(config.ned_excluded_objtypes@, "Q_Lens"@),
        names_type(config.ned_excluded_objtypes@, "G_Lens"@),
        config.rex_min_shape_r_arcsec.bits == 0x3FD3_3333_3333_3333,
        config.rex_min_snr.bits == 0x4014_0000_0000_0000,
        config.rex_max_fracflux.bits == 0x3FE0_0000_0000_0000,
        config.isophote_mag.bits == 0x4039_0000_0000_0000,
        plain.max_fractional_offset.bits == 0x4024_0000_0000_0000,
        plain.min_b_arcsec.bits == 0x3FA9_9999_9999_999A,
        plain.max_candidates == 10,
        !plain.use_absmag,
{
    let stars = crate::utils::host::config::names(config.star_type_values@);
    let others = crate::utils::host::config::names(config.ned_excluded_objtypes@);
    assert(stars.len() == config.star_type_values@.len());
    assert(others.len() == config.ned_excluded_objtypes@.len());
    assert(stars[0] == config.star_type_values@[0]@ && stars[1] == config.star_type_values@[1]@);
    assert forall|i: int| 0 <= i < 6 implies names_type(
        config.ned_excluded_objtypes@,
        #[trigger] others[i],
    ) by {
        assert(config.ned_excluded_objtypes@[i]@ == others[i]);
        assert(same_folded(others[i], others[i]));
    }
    assert(others[0] == "QSO"@ && others[1] == "AbLS"@ && others[2] == "EmLS"@);
    assert(others[3] == "EmObj"@ && others[4] == "Q_Lens"@ && others[5] == "G_Lens"@);
}

/// The ellipse of a candidate is made of its axes, the minor one not below the floor, and of
/// its position angle.
pub proof fn candidates_make_ellipses(
    candidate: GalaxyCandidate,
    floor: Double,
    pa_rad: Double,
    axis_ratio: Double,
    ellipse: Result<Ellipse, HostError>,
)
    requires
        call_ensures(Ellipse::from_candidate, (&candidate, floor, pa_rad, axis_ratio), ellipse),
    ensures
        ({
            let minor = candidate.b_arcsec.greatest(floor);
            &&& ellipse is Ok <==> makes_an_ellipse(candidate.a_arcsec, minor, candidate.pa_deg)
            &&& ellipse matches Ok(made) ==> {
                &&& made.b.at_most(made.a)
                &&& (made.a == candidate.a_arcsec && made.b == minor) || (made.a == minor && made.b
                    == candidate.a_arcsec)
                &&& made.pa_rad == pa_rad
                &&& made.axis_ratio == axis_ratio
            }
        }),
{
}

/// How far out a transient sits in a candidate is told by the candidate's ellipse, and not at
/// all where its shape makes none.
pub proof fn transients_sit_in_their_candidates(
    candidate: GalaxyCandidate,
    floor: Double,
    numbers: DlrNumbers,
    dlr: Option<DlrResult>,
)
    requires
        call_ensures(dlr_in, (&candidate, floor, numbers), dlr),
    ensures
        ({
            let minor = candidate.b_arcsec.greatest(floor);
            &&& dlr is Some <==> makes_an_ellipse(candidate.a_arcsec, minor, candidate.pa_deg)
            &&& dlr matches Some(dlr) ==> {
                ||| minor.at_most(candidate.a_arcsec) && is_dlr(candidate.a_arcsec, numbers, dlr)
                ||| candidate.a_arcsec.less(minor) && is_dlr(minor, numbers, dlr)
            }
        }),
{
}


/// The greater of two semi-axes comes first.
pub proof fn the_greater_axis_comes_first(a: Double, b: Double, axes: (Double, Double))
    requires
        call_ensures(semi_axes, (a, b), axes),
        !a.is_nan_spec() && !b.is_nan_spec(),
    ensures
        axes.1.at_most(axes.0),
        axes == (a, b) || axes == (b, a),
{
}

/// Every host of a result is stored in its order, the first once more as the best, with the
/// counts.
pub proof fn results_are_stored_in_their_order(
    result: AssociationResult,
    kpc: Vec<Double>,
    kept: HostGalaxyAssociation,
)
    requires
        call_ensures(HostGalaxyAssociation::from_result, (&result, &kpc), kept),
        kpc@.len() == result.candidates@.len(),
    ensures
        kept.candidates@.len() == result.candidates@.len(),
        forall|i: int|
            0 <= i < result.candidates@.len() ==> is_stored(
                #[trigger] kept.candidates@[i],
                result.candidates@[i],
                kpc@[i],
            ),
        kept.best_host is Some <==> result.candidates@.len() > 0,
        kept.best_host matches Some(best) ==> is_stored(best, result.candidates@[0], kpc@[0]),
        kept.n_candidates_searched == result.n_considered,
        kept.n_candidates_after_dlr_cut == result.n_passed_dlr,
        kept.p_host_none == result.p_none,
{
    assert forall|i: int| 0 <= i < result.candidates@.len() implies is_stored(
        #[trigger] kept.candidates@[i],
        result.candidates@[i],
        kpc@[i],
    ) by {
        let view = kept.candidates@[i]@;
    }
    if let Some(best) = kept.best_host {
        let view = kept.candidates@[0]@;
        assert(best@ == view);
    }
}

}
