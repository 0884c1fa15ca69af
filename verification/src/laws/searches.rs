//! How cone searches run, and what else is asked and told of alerts and positions.
use vstd::prelude::*;

use crate::api::alerts::{
    alerts_message, alerts_retrieval_failed, cone_retrieval_failed, cone_search_alerts,
    documents_failed, filled_lists, get_alerts, total_items, AlertsConeSearchQuery, AlertsQuery,
    ConeSearch, ConeStep, FindPlan, QueryNumbers,
};
use crate::api::response::Reply;
use crate::binary::Double;
use crate::conf::CatalogXmatchConfig;
use crate::document::{Document, Node};
use crate::laws::alerts::{
    alert_filters_ask_for_what_the_query_says, asked_flag, asks_for_limits, asks_round,
    cone_filters_ask_for_what_the_query_says, which_alert_queries_are_run,
};
use crate::laws::light_curves::the_first_point_of_each_epoch_is_kept;
use crate::laws::replies::{asks_to_log_in, refuses};
use crate::named::{listed, lookup, setting_a_name_leaves_the_others, what_was_set_is_read_back};
use crate::text::decimal;
use crate::utils::enums::Survey;
use crate::utils::lightcurves::{prepare_photometry, PhotometryMag};
use crate::utils::spatial::{
    catalog_at, empty_lists, watchlist_match_field, Coordinates, Crossmatch, RowNumbers,
    ValueAccess, XmatchError,
};

verus! {

/// The collection of a survey's alerts.
pub open spec fn collection_name(survey: Survey) -> Seq<char> {
    match survey {
        Survey::Ztf => "ZTF"@ + "_alerts"@,
        Survey::Lsst => "LSST"@ + "_alerts"@,
        Survey::Decam => "DECAM"@ + "_alerts"@,
    }
}

/// A query for alerts that is run asks for what it says, in the order of the identifiers,
/// from where it starts and as many as it wants, but not more than a hundred thousand.
pub proof fn queries_are_run_as_they_say(
    survey: Survey,
    authenticated: bool,
    query: AlertsQuery,
    numbers: QueryNumbers,
    plan: FindPlan,
)
    requires
        call_ensures(
            get_alerts,
            (survey, authenticated, &query, numbers),
            Ok::<FindPlan, Reply>(plan),
        ),
    ensures
        authenticated,
        survey != Survey::Decam,
        plan.collection@ == collection_name(survey),
        asks_for_limits(plan.filter@, survey, query.limits),
        lookup(plan.filter@, "candidate.isdiffpos"@) == asked_flag(query.is_positive),
        ({
            let cone = query.ra is Some && query.dec is Some && query.radius_arcsec is Some;
            let named = query.object_id is Some;
            let timed = query.limits.start_jd is Some && query.limits.end_jd is Some;
            &&& named || cone || timed
            &&& !(named && cone)
            &&& !named && !cone ==> !(Double { bits: 0x3FF0_0000_0000_0000 }).less(numbers.span_jd)
            &&& cone ==> !(query.radius_arcsec->0).at_most(Double { bits: 0 }) && !(Double {
                bits: 0x4082_C000_0000_0000,
            }).less(query.radius_arcsec->0)
            &&& named ==> lookup(plan.filter@, "objectId"@) == Some(
                Node::Text(query.object_id->0@),
            )
            &&& !named ==> lookup(plan.filter@, "objectId"@) is None
            &&& cone ==> asks_round(
                plan.filter@,
                numbers.center_ra,
                query.dec->0,
                numbers.radius_radians,
            )
            &&& !cone ==> lookup(plan.filter@, "coordinates.radec_geojson"@) is None
        }),
        plan.sort@ == seq![("_id"@, Node::Int32(1))],
        query.skip matches Some(skip) ==> plan.skip == skip,
        query.skip is None ==> plan.skip == 0,
        query.limit matches Some(limit) ==> plan.limit == limit && 1 <= limit <= 100_000,
        query.limit is None ==> plan.limit == 100_000,
{
    alert_filters_ask_for_what_the_query_says(survey, query, numbers);
    which_alert_queries_are_run(survey, authenticated, query, numbers);
    crate::laws::alerts::lemma_only("_id"@, Node::Int32(1));
}

/// A cone search starts with nothing found, at the positions that it was given, in their
/// order.
pub proof fn cone_searches_start_at_their_positions<A>(
    survey: Survey,
    authenticated: bool,
    query: AlertsConeSearchQuery,
    radius: Double,
    centers: Vec<Double>,
    search: ConeSearch<A>,
)
    requires
        call_ensures(
            cone_search_alerts::<A>,
            (survey, authenticated, &query, radius, &centers),
            Ok::<ConeSearch<A>, Reply>(search),
        ),
        centers@.len() == query.coordinates@.len(),
    ensures
        authenticated,
        1 <= query.coordinates@.len() <= 1000,
        survey == Survey::Ztf || survey == Survey::Lsst,
        search.collection@ == collection_name(survey),
        search.radius_radians == radius,
        search.targets@.len() == query.coordinates@.len(),
        forall|i: int|
            0 <= i < query.coordinates@.len() ==> {
                let target = #[trigger] search.targets@[i];
                &&& target.name@ == query.coordinates@[i].0@
                &&& target.ra == query.coordinates@[i].1
                &&& target.dec == query.coordinates@[i].2
                &&& target.center_ra == centers@[i]
            },
        search.results.entries@.len() == 0,
        search.alert_count == 0 && search.matched_count == 0,
{
    assert(search.results.lists().len() == search.results.entries@.len());
}

/// Each position is searched by what the query says, in the cone round it. A position off the
/// sky ends the search with its name, and the end tells how many positions had alerts and how
/// many alerts there were.
pub proof fn each_position_is_searched<A>(
    survey: Survey,
    authenticated: bool,
    query: AlertsConeSearchQuery,
    radius: Double,
    centers: Vec<Double>,
    start: ConeSearch<A>,
    search: ConeSearch<A>,
    step: ConeStep,
)
    requires
        call_ensures(
            cone_search_alerts::<A>,
            (survey, authenticated, &query, radius, &centers),
            Ok::<ConeSearch<A>, Reply>(start),
        ),
        centers@.len() == query.coordinates@.len(),
        search.base == start.base,
        search.radius_radians == start.radius_radians,
        search.targets == start.targets,
        search.wf(),
        call_ensures(ConeSearch::<A>::step, (&search,), step),
    ensures
        ({
            let at = search.results.entries@.len() as int;
            &&& step is Finish <==> at == query.coordinates@.len()
            &&& step matches ConeStep::Find(filter) ==> {
                &&& asks_for_limits(filter@, survey, query.limits)
                &&& asks_round(filter@, centers@[at], query.coordinates@[at].2, radius)
                &&& lookup(filter@, "candidate.isdiffpos"@) is None
                &&& lookup(filter@, "objectId"@) is None
            }
            &&& at < query.coordinates@.len() ==> {
                let ra = query.coordinates@[at].1;
                let dec = query.coordinates@[at].2;
                let name = query.coordinates@[at].0@;
                let off = ra.less(Double { bits: 0 }) || (Double {
                    bits: 0x4076_8000_0000_0000,
                }).at_most(ra);
                let beyond = dec.less(Double { bits: 0xC056_8000_0000_0000 }) || (Double {
                    bits: 0x4056_8000_0000_0000,
                }).less(dec);
                &&& step is Refuse <==> off || beyond
                &&& step matches ConeStep::Refuse(reply) ==> {
                    &&& off ==> refuses(
                        reply,
                        400,
                        "Invalid RA for object "@ + name + ": must be in [0, 360)"@,
                    )
                    &&& !off ==> refuses(
                        reply,
                        400,
                        "Invalid Dec for object "@ + name + ": must be in [-90, 90]"@,
                    )
                }
            }
            &&& step matches ConeStep::Finish(message) ==> message@ == "found cross-matches for "@
                + decimal(filled_lists(search.results.lists())) + "/"@ + decimal(
                query.coordinates@.len(),
            ) + " coordinates, with a total "@ + decimal(total_items(search.results.lists()))
                + " alerts"@
        }),
{
    let at = search.results.entries@.len() as int;
    assert(search.results.lists().len() == at);
    if at < query.coordinates@.len() {
        let target = search.targets@[at];
        cone_filters_ask_for_what_the_query_says(
            survey,
            query.limits,
            target.center_ra,
            target.dec,
            radius,
        );
        if let ConeStep::Refuse(reply) = step {
            assert(reply@.json);
        }
    }
}

/// What was found at a position is booked under its name, and the search goes on to the next
/// one; nothing that was booked before changes.
pub proof fn what_is_found_is_booked<A>(search: &mut ConeSearch<A>, alerts: Vec<A>)
    requires
        old(search).wf(),
        old(search).results.entries@.len() < old(search).targets@.len(),
        call_ensures(ConeSearch::<A>::record, (search, alerts), ()),
    ensures
        final(search).targets == old(search).targets,
        final(search).base == old(search).base,
        final(search).radius_radians == old(search).radius_radians,
        final(search).collection == old(search).collection,
        ({
            let n = old(search).results.entries@.len() as int;
            let lists = final(search).results.lists();
            &&& lists.len() == n + 1
            &&& lists[n].0 == old(search).targets@[n].name@
            &&& lists[n].1 == alerts@
            &&& lists.take(n) == old(search).results.lists()
            &&& final(search).alert_count == old(search).alert_count + alerts@.len()
            &&& final(search).matched_count == old(search).matched_count + if alerts@.len() > 0 {
                1int
            } else {
                0int
            }
        }),
{
    let before = old(search).results.lists();
    let after = final(search).results.lists();
    assert(before.len() == old(search).results.entries@.len());
    assert(after.drop_last() =~= before);
    assert(after.take(before.len() as int) =~= before);
}

/// Replies that list alerts count them, and failures are told with their fault.
pub proof fn how_searches_are_told(
    survey: Survey,
    count: usize,
    error: &str,
    message: String,
    failed: Reply,
    cone_failed: Reply,
    unread: Reply,
)
    requires
        call_ensures(alerts_message, (count,), message),
        call_ensures(alerts_retrieval_failed, (survey, error), failed),
        call_ensures(cone_retrieval_failed, (survey, error), cone_failed),
        call_ensures(documents_failed, (error,), unread),
    ensures
        message@ == "found "@ + decimal(count as nat) + " alerts matching query"@,
        survey == Survey::Lsst ==> refuses(
            failed,
            500,
            "error retrieving alerts for objects: "@ + error@,
        ),
        survey == Survey::Ztf ==> refuses(
            failed,
            500,
            "error retrieving alerts for survey "@ + "ZTF"@ + ": "@ + error@,
        ),
        survey == Survey::Ztf ==> refuses(
            cone_failed,
            500,
            "error retrieving alerts for survey "@ + "ZTF"@ + ": "@ + error@,
        ),
        survey == Survey::Lsst ==> refuses(
            cone_failed,
            500,
            "error retrieving alerts for survey "@ + "LSST"@ + ": "@ + error@,
        ),
        survey == Survey::Decam ==> refuses(
            failed,
            500,
            "error retrieving alerts for survey "@ + "DECAM"@ + ": "@ + error@,
        ),
        refuses(unread, 500, "error getting documents: "@ + error@),
{
    assert(failed@.json && cone_failed@.json && unread@.json);
}

/// A light curve is prepared in place: it runs forward in time, holds points that were given,
/// and of each time and band the first that was given.
pub proof fn light_curves_are_prepared_in_place(points: &mut Vec<PhotometryMag>)
    requires
        call_ensures(prepare_photometry, (points,), ()),
        old(points)@.len() <= usize::MAX,
        forall|k: int|
            0 <= k < old(points)@.len() ==> !(#[trigger] old(points)@[k]).time.is_nan_spec(),
    ensures
        forall|i: int, j: int|
            0 <= i < j < final(points)@.len() ==> {
                let a = #[trigger] final(points)@[i];
                let b = #[trigger] final(points)@[j];
                a.time.less(b.time) || (a.time.equals(b.time) && a.band != b.band)
            },
        forall|i: int|
            0 <= i < final(points)@.len() ==> old(points)@.contains(#[trigger] final(points)@[i]),
        forall|k: int|
            0 <= k < old(points)@.len() && (forall|m: int|
                0 <= m < k ==> !((#[trigger] old(points)@[m]).time.equals(old(points)@[k].time)
                    && old(points)@[m].band == old(points)@[k].band)) ==> final(points)@.contains(
                #[trigger] old(points)@[k],
            ),
{
    the_first_point_of_each_epoch_is_kept(old(points)@);
}

/// A position is stored as a point, with its longitude first, and read back as it was stored
/// but for the shift of the longitude.
pub proof fn positions_are_stored_as_points<F: Fn(Double) -> Double>(
    longitude: Double,
    dec: Double,
    l: Double,
    b: Double,
    hpx: u64,
    stored: Coordinates,
    shift: F,
    radec: (Double, Double),
    index: Option<i64>,
)
    requires
        hpx <= i64::MAX,
        call_ensures(Coordinates::new, (longitude, dec, l, b, hpx), stored),
        call_ensures(Coordinates::get_radec::<F>, (&stored, &shift), radec),
        call_ensures(Coordinates::hpx, (&stored,), index),
    ensures
        stored.radec_geojson.kind@ == "Point"@,
        stored.radec_geojson.coordinates@ == seq![longitude, dec],
        stored.l == Some(l) && stored.b == Some(b),
        call_ensures(shift, (longitude,), radec.0),
        radec.1 == dec,
        index matches Some(n) && n == hpx,
{
}

proof fn lemma_empty_lists(configs: Seq<CatalogXmatchConfig>, n: nat, name: Seq<char>)
    requires
        n <= configs.len(),
    ensures
        lookup(empty_lists(configs, n), name) matches Some(items) ==> items.len() == 0,
        lookup(empty_lists(configs, n), name) is Some <==> exists|i: int|
            0 <= i < n && (#[trigger] configs[i]).catalog@ == name,
    decreases n,
{
    if n > 0 {
        let before = empty_lists(configs, (n - 1) as nat);
        lemma_empty_lists(configs, (n - 1) as nat, name);
        let key = configs[n - 1].catalog@;
        if key == name {
            what_was_set_is_read_back(before, key, Seq::empty());
        } else {
            setting_a_name_leaves_the_others(before, key, Seq::empty(), name);
        }
    }
}

/// A crossmatch starts with an empty list for every catalog and for nothing else.
pub proof fn crossmatches_start_with_empty_lists(
    configs: &[CatalogXmatchConfig],
    found: Crossmatch,
    name: Seq<char>,
)
    requires
        call_ensures(Crossmatch::new, (configs,), found),
    ensures
        found.batches == 0,
        lookup(found.results.lists(), name) is Some <==> exists|i: int|
            0 <= i < configs@.len() && (#[trigger] configs@[i]).catalog@ == name,
        listed(found.results.lists(), name).len() == 0,
{
    lemma_empty_lists(configs@, configs@.len(), name);
}

/// A reply adds what is kept of its rows to the list of its catalog, after what is there, and
/// leaves every other list. One that cannot be read changes nothing.
pub proof fn replies_add_to_the_list_of_their_catalog(
    found: &mut Crossmatch,
    configs: &[CatalogXmatchConfig],
    reply: Document,
    numbers: Vec<RowNumbers>,
    taken: Result<(), XmatchError>,
    catalog: Seq<char>,
    rows: Seq<Node>,
    at: int,
    other: Seq<char>,
)
    requires
        call_ensures(Crossmatch::take, (found, configs, &reply, &numbers), taken),
        lookup(reply@, "catalog"@) == Some(Node::Text(catalog)),
        lookup(reply@, "matches"@) == Some(Node::Array(rows)),
        0 <= at < configs@.len(),
        configs@[at].catalog@ == catalog,
        forall|k: int| 0 <= k < at ==> (#[trigger] configs@[k]).catalog@ != catalog,
        old(found).batches < usize::MAX,
    ensures
        taken is Ok,
        final(found).batches == old(found).batches + 1,
        listed(final(found).results.lists(), catalog) == listed(
            old(found).results.lists(),
            catalog,
        ) + crate::utils::spatial::kept_rows(
            configs@[at],
            rows,
            numbers@,
            old(found).batches,
        ),
        other != catalog ==> listed(final(found).results.lists(), other) == listed(
            old(found).results.lists(),
            other,
        ),
{
    lemma_first_catalog(configs@, catalog, at);
    let lists = old(found).results.lists();
    let items = listed(lists, catalog) + crate::utils::spatial::kept_rows(
        configs@[at],
        rows,
        numbers@,
        old(found).batches,
    );
    what_was_set_is_read_back(lists, catalog, items);
    if other != catalog {
        setting_a_name_leaves_the_others(lists, catalog, items, other);
    }
}

proof fn lemma_first_catalog(configs: Seq<CatalogXmatchConfig>, name: Seq<char>, at: int)
    requires
        0 <= at < configs.len(),
        configs[at].catalog@ == name,
        forall|k: int| 0 <= k < at ==> (#[trigger] configs[k]).catalog@ != name,
    ensures
        catalog_at(configs, name) == at,
    decreases at,
{
    if at > 0 {
        let rest = configs.drop_first();
        assert(configs[0].catalog@ != name);
        assert forall|k: int| 0 <= k < at - 1 implies (#[trigger] rest[k]).catalog@ != name by {
            assert(rest[k] == configs[k + 1]);
        }
        lemma_first_catalog(rest, name, at - 1);
    }
}

/// A reply that cannot be read is refused and changes nothing.
pub proof fn unreadable_replies_change_nothing(
    found: &mut Crossmatch,
    configs: &[CatalogXmatchConfig],
    reply: Document,
    numbers: Vec<RowNumbers>,
    taken: Result<(), XmatchError>,
)
    requires
        call_ensures(Crossmatch::take, (found, configs, &reply, &numbers), taken),
        !((lookup(reply@, "catalog"@) matches Some(Node::Text(_))) && (lookup(
            reply@,
            "matches"@,
        ) matches Some(Node::Array(_)))),
    ensures
        taken is Err,
        *final(found) == *old(found),
        lookup(reply@, "catalog"@) is None ==> taken == Err::<(), XmatchError>(
            XmatchError::BsonValueAccess(ValueAccess::NotPresent),
        ),
        (lookup(reply@, "catalog"@) matches Some(value) && !(value is Text)) ==> taken == Err::<
            (),
            XmatchError,
        >(XmatchError::BsonValueAccess(ValueAccess::UnexpectedType)),
        (lookup(reply@, "catalog"@) matches Some(Node::Text(_))) && lookup(
            reply@,
            "matches"@,
        ) is None ==> taken == Err::<(), XmatchError>(
            XmatchError::BsonValueAccess(ValueAccess::NotPresent),
        ),
        (lookup(reply@, "catalog"@) matches Some(Node::Text(_))) && (lookup(
            reply@,
            "matches"@,
        ) matches Some(value) && !(value is Array)) ==> taken == Err::<(), XmatchError>(
            XmatchError::BsonValueAccess(ValueAccess::UnexpectedType),
        ),
{
}

/// The field in which a watchlist records its matches names the survey.
pub proof fn watchlists_have_a_field_for_each_survey(survey: Survey, field: String)
    requires
        call_ensures(watchlist_match_field, (&survey,), field),
    ensures
        field@ == "matching_"@ + (match survey {
            Survey::Ztf => "ztf"@,
            Survey::Lsst => "lsst"@,
            Survey::Decam => "decam"@,
        }) + "_objects"@,
{
}

/// A refused query for alerts is told the first of what is wrong with it: that the caller is
/// not logged in, its limit, what it does not name or names too widely, what it names twice,
/// its radius, or its survey.
pub proof fn refused_queries_are_told_why(
    survey: Survey,
    authenticated: bool,
    query: AlertsQuery,
    numbers: QueryNumbers,
    reply: Reply,
)
    requires
        call_ensures(
            get_alerts,
            (survey, authenticated, &query, numbers),
            Err::<FindPlan, Reply>(reply),
        ),
    ensures
        ({
            let cone = query.ra is Some && query.dec is Some && query.radius_arcsec is Some;
            let timed = query.limits.start_jd is Some && query.limits.end_jd is Some;
            let one_day = Double { bits: 0x3FF0_0000_0000_0000 };
            let ten_minutes = Double { bits: 0x4082_C000_0000_0000 };
            let limited = query.limit is None || 1 <= query.limit->0 <= 100_000;
            let named = query.object_id is Some || cone;
            let span = named || !one_day.less(numbers.span_jd);
            let sized = cone && query.object_id is None ==> !(query.radius_arcsec->0).at_most(
                Double { bits: 0 },
            ) && !ten_minutes.less(query.radius_arcsec->0);
            &&& !authenticated ==> asks_to_log_in(reply)
            &&& authenticated && !limited ==> refuses(
                reply,
                400,
                "Invalid limit, must be between 1 and 100000"@,
            )
            &&& authenticated && limited && !named && !timed ==> refuses(
                reply,
                400,
                "Must provide either object_id or (ra, dec, radius_arcsec) or (start_jd, end_jd)"@,
            )
            &&& authenticated && limited && !named && timed && !span ==> refuses(
                reply,
                400,
                "Time range too large, maximum allowed is 1 Julian Date"@,
            )
            &&& authenticated && limited && query.object_id is Some && cone ==> refuses(
                reply,
                400,
                "Cannot provide both object_id and position filters"@,
            )
            &&& authenticated && limited && query.object_id is None && cone && !sized ==> refuses(
                reply,
                400,
                "Invalid radius, must be greater than 0 and less than or equal to 600 arcseconds (10 arcminutes)"@,
            )
            &&& authenticated && limited && (named || timed) && span && sized && !(
            query.object_id is Some && cone) ==> survey == Survey::Decam && refuses(
                reply,
                400,
                "Invalid survey specified, only ZTF and LSST are supported"@,
            )
        }),
{
    assert(reply@.json == authenticated);
}

/// A refused cone search is told the first of what is wrong with it: that the caller is not
/// logged in, the number of its positions, its radius, or its survey.
pub proof fn refused_cone_searches_are_told_why<A>(
    survey: Survey,
    authenticated: bool,
    query: AlertsConeSearchQuery,
    radius: Double,
    centers: Vec<Double>,
    reply: Reply,
)
    requires
        call_ensures(
            cone_search_alerts::<A>,
            (survey, authenticated, &query, radius, &centers),
            Err::<ConeSearch<A>, Reply>(reply),
        ),
    ensures
        ({
            let counted = 1 <= query.coordinates@.len() <= 1000;
            let sized = !query.radius_arcsec.at_most(Double { bits: 0 }) && !(Double {
                bits: 0x4082_C000_0000_0000,
            }).less(query.radius_arcsec);
            &&& !authenticated ==> asks_to_log_in(reply)
            &&& authenticated && !counted ==> refuses(
                reply,
                400,
                "Invalid number of coordinate pairs, must be between 1 and 1000"@,
            )
            &&& authenticated && counted && !sized ==> refuses(
                reply,
                400,
                "Invalid radius, must be greater than 0 and less than or equal to 600 arcseconds (10 arcminutes)"@,
            )
            &&& authenticated && counted && sized ==> survey == Survey::Decam && refuses(
                reply,
                400,
                "Invalid survey specified, only ZTF and LSST are supported"@,
            )
        }),
{
    assert(reply@.json == authenticated);
}

}
