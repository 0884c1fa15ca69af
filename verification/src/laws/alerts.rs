//! What queries for alerts ask the database for, and which of them are run.
use vstd::prelude::*;

use crate::api::alerts::{
    alerts_filter, alerts_refusal, cone_base, cone_filter, cone_node, cone_search_refusal,
    filled_lists, flag_node, get_alerts, narrowed, position_refusal, public_alerts, put_if, range_node,
    score_field, total_items, AlertLimits, AlertsConeSearchQuery, AlertsQuery, ConeTarget, FindPlan,
    QueryNumbers, FULL_CIRCLE, MAX_RADIUS_ARCSEC, MAX_SPAN_JD, NORTH_POLE, SOUTH_POLE,
};
use crate::api::response::Reply;
use crate::binary::Double;
use crate::document::{no_fields, only, Node};
use crate::named::{
    lemma_slot_bounds, lookup, put, setting_a_name_leaves_the_others, what_was_set_is_read_back,
};
use crate::utils::enums::Survey;

verus! {

/// A number of a query as it is asked for.
pub open spec fn asked(x: Option<Double>) -> Option<Node> {
    match x {
        Some(x) => Some(Node::Double(x)),
        None => None,
    }
}

/// A flag of a query as it is asked for.
pub open spec fn asked_flag(b: Option<bool>) -> Option<Node> {
    match b {
        Some(b) => Some(Node::Boolean(b)),
        None => None,
    }
}

/// Whether a filter asks that a field lies between two bounds, each of which may be missing,
/// and for nothing else of that field.
pub open spec fn asks_between(
    filter: Seq<(Seq<char>, Node)>,
    field: Seq<char>,
    low: Option<Double>,
    high: Option<Double>,
) -> bool {
    match lookup(filter, field) {
        None => low is None && high is None,
        Some(Node::Document(range)) => {
            &&& low is Some || high is Some
            &&& lookup(range, "$gte"@) == asked(low)
            &&& lookup(range, "$lte"@) == asked(high)
            &&& forall|name: Seq<char>|
                name != "$gte"@ && name != "$lte"@ ==> #[trigger] lookup(range, name) is None
        },
        Some(_) => false,
    }
}

/// Whether a filter asks for the positions within an angle of a point, and for nothing else
/// of a position.
pub open spec fn asks_round(
    filter: Seq<(Seq<char>, Node)>,
    longitude: Double,
    latitude: Double,
    angle: Double,
) -> bool {
    lookup(filter, "coordinates.radec_geojson"@) matches Some(Node::Document(within))
        && within.len() == 1 && within[0].0 == "$geoWithin"@
        && (within[0].1 matches Node::Document(sphere) && sphere.len() == 1 && sphere[0].0
        == "$centerSphere"@ && (sphere[0].1 matches Node::Array(cap) && cap.len() == 2 && cap[1]
        == Node::Double(angle) && (cap[0] matches Node::Array(center) && center.len() == 2
        && center[0] == Node::Double(longitude) && center[1] == Node::Double(latitude))))
}

/// Whether a filter asks for what the ranges and flags of a query say.
pub open spec fn asks_for_limits(
    filter: Seq<(Seq<char>, Node)>,
    survey: Survey,
    limits: AlertLimits,
) -> bool {
    &&& asks_between(filter, "candidate.jd"@, limits.start_jd, limits.end_jd)
    &&& asks_between(filter, "candidate.magpsf"@, limits.min_magpsf, limits.max_magpsf)
    &&& survey == Survey::Ztf ==> {
        &&& asks_between(filter, "candidate.drb"@, limits.min_drb, limits.max_drb)
        &&& lookup(filter, "candidate.reliability"@) is None
        &&& lookup(filter, "candidate.programid"@) == Some(Node::Int32(1))
    }
    &&& survey == Survey::Lsst ==> {
        &&& asks_between(filter, "candidate.reliability"@, limits.min_drb, limits.max_drb)
        &&& lookup(filter, "candidate.drb"@) is None
        &&& lookup(filter, "candidate.programid"@) is None
    }
    &&& lookup(filter, "properties.rock"@) == asked_flag(limits.is_rock)
    &&& lookup(filter, "properties.star"@) == asked_flag(limits.is_star)
    &&& lookup(filter, "properties.near_brightstar"@) == asked_flag(limits.is_near_brightstar)
    &&& lookup(filter, "properties.stationary"@) == asked_flag(limits.is_stationary)
    &&& forall|name: Seq<char>|
        {
            &&& name != "candidate.jd"@
            &&& name != "candidate.magpsf"@
            &&& name != "candidate.drb"@
            &&& name != "candidate.reliability"@
            &&& name != "candidate.programid"@
            &&& name != "candidate.isdiffpos"@
            &&& name != "properties.rock"@
            &&& name != "properties.star"@
            &&& name != "properties.near_brightstar"@
            &&& name != "properties.stationary"@
            &&& name != "objectId"@
            &&& name != "coordinates.radec_geojson"@
        } ==> #[trigger] lookup(filter, name) is None
}

proof fn lemma_names()
    ensures
        "candidate.programid"@ != "candidate.isdiffpos"@,
        "properties.rock"@ != "properties.star"@,
        "candidate.reliability"@ != "properties.stationary"@,
        "candidate.programid"@.len() == 19,
        "candidate.isdiffpos"@.len() == 19,
        "objectId"@.len() == 8,
        "coordinates.radec_geojson"@.len() == 25,
        "candidate.jd"@.len() == 12,
        "candidate.magpsf"@.len() == 16,
        "candidate.drb"@.len() == 13,
        "candidate.reliability"@.len() == 21,
        "properties.rock"@.len() == 15,
        "properties.star"@.len() == 15,
        "properties.near_brightstar"@.len() == 26,
        "properties.stationary"@.len() == 21,
        "$gte"@ != "$lte"@,
{
    reveal_strlit("candidate.programid");
    reveal_strlit("candidate.isdiffpos");
    reveal_strlit("objectId");
    reveal_strlit("coordinates.radec_geojson");
    reveal_strlit("candidate.jd");
    reveal_strlit("candidate.magpsf");
    reveal_strlit("candidate.drb");
    reveal_strlit("candidate.reliability");
    reveal_strlit("properties.rock");
    reveal_strlit("properties.star");
    reveal_strlit("properties.near_brightstar");
    reveal_strlit("properties.stationary");
    reveal_strlit("$gte");
    reveal_strlit("$lte");
    assert("candidate.programid"@[10] == 'p' && "candidate.isdiffpos"@[10] == 'i');
    assert("properties.rock"@[11] == 'r' && "properties.star"@[11] == 's');
    assert("candidate.reliability"@[0] == 'c' && "properties.stationary"@[0] == 'p');
    assert("$gte"@[1] == 'g' && "$lte"@[1] == 'l');
}

proof fn lemma_put_if_at(
    fields: Seq<(Seq<char>, Node)>,
    key: Seq<char>,
    value: Option<Node>,
    name: Seq<char>,
)
    ensures
        lookup(put_if(fields, key, value), name) == if name == key && value is Some {
            value
        } else {
            lookup(fields, name)
        },
{
    if let Some(set) = value {
        if name == key {
            what_was_set_is_read_back(fields, key, set);
        } else {
            setting_a_name_leaves_the_others(fields, key, set, name);
        }
    }
}

proof fn lemma_put_if(fields: Seq<(Seq<char>, Node)>, key: Seq<char>, value: Option<Node>)
    ensures
        forall|name: Seq<char>| #[trigger]
            lookup(put_if(fields, key, value), name) == if name == key && value is Some {
                value
            } else {
                lookup(fields, name)
            },
{
    assert forall|name: Seq<char>| #[trigger]
        lookup(put_if(fields, key, value), name) == if name == key && value is Some {
            value
        } else {
            lookup(fields, name)
        } by {
        lemma_put_if_at(fields, key, value, name);
    }
}

/// What a field holds after one more was set, where there was a value for it.
spec fn set_if(name: Seq<char>, key: Seq<char>, value: Option<Node>, before: Option<Node>) -> Option<
    Node,
> {
    if name == key && value is Some {
        value
    } else {
        before
    }
}

proof fn lemma_narrowed_at(
    survey: Survey,
    fields: Seq<(Seq<char>, Node)>,
    limits: AlertLimits,
    is_positive: Option<bool>,
    name: Seq<char>,
)
    ensures
        lookup(narrowed(survey, fields, limits, is_positive), name) == ({
            let v = lookup(fields, name);
            let v = set_if(name, "candidate.jd"@, range_node(limits.start_jd, limits.end_jd), v);
            let v = set_if(
                name,
                "candidate.magpsf"@,
                range_node(limits.min_magpsf, limits.max_magpsf),
                v,
            );
            let v = set_if(
                name,
                score_field(survey),
                range_node(limits.min_drb, limits.max_drb),
                v,
            );
            let v = set_if(name, "candidate.isdiffpos"@, asked_flag(is_positive), v);
            let v = set_if(name, "properties.rock"@, asked_flag(limits.is_rock), v);
            let v = set_if(name, "properties.star"@, asked_flag(limits.is_star), v);
            let v = set_if(
                name,
                "properties.near_brightstar"@,
                asked_flag(limits.is_near_brightstar),
                v,
            );
            set_if(name, "properties.stationary"@, asked_flag(limits.is_stationary), v)
        }),
{
    let times = range_node(limits.start_jd, limits.end_jd);
    let mags = range_node(limits.min_magpsf, limits.max_magpsf);
    let scores = range_node(limits.min_drb, limits.max_drb);
    let timed = put_if(fields, "candidate.jd"@, times);
    lemma_put_if_at(fields, "candidate.jd"@, times, name);
    let bright = put_if(timed, "candidate.magpsf"@, mags);
    lemma_put_if_at(timed, "candidate.magpsf"@, mags, name);
    let scored = put_if(bright, score_field(survey), scores);
    lemma_put_if_at(bright, score_field(survey), scores, name);
    let signed = put_if(scored, "candidate.isdiffpos"@, flag_node(is_positive));
    lemma_put_if_at(scored, "candidate.isdiffpos"@, flag_node(is_positive), name);
    let rocks = put_if(signed, "properties.rock"@, flag_node(limits.is_rock));
    lemma_put_if_at(signed, "properties.rock"@, flag_node(limits.is_rock), name);
    let stars = put_if(rocks, "properties.star"@, flag_node(limits.is_star));
    lemma_put_if_at(rocks, "properties.star"@, flag_node(limits.is_star), name);
    let near = put_if(stars, "properties.near_brightstar"@, flag_node(limits.is_near_brightstar));
    lemma_put_if_at(
        stars,
        "properties.near_brightstar"@,
        flag_node(limits.is_near_brightstar),
        name,
    );
    lemma_put_if_at(near, "properties.stationary"@, flag_node(limits.is_stationary), name);
}

proof fn lemma_narrowing(
    survey: Survey,
    fields: Seq<(Seq<char>, Node)>,
    limits: AlertLimits,
    is_positive: Option<bool>,
)
    requires
        survey != Survey::Decam,
        forall|name: Seq<char>|
            name != "candidate.programid"@ && name != "objectId"@ && name
                != "coordinates.radec_geojson"@ ==> #[trigger] lookup(fields, name) is None,
        survey == Survey::Ztf ==> lookup(fields, "candidate.programid"@) == Some(Node::Int32(1)),
        survey == Survey::Lsst ==> lookup(fields, "candidate.programid"@) is None,
    ensures
        ({
            let filter = narrowed(survey, fields, limits, is_positive);
            &&& asks_for_limits(filter, survey, limits)
            &&& lookup(filter, "candidate.isdiffpos"@) == asked_flag(is_positive)
            &&& lookup(filter, "objectId"@) == lookup(fields, "objectId"@)
            &&& lookup(filter, "coordinates.radec_geojson"@) == lookup(
                fields,
                "coordinates.radec_geojson"@,
            )
        }),
{
    lemma_names();
    let filter = narrowed(survey, fields, limits, is_positive);
    lemma_range(limits.start_jd, limits.end_jd);
    lemma_range(limits.min_magpsf, limits.max_magpsf);
    lemma_range(limits.min_drb, limits.max_drb);
    lemma_narrowed_at(survey, fields, limits, is_positive, "candidate.jd"@);
    lemma_narrowed_at(survey, fields, limits, is_positive, "candidate.magpsf"@);
    lemma_narrowed_at(survey, fields, limits, is_positive, "candidate.drb"@);
    lemma_narrowed_at(survey, fields, limits, is_positive, "candidate.reliability"@);
    lemma_narrowed_at(survey, fields, limits, is_positive, "candidate.programid"@);
    lemma_narrowed_at(survey, fields, limits, is_positive, "candidate.isdiffpos"@);
    lemma_narrowed_at(survey, fields, limits, is_positive, "properties.rock"@);
    lemma_narrowed_at(survey, fields, limits, is_positive, "properties.star"@);
    lemma_narrowed_at(survey, fields, limits, is_positive, "properties.near_brightstar"@);
    lemma_narrowed_at(survey, fields, limits, is_positive, "properties.stationary"@);
    lemma_narrowed_at(survey, fields, limits, is_positive, "objectId"@);
    lemma_narrowed_at(survey, fields, limits, is_positive, "coordinates.radec_geojson"@);
    assert forall|name: Seq<char>|
        {
            &&& name != "candidate.jd"@
            &&& name != "candidate.magpsf"@
            &&& name != "candidate.drb"@
            &&& name != "candidate.reliability"@
            &&& name != "candidate.programid"@
            &&& name != "candidate.isdiffpos"@
            &&& name != "properties.rock"@
            &&& name != "properties.star"@
            &&& name != "properties.near_brightstar"@
            &&& name != "properties.stationary"@
            &&& name != "objectId"@
            &&& name != "coordinates.radec_geojson"@
        } implies #[trigger] lookup(filter, name) is None by {
        lemma_narrowed_at(survey, fields, limits, is_positive, name);
    }
}

proof fn lemma_range(low: Option<Double>, high: Option<Double>)
    ensures
        low is None && high is None ==> range_node(low, high) is None,
        low is Some || high is Some ==> (range_node(low, high) matches Some(Node::Document(range))
            && lookup(range, "$gte"@) == asked(low) && lookup(range, "$lte"@) == asked(high)
            && forall|name: Seq<char>|
            name != "$gte"@ && name != "$lte"@ ==> #[trigger] lookup(range, name) is None),
{
    lemma_names();
    let first = put_if(no_fields(), "$gte"@, asked(low));
    lemma_put_if(no_fields(), "$gte"@, asked(low));
    lemma_put_if(first, "$lte"@, asked(high));
}

/// A document that is made with one field holds that field and no other.
pub proof fn lemma_only(key: Seq<char>, value: Node)
    ensures
        only(key, value) == seq![(key, value)],
        forall|name: Seq<char>| #[trigger]
            lookup(only(key, value), name) == if name == key {
                Some(value)
            } else {
                None
            },
{
    assert(only(key, value) =~= seq![(key, value)]);
    lemma_put_if(no_fields(), key, Some(value));
}

/// The filter of a query for alerts asks for each bound and flag of the query under its own
/// field, for the object or the cone that the query names, and for nothing else.
pub proof fn alert_filters_ask_for_what_the_query_says(
    survey: Survey,
    query: AlertsQuery,
    numbers: QueryNumbers,
)
    requires
        survey != Survey::Decam,
    ensures
        ({
            let filter = alerts_filter(survey, query, numbers);
            &&& asks_for_limits(filter, survey, query.limits)
            &&& lookup(filter, "candidate.isdiffpos"@) == asked_flag(query.is_positive)
            &&& match query.object_id {
                Some(id) => {
                    &&& lookup(filter, "objectId"@) == Some(Node::Text(id@))
                    &&& lookup(filter, "coordinates.radec_geojson"@) is None
                },
                None => {
                    &&& lookup(filter, "objectId"@) is None
                    &&& if query.ra is Some && query.dec is Some && query.radius_arcsec is Some {
                        asks_round(
                            filter,
                            numbers.center_ra,
                            query.dec->0,
                            numbers.radius_radians,
                        )
                    } else {
                        lookup(filter, "coordinates.radec_geojson"@) is None
                    }
                },
            }
        }),
{
    lemma_names();
    let base = public_alerts(survey);
    lemma_only("candidate.programid"@, Node::Int32(1));
    let placed = match query.object_id {
        Some(id) => {
            lemma_put_if(base, "objectId"@, Some(Node::Text(id@)));
            put(base, "objectId"@, Node::Text(id@))
        },
        None => if query.has_position() {
            let cone = cone_node(numbers.center_ra, query.dec->0, numbers.radius_radians);
            lemma_put_if(base, "coordinates.radec_geojson"@, Some(cone));
            lemma_cone(numbers.center_ra, query.dec->0, numbers.radius_radians);
            put(base, "coordinates.radec_geojson"@, cone)
        } else {
            base
        },
    };
    assert(put_if(base, "objectId"@, Some(Node::Text(query.object_id->0@))) == put(
        base,
        "objectId"@,
        Node::Text(query.object_id->0@),
    ));
    lemma_narrowing(survey, placed, query.limits, query.is_positive);
}

proof fn lemma_cone(longitude: Double, latitude: Double, angle: Double)
    ensures
        cone_node(longitude, latitude, angle) matches Node::Document(within) && within.len() == 1
            && within[0].0 == "$geoWithin"@ && (within[0].1 matches Node::Document(sphere)
            && sphere.len() == 1 && sphere[0].0 == "$centerSphere"@ && (
        sphere[0].1 matches Node::Array(cap) && cap.len() == 2 && cap[1] == Node::Double(angle) && (
        cap[0] matches Node::Array(center) && center.len() == 2 && center[0] == Node::Double(
            longitude,
        ) && center[1] == Node::Double(latitude)))),
{
    let center = Node::Array(seq![Node::Double(longitude), Node::Double(latitude)]);
    let cap = Node::Array(seq![center, Node::Double(angle)]);
    let sphere = only("$centerSphere"@, cap);
    lemma_only("$centerSphere"@, cap);
    lemma_only("$geoWithin"@, Node::Document(sphere));
}

/// The filter of a cone search asks at each position for the cone round it, for each bound
/// and flag of the query under its own field, and for nothing else. The cone comes first.
pub proof fn cone_filters_ask_for_what_the_query_says(
    survey: Survey,
    limits: AlertLimits,
    longitude: Double,
    latitude: Double,
    angle: Double,
)
    requires
        survey != Survey::Decam,
    ensures
        ({
            let filter = cone_filter(longitude, latitude, angle, cone_base(survey, limits));
            &&& asks_for_limits(filter, survey, limits)
            &&& asks_round(filter, longitude, latitude, angle)
            &&& filter[0].0 == "coordinates.radec_geojson"@
            &&& lookup(filter, "candidate.isdiffpos"@) is None
            &&& lookup(filter, "objectId"@) is None
        }),
{
    lemma_names();
    let base = cone_base(survey, limits);
    lemma_only("candidate.programid"@, Node::Int32(1));
    lemma_narrowing(survey, public_alerts(survey), limits, None);
    lemma_cone(longitude, latitude, angle);
    let filter = cone_filter(longitude, latitude, angle, base);
    assert forall|name: Seq<char>| #[trigger]
        lookup(filter, name) == if name == "coordinates.radec_geojson"@ {
            Some(cone_node(longitude, latitude, angle))
        } else {
            lookup(base, name)
        } by {
        assert(filter.drop_first() =~= base);
        lemma_slot_bounds(base, name);
    }
}

/// A query for alerts is run exactly when its caller is logged in, its limit lies between 1
/// and 100000, it names one of an object and a cone of at most 600 arcseconds, or a time
/// range of at most a day, and its survey is ZTF or LSST. A refused one is answered 401 or
/// 400.
pub proof fn which_alert_queries_are_run(
    survey: Survey,
    authenticated: bool,
    query: AlertsQuery,
    numbers: QueryNumbers,
)
    ensures
        ({
            let cone = query.ra is Some && query.dec is Some && query.radius_arcsec is Some;
            let refusal = alerts_refusal(survey, authenticated, query, numbers);
            &&& refusal is None <==> {
                &&& authenticated
                &&& query.limit is None || 1 <= query.limit->0 <= 100000
                &&& survey == Survey::Ztf || survey == Survey::Lsst
                &&& !(query.object_id is Some && cone)
                &&& query.object_id is Some || cone || (query.limits.start_jd is Some
                    && query.limits.end_jd is Some && !(Double { bits: MAX_SPAN_JD }).less(
                    numbers.span_jd,
                ))
                &&& cone ==> !query.radius_arcsec->0.at_most(Double { bits: 0 }) && !(Double {
                    bits: MAX_RADIUS_ARCSEC,
                }).less(query.radius_arcsec->0)
            }
            &&& refusal matches Some(answer) ==> answer.data is None && answer.status == (
            if authenticated {
                400u16
            } else {
                401u16
            })
        }),
{
}

/// The plan of a query reads the alerts of its survey in the order of their identifiers,
/// skips as many as it says, and gives at most as many as it wants, 100000 when it does not
/// say.
pub proof fn plans_page_as_the_query_says(
    plan: FindPlan,
    survey: Survey,
    authenticated: bool,
    query: AlertsQuery,
    numbers: QueryNumbers,
)
    requires
        call_ensures(
            get_alerts,
            (survey, authenticated, &query, numbers),
            Ok::<FindPlan, Reply>(plan),
        ),
    ensures
        survey == Survey::Ztf ==> plan.collection@ == "ZTF_alerts"@,
        survey == Survey::Lsst ==> plan.collection@ == "LSST_alerts"@,
        plan.sort@ == seq![("_id"@, Node::Int32(1))],
        query.skip is Some ==> plan.skip == query.skip->0,
        query.skip is None ==> plan.skip == 0,
        query.limit is Some ==> plan.limit == query.limit->0,
        query.limit is None ==> plan.limit == 100000,
{
    reveal_strlit("ZTF");
    reveal_strlit("LSST");
    reveal_strlit("_alerts");
    reveal_strlit("ZTF_alerts");
    reveal_strlit("LSST_alerts");
    assert("ZTF"@ + "_alerts"@ =~= "ZTF_alerts"@);
    assert("LSST"@ + "_alerts"@ =~= "LSST_alerts"@);
    lemma_only("_id"@, Node::Int32(1));
}

/// A cone search is run exactly when its caller is logged in, it names 1 to 1000 positions, a
/// radius of at most 600 arcseconds, and ZTF or LSST.
pub proof fn which_cone_searches_are_run(
    survey: Survey,
    authenticated: bool,
    query: AlertsConeSearchQuery,
)
    ensures
        ({
            let refusal = cone_search_refusal(survey, authenticated, query);
            &&& refusal is None <==> {
                &&& authenticated
                &&& 1 <= query.coordinates@.len() <= 1000
                &&& !query.radius_arcsec.at_most(Double { bits: 0 })
                &&& !(Double { bits: MAX_RADIUS_ARCSEC }).less(query.radius_arcsec)
                &&& survey == Survey::Ztf || survey == Survey::Lsst
            }
            &&& refusal matches Some(answer) ==> answer.data is None && answer.status == (
            if authenticated {
                400u16
            } else {
                401u16
            })
        }),
{
}

/// A position is refused exactly when its right ascension is below 0 or not below 360, or its
/// declination lies beyond a pole.
pub proof fn which_positions_are_refused(target: ConeTarget)
    ensures
        position_refusal(target) is Some <==> {
            ||| target.ra.less(Double { bits: 0 })
            ||| (Double { bits: FULL_CIRCLE }).at_most(target.ra)
            ||| target.dec.less(Double { bits: SOUTH_POLE })
            ||| (Double { bits: NORTH_POLE }).less(target.dec)
        },
        position_refusal(target) matches Some(answer) ==> answer.status == 400,
{
}

/// The alerts that a cone search counts are those of all positions together, and the
/// positions with a match are those that found any.
pub proof fn cone_searches_count_each_position_once<A>(
    lists: Seq<(Seq<char>, Seq<A>)>,
    name: Seq<char>,
    found: Seq<A>,
)
    ensures
        total_items(lists.push((name, found))) == total_items(lists) + found.len(),
        filled_lists(lists.push((name, found))) == filled_lists(lists) + if found.len() > 0 {
            1int
        } else {
            0int
        },
        total_items(Seq::<(Seq<char>, Seq<A>)>::empty()) == 0,
        filled_lists(Seq::<(Seq<char>, Seq<A>)>::empty()) == 0,
{
    assert(lists.push((name, found)).drop_last() =~= lists);
}

}
