//! Searching the alerts of a survey.
use vstd::prelude::*;

use crate::api::response::{
    bad_request, error_answer, internal_error, unauthorized, unauthorized_answer, Answer, Reply,
};
use crate::binary::Double;
use crate::document::{no_fields, only, Bson, Document, Node};
use crate::named::{
    distinct_names, lemma_slot_bounds, lookup, put, setting_a_name_leaves_the_others, slot,
    what_was_set_is_read_back, Named,
};
use crate::text::{decimal, join3, write_u64};
use crate::utils::enums::Survey;

verus! {

/// A ZTF alert with what enrichment added to it.
#[derive(Debug)]
pub struct EnrichedZtfAlert<C, P, K> {
    pub candid: i64,
    pub object_id: String,
    pub candidate: C,
    pub properties: Option<P>,
    pub classifications: Option<K>,
}

/// An LSST alert with what enrichment added to it.
#[derive(Debug)]
pub struct EnrichedLsstAlert<C, P> {
    pub candid: i64,
    pub object_id: String,
    pub candidate: C,
    pub properties: Option<P>,
}

/// The ranges and flags that a search is narrowed by.
#[derive(Debug)]
pub struct AlertLimits {
    pub start_jd: Option<Double>,
    pub end_jd: Option<Double>,
    pub min_magpsf: Option<Double>,
    pub max_magpsf: Option<Double>,
    pub min_drb: Option<Double>,
    pub max_drb: Option<Double>,
    pub is_rock: Option<bool>,
    pub is_star: Option<bool>,
    pub is_near_brightstar: Option<bool>,
    pub is_stationary: Option<bool>,
}

#[derive(Debug)]
pub struct AlertsQuery {
    pub object_id: Option<String>,
    pub ra: Option<Double>,
    pub dec: Option<Double>,
    pub radius_arcsec: Option<Double>,
    pub limits: AlertLimits,
    pub is_positive: Option<bool>,
    pub limit: Option<u32>,
    pub skip: Option<u64>,
}

/// What is computed from the numbers of a query.
#[derive(Clone, Copy, Debug)]
pub struct QueryNumbers {
    /// `end_jd - start_jd`, where both are given.
    pub span_jd: Double,
    /// `ra - 180`, where a right ascension is given.
    pub center_ra: Double,
    /// The radius in radians, where one is given.
    pub radius_radians: Double,
}

/// A search of one collection.
#[derive(Debug)]
pub struct FindPlan {
    pub collection: String,
    pub filter: Document,
    pub sort: Document,
    pub skip: u64,
    pub limit: i64,
}

/// The most alerts that one reply holds.
pub const MAX_LIMIT: u32 = 100000;

/// The pattern of 1, the longest time range in days.
pub const MAX_SPAN_JD: u64 = 0x3FF0_0000_0000_0000;

/// The pattern of 600, the largest radius in arcseconds.
pub const MAX_RADIUS_ARCSEC: u64 = 0x4082_C000_0000_0000;

/// The pattern of 360.
pub const FULL_CIRCLE: u64 = 0x4076_8000_0000_0000;

/// The pattern of 90.
pub const NORTH_POLE: u64 = 0x4056_8000_0000_0000;

/// The pattern of -90.
pub const SOUTH_POLE: u64 = 0xC056_8000_0000_0000;

/// The most positions that one cone search takes.
pub const MAX_COORDINATES: usize = 1000;

/// Whether a radius is refused. A radius that is not a number is not.
pub open spec fn bad_radius(radius_arcsec: Double) -> bool {
    radius_arcsec.at_most(Double { bits: 0 }) || (Double { bits: MAX_RADIUS_ARCSEC }).less(
        radius_arcsec,
    )
}

fn radius_refused(radius_arcsec: Double) -> (refused: bool)
    ensures
        refused == bad_radius(radius_arcsec),
{
    radius_arcsec.le(Double { bits: 0 }) || (Double { bits: MAX_RADIUS_ARCSEC }).lt(radius_arcsec)
}

impl AlertsQuery {
    /// Whether the query names a cone on the sky.
    pub open spec fn has_position(self) -> bool {
        self.ra is Some && self.dec is Some && self.radius_arcsec is Some
    }
}

/// The set of fields with one more, where there is a value for it.
pub open spec fn put_if(
    fields: Seq<(Seq<char>, Node)>,
    key: Seq<char>,
    value: Option<Node>,
) -> Seq<(Seq<char>, Node)> {
    match value {
        Some(value) => put(fields, key, value),
        None => fields,
    }
}

fn insert_if(fields: &mut Document, key: &str, value: Option<Bson>)
    ensures
        final(fields)@ == put_if(
            old(fields)@,
            key@,
            match value {
                Some(value) => Some(value@),
                None => None,
            },
        ),
{
    match value {
        Some(value) => {
            fields.insert(key, value);
        },
        None => {},
    }
}

pub open spec fn double_node(x: Option<Double>) -> Option<Node> {
    match x {
        Some(x) => Some(Node::Double(x)),
        None => None,
    }
}

pub open spec fn flag_node(b: Option<bool>) -> Option<Node> {
    match b {
        Some(b) => Some(Node::Boolean(b)),
        None => None,
    }
}

fn double_value(x: Option<Double>) -> (value: Option<Bson>)
    ensures
        match value {
            Some(value) => double_node(x) == Some(value@),
            None => double_node(x) is None,
        },
{
    match x {
        Some(x) => Some(Bson::Double(x)),
        None => None,
    }
}

fn flag_value(b: Option<bool>) -> (value: Option<Bson>)
    ensures
        match value {
            Some(value) => flag_node(b) == Some(value@),
            None => flag_node(b) is None,
        },
{
    match b {
        Some(b) => Some(Bson::Boolean(b)),
        None => None,
    }
}

/// The condition that a field lies between two bounds, each of which may be
/// missing; no condition when both are.
pub open spec fn range_node(low: Option<Double>, high: Option<Double>) -> Option<Node> {
    if low is None && high is None {
        None
    } else {
        Some(
            Node::Document(
                put_if(
                    put_if(no_fields(), "$gte"@, double_node(low)),
                    "$lte"@,
                    double_node(high),
                ),
            ),
        )
    }
}

fn range_value(low: Option<Double>, high: Option<Double>) -> (value: Option<Bson>)
    ensures
        match value {
            Some(value) => range_node(low, high) == Some(value@),
            None => range_node(low, high) is None,
        },
{
    if low.is_none() && high.is_none() {
        return None;
    }
    let mut range = Document::new();
    insert_if(&mut range, "$gte", double_value(low));
    insert_if(&mut range, "$lte", double_value(high));
    Some(Bson::Document(range))
}

/// The condition that a position lies in a cone.
pub open spec fn cone_node(center_ra: Double, dec: Double, radius_radians: Double) -> Node {
    Node::Document(
        only(
            "$geoWithin"@,
            Node::Document(
                only(
                    "$centerSphere"@,
                    Node::Array(
                        seq![
                            Node::Array(seq![Node::Double(center_ra), Node::Double(dec)]),
                            Node::Double(radius_radians),
                        ],
                    ),
                ),
            ),
        ),
    )
}

pub fn cone_value(center_ra: Double, dec: Double, radius_radians: Double) -> (cone: Bson)
    ensures
        cone@ == cone_node(center_ra, dec, radius_radians),
{
    let sphere = Bson::pair(
        Bson::pair(Bson::Double(center_ra), Bson::Double(dec)),
        Bson::Double(radius_radians),
    );
    Bson::Document(
        Document::new().with(
            "$geoWithin",
            Bson::Document(Document::new().with("$centerSphere", sphere)),
        ),
    )
}

/// What every search of a survey asks for: only the public alerts of ZTF.
pub open spec fn public_alerts(survey: Survey) -> Seq<(Seq<char>, Node)> {
    if survey == Survey::Ztf {
        only("candidate.programid"@, Node::Int32(1))
    } else {
        no_fields()
    }
}

fn public_filter(survey: Survey) -> (filter: Document)
    ensures
        filter@ == public_alerts(survey),
{
    if survey == Survey::Ztf {
        Document::new().with("candidate.programid", Bson::Int32(1))
    } else {
        Document::new()
    }
}

/// The field that holds a survey's real-bogus score.
pub open spec fn score_field(survey: Survey) -> Seq<char> {
    if survey == Survey::Ztf {
        "candidate.drb"@
    } else {
        "candidate.reliability"@
    }
}

/// A filter narrowed by the ranges and flags of a query, and by the sign of the
/// difference where one is asked for.
pub open spec fn narrowed(
    survey: Survey,
    fields: Seq<(Seq<char>, Node)>,
    limits: AlertLimits,
    is_positive: Option<bool>,
) -> Seq<(Seq<char>, Node)> {
    let timed = put_if(fields, "candidate.jd"@, range_node(limits.start_jd, limits.end_jd));
    let bright = put_if(
        timed,
        "candidate.magpsf"@,
        range_node(limits.min_magpsf, limits.max_magpsf),
    );
    let scored = put_if(bright, score_field(survey), range_node(limits.min_drb, limits.max_drb));
    let signed = put_if(scored, "candidate.isdiffpos"@, flag_node(is_positive));
    let rocks = put_if(signed, "properties.rock"@, flag_node(limits.is_rock));
    let stars = put_if(rocks, "properties.star"@, flag_node(limits.is_star));
    let near = put_if(stars, "properties.near_brightstar"@, flag_node(limits.is_near_brightstar));
    put_if(near, "properties.stationary"@, flag_node(limits.is_stationary))
}

fn narrow(
    survey: Survey,
    filter: Document,
    limits: &AlertLimits,
    is_positive: Option<bool>,
) -> (narrow: Document)
    ensures
        narrow@ == narrowed(survey, filter@, *limits, is_positive),
{
    let mut filter = filter;
    insert_if(&mut filter, "candidate.jd", range_value(limits.start_jd, limits.end_jd));
    insert_if(&mut filter, "candidate.magpsf", range_value(limits.min_magpsf, limits.max_magpsf));
    let score_key = if survey == Survey::Ztf {
        "candidate.drb"
    } else {
        "candidate.reliability"
    };
    insert_if(&mut filter, score_key, range_value(limits.min_drb, limits.max_drb));
    insert_if(&mut filter, "candidate.isdiffpos", flag_value(is_positive));
    insert_if(&mut filter, "properties.rock", flag_value(limits.is_rock));
    insert_if(&mut filter, "properties.star", flag_value(limits.is_star));
    insert_if(&mut filter, "properties.near_brightstar", flag_value(limits.is_near_brightstar));
    insert_if(&mut filter, "properties.stationary", flag_value(limits.is_stationary));
    filter
}

/// The answer to a query that is refused, or nothing for one that is run. A
/// query names an object, or a cone, or a range of at most one day.
pub open spec fn alerts_refusal(
    survey: Survey,
    authenticated: bool,
    query: AlertsQuery,
    numbers: QueryNumbers,
) -> Option<Answer> {
    if !authenticated {
        Some(unauthorized_answer())
    } else if query.limit matches Some(limit) && (limit == 0 || limit > MAX_LIMIT) {
        Some(error_answer(400, "Invalid limit, must be between 1 and 100000"@))
    } else if query.object_id is None && !query.has_position() && !(query.limits.start_jd is Some
        && query.limits.end_jd is Some) {
        Some(
            error_answer(
                400,
                "Must provide either object_id or (ra, dec, radius_arcsec) or (start_jd, end_jd)"@,
            ),
        )
    } else if query.object_id is None && !query.has_position() && (Double {
        bits: MAX_SPAN_JD,
    }).less(numbers.span_jd) {
        Some(error_answer(400, "Time range too large, maximum allowed is 1 Julian Date"@))
    } else if query.object_id is Some && query.has_position() {
        Some(error_answer(400, "Cannot provide both object_id and position filters"@))
    } else if query.object_id is None && query.has_position() && bad_radius(
        query.radius_arcsec->0,
    ) {
        Some(
            error_answer(
                400,
                "Invalid radius, must be greater than 0 and less than or equal to 600 arcseconds (10 arcminutes)"@,
            ),
        )
    } else if survey == Survey::Decam {
        Some(error_answer(400, "Invalid survey specified, only ZTF and LSST are supported"@))
    } else {
        None
    }
}

/// The filter of a query that is run.
pub open spec fn alerts_filter(
    survey: Survey,
    query: AlertsQuery,
    numbers: QueryNumbers,
) -> Seq<(Seq<char>, Node)> {
    let base = public_alerts(survey);
    let placed = match query.object_id {
        Some(object_id) => put(base, "objectId"@, Node::Text(object_id@)),
        None => if query.has_position() {
            put(
                base,
                "coordinates.radec_geojson"@,
                cone_node(numbers.center_ra, query.dec->0, numbers.radius_radians),
            )
        } else {
            base
        },
    };
    narrowed(survey, placed, query.limits, query.is_positive)
}

/// The collection that holds a survey's alerts.
pub open spec fn alerts_collection(survey: Survey) -> Seq<char> {
    survey.name() + "_alerts"@
}

pub fn collection_of(survey: Survey) -> (name: String)
    ensures
        name@ == alerts_collection(survey),
{
    survey.as_str().to_string().concat("_alerts")
}

/// Decides whether a query for alerts is run, and how.
pub fn get_alerts(
    survey: Survey,
    authenticated: bool,
    query: &AlertsQuery,
    numbers: QueryNumbers,
) -> (plan: Result<FindPlan, Reply>)
    ensures
        match plan {
            Ok(plan) => {
                &&& alerts_refusal(survey, authenticated, *query, numbers) is None
                &&& plan.collection@ == alerts_collection(survey)
                &&& plan.filter@ == alerts_filter(survey, *query, numbers)
                &&& plan.sort@ == only("_id"@, Node::Int32(1))
                &&& plan.skip == match query.skip {
                    Some(skip) => skip,
                    None => 0,
                }
                &&& plan.limit == match query.limit {
                    Some(limit) => limit,
                    None => MAX_LIMIT,
                }
            },
            Err(reply) => alerts_refusal(survey, authenticated, *query, numbers) == Some(reply@),
        },
{
    if !authenticated {
        return Err(unauthorized());
    }
    let limit: u32 = match query.limit {
        Some(limit) => limit,
        None => MAX_LIMIT,
    };
    if limit == 0 || limit > MAX_LIMIT {
        return Err(bad_request("Invalid limit, must be between 1 and 100000"));
    }
    let skip: u64 = match query.skip {
        Some(skip) => skip,
        None => 0,
    };
    let positioned = query.ra.is_some() && query.dec.is_some() && query.radius_arcsec.is_some();
    if query.object_id.is_none() && !positioned {
        if query.limits.start_jd.is_some() && query.limits.end_jd.is_some() {
            if (Double { bits: MAX_SPAN_JD }).lt(numbers.span_jd) {
                return Err(bad_request("Time range too large, maximum allowed is 1 Julian Date"));
            }
        } else {
            return Err(
                bad_request(
                    "Must provide either object_id or (ra, dec, radius_arcsec) or (start_jd, end_jd)",
                ),
            );
        }
    }
    if query.object_id.is_some() && positioned {
        return Err(bad_request("Cannot provide both object_id and position filters"));
    }
    let mut filter = public_filter(survey);
    match &query.object_id {
        Some(object_id) => {
            filter.insert("objectId", Bson::text(object_id.as_str()));
        },
        None => match (query.ra, query.dec, query.radius_arcsec) {
            (Some(_), Some(dec), Some(radius_arcsec)) => {
                if radius_refused(radius_arcsec) {
                    return Err(
                        bad_request(
                            "Invalid radius, must be greater than 0 and less than or equal to 600 arcseconds (10 arcminutes)",
                        ),
                    );
                }
                filter.insert(
                    "coordinates.radec_geojson",
                    cone_value(numbers.center_ra, dec, numbers.radius_radians),
                );
            },
            _ => {},
        },
    }
    if survey == Survey::Decam {
        return Err(bad_request("Invalid survey specified, only ZTF and LSST are supported"));
    }
    Ok(
        FindPlan {
            collection: collection_of(survey),
            filter: narrow(survey, filter, &query.limits, query.is_positive),
            sort: Document::new().with("_id", Bson::Int32(1)),
            skip,
            limit: limit as i64,
        },
    )
}

/// The message of a reply that lists alerts.
pub fn alerts_message(count: usize) -> (message: String)
    ensures
        message@ == "found "@ + decimal(count as nat) + " alerts matching query"@,
{
    join3("found ", write_u64(count as u64).as_str(), " alerts matching query")
}

/// The reply when the database could not run a query for alerts.
pub fn alerts_retrieval_failed(survey: Survey, error: &str) -> (reply: Reply)
    ensures
        reply@ == error_answer(
            500,
            if survey == Survey::Lsst {
                "error retrieving alerts for objects: "@ + error@
            } else {
                "error retrieving alerts for survey "@ + survey.name() + ": "@ + error@
            },
        ),
{
    if survey == Survey::Lsst {
        internal_error(
            "error retrieving alerts for objects: ".to_string().concat(error).as_str(),
        )
    } else {
        cone_retrieval_failed(survey, error)
    }
}

/// The reply when the database could not run a cone search.
pub fn cone_retrieval_failed(survey: Survey, error: &str) -> (reply: Reply)
    ensures
        reply@ == error_answer(
            500,
            "error retrieving alerts for survey "@ + survey.name() + ": "@ + error@,
        ),
{
    internal_error(
        join3("error retrieving alerts for survey ", survey.as_str(), ": ").concat(error).as_str(),
    )
}

/// The reply when a document that was found could not be read.
pub fn documents_failed(error: &str) -> (reply: Reply)
    ensures
        reply@ == error_answer(500, "error getting documents: "@ + error@),
{
    internal_error("error getting documents: ".to_string().concat(error).as_str())
}

/// A search round several named positions.
#[derive(Debug)]
pub struct AlertsConeSearchQuery {
    /// A name, a right ascension and a declination each; no name occurs twice.
    pub coordinates: Vec<(String, Double, Double)>,
    pub radius_arcsec: Double,
    pub limits: AlertLimits,
}

/// A position that a cone search looks round.
#[derive(Debug)]
pub struct ConeTarget {
    pub name: String,
    pub ra: Double,
    pub dec: Double,
    /// `ra - 180`.
    pub center_ra: Double,
}

/// A cone search that is being run, one position after the other.
#[derive(Debug)]
pub struct ConeSearch<A> {
    pub collection: String,
    /// What is asked for at every position.
    pub base: Document,
    pub radius_radians: Double,
    pub targets: Vec<ConeTarget>,
    /// What was found so far, by name.
    pub results: Named<Vec<A>>,
    pub alert_count: u64,
    pub matched_count: u64,
}

/// What a cone search does next.
#[derive(Debug)]
pub enum ConeStep {
    /// Look for the alerts that a filter lets through.
    Find(Document),
    /// Give up, with this reply.
    Refuse(Reply),
    /// Reply with what was found and this message.
    Finish(String),
}

/// The answer to a cone search that is refused, or nothing for one that is run.
pub open spec fn cone_search_refusal(
    survey: Survey,
    authenticated: bool,
    query: AlertsConeSearchQuery,
) -> Option<Answer> {
    if !authenticated {
        Some(unauthorized_answer())
    } else if query.coordinates@.len() == 0 || query.coordinates@.len() > MAX_COORDINATES {
        Some(
            error_answer(400, "Invalid number of coordinate pairs, must be between 1 and 1000"@),
        )
    } else if bad_radius(query.radius_arcsec) {
        Some(
            error_answer(
                400,
                "Invalid radius, must be greater than 0 and less than or equal to 600 arcseconds (10 arcminutes)"@,
            ),
        )
    } else if survey == Survey::Decam {
        Some(error_answer(400, "Invalid survey specified, only ZTF and LSST are supported"@))
    } else {
        None
    }
}

/// What a cone search asks for at every position.
pub open spec fn cone_base(survey: Survey, limits: AlertLimits) -> Seq<(Seq<char>, Node)> {
    narrowed(survey, public_alerts(survey), limits, None)
}

/// The filter for one position: the cone comes first, so that the database can use
/// its geospatial index, and then what is asked for everywhere.
pub open spec fn cone_filter(
    center_ra: Double,
    dec: Double,
    radius_radians: Double,
    base: Seq<(Seq<char>, Node)>,
) -> Seq<(Seq<char>, Node)> {
    seq![("coordinates.radec_geojson"@, cone_node(center_ra, dec, radius_radians))] + base
}

/// Number of items in all lists.
pub open spec fn total_items<A>(lists: Seq<(Seq<char>, Seq<A>)>) -> nat
    decreases lists.len(),
{
    if lists.len() == 0 {
        0
    } else {
        total_items(lists.drop_last()) + lists.last().1.len()
    }
}

/// Number of lists that are not empty.
pub open spec fn filled_lists<A>(lists: Seq<(Seq<char>, Seq<A>)>) -> nat
    decreases lists.len(),
{
    if lists.len() == 0 {
        0
    } else {
        filled_lists(lists.drop_last()) + if lists.last().1.len() > 0 {
            1nat
        } else {
            0nat
        }
    }
}

/// The positions of a query, with the shifted right ascension of each.
pub open spec fn targets_of(
    query: AlertsConeSearchQuery,
    centers: Seq<Double>,
    targets: Seq<ConeTarget>,
) -> bool {
    &&& targets.len() == query.coordinates@.len()
    &&& forall|i: int|
        0 <= i < targets.len() ==> {
            &&& (#[trigger] targets[i]).name@ == query.coordinates@[i].0@
            &&& targets[i].ra == query.coordinates@[i].1
            &&& targets[i].dec == query.coordinates@[i].2
            &&& targets[i].center_ra == centers[i]
        }
}

/// Decides whether a cone search is run, and what it asks for. `centers` holds, for each
/// position, its right ascension less 180.
pub fn cone_search_alerts<A>(
    survey: Survey,
    authenticated: bool,
    query: &AlertsConeSearchQuery,
    radius_radians: Double,
    centers: &Vec<Double>,
) -> (search: Result<ConeSearch<A>, Reply>)
    requires
        centers@.len() == query.coordinates@.len(),
    ensures
        match search {
            Ok(search) => {
                &&& cone_search_refusal(survey, authenticated, *query) is None
                &&& search.collection@ == alerts_collection(survey)
                &&& search.base@ == cone_base(survey, query.limits)
                &&& search.radius_radians == radius_radians
                &&& targets_of(*query, centers@, search.targets@)
                &&& search.results.lists() == Seq::<(Seq<char>, Seq<A>)>::empty()
                &&& search.wf()
            },
            Err(reply) => cone_search_refusal(survey, authenticated, *query) == Some(reply@),
        },
{
    if !authenticated {
        return Err(unauthorized());
    }
    if query.coordinates.len() == 0 || query.coordinates.len() > MAX_COORDINATES {
        return Err(bad_request("Invalid number of coordinate pairs, must be between 1 and 1000"));
    }
    if radius_refused(query.radius_arcsec) {
        return Err(
            bad_request(
                "Invalid radius, must be greater than 0 and less than or equal to 600 arcseconds (10 arcminutes)",
            ),
        );
    }
    if survey == Survey::Decam {
        return Err(bad_request("Invalid survey specified, only ZTF and LSST are supported"));
    }
    let mut targets: Vec<ConeTarget> = Vec::new();
    let mut i: usize = 0;
    while i < query.coordinates.len()
        invariant
            i <= query.coordinates@.len(),
            centers@.len() == query.coordinates@.len(),
            targets@.len() == i,
            forall|k: int|
                0 <= k < i ==> {
                    &&& (#[trigger] targets@[k]).name@ == query.coordinates@[k].0@
                    &&& targets@[k].ra == query.coordinates@[k].1
                    &&& targets@[k].dec == query.coordinates@[k].2
                    &&& targets@[k].center_ra == centers@[k]
                },
        decreases query.coordinates.len() - i,
    {
        targets.push(
            ConeTarget {
                name: query.coordinates[i].0.as_str().to_string(),
                ra: query.coordinates[i].1,
                dec: query.coordinates[i].2,
                center_ra: centers[i],
            },
        );
        i = i + 1;
    }
    let search = ConeSearch {
        collection: collection_of(survey),
        base: narrow(survey, public_filter(survey), &query.limits, None),
        radius_radians,
        targets,
        results: Named::new(),
        alert_count: 0,
        matched_count: 0,
    };
    assert(search.results.lists() =~= Seq::<(Seq<char>, Seq<A>)>::empty());
    Ok(search)
}

/// Whether a right ascension lies outside the circle.
pub open spec fn bad_ra(ra: Double) -> bool {
    ra.less(Double { bits: 0 }) || (Double { bits: FULL_CIRCLE }).at_most(ra)
}

/// Whether a declination lies beyond a pole.
pub open spec fn bad_dec(dec: Double) -> bool {
    dec.less(Double { bits: SOUTH_POLE }) || (Double { bits: NORTH_POLE }).less(dec)
}

/// The answer to a position that is refused, or nothing.
pub open spec fn position_refusal(target: ConeTarget) -> Option<Answer> {
    if bad_ra(target.ra) {
        Some(
            error_answer(
                400,
                "Invalid RA for object "@ + target.name@ + ": must be in [0, 360)"@,
            ),
        )
    } else if bad_dec(target.dec) {
        Some(
            error_answer(
                400,
                "Invalid Dec for object "@ + target.name@ + ": must be in [-90, 90]"@,
            ),
        )
    } else {
        None
    }
}

proof fn lemma_filled_at_most_all<A>(lists: Seq<(Seq<char>, Seq<A>)>)
    ensures
        filled_lists(lists) <= lists.len(),
    decreases lists.len(),
{
    if lists.len() > 0 {
        lemma_filled_at_most_all(lists.drop_last());
    }
}

impl<A> ConeSearch<A> {
    /// The positions that were searched are the first ones, none of them is one that is
    /// refused, what was found is listed under their names, and the counts agree with
    /// the lists.
    pub open spec fn wf(&self) -> bool {
        let lists = self.results.lists();
        &&& lists.len() <= self.targets@.len() <= MAX_COORDINATES
        &&& forall|i: int|
            0 <= i < lists.len() ==> {
                &&& (#[trigger] lists[i]).0 == self.targets@[i].name@
                &&& position_refusal(self.targets@[i]) is None
            }
        &&& self.alert_count == total_items(lists)
        &&& self.matched_count == filled_lists(lists)
    }

    /// Whether every position was searched.
    pub open spec fn finished(&self) -> bool {
        self.results.lists().len() == self.targets@.len()
    }

    /// The position that is searched next.
    pub open spec fn next_target(&self) -> ConeTarget {
        self.targets@[self.results.lists().len() as int]
    }

    /// The filter for the next position, the reply that refuses it, or the message of the
    /// reply when every position was searched.
    pub fn step(&self) -> (step: ConeStep)
        requires
            self.wf(),
        ensures
            match step {
                ConeStep::Find(filter) => {
                    &&& !self.finished()
                    &&& position_refusal(self.next_target()) is None
                    &&& filter@ == cone_filter(
                        self.next_target().center_ra,
                        self.next_target().dec,
                        self.radius_radians,
                        self.base@,
                    )
                },
                ConeStep::Refuse(reply) => {
                    &&& !self.finished()
                    &&& position_refusal(self.next_target()) == Some(reply@)
                },
                ConeStep::Finish(message) => {
                    &&& self.finished()
                    &&& message@ == "found cross-matches for "@ + decimal(
                        filled_lists(self.results.lists()),
                    ) + "/"@ + decimal(self.targets@.len()) + " coordinates, with a total "@
                        + decimal(total_items(self.results.lists())) + " alerts"@
                },
            },
    {
        let at: usize = self.results.entries.len();
        if at == self.targets.len() {
            return ConeStep::Finish(
                join3(
                    "found cross-matches for ",
                    write_u64(self.matched_count).as_str(),
                    "/",
                ).concat(write_u64(at as u64).as_str()).concat(
                    " coordinates, with a total ",
                ).concat(write_u64(self.alert_count).as_str()).concat(" alerts"),
            );
        }
        let target = &self.targets[at];
        let name = target.name.as_str();
        if target.ra.lt(Double { bits: 0 }) || (Double { bits: FULL_CIRCLE }).le(target.ra) {
            return ConeStep::Refuse(
                bad_request(
                    join3("Invalid RA for object ", name, ": must be in [0, 360)").as_str(),
                ),
            );
        }
        if target.dec.lt(Double { bits: SOUTH_POLE }) || (Double { bits: NORTH_POLE }).lt(
            target.dec,
        ) {
            return ConeStep::Refuse(
                bad_request(
                    join3("Invalid Dec for object ", name, ": must be in [-90, 90]").as_str(),
                ),
            );
        }
        let cone = cone_value(target.center_ra, target.dec, self.radius_radians);
        let mut filter = self.base.copy();
        filter.entries.insert(0, ("coordinates.radec_geojson".to_string(), cone));
        assert(filter@ =~= cone_filter(
            target.center_ra,
            target.dec,
            self.radius_radians,
            self.base@,
        ));
        ConeStep::Find(filter)
    }

    /// Books what was found at the position that was searched.
    pub fn record(&mut self, alerts: Vec<A>)
        requires
            old(self).wf(),
            !old(self).finished(),
            position_refusal(old(self).next_target()) is None,
            old(self).alert_count + alerts@.len() <= u64::MAX,
        ensures
            final(self).wf(),
            final(self).results.lists() == old(self).results.lists().push(
                (old(self).next_target().name@, alerts@),
            ),
            final(self).collection == old(self).collection,
            final(self).base == old(self).base,
            final(self).radius_radians == old(self).radius_radians,
            final(self).targets == old(self).targets,
    {
        let ghost before = self.results.lists();
        proof {
            lemma_filled_at_most_all(before);
        }
        self.alert_count = self.alert_count + alerts.len() as u64;
        if alerts.len() > 0 {
            self.matched_count = self.matched_count + 1;
        }
        let ghost found = alerts@;
        let name = self.targets[self.results.entries.len()].name.as_str().to_string();
        self.results.entries.push((name, alerts));
        let ghost after = self.results.lists();
        assert(after =~= before.push((old(self).next_target().name@, found)));
        assert(after.drop_last() =~= before);
        assert forall|i: int| 0 <= i < after.len() implies (#[trigger] after[i]).0
            == self.targets@[i].name@ && position_refusal(self.targets@[i]) is None by {
            if i < before.len() {
                assert(after[i] == before[i]);
            }
        }
    }
}

/// Where names are distinct, an entry is the one that its name leads to.
proof fn lemma_own_slot<T>(entries: Seq<(Seq<char>, T)>, i: int)
    requires
        distinct_names(entries),
        0 <= i < entries.len(),
    ensures
        slot(entries, entries[i].0) == i,
    decreases i,
{
    if i > 0 {
        let rest = entries.drop_first();
        assert(forall|j: int| 0 <= j < rest.len() ==> #[trigger] rest[j] == entries[j + 1]);
        lemma_own_slot(rest, i - 1);
    }
}

/// A cone search that finished was refused at no position, and answers every one of them
/// under its name.
pub proof fn a_finished_search_answers_every_position<A>(search: ConeSearch<A>, i: int)
    requires
        search.wf(),
        search.finished(),
        forall|j: int, k: int|
            0 <= j < k < search.targets@.len() ==> (#[trigger] search.targets@[j]).name@ != (
            #[trigger] search.targets@[k]).name@,
        0 <= i < search.targets@.len(),
    ensures
        position_refusal(search.targets@[i]) is None,
        lookup(search.results.lists(), search.targets@[i].name@) == Some(
            search.results.lists()[i].1,
        ),
{
    let lists = search.results.lists();
    assert forall|j: int, k: int| 0 <= j < k < lists.len() implies (#[trigger] lists[j]).0 != (
    #[trigger] lists[k]).0 by {
        assert(search.targets@[j].name@ != search.targets@[k].name@);
    }
    assert(lists[i].0 == search.targets@[i].name@);
    lemma_own_slot(lists, i);
}

proof fn lemma_other_names()
    ensures
        "candidate.programid"@ != "objectId"@,
        "candidate.programid"@ != "coordinates.radec_geojson"@,
        "candidate.programid"@ != "candidate.jd"@,
        "candidate.programid"@ != "candidate.magpsf"@,
        "candidate.programid"@ != "candidate.drb"@,
        "candidate.programid"@ != "candidate.isdiffpos"@,
        "candidate.programid"@ != "properties.rock"@,
        "candidate.programid"@ != "properties.star"@,
        "candidate.programid"@ != "properties.near_brightstar"@,
        "candidate.programid"@ != "properties.stationary"@,
{
    reveal_strlit("candidate.programid");
    reveal_strlit("objectId");
    reveal_strlit("coordinates.radec_geojson");
    reveal_strlit("candidate.jd");
    reveal_strlit("candidate.magpsf");
    reveal_strlit("candidate.drb");
    reveal_strlit("candidate.isdiffpos");
    reveal_strlit("properties.rock");
    reveal_strlit("properties.star");
    reveal_strlit("properties.near_brightstar");
    reveal_strlit("properties.stationary");
    let name = "candidate.programid"@;
    assert(name[0] == 'c' && name.len() == 19);
    assert("properties.near_brightstar"@.len() == 26);
    assert("candidate.isdiffpos"@[10] == 'i' && name[10] == 'p');
}

proof fn lemma_put_if_keeps(
    fields: Seq<(Seq<char>, Node)>,
    key: Seq<char>,
    value: Option<Node>,
    other: Seq<char>,
)
    requires
        other != key,
    ensures
        lookup(put_if(fields, key, value), other) == lookup(fields, other),
{
    if let Some(value) = value {
        setting_a_name_leaves_the_others(fields, key, value, other);
    }
}

proof fn lemma_narrowed_keeps(
    fields: Seq<(Seq<char>, Node)>,
    limits: AlertLimits,
    is_positive: Option<bool>,
)
    ensures
        lookup(narrowed(Survey::Ztf, fields, limits, is_positive), "candidate.programid"@) == lookup(
            fields,
            "candidate.programid"@,
        ),
{
    lemma_other_names();
    let name = "candidate.programid"@;
    let timed = put_if(fields, "candidate.jd"@, range_node(limits.start_jd, limits.end_jd));
    lemma_put_if_keeps(
        fields,
        "candidate.jd"@,
        range_node(limits.start_jd, limits.end_jd),
        name,
    );
    let bright = put_if(
        timed,
        "candidate.magpsf"@,
        range_node(limits.min_magpsf, limits.max_magpsf),
    );
    lemma_put_if_keeps(
        timed,
        "candidate.magpsf"@,
        range_node(limits.min_magpsf, limits.max_magpsf),
        name,
    );
    let scored = put_if(bright, "candidate.drb"@, range_node(limits.min_drb, limits.max_drb));
    lemma_put_if_keeps(bright, "candidate.drb"@, range_node(limits.min_drb, limits.max_drb), name);
    let signed = put_if(scored, "candidate.isdiffpos"@, flag_node(is_positive));
    lemma_put_if_keeps(scored, "candidate.isdiffpos"@, flag_node(is_positive), name);
    let rocks = put_if(signed, "properties.rock"@, flag_node(limits.is_rock));
    lemma_put_if_keeps(signed, "properties.rock"@, flag_node(limits.is_rock), name);
    let stars = put_if(rocks, "properties.star"@, flag_node(limits.is_star));
    lemma_put_if_keeps(rocks, "properties.star"@, flag_node(limits.is_star), name);
    let near = put_if(stars, "properties.near_brightstar"@, flag_node(limits.is_near_brightstar));
    lemma_put_if_keeps(
        stars,
        "properties.near_brightstar"@,
        flag_node(limits.is_near_brightstar),
        name,
    );
    lemma_put_if_keeps(near, "properties.stationary"@, flag_node(limits.is_stationary), name);
}

/// No query for the alerts of ZTF asks for others than the public ones.
pub proof fn only_public_ztf_alerts_are_asked_for(query: AlertsQuery, numbers: QueryNumbers)
    ensures
        lookup(alerts_filter(Survey::Ztf, query, numbers), "candidate.programid"@) == Some(
            Node::Int32(1),
        ),
{
    lemma_other_names();
    let base = public_alerts(Survey::Ztf);
    what_was_set_is_read_back(no_fields(), "candidate.programid"@, Node::Int32(1));
    match query.object_id {
        Some(object_id) => {
            setting_a_name_leaves_the_others(
                base,
                "objectId"@,
                Node::Text(object_id@),
                "candidate.programid"@,
            );
            lemma_narrowed_keeps(
                put(base, "objectId"@, Node::Text(object_id@)),
                query.limits,
                query.is_positive,
            );
        },
        None => {
            let cone = cone_node(numbers.center_ra, query.dec->0, numbers.radius_radians);
            setting_a_name_leaves_the_others(
                base,
                "coordinates.radec_geojson"@,
                cone,
                "candidate.programid"@,
            );
            lemma_narrowed_keeps(
                put(base, "coordinates.radec_geojson"@, cone),
                query.limits,
                query.is_positive,
            );
            lemma_narrowed_keeps(base, query.limits, query.is_positive);
        },
    }
}

/// Nor does a cone search, at any position.
pub proof fn cone_searches_ask_for_public_ztf_alerts_only(
    limits: AlertLimits,
    center_ra: Double,
    dec: Double,
    radius_radians: Double,
)
    ensures
        lookup(
            cone_filter(center_ra, dec, radius_radians, cone_base(Survey::Ztf, limits)),
            "candidate.programid"@,
        ) == Some(Node::Int32(1)),
{
    let name = "candidate.programid"@;
    what_was_set_is_read_back(no_fields(), name, Node::Int32(1));
    lemma_narrowed_keeps(public_alerts(Survey::Ztf), limits, None);
    lemma_other_names();
    let base = cone_base(Survey::Ztf, limits);
    let filter = cone_filter(center_ra, dec, radius_radians, base);
    assert(filter.skip(1) =~= base);
    assert(slot(filter, name) == 1 + slot(base, name));
    lemma_slot_bounds(base, name);
}

}
