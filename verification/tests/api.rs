use boom::api::alerts::{
    alerts_message, alerts_retrieval_failed, cone_retrieval_failed, cone_search_alerts,
    documents_failed, get_alerts, AlertLimits, AlertsConeSearchQuery, AlertsQuery, ConeSearch,
    ConeStep, FindPlan, QueryNumbers,
};
use boom::api::cutouts::{
    alert_answer, cutouts_answer, cutouts_found, get_cutouts, no_alerts, no_cutouts, storage_failed, CutoutPlan, CutoutQuery,
    CutoutSet, WhichCutouts,
};
use boom::api::queries::{query_error, QueryFailure, MAX_TIME_MS_EXPIRED};
use boom::api::response::{
    bad_request, forbidden, internal_error, not_found, ok, ok_no_data, ok_ser, request_timeout,
    Body, Payload, Reply,
};
use boom::binary::Double;
use boom::document::{Bson, Document};
use boom::utils::enums::Survey;
use boom::utils::lightcurves::Band;

fn d(x: f64) -> Double {
    Double { bits: x.to_bits() }
}

fn message(reply: &Reply) -> String {
    match &reply.body {
        Body::Plain(text) => text.clone(),
        Body::Json(body) => body.message.clone(),
    }
}

/// A short form of a value, to compare it by.
fn show(value: &Bson) -> String {
    match value {
        Bson::Null => "null".to_string(),
        Bson::Boolean(b) => b.to_string(),
        Bson::Int32(n) => n.to_string(),
        Bson::Int64(n) => format!("{n}L"),
        Bson::Double(x) => format!("{:?}", f64::from_bits(x.bits)),
        Bson::Text(s) => format!("'{s}'"),
        Bson::Array(items) => {
            format!("[{}]", items.iter().map(show).collect::<Vec<_>>().join(", "))
        }
        Bson::Document(doc) => fields(doc),
        Bson::Other => "other".to_string(),
    }
}

fn fields(doc: &Document) -> String {
    let entries: Vec<String> =
        doc.entries.iter().map(|(key, value)| format!("{key}: {}", show(value))).collect();
    format!("{{{}}}", entries.join(", "))
}

#[test]
fn test_rejected_query_is_a_bad_request() {
    let failure = QueryFailure::Command {
        code: 2,
        message: "unknown operator: $bogus".to_string(),
    };
    let response = query_error(&failure, "Error finding documents");
    assert_eq!(response.status, 400);
    assert_eq!(message(&response), "Error finding documents: unknown operator: $bogus");
}

#[test]
fn test_exhausted_time_budget_is_a_timeout() {
    let failure = QueryFailure::Command {
        code: MAX_TIME_MS_EXPIRED,
        message: "operation exceeded time limit".to_string(),
    };
    let response = query_error(&failure, "Error finding documents");
    assert_eq!(response.status, 408);
}

#[test]
fn test_other_failures_stay_internal() {
    let failure = QueryFailure::Other { description: "connection reset".to_string() };
    let response = query_error(&failure, "Error finding documents");
    assert_eq!(response.status, 500);
}

#[test]
fn replies_carry_their_status_and_message() {
    for (reply, status) in [
        (not_found("m"), 404),
        (internal_error("m"), 500),
        (bad_request("m"), 400),
        (request_timeout("m"), 408),
        (forbidden("m"), 403),
    ] {
        assert_eq!(reply.status, status);
        assert_eq!(message(&reply), "m");
        assert!(matches!(reply.body, Body::Json(ref body) if body.data.is_none()));
    }
    let reply = ok("m", serde_json::Value::Bool(true));
    assert_eq!(reply.status, 200);
    match reply.body {
        Body::Json(body) => match body.data {
            Some(Payload::Value(value)) => assert_eq!(value, true),
            _ => panic!("no data"),
        },
        _ => panic!("not json"),
    }
    assert!(matches!(
        ok_no_data("m").body,
        Body::Json(body) if matches!(body.data, Some(Payload::Null))
    ));
    assert_eq!(ok_ser("m", Some(serde_json::Value::Null)).status, 200);
    let failed = ok_ser("m", None);
    assert_eq!(failed.status, 500);
    assert_eq!(message(&failed), "Failed to serialize response data");
}

fn no_limits() -> AlertLimits {
    AlertLimits {
        start_jd: None,
        end_jd: None,
        min_magpsf: None,
        max_magpsf: None,
        min_drb: None,
        max_drb: None,
        is_rock: None,
        is_star: None,
        is_near_brightstar: None,
        is_stationary: None,
    }
}

fn by_object(id: &str) -> AlertsQuery {
    AlertsQuery {
        object_id: Some(id.to_string()),
        ra: None,
        dec: None,
        radius_arcsec: None,
        limits: no_limits(),
        is_positive: None,
        limit: None,
        skip: None,
    }
}

fn by_cone(radius: f64) -> AlertsQuery {
    AlertsQuery {
        object_id: None,
        ra: Some(d(180.0)),
        dec: Some(d(-5.0)),
        radius_arcsec: Some(d(radius)),
        ..by_object("")
    }
}

fn by_time(start: f64, end: f64) -> AlertsQuery {
    AlertsQuery {
        object_id: None,
        limits: AlertLimits { start_jd: Some(d(start)), end_jd: Some(d(end)), ..no_limits() },
        ..by_object("")
    }
}

fn run(survey: Survey, query: &AlertsQuery) -> Result<FindPlan, Reply> {
    let value = |x: Option<Double>| x.map(|x| f64::from_bits(x.bits)).unwrap_or(0.0);
    let numbers = QueryNumbers {
        span_jd: d(value(query.limits.end_jd) - value(query.limits.start_jd)),
        center_ra: d(value(query.ra) - 180.0),
        radius_radians: d((value(query.radius_arcsec) / 3600.0).to_radians()),
    };
    get_alerts(survey, true, query, numbers)
}

fn refused(survey: Survey, query: &AlertsQuery) -> String {
    let reply = run(survey, query).unwrap_err();
    assert_eq!(reply.status, 400);
    message(&reply)
}

#[test]
fn alerts_are_for_users_only() {
    let numbers = QueryNumbers { span_jd: d(0.0), center_ra: d(0.0), radius_radians: d(0.0) };
    let reply = get_alerts(Survey::Ztf, false, &by_object("ZTF1"), numbers).unwrap_err();
    assert_eq!(reply.status, 401);
    assert!(matches!(reply.body, Body::Plain(ref text) if text == "Unauthorized"));
}

#[test]
fn a_query_for_an_object_is_public_for_ztf() {
    let mut query = by_object("ZTF1");
    query.limit = Some(7);
    query.skip = Some(3);
    let plan = run(Survey::Ztf, &query).unwrap();
    assert_eq!(plan.collection, "ZTF_alerts");
    assert_eq!(fields(&plan.filter), "{candidate.programid: 1, objectId: 'ZTF1'}");
    assert_eq!(fields(&plan.sort), "{_id: 1}");
    assert_eq!((plan.skip, plan.limit), (3, 7));
    let plan = run(Survey::Lsst, &by_object("42")).unwrap();
    assert_eq!(plan.collection, "LSST_alerts");
    assert_eq!(fields(&plan.filter), "{objectId: '42'}");
    assert_eq!((plan.skip, plan.limit), (0, 100000));
}

#[test]
fn a_cone_is_asked_for_round_the_shifted_position() {
    let plan = run(Survey::Lsst, &by_cone(600.0)).unwrap();
    let radius = (600.0f64 / 3600.0).to_radians();
    assert_eq!(
        fields(&plan.filter),
        format!(
            "{{coordinates.radec_geojson: {{$geoWithin: {{$centerSphere: [[0.0, -5.0], {radius:?}]}}}}}}"
        )
    );
}

#[test]
fn every_narrowing_becomes_a_condition() {
    let mut query = by_object("X");
    query.limits = AlertLimits {
        start_jd: Some(d(1.0)),
        end_jd: None,
        min_magpsf: Some(d(15.0)),
        max_magpsf: Some(d(20.0)),
        min_drb: None,
        max_drb: Some(d(0.9)),
        is_rock: Some(false),
        is_star: Some(true),
        is_near_brightstar: Some(false),
        is_stationary: Some(true),
    };
    query.is_positive = Some(true);
    let rest = "candidate.isdiffpos: true, properties.rock: false, properties.star: true, \
                properties.near_brightstar: false, properties.stationary: true}";
    let plan = run(Survey::Ztf, &query).unwrap();
    assert_eq!(
        fields(&plan.filter),
        format!(
            "{{candidate.programid: 1, objectId: 'X', candidate.jd: {{$gte: 1.0}}, \
             candidate.magpsf: {{$gte: 15.0, $lte: 20.0}}, candidate.drb: {{$lte: 0.9}}, {rest}"
        )
    );
    let plan = run(Survey::Lsst, &query).unwrap();
    assert!(fields(&plan.filter).contains("candidate.reliability: {$lte: 0.9}"));
}

#[test]
fn queries_that_ask_for_too_much_are_refused() {
    let invalid_limit = "Invalid limit, must be between 1 and 100000";
    let mut query = by_object("X");
    query.limit = Some(0);
    assert_eq!(refused(Survey::Ztf, &query), invalid_limit);
    query.limit = Some(100001);
    assert_eq!(refused(Survey::Ztf, &query), invalid_limit);
    query.limit = Some(100000);
    assert!(run(Survey::Ztf, &query).is_ok());

    assert_eq!(
        refused(Survey::Ztf, &by_time(10.0, 11.5)),
        "Time range too large, maximum allowed is 1 Julian Date"
    );
    assert!(run(Survey::Ztf, &by_time(10.0, 11.0)).is_ok());

    let nothing = AlertsQuery { object_id: None, ..by_object("") };
    assert_eq!(
        refused(Survey::Ztf, &nothing),
        "Must provide either object_id or (ra, dec, radius_arcsec) or (start_jd, end_jd)"
    );
    let both = AlertsQuery { object_id: Some("X".to_string()), ..by_cone(10.0) };
    assert_eq!(
        refused(Survey::Ztf, &both),
        "Cannot provide both object_id and position filters"
    );
    let invalid_radius = "Invalid radius, must be greater than 0 and less than or equal to 600 \
                          arcseconds (10 arcminutes)";
    assert_eq!(refused(Survey::Ztf, &by_cone(0.0)), invalid_radius);
    assert_eq!(refused(Survey::Ztf, &by_cone(600.5)), invalid_radius);
    assert_eq!(
        refused(Survey::Decam, &by_object("X")),
        "Invalid survey specified, only ZTF and LSST are supported"
    );
}

#[test]
fn messages_tell_what_was_found_or_failed() {
    assert_eq!(alerts_message(12), "found 12 alerts matching query");
    assert_eq!(
        message(&alerts_retrieval_failed(Survey::Ztf, "x")),
        "error retrieving alerts for survey ZTF: x"
    );
    assert_eq!(
        message(&alerts_retrieval_failed(Survey::Lsst, "x")),
        "error retrieving alerts for objects: x"
    );
    assert_eq!(
        message(&cone_retrieval_failed(Survey::Lsst, "x")),
        "error retrieving alerts for survey LSST: x"
    );
    let failed = documents_failed("x");
    assert_eq!((failed.status, message(&failed).as_str()), (500, "error getting documents: x"));
}

fn cone_query(n: usize, radius: f64) -> AlertsConeSearchQuery {
    AlertsConeSearchQuery {
        coordinates: (0..n).map(|i| (format!("o{i}"), d(10.0), d(20.0))).collect(),
        radius_arcsec: d(radius),
        limits: AlertLimits { is_rock: Some(false), ..no_limits() },
    }
}

fn search(survey: Survey, query: &AlertsConeSearchQuery) -> Result<ConeSearch<u8>, Reply> {
    let centers = query
        .coordinates
        .iter()
        .map(|(_, ra, _)| d(f64::from_bits(ra.bits) - 180.0))
        .collect();
    cone_search_alerts(survey, true, query, d(0.5), &centers)
}

#[test]
fn cone_searches_take_up_to_a_thousand_positions() {
    let invalid = "Invalid number of coordinate pairs, must be between 1 and 1000";
    assert_eq!(message(&search(Survey::Ztf, &cone_query(0, 5.0)).unwrap_err()), invalid);
    assert_eq!(message(&search(Survey::Ztf, &cone_query(1001, 5.0)).unwrap_err()), invalid);
    assert!(search(Survey::Ztf, &cone_query(1000, 5.0)).is_ok());
    assert_eq!(search(Survey::Ztf, &cone_query(1, -5.0)).unwrap_err().status, 400);
    assert_eq!(search(Survey::Decam, &cone_query(1, 5.0)).unwrap_err().status, 400);
    let anonymous: Result<ConeSearch<u8>, Reply> =
        cone_search_alerts(Survey::Ztf, false, &cone_query(1, 5.0), d(0.5), &vec![d(-170.0)]);
    assert_eq!(anonymous.unwrap_err().status, 401);
}

#[test]
fn the_cone_comes_first_in_the_filter() {
    let search = search(Survey::Ztf, &cone_query(1, 5.0)).unwrap();
    assert_eq!(search.collection, "ZTF_alerts");
    match search.step() {
        ConeStep::Find(filter) => assert_eq!(
            fields(&filter),
            "{coordinates.radec_geojson: {$geoWithin: {$centerSphere: [[-170.0, 20.0], 0.5]}}, \
             candidate.programid: 1, properties.rock: false}"
        ),
        other => panic!("{other:?}"),
    }
}

#[test]
fn positions_off_the_sky_are_refused() {
    let step = |ra: f64, dec: f64| {
        let mut query = cone_query(1, 5.0);
        query.coordinates[0] = ("M31".to_string(), d(ra), d(dec));
        search(Survey::Lsst, &query).unwrap().step()
    };
    let refusal = |ra: f64, dec: f64| match step(ra, dec) {
        ConeStep::Refuse(reply) => message(&reply),
        other => panic!("{other:?}"),
    };
    assert_eq!(refusal(360.0, 0.0), "Invalid RA for object M31: must be in [0, 360)");
    assert_eq!(refusal(-0.1, 0.0), "Invalid RA for object M31: must be in [0, 360)");
    assert_eq!(refusal(0.0, 90.5), "Invalid Dec for object M31: must be in [-90, 90]");
    assert_eq!(refusal(0.0, -90.5), "Invalid Dec for object M31: must be in [-90, 90]");
    assert!(matches!(step(0.0, -90.0), ConeStep::Find(_)));
    assert!(matches!(step(359.9, 90.0), ConeStep::Find(_)));
}

#[test]
fn a_cone_search_answers_every_position() {
    let mut query = cone_query(3, 5.0);
    query.coordinates[1].1 = d(200.0);
    let mut search = search(Survey::Lsst, &query).unwrap();
    let mut filters = vec![];
    let mut found = vec![vec![3], vec![], vec![1, 2]];
    let finish = loop {
        match search.step() {
            ConeStep::Find(filter) => {
                filters.push(fields(&filter));
                search.record(found.pop().unwrap());
            }
            ConeStep::Refuse(reply) => panic!("{}", message(&reply)),
            ConeStep::Finish(message) => break message,
        }
    };
    assert_eq!(finish, "found cross-matches for 2/3 coordinates, with a total 3 alerts");
    assert!(filters[0].contains("[[-170.0, 20.0], 0.5]"));
    assert!(filters[1].contains("[[20.0, 20.0], 0.5]"));
    assert_eq!(search.results.get("o0"), Some(&vec![1, 2]));
    assert_eq!(search.results.get("o1"), Some(&vec![]));
    assert_eq!(search.results.get("o2"), Some(&vec![3]));
}

fn cutouts_of(object_id: Option<&str>, which: Option<WhichCutouts>) -> CutoutQuery {
    CutoutQuery {
        candid: None,
        object_id: object_id.map(|s| s.to_string()),
        which,
        band: None,
    }
}

#[test]
fn the_wanted_alert_comes_first() {
    for (which, sort) in [
        (None, "{candidate.magpsf: 1}"),
        (Some(WhichCutouts::Brightest), "{candidate.magpsf: 1}"),
        (Some(WhichCutouts::Faintest), "{candidate.magpsf: -1}"),
        (Some(WhichCutouts::First), "{candidate.jd: 1}"),
        (Some(WhichCutouts::Last), "{candidate.jd: -1}"),
    ] {
        let query = CutoutQuery { band: Some(Band::R), ..cutouts_of(Some("X"), which) };
        match get_cutouts(Survey::Ztf, true, true, &query).unwrap() {
            CutoutPlan::ByObject(search) => {
                assert_eq!(search.collection, "ZTF_alerts");
                assert_eq!(
                    fields(&search.filter),
                    "{objectId: 'X', candidate.band: 'r', candidate.programid: 1}"
                );
                assert_eq!(fields(&search.sort), sort);
                assert_eq!(fields(&search.projection), "{_id: 1}");
            }
            _ => panic!("not by object"),
        }
    }
    match get_cutouts(Survey::Lsst, true, true, &cutouts_of(Some("X"), None)).unwrap() {
        CutoutPlan::ByObject(search) => assert_eq!(fields(&search.filter), "{objectId: 'X'}"),
        _ => panic!("not by object"),
    }
}

#[test]
fn a_named_candidate_goes_before_an_object() {
    let query = CutoutQuery { candid: Some(-5), ..cutouts_of(Some("X"), None) };
    assert!(matches!(
        get_cutouts(Survey::Ztf, true, true, &query),
        Ok(CutoutPlan::ByCandid(-5))
    ));
}

#[test]
fn cutouts_are_refused_without_user_storage_or_name() {
    let query = cutouts_of(None, None);
    assert_eq!(get_cutouts(Survey::Ztf, false, true, &query).unwrap_err().status, 401);
    let reply = get_cutouts(Survey::Ztf, true, false, &query).unwrap_err();
    assert_eq!(reply.status, 500);
    assert_eq!(message(&reply), "cutout storage not available for this survey");
    let reply = get_cutouts(Survey::Ztf, true, true, &query).unwrap_err();
    assert_eq!(reply.status, 400);
    assert_eq!(message(&reply), "candid or objectId query parameter must be provided");
}

#[test]
fn cutouts_are_sent_in_base64() {
    let cutouts = CutoutSet {
        cutout_science: vec![1, 2, 3],
        cutout_template: vec![255, 254],
        cutout_difference: vec![0],
    };
    let reply = cutouts_found(77, None, &cutouts);
    assert_eq!(reply.status, 200);
    assert_eq!(message(&reply), "cutouts found for candid: 77");
    match reply.body {
        Body::Json(body) => match body.data {
            Some(Payload::Object(object)) => {
                assert_eq!(object.len(), 4);
                assert_eq!(object.get("candid").unwrap(), 77);
                assert_eq!(object.get("cutoutScience").unwrap(), "AQID");
                assert_eq!(object.get("cutoutTemplate").unwrap(), "//4=");
                assert_eq!(object.get("cutoutDifference").unwrap(), "AA==");
            }
            _ => panic!("no object"),
        },
        _ => panic!("not json"),
    }
    let empty = CutoutSet {
        cutout_science: vec![],
        cutout_template: vec![],
        cutout_difference: vec![],
    };
    assert_eq!(message(&cutouts_found(77, Some("X"), &empty)), "cutouts found for objectId: X");
}

#[test]
fn missing_cutouts_are_told() {
    assert_eq!(message(&no_alerts("X")), "no alerts found for objectId X");
    assert_eq!(message(&no_cutouts(7, None)), "no cutouts found for candid 7");
    let reply = no_cutouts(7, Some("X"));
    assert_eq!(reply.status, 404);
    assert_eq!(message(&reply), "no cutouts found for objectId X (candid: 7)");
    assert_eq!(storage_failed().status, 500);
}

#[test]
fn the_reply_follows_what_was_found() {
    assert_eq!(alert_answer("X", &Ok(Some(7))).unwrap(), 7);
    let none = alert_answer("X", &Ok(None)).unwrap_err();
    assert_eq!((none.status, message(&none).as_str()), (404, "no alerts found for objectId X"));
    let failed = alert_answer("X", &Err("down".to_string())).unwrap_err();
    assert_eq!((failed.status, message(&failed).as_str()), (500, "error getting documents: down"));

    let empty = CutoutSet {
        cutout_science: vec![],
        cutout_template: vec![],
        cutout_difference: vec![],
    };
    let found = cutouts_answer(7, None, Ok(Some(empty)));
    assert_eq!((found.status, message(&found).as_str()), (200, "cutouts found for candid: 7"));
    let none = cutouts_answer(7, Some("X"), Ok(None));
    assert_eq!(none.status, 404);
    assert_eq!(message(&none), "no cutouts found for objectId X (candid: 7)");
    let failed = cutouts_answer(7, None, Err(()));
    assert_eq!(failed.status, 500);
    assert_eq!(message(&failed), "error retrieving cutouts from storage");
}
