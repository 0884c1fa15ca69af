//! How requests are answered.
use vstd::prelude::*;

use crate::api::cutouts::{
    alert_answer, base64_of, cutouts_answer, get_cutouts, CutoutPlan, CutoutQuery, CutoutSet,
    WhichCutouts,
};
use crate::api::queries::{query_error, QueryFailure};
use crate::api::response::{
    bad_request, forbidden, internal_error, not_found, ok, ok_no_data, ok_ser, request_timeout,
    unauthorized, Body, Payload, Reply,
};
use crate::document::{only, Node};
use crate::json::{facts_of, Fact};
use crate::laws::alerts::lemma_only;
use crate::named::{lookup, put, setting_a_name_leaves_the_others, what_was_set_is_read_back};
use crate::text::signed_decimal;
use crate::utils::enums::Survey;
use crate::utils::lightcurves::Band;

verus! {

/// Whether a reply is a refusal in JSON, with a status and a message and without data.
pub open spec fn refuses(reply: Reply, status: u16, message: Seq<char>) -> bool {
    &&& reply.status == status
    &&& reply.body matches Body::Json(body) && body.message@ == message && body.data is None
}

/// Whether a reply brings data in JSON, with a message.
pub open spec fn brings(reply: Reply, message: Seq<char>, data: Payload) -> bool {
    &&& reply.status == 200
    &&& reply.body matches Body::Json(body) && body.message@ == message && body.data == Some(data)
}

/// Whether a reply tells that the caller is not logged in.
pub open spec fn asks_to_log_in(reply: Reply) -> bool {
    reply.status == 401 && (reply.body matches Body::Plain(text) && text@ == "Unauthorized"@)
}

/// Each kind of refusal has its own status.
pub proof fn refusals_have_their_status(
    message: &str,
    missing: Reply,
    failed: Reply,
    wrong: Reply,
    late: Reply,
    denied: Reply,
    unknown: Reply,
)
    requires
        call_ensures(not_found, (message,), missing),
        call_ensures(internal_error, (message,), failed),
        call_ensures(bad_request, (message,), wrong),
        call_ensures(request_timeout, (message,), late),
        call_ensures(forbidden, (message,), denied),
        call_ensures(unauthorized, (), unknown),
    ensures
        refuses(missing, 404, message@),
        refuses(failed, 500, message@),
        refuses(wrong, 400, message@),
        refuses(late, 408, message@),
        refuses(denied, 403, message@),
        asks_to_log_in(unknown),
{
    assert(missing@.json && failed@.json && wrong@.json && late@.json && denied@.json);
    assert(!unknown@.json);
}

/// A reply brings the data it was given, and one whose data could not be written fails.
pub proof fn replies_bring_their_data(
    message: &str,
    value: serde_json::Value,
    data: Option<serde_json::Value>,
    with: Reply,
    without: Reply,
    written: Reply,
)
    requires
        call_ensures(ok, (message, value), with),
        call_ensures(ok_no_data, (message,), without),
        call_ensures(ok_ser, (message, data), written),
    ensures
        brings(with, message@, Payload::Value(value)),
        brings(without, message@, Payload::Null),
        data matches Some(data) ==> brings(written, message@, Payload::Value(data)),
        data is None ==> refuses(written, 500, "Failed to serialize response data"@),
{
    assert(with@.json && without@.json && written@.json);
}

/// A query that the database rejected is the caller's fault, unless it ran out of time; any
/// other failure is the service's.
pub proof fn failed_queries_are_told_apart(error: QueryFailure, context: &str, reply: Reply)
    requires
        call_ensures(query_error, (&error, context), reply),
    ensures
        match error {
            QueryFailure::Command { code, message } => {
                &&& code == 50 ==> refuses(
                    reply,
                    408,
                    "query exceeded max_time_ms: narrow the filter, add a limit, or raise the budget"@,
                )
                &&& code != 50 ==> refuses(reply, 400, context@ + ": "@ + message@)
            },
            QueryFailure::Other { description } => refuses(
                reply,
                500,
                context@ + ": "@ + description@,
            ),
        },
{
    assert(reply@.json);
}

/// A query for images is refused for what fails first: the login, the storage, and then the
/// lack of anything to look for. One that names a candidate looks for that one.
pub proof fn which_queries_for_images_are_run(
    survey: Survey,
    authenticated: bool,
    available: bool,
    query: CutoutQuery,
    plan: Result<CutoutPlan, Reply>,
)
    requires
        call_ensures(get_cutouts, (survey, authenticated, available, &query), plan),
    ensures
        plan is Ok <==> authenticated && available && (query.candid is Some
            || query.object_id is Some),
        plan matches Err(reply) ==> {
            &&& !authenticated ==> asks_to_log_in(reply)
            &&& authenticated && !available ==> refuses(
                reply,
                500,
                "cutout storage not available for this survey"@,
            )
            &&& authenticated && available ==> refuses(
                reply,
                400,
                "candid or objectId query parameter must be provided"@,
            )
        },
        plan matches Ok(plan) ==> match query.candid {
            Some(candid) => plan == CutoutPlan::ByCandid(candid),
            None => plan is ByObject,
        },
{
    if let Err(reply) = plan {
        assert(reply@.json == authenticated);
    }
}

/// The letter of a band.
pub open spec fn letter(band: Band) -> char {
    match band {
        Band::G => 'g',
        Band::R => 'r',
        Band::I => 'i',
        Band::Z => 'z',
        Band::Y => 'y',
        Band::U => 'u',
        Band::J => 'j',
        Band::H => 'h',
        Band::K => 'k',
    }
}

proof fn lemma_band_names(band: Band)
    ensures
        band.name() == seq![letter(band)],
{
    reveal_strlit("g");
    reveal_strlit("r");
    reveal_strlit("i");
    reveal_strlit("z");
    reveal_strlit("y");
    reveal_strlit("u");
    reveal_strlit("j");
    reveal_strlit("h");
    reveal_strlit("k");
    assert(band.name() =~= seq![letter(band)]);
}

proof fn lemma_fields()
    ensures
        "objectId"@ != "candidate.band"@,
        "objectId"@ != "candidate.programid"@,
        "candidate.band"@ != "candidate.programid"@,
{
    reveal_strlit("objectId");
    reveal_strlit("candidate.band");
    reveal_strlit("candidate.programid");
    assert("objectId"@.len() == 8);
    assert("candidate.band"@.len() == 14);
    assert("candidate.programid"@.len() == 19);
}

/// The alert whose images are wanted is looked for among those of the object, in the band
/// that is named if one is, and among the public ones of ZTF. The first or the last is the
/// earliest or the latest one; the brightest has the lowest magnitude, and is taken where
/// nothing is said.
pub proof fn which_alert_has_the_images(
    survey: Survey,
    authenticated: bool,
    available: bool,
    query: CutoutQuery,
    plan: CutoutPlan,
    name: Seq<char>,
)
    requires
        call_ensures(
            get_cutouts,
            (survey, authenticated, available, &query),
            Ok::<CutoutPlan, Reply>(plan),
        ),
        plan is ByObject,
    ensures
        plan matches CutoutPlan::ByObject(search) ==> {
            &&& search.collection@ == match survey {
                Survey::Ztf => "ZTF"@ + "_alerts"@,
                Survey::Lsst => "LSST"@ + "_alerts"@,
                Survey::Decam => "DECAM"@ + "_alerts"@,
            }
            &&& lookup(search.filter@, "objectId"@) == Some(Node::Text(query.object_id->0@))
            &&& lookup(search.filter@, "candidate.band"@) == match query.band {
                Some(band) => Some(Node::Text(seq![letter(band)])),
                None => None,
            }
            &&& lookup(search.filter@, "candidate.programid"@) == if survey == Survey::Ztf {
                Some(Node::Int32(1))
            } else {
                None
            }
            &&& name != "objectId"@ && name != "candidate.band"@ && name != "candidate.programid"@
                ==> lookup(search.filter@, name) is None
            &&& search.projection@ == seq![("_id"@, Node::Int32(1))]
            &&& search.sort@ == match query.which {
                Some(WhichCutouts::First) => seq![("candidate.jd"@, Node::Int32(1))],
                Some(WhichCutouts::Last) => seq![("candidate.jd"@, Node::Int32(-1i32 as i32))],
                Some(WhichCutouts::Faintest) => seq![
                    ("candidate.magpsf"@, Node::Int32(-1i32 as i32)),
                ],
                Some(WhichCutouts::Brightest) => seq![("candidate.magpsf"@, Node::Int32(1))],
                None => seq![("candidate.magpsf"@, Node::Int32(1))],
            }
        },
{
    if let CutoutPlan::ByObject(search) = plan {
        let id = Node::Text(query.object_id->0@);
        lemma_fields();
        lemma_only("objectId"@, id);
        lemma_only("_id"@, Node::Int32(1));
        lemma_only("candidate.jd"@, Node::Int32(1));
        lemma_only("candidate.jd"@, Node::Int32(-1i32 as i32));
        lemma_only("candidate.magpsf"@, Node::Int32(1));
        lemma_only("candidate.magpsf"@, Node::Int32(-1i32 as i32));
        let named = only("objectId"@, id);
        let banded = match query.band {
            Some(band) => {
                lemma_band_names(band);
                let value = Node::Text(band.name());
                what_was_set_is_read_back(named, "candidate.band"@, value);
                setting_a_name_leaves_the_others(named, "candidate.band"@, value, "objectId"@);
                setting_a_name_leaves_the_others(
                    named,
                    "candidate.band"@,
                    value,
                    "candidate.programid"@,
                );
                if name != "candidate.band"@ {
                    setting_a_name_leaves_the_others(named, "candidate.band"@, value, name);
                }
                put(named, "candidate.band"@, value)
            },
            None => named,
        };
        if survey == Survey::Ztf {
            let public = Node::Int32(1);
            what_was_set_is_read_back(banded, "candidate.programid"@, public);
            setting_a_name_leaves_the_others(
                banded,
                "candidate.programid"@,
                public,
                "objectId"@,
            );
            setting_a_name_leaves_the_others(
                banded,
                "candidate.programid"@,
                public,
                "candidate.band"@,
            );
            if name != "candidate.programid"@ {
                setting_a_name_leaves_the_others(banded, "candidate.programid"@, public, name);
            }
        }
    }
}

/// A search for an object's alert that fails, or finds none, is told so.
pub proof fn searches_for_alerts_are_answered(
    object_id: &str,
    found: Result<Option<i64>, String>,
    candid: Result<i64, Reply>,
)
    requires
        call_ensures(alert_answer, (object_id, &found), candid),
    ensures
        found matches Ok(Some(at)) ==> candid == Ok::<i64, Reply>(at),
        found matches Ok(None) ==> (candid matches Err(reply) && refuses(
            reply,
            404,
            "no alerts found for objectId "@ + object_id@,
        )),
        found matches Err(error) ==> (candid matches Err(reply) && refuses(
            reply,
            500,
            "error getting documents: "@ + error@,
        )),
{
    if let Err(reply) = candid {
        assert(reply@.json);
    }
}

/// The images of an alert are each told under their own name, with the candidate; what is
/// missing or failed is told so.
pub proof fn images_are_told_under_their_names(
    candid: i64,
    object_id: Option<&str>,
    retrieved: Result<Option<CutoutSet>, ()>,
    reply: Reply,
)
    requires
        call_ensures(cutouts_answer, (candid, object_id, retrieved), reply),
    ensures
        match retrieved {
            Ok(Some(cutouts)) => {
                &&& reply.status == 200
                &&& reply.body matches Body::Json(body) && body.message@ == match object_id {
                    Some(id) => "cutouts found for objectId: "@ + id@,
                    None => "cutouts found for candid: "@ + signed_decimal(candid as int),
                } && (body.data matches Some(Payload::Object(object)) && {
                    let facts = facts_of(object);
                    &&& facts.dom() == set![
                        "candid"@,
                        "cutoutScience"@,
                        "cutoutTemplate"@,
                        "cutoutDifference"@,
                    ]
                    &&& facts["candid"@] == Fact::Number(candid as int)
                    &&& facts["cutoutScience"@] == Fact::Text(base64_of(cutouts.cutout_science@))
                    &&& facts["cutoutTemplate"@] == Fact::Text(base64_of(cutouts.cutout_template@))
                    &&& facts["cutoutDifference"@] == Fact::Text(
                        base64_of(cutouts.cutout_difference@),
                    )
                })
            },
            Ok(None) => refuses(
                reply,
                404,
                match object_id {
                    Some(id) => "no cutouts found for objectId "@ + id@ + " (candid: "@
                        + signed_decimal(candid as int) + ")"@,
                    None => "no cutouts found for candid "@ + signed_decimal(candid as int),
                },
            ),
            Err(_) => refuses(reply, 500, "error retrieving cutouts from storage"@),
        },
{
    assert(reply@.json);
    reveal_strlit("candid");
    reveal_strlit("cutoutScience");
    reveal_strlit("cutoutTemplate");
    reveal_strlit("cutoutDifference");
    assert("candid"@.len() == 6 && "cutoutScience"@.len() == 13 && "cutoutTemplate"@.len() == 14
        && "cutoutDifference"@.len() == 16);
    if let Ok(Some(cutouts)) = retrieved {
        if let Body::Json(body) = reply.body {
            if let Some(Payload::Object(object)) = body.data {
                assert(facts_of(object).dom() =~= set![
                    "candid"@,
                    "cutoutScience"@,
                    "cutoutTemplate"@,
                    "cutoutDifference"@,
                ]);
            }
        }
    }
}

}
