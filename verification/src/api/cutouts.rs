//! The cutout images of an alert.
use base64::Engine;
use vstd::prelude::*;

use crate::api::alerts::{alerts_collection, collection_of, documents_failed};
use crate::api::response::{
    bad_request, error_answer, internal_error, not_found, ok_object, unauthorized,
    unauthorized_answer, Answer, Payload, Reply,
};
use crate::document::{only, Bson, Document, Node};
use crate::json::{empty_object, facts_of, no_facts, set_property, Fact, Property};
use crate::named::{lookup, put, what_was_set_is_read_back};
use crate::text::{join3, signed_decimal, write_i64};
use crate::utils::enums::Survey;
use crate::utils::lightcurves::Band;

verus! {

/// Which alert of an object is wanted.
#[derive(Clone, Copy, Debug, PartialEq, Eq, Structural)]
pub enum WhichCutouts {
    First,
    Last,
    Brightest,
    Faintest,
}

#[derive(Debug)]
pub struct CutoutQuery {
    pub candid: Option<i64>,
    pub object_id: Option<String>,
    pub which: Option<WhichCutouts>,
    pub band: Option<Band>,
}

/// The images of one alert.
#[derive(Debug)]
pub struct CutoutSet {
    pub cutout_science: Vec<u8>,
    pub cutout_template: Vec<u8>,
    pub cutout_difference: Vec<u8>,
}

/// A search for the alert whose images are wanted.
#[derive(Debug)]
pub struct AlertSearch {
    pub collection: String,
    pub filter: Document,
    pub sort: Document,
    pub projection: Document,
}

/// How the images are found: directly, or by the alert of an object.
#[derive(Debug)]
pub enum CutoutPlan {
    ByCandid(i64),
    ByObject(AlertSearch),
}

/// The character for a group of six bits.
pub open spec fn sextet(n: int) -> char {
    (if n < 26 {
        65 + n
    } else if n < 52 {
        97 + (n - 26)
    } else if n < 62 {
        48 + (n - 52)
    } else if n == 62 {
        43
    } else {
        47
    }) as u32 as char
}

/// The four characters for three bytes.
pub open spec fn quartet(a: int, b: int, c: int) -> Seq<char> {
    seq![sextet(a / 4), sextet(a % 4 * 16 + b / 16), sextet(b % 16 * 4 + c / 64), sextet(c % 64)]
}

/// Bytes in base64: four characters for every three of them, and padding in place of
/// the characters for bytes that are missing at the end.
pub open spec fn base64_of(bytes: Seq<u8>) -> Seq<char>
    decreases bytes.len(),
{
    if bytes.len() == 0 {
        Seq::empty()
    } else if bytes.len() == 1 {
        quartet(bytes[0] as int, 0, 0).take(2) + seq!['=', '=']
    } else if bytes.len() == 2 {
        quartet(bytes[0] as int, bytes[1] as int, 0).take(3) + seq!['=']
    } else {
        quartet(bytes[0] as int, bytes[1] as int, bytes[2] as int) + base64_of(bytes.skip(3))
    }
}

/// `base64::Engine::encode` of the standard engine gives the bytes in base64 with the
/// standard alphabet and padding. Bytes so many that the length of the text does not
/// fit in a `usize` are left out.
#[verifier::external_body]
fn encode_base64(bytes: &Vec<u8>) -> (text: String)
    requires
        bytes@.len() <= usize::MAX / 2,
    ensures
        text@ == base64_of(bytes@),
{
    base64::engine::general_purpose::STANDARD.encode(bytes)
}

/// What the alerts of an object are sorted by, so that the wanted one comes first. The
/// lowest magnitude is the brightest.
pub open spec fn order_of(which: Option<WhichCutouts>) -> Seq<(Seq<char>, Node)> {
    match which {
        Some(WhichCutouts::First) => only("candidate.jd"@, Node::Int32(1)),
        Some(WhichCutouts::Last) => only("candidate.jd"@, Node::Int32((-1) as i32)),
        Some(WhichCutouts::Faintest) => only("candidate.magpsf"@, Node::Int32((-1) as i32)),
        _ => only("candidate.magpsf"@, Node::Int32(1)),
    }
}

/// The filter for the alerts of an object: of one band, if it is given, and only public
/// ones of ZTF.
pub open spec fn cutout_filter(
    survey: Survey,
    object_id: Seq<char>,
    band: Option<Band>,
) -> Seq<(Seq<char>, Node)> {
    let named = only("objectId"@, Node::Text(object_id));
    let banded = match band {
        Some(band) => put(named, "candidate.band"@, Node::Text(band.name())),
        None => named,
    };
    if survey == Survey::Ztf {
        put(banded, "candidate.programid"@, Node::Int32(1))
    } else {
        banded
    }
}

/// The answer to a query that is refused, or nothing for one that is run.
pub open spec fn cutouts_refusal(
    authenticated: bool,
    storage_available: bool,
    query: CutoutQuery,
) -> Option<Answer> {
    if !authenticated {
        Some(unauthorized_answer())
    } else if !storage_available {
        Some(error_answer(500, "cutout storage not available for this survey"@))
    } else if query.candid is None && query.object_id is None {
        Some(error_answer(400, "candid or objectId query parameter must be provided"@))
    } else {
        None
    }
}

/// Decides whether a query for images is run, and how. A candidate that is named
/// directly goes before an object.
pub fn get_cutouts(
    survey: Survey,
    authenticated: bool,
    storage_available: bool,
    query: &CutoutQuery,
) -> (plan: Result<CutoutPlan, Reply>)
    ensures
        match plan {
            Ok(plan) => {
                &&& cutouts_refusal(authenticated, storage_available, *query) is None
                &&& match plan {
                    CutoutPlan::ByCandid(candid) => query.candid == Some(candid),
                    CutoutPlan::ByObject(search) => {
                        &&& query.candid is None
                        &&& search.collection@ == alerts_collection(survey)
                        &&& search.filter@ == cutout_filter(
                            survey,
                            query.object_id->0@,
                            query.band,
                        )
                        &&& search.sort@ == order_of(query.which)
                        &&& search.projection@ == only("_id"@, Node::Int32(1))
                    },
                }
            },
            Err(reply) => cutouts_refusal(authenticated, storage_available, *query) == Some(reply@),
        },
{
    if !authenticated {
        return Err(unauthorized());
    }
    if !storage_available {
        return Err(internal_error("cutout storage not available for this survey"));
    }
    match query.candid {
        Some(candid) => {
            return Ok(CutoutPlan::ByCandid(candid));
        },
        None => {},
    }
    match &query.object_id {
        Some(object_id) => {
            let which: WhichCutouts = match query.which {
                Some(which) => which,
                None => WhichCutouts::Brightest,
            };
            let sort = match which {
                WhichCutouts::First => Document::new().with("candidate.jd", Bson::Int32(1)),
                WhichCutouts::Last => Document::new().with("candidate.jd", Bson::Int32(-1)),
                WhichCutouts::Brightest => Document::new().with(
                    "candidate.magpsf",
                    Bson::Int32(1),
                ),
                WhichCutouts::Faintest => Document::new().with(
                    "candidate.magpsf",
                    Bson::Int32(-1),
                ),
            };
            let mut filter = Document::new().with("objectId", Bson::text(object_id.as_str()));
            match query.band {
                Some(band) => {
                    filter.insert("candidate.band", Bson::text(band.as_str()));
                },
                None => {},
            }
            if survey == Survey::Ztf {
                filter.insert("candidate.programid", Bson::Int32(1));
            }
            Ok(
                CutoutPlan::ByObject(
                    AlertSearch {
                        collection: collection_of(survey),
                        filter,
                        sort,
                        projection: Document::new().with("_id", Bson::Int32(1)),
                    },
                ),
            )
        },
        None => Err(bad_request("candid or objectId query parameter must be provided")),
    }
}

/// The reply when an object has no alert.
pub fn no_alerts(object_id: &str) -> (reply: Reply)
    ensures
        reply@ == error_answer(404, "no alerts found for objectId "@ + object_id@),
{
    not_found("no alerts found for objectId ".to_string().concat(object_id).as_str())
}

/// The reply when an alert has no images.
pub fn no_cutouts(candid: i64, object_id: Option<&str>) -> (reply: Reply)
    ensures
        reply@ == error_answer(
            404,
            match object_id {
                Some(id) => "no cutouts found for objectId "@ + id@ + " (candid: "@
                    + signed_decimal(candid as int) + ")"@,
                None => "no cutouts found for candid "@ + signed_decimal(candid as int),
            },
        ),
{
    let number = write_i64(candid);
    match object_id {
        Some(id) => not_found(
            join3("no cutouts found for objectId ", id, " (candid: ").concat(
                number.as_str(),
            ).concat(")").as_str(),
        ),
        None => not_found(
            "no cutouts found for candid ".to_string().concat(number.as_str()).as_str(),
        ),
    }
}

/// The reply when the storage of images fails.
pub fn storage_failed() -> (reply: Reply)
    ensures
        reply@ == error_answer(500, "error retrieving cutouts from storage"@),
{
    internal_error("error retrieving cutouts from storage")
}

/// What is told of the images of an alert.
pub open spec fn cutout_facts(candid: i64, cutouts: CutoutSet) -> Map<Seq<char>, Fact> {
    no_facts().insert("candid"@, Fact::Number(candid as int)).insert(
        "cutoutScience"@,
        Fact::Text(base64_of(cutouts.cutout_science@)),
    ).insert("cutoutTemplate"@, Fact::Text(base64_of(cutouts.cutout_template@))).insert(
        "cutoutDifference"@,
        Fact::Text(base64_of(cutouts.cutout_difference@)),
    )
}

/// Whether images can be put in a reply.
pub open spec fn encodable(cutouts: CutoutSet) -> bool {
    &&& cutouts.cutout_science@.len() <= usize::MAX / 2
    &&& cutouts.cutout_template@.len() <= usize::MAX / 2
    &&& cutouts.cutout_difference@.len() <= usize::MAX / 2
}

/// The reply with the images of an alert.
pub fn cutouts_found(candid: i64, object_id: Option<&str>, cutouts: &CutoutSet) -> (reply: Reply)
    requires
        encodable(*cutouts),
    ensures
        reply@.status == 200,
        reply@.json,
        reply@.message == match object_id {
            Some(id) => "cutouts found for objectId: "@ + id@,
            None => "cutouts found for candid: "@ + signed_decimal(candid as int),
        },
        reply@.data matches Some(Payload::Object(object)) && facts_of(object) == cutout_facts(
            candid,
            *cutouts,
        ),
{
    let mut object = empty_object();
    set_property(&mut object, "candid", Property::Integer(candid));
    set_property(
        &mut object,
        "cutoutScience",
        Property::Text(encode_base64(&cutouts.cutout_science)),
    );
    set_property(
        &mut object,
        "cutoutTemplate",
        Property::Text(encode_base64(&cutouts.cutout_template)),
    );
    set_property(
        &mut object,
        "cutoutDifference",
        Property::Text(encode_base64(&cutouts.cutout_difference)),
    );
    let message = match object_id {
        Some(id) => "cutouts found for objectId: ".to_string().concat(id),
        None => "cutouts found for candid: ".to_string().concat(write_i64(candid).as_str()),
    };
    ok_object(message.as_str(), object)
}

/// The alert that a search for an object found, or the reply when it found none or failed.
pub fn alert_answer(object_id: &str, found: &Result<Option<i64>, String>) -> (candid: Result<
    i64,
    Reply,
>)
    ensures
        match *found {
            Ok(Some(at)) => candid == Ok::<i64, Reply>(at),
            Ok(None) => candid matches Err(reply) && reply@ == error_answer(
                404,
                "no alerts found for objectId "@ + object_id@,
            ),
            Err(error) => candid matches Err(reply) && reply@ == error_answer(
                500,
                "error getting documents: "@ + error@,
            ),
        },
{
    match found {
        Ok(Some(candid)) => Ok(*candid),
        Ok(None) => Err(no_alerts(object_id)),
        Err(error) => Err(documents_failed(error.as_str())),
    }
}

/// The reply to a query for images, by what the storage gave for an alert: the images,
/// none, or a failure.
pub fn cutouts_answer(
    candid: i64,
    object_id: Option<&str>,
    retrieved: Result<Option<CutoutSet>, ()>,
) -> (reply: Reply)
    requires
        retrieved matches Ok(Some(cutouts)) ==> encodable(cutouts),
    ensures
        match retrieved {
            Ok(Some(cutouts)) => {
                &&& reply@.status == 200
                &&& reply@.json
                &&& reply@.message == match object_id {
                    Some(id) => "cutouts found for objectId: "@ + id@,
                    None => "cutouts found for candid: "@ + signed_decimal(candid as int),
                }
                &&& reply@.data matches Some(Payload::Object(object)) && facts_of(object)
                    == cutout_facts(candid, cutouts)
            },
            Ok(None) => reply@ == error_answer(
                404,
                match object_id {
                    Some(id) => "no cutouts found for objectId "@ + id@ + " (candid: "@
                        + signed_decimal(candid as int) + ")"@,
                    None => "no cutouts found for candid "@ + signed_decimal(candid as int),
                },
            ),
            Err(_) => reply@ == error_answer(500, "error retrieving cutouts from storage"@),
        },
{
    match retrieved {
        Ok(Some(cutouts)) => cutouts_found(candid, object_id, &cutouts),
        Ok(None) => no_cutouts(candid, object_id),
        Err(_) => storage_failed(),
    }
}

/// A search for the images of a ZTF object looks at its public alerts alone.
pub proof fn only_public_ztf_cutouts_are_asked_for(object_id: Seq<char>, band: Option<Band>)
    ensures
        lookup(cutout_filter(Survey::Ztf, object_id, band), "candidate.programid"@) == Some(
            Node::Int32(1),
        ),
{
    let named = only("objectId"@, Node::Text(object_id));
    let banded = match band {
        Some(band) => put(named, "candidate.band"@, Node::Text(band.name())),
        None => named,
    };
    what_was_set_is_read_back(banded, "candidate.programid"@, Node::Int32(1));
}

}
