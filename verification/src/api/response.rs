//! The replies of the API.
use vstd::prelude::*;

verus! {

/// The data of a reply that carries some.
#[derive(Debug)]
pub enum Payload {
    Null,
    Value(serde_json::Value),
    Object(serde_json::Map<String, serde_json::Value>),
}

/// What a JSON reply says. A reply without data leaves the field out.
#[derive(Debug)]
pub struct ApiResponseBody {
    pub message: String,
    pub data: Option<Payload>,
}

#[derive(Debug)]
pub enum Body {
    Plain(String),
    Json(ApiResponseBody),
}

#[derive(Debug)]
pub struct Reply {
    pub status: u16,
    pub body: Body,
}

/// What a reply tells the client.
pub struct Answer {
    pub status: u16,
    /// Whether it is a JSON object, or plain text.
    pub json: bool,
    pub message: Seq<char>,
    pub data: Option<Payload>,
}

/// A JSON reply without data.
pub open spec fn error_answer(status: u16, message: Seq<char>) -> Answer {
    Answer { status, json: true, message, data: None }
}

/// The reply to a caller who is not logged in.
pub open spec fn unauthorized_answer() -> Answer {
    Answer { status: 401, json: false, message: "Unauthorized"@, data: None }
}

impl Reply {
    pub open spec fn view(&self) -> Answer {
        match self.body {
            Body::Plain(text) => Answer {
                status: self.status,
                json: false,
                message: text@,
                data: None,
            },
            Body::Json(body) => Answer {
                status: self.status,
                json: true,
                message: body.message@,
                data: body.data,
            },
        }
    }
}

impl ApiResponseBody {
    pub fn ok(message: &str, data: serde_json::Value) -> (body: ApiResponseBody)
        ensures
            body.message@ == message@,
            body.data == Some(Payload::Value(data)),
    {
        ApiResponseBody { message: message.to_string(), data: Some(Payload::Value(data)) }
    }

    pub fn error(message: &str) -> (body: ApiResponseBody)
        ensures
            body.message@ == message@,
            body.data is None,
    {
        ApiResponseBody { message: message.to_string(), data: None }
    }
}

fn failure(status: u16, message: &str) -> (reply: Reply)
    ensures
        reply@ == error_answer(status, message@),
{
    Reply { status, body: Body::Json(ApiResponseBody::error(message)) }
}

pub fn ok(message: &str, data: serde_json::Value) -> (reply: Reply)
    ensures
        reply@ == (Answer {
            status: 200,
            json: true,
            message: message@,
            data: Some(Payload::Value(data)),
        }),
{
    Reply { status: 200, body: Body::Json(ApiResponseBody::ok(message, data)) }
}

pub fn ok_no_data(message: &str) -> (reply: Reply)
    ensures
        reply@ == (Answer { status: 200, json: true, message: message@, data: Some(Payload::Null) }),
{
    Reply {
        status: 200,
        body: Body::Json(
            ApiResponseBody { message: message.to_string(), data: Some(Payload::Null) },
        ),
    }
}

pub fn ok_object(
    message: &str,
    object: serde_json::Map<String, serde_json::Value>,
) -> (reply: Reply)
    ensures
        reply@ == (Answer {
            status: 200,
            json: true,
            message: message@,
            data: Some(Payload::Object(object)),
        }),
{
    Reply {
        status: 200,
        body: Body::Json(
            ApiResponseBody { message: message.to_string(), data: Some(Payload::Object(object)) },
        ),
    }
}

pub fn unauthorized() -> (reply: Reply)
    ensures
        reply@ == unauthorized_answer(),
{
    Reply { status: 401, body: Body::Plain("Unauthorized".to_string()) }
}

pub fn not_found(message: &str) -> (reply: Reply)
    ensures
        reply@ == error_answer(404, message@),
{
    failure(404, message)
}

pub fn internal_error(message: &str) -> (reply: Reply)
    ensures
        reply@ == error_answer(500, message@),
{
    failure(500, message)
}

pub fn bad_request(message: &str) -> (reply: Reply)
    ensures
        reply@ == error_answer(400, message@),
{
    failure(400, message)
}

pub fn request_timeout(message: &str) -> (reply: Reply)
    ensures
        reply@ == error_answer(408, message@),
{
    failure(408, message)
}

pub fn forbidden(message: &str) -> (reply: Reply)
    ensures
        reply@ == error_answer(403, message@),
{
    failure(403, message)
}

/// The reply for data that was turned into JSON, or could not be.
pub fn ok_ser(message: &str, data: Option<serde_json::Value>) -> (reply: Reply)
    ensures
        reply@ == match data {
            Some(data) => Answer {
                status: 200,
                json: true,
                message: message@,
                data: Some(Payload::Value(data)),
            },
            None => error_answer(500, "Failed to serialize response data"@),
        },
{
    match data {
        Some(data) => ok(message, data),
        None => internal_error("Failed to serialize response data"),
    }
}

}
