//! How a failed database query is answered.
use vstd::prelude::*;

use crate::api::response::{bad_request, error_answer, internal_error, request_timeout, Reply};
use crate::text::join3;

verus! {

/// The database's code for an operation that ran past its time budget.
pub const MAX_TIME_MS_EXPIRED: i32 = 50;

/// Why a query failed.
#[derive(Debug)]
pub enum QueryFailure {
    /// The server understood the query and rejected it.
    Command { code: i32, message: String },
    /// Anything else: I/O, server selection, deserialization.
    Other { description: String },
}

/// Answers a query that failed. What the caller sent wrong is a bad request, so
/// that a client does not retry it; what ran out of time is a timeout; the rest
/// is an error of the service.
pub fn query_error(error: &QueryFailure, context: &str) -> (reply: Reply)
    ensures
        reply@ == match *error {
            QueryFailure::Command { code, message } => if code == MAX_TIME_MS_EXPIRED {
                error_answer(
                    408,
                    "query exceeded max_time_ms: narrow the filter, add a limit, or raise the budget"@,
                )
            } else {
                error_answer(400, context@ + ": "@ + message@)
            },
            QueryFailure::Other { description } => error_answer(
                500,
                context@ + ": "@ + description@,
            ),
        },
{
    match error {
        QueryFailure::Command { code, message } => {
            if *code == MAX_TIME_MS_EXPIRED {
                return request_timeout(
                    "query exceeded max_time_ms: narrow the filter, add a limit, or raise the budget",
                );
            }
            bad_request(join3(context, ": ", message.as_str()).as_str())
        },
        QueryFailure::Other { description } => internal_error(
            join3(context, ": ", description.as_str()).as_str(),
        ),
    }
}

}
