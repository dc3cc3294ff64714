//! What the gateway answers once the backend has answered.

use vstd::prelude::*;

verus! {

/// The text that precedes a transport error's description.
pub const FORWARD_ERROR_PREFIX: &'static str = "Error forwarding request: ";

/// The HTTP status of a transport failure.
pub const INTERNAL_ERROR_STATUS: u16 = 500;

/// A status in the 2xx range.
pub open spec fn is_success(status: u16) -> bool {
    200 <= status < 300
}

/// How the gateway answers a backend response.
#[derive(Debug, PartialEq, Eq, Structural)]
pub enum ResponsePlan {
    /// Hand the backend's status and body back unchanged.
    PassThrough(u16),
    /// Transcode the backend's event stream into NDJSON records.
    Stream,
    /// Aggregate the backend's body into one JSON record.
    Aggregate,
}

/// Decides how to answer a backend response with `status` to a request that
/// asked for streaming or not.
pub fn plan_response(status: u16, stream: bool) -> (r: ResponsePlan)
    ensures
        !is_success(status) ==> r == ResponsePlan::PassThrough(status),
        is_success(status) && stream ==> r == ResponsePlan::Stream,
        is_success(status) && !stream ==> r == ResponsePlan::Aggregate,
{
    if status < 200 || status >= 300 {
        ResponsePlan::PassThrough(status)
    } else if stream {
        ResponsePlan::Stream
    } else {
        ResponsePlan::Aggregate
    }
}

/// The body of the 500 answer to a backend that could not be reached.
pub fn transport_error_body(detail: &str) -> (r: String)
    ensures
        r@ == FORWARD_ERROR_PREFIX@ + detail@,
        r@.len() > 0,
{
    proof {
        reveal_strlit("Error forwarding request: ");
    }
    let mut body: String = FORWARD_ERROR_PREFIX.to_owned();
    body.append(detail);
    body
}

} // verus!
