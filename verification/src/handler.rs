//! The request handler: what to do with a request, and how failures are
//! answered.

use crate::auth::{admits, check_auth};
use crate::buffered::{buffered_response, handle_buffered_response, LambdaResponse};
use crate::codec::{alb_event, decoded_body, encode_request, opt_str, sends_base64, AlbEvent};
use crate::config::{Config, LambdaInvokeMode};
use crate::encoding::{base64_bytes, encodable_len};
use crate::error::{error_status, GatewayError};
use crate::message::{
    bare_response, header_views, is_valid_status, sendable, Header, HttpResponse,
    HttpResponseView,
};
use crate::payload::event_json;
use crate::string_map::pair_texts;
use crate::text::utf8_lossy;
use vstd::prelude::*;
use vstd::utf8::valid_utf8;

verus! {

/// An invocation to perform.
#[derive(Clone, Debug)]
pub struct Invocation {
    /// Name of the Lambda function.
    pub function_name: String,
    /// Buffered or streamed.
    pub mode: LambdaInvokeMode,
    /// The event of the request.
    pub event: AlbEvent,
    /// The payload to send: the event as JSON.
    pub payload: String,
}

/// What the handler decides for a request.
#[derive(Clone, Debug)]
pub enum Decision {
    /// Answer with this response; the Lambda function is not invoked.
    Reject(HttpResponse),
    /// Invoke the Lambda function.
    Invoke(Invocation),
}

/// Answers the health check: status 200, no body, whatever the
/// configuration says.
pub fn health() -> (response: HttpResponse)
    ensures
        response@ == bare_response(200),
{
    HttpResponse::empty(200)
}

/// Handles one request: builds its event, checks its credential, and decides.
///
/// A request that is turned away is answered with status 401 and an
/// empty body, and nothing is invoked. Every other request leads to one
/// invocation of the configured function, in the configured mode, with the
/// event of the request, written as JSON, as payload. `captured` is what
/// the route captured after the leading `/`, `None` on the root route.
pub fn handler(
    config: &Config,
    captured: Option<&str>,
    query: &Vec<(String, String)>,
    method: &str,
    headers: &Vec<Header>,
    body: &[u8],
) -> (decision: Decision)
    requires
        sends_base64(header_views(headers@)) ==> encodable_len(body@.len()),
    ensures
        !admits(config@, header_views(headers@)) ==> (decision matches Decision::Reject(r) && r@
            == bare_response(401)),
        admits(config@, header_views(headers@)) ==> {
            &&& decision matches Decision::Invoke(call)
            &&& call.function_name@ == config@.lambda_function_name
            &&& call.mode == config@.lambda_invoke_mode
            &&& call.event@ == alb_event(
                method@,
                opt_str(captured),
                pair_texts(query@),
                header_views(headers@),
                body@,
            )
            &&& call.payload@ == event_json(call.event)
            &&& call.event@.is_base64_encoded ==> base64_bytes(call.event@.body) == Some(body@)
            &&& !call.event@.is_base64_encoded ==> call.event@.body == utf8_lossy(body@)
            &&& call.event@.is_base64_encoded || valid_utf8(body@) ==> decoded_body(
                call.event@.body,
                call.event@.is_base64_encoded,
            ) == Some(body@)
        },
{
    let event = encode_request(method, captured, query, headers, body);
    match check_auth(config, headers) {
        Err(_) => Decision::Reject(HttpResponse::empty(401)),
        Ok(()) => {
            let payload = event.to_json();
            Decision::Invoke(
                Invocation {
                    function_name: config.lambda_function_name.clone(),
                    mode: config.lambda_invoke_mode,
                    event,
                    payload,
                },
            )
        },
    }
}

/// The response that answers an error, for the errors that are answered
/// with one: its status and an empty body.
pub fn error_response(error: GatewayError) -> (response: Option<HttpResponse>)
    ensures
        match error_status(error) {
            Some(status) => response matches Some(r) && r@ == bare_response(status),
            None => response is None,
        },
{
    match error.status() {
        Some(status) => Some(HttpResponse::empty(status)),
        None => None,
    }
}

/// Answers a request whose invocation could not be started: status 502,
/// no body.
pub fn respond_unavailable() -> (response: HttpResponse)
    ensures
        Some(response@.status) == error_status(GatewayError::UpstreamUnavailable),
        response@ == bare_response(502),
{
    HttpResponse::empty(502)
}

/// The response to the client for a buffered reply, failures included.
pub open spec fn buffered_reply_response(reply: Option<LambdaResponse>) -> HttpResponseView {
    match buffered_response(reply) {
        Ok(response) => response,
        Err(_) => bare_response(502),
    }
}

/// Builds the response to the client from a buffered reply. A reply that
/// is missing or malformed is answered with status 502 and an empty body.
pub fn respond_buffered(reply: Option<LambdaResponse>) -> (response: HttpResponse)
    ensures
        response@ == buffered_reply_response(reply),
        is_valid_status(response@.status),
        sendable(response@.headers),
{
    match handle_buffered_response(reply) {
        Ok(response) => response,
        Err(_) => HttpResponse::empty(502),
    }
}

} // verus!
