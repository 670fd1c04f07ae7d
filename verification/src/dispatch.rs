//! The webhook dispatcher: which response a request gets.
//!
//! A request is handled in two steps. `handle` looks at the path, the
//! headers and the advertised body length alone and either answers at once
//! (health check, ping, oversized push, unknown event) or asks the caller to
//! read the body. For a push body that was read, `handle_push_event` parses
//! and checks the payload and produces the response and the log line.

use vstd::prelude::*;
use crate::github::{
    header_or_empty, spec_header_or_empty, spec_push_shape, HeaderField, PushEvent, RequestParts,
};
use crate::json::{
    escape_chars, parse_json, spec_escape, spec_parse_text, spec_pretty, to_pretty,
};
use crate::{
    MAX_PUSH_BODY_LEN, STATUS_INTERNAL_ERROR, STATUS_NOT_IMPLEMENTED, STATUS_OK,
    STATUS_PAYLOAD_TOO_LARGE,
};

verus! {

/// A response of the endpoint: a status code and a body.
pub struct HttpResponse {
    pub status: u16,
    pub body: String,
}

/// What the dispatcher decides from the request's head alone.
pub enum Dispatch {
    /// Answer at once, without reading the body.
    Respond(HttpResponse),
    /// A push delivery within the size limit: read the body, then call
    /// `handle_push_event` with it.
    ReadPushBody,
}

/// The decision in mathematical form.
pub enum Step {
    Respond(u16, Seq<char>),
    ReadPushBody,
}

/// The paths answered as health checks.
pub open spec fn spec_is_health(path: Seq<char>) -> bool {
    path == "/status"@ || path == "/healthchekc"@
}

/// The health-check body.
pub open spec fn spec_health_body() -> Seq<char> {
    "{\"status\":\"ok\"}"@
}

/// The body naming an event the endpoint does not implement.
pub open spec fn spec_unsupported_body(event: Seq<char>) -> Seq<char> {
    "{\"error\":\"not supported\",\"event\":\""@ + spec_escape(event) + "\"}"@
}

/// What the dispatcher answers, from the path, the headers and the
/// advertised body length: health checks and pings get 200, a push over the
/// size limit gets 413, a push within it has its body read, and every other
/// event name gets 501 with a body naming it.
pub open spec fn spec_handle(
    path: Seq<char>,
    headers: Seq<HeaderField>,
    upper: Option<u64>,
) -> Step {
    if spec_is_health(path) {
        Step::Respond(STATUS_OK, spec_health_body())
    } else {
        let event = spec_header_or_empty(headers, "x-github-event"@);
        if event == "ping"@ {
            Step::Respond(STATUS_OK, Seq::empty())
        } else if event == "push"@ {
            match upper {
                Some(u) => if u > MAX_PUSH_BODY_LEN {
                    Step::Respond(STATUS_PAYLOAD_TOO_LARGE, Seq::empty())
                } else {
                    Step::ReadPushBody
                },
                None => Step::ReadPushBody,
            }
        } else {
            Step::Respond(STATUS_NOT_IMPLEMENTED, spec_unsupported_body(event))
        }
    }
}

/// The status and log line a push body leads to: 200 and the payload's
/// pretty rendering when the body is one valid JSON document of the push
/// shape, else 500 and no log line.
pub open spec fn spec_push_outcome(b: Seq<char>) -> (u16, Option<Seq<char>>) {
    match spec_parse_text(b) {
        Some(j) => if spec_push_shape(j) {
            (STATUS_OK, Some(spec_pretty(j, Seq::empty())))
        } else {
            (STATUS_INTERNAL_ERROR, None)
        },
        None => (STATUS_INTERNAL_ERROR, None),
    }
}

/// Relies on str::chars: iterating a string yields exactly its characters,
/// in order.
#[verifier::external_body]
fn text_chars(s: &str) -> (r: Vec<char>)
    ensures
        r@ == s@,
{
    s.chars().collect()
}

/// Relies on String's FromIterator over char: collecting characters yields
/// the string of exactly those characters, in order.
#[verifier::external_body]
fn chars_text(v: &Vec<char>) -> (r: String)
    ensures
        r@ == v@,
{
    v.iter().collect()
}

fn build_unsupported_body(event: &String) -> (r: String)
    ensures
        r@ == spec_unsupported_body(event@),
{
    let ev = text_chars(event.as_str());
    let escaped = escape_chars(&ev);
    let escaped_text = chars_text(&escaped);
    let mut body = String::from_str("{\"error\":\"not supported\",\"event\":\"");
    body.append(escaped_text.as_str());
    body.append("\"}");
    body
}

/// Decide a request from its head: answer it, or ask for the push body.
pub fn handle(parts: &RequestParts, body_upper: Option<u64>) -> (d: Dispatch)
    ensures
        match d {
            Dispatch::Respond(r) => spec_handle(parts.path@, parts.headers@, body_upper)
                == Step::Respond(r.status, r.body@),
            Dispatch::ReadPushBody => spec_handle(parts.path@, parts.headers@, body_upper)
                == Step::ReadPushBody,
        },
{
    if parts.path.eq(&String::from_str("/status")) || parts.path.eq(
        &String::from_str("/healthchekc"),
    ) {
        return Dispatch::Respond(
            HttpResponse { status: STATUS_OK, body: String::from_str("{\"status\":\"ok\"}") },
        );
    }
    let event = header_or_empty(&parts.headers, &String::from_str("x-github-event"));
    if event.eq(&String::from_str("ping")) {
        Dispatch::Respond(HttpResponse { status: STATUS_OK, body: String::new() })
    } else if event.eq(&String::from_str("push")) {
        match body_upper {
            Some(u) => if u > MAX_PUSH_BODY_LEN {
                Dispatch::Respond(
                    HttpResponse { status: STATUS_PAYLOAD_TOO_LARGE, body: String::new() },
                )
            } else {
                Dispatch::ReadPushBody
            },
            None => Dispatch::ReadPushBody,
        }
    } else {
        Dispatch::Respond(
            HttpResponse {
                status: STATUS_NOT_IMPLEMENTED,
                body: build_unsupported_body(&event),
            },
        )
    }
}

/// Handle the body of a push delivery that was within the size limit: parse
/// it, check the payload's shape, and return the response and the line to
/// log.
pub fn handle_push_event(body: &Vec<char>) -> (r: (HttpResponse, Option<String>))
    ensures
        r.0.status == spec_push_outcome(body@).0,
        r.0.body@ == Seq::<char>::empty(),
        match r.1 {
            Some(log) => spec_push_outcome(body@).1 == Some(log@),
            None => spec_push_outcome(body@).1 is None,
        },
{
    match parse_json(body) {
        Some(v) => {
            match PushEvent::from_json(&v) {
                Some(_) => {
                    let pretty = to_pretty(&v);
                    let log = chars_text(&pretty);
                    (HttpResponse { status: STATUS_OK, body: String::new() }, Some(log))
                },
                None => (
                    HttpResponse { status: STATUS_INTERNAL_ERROR, body: String::new() },
                    None,
                ),
            }
        },
        None => (HttpResponse { status: STATUS_INTERNAL_ERROR, body: String::new() }, None),
    }
}

/// The opaque answer for a failure while reading or decoding the body: 500,
/// empty body, nothing said of the cause.
pub fn internal_error_response() -> (r: HttpResponse)
    ensures
        r.status == STATUS_INTERNAL_ERROR,
        r.body@ == Seq::<char>::empty(),
{
    HttpResponse { status: STATUS_INTERNAL_ERROR, body: String::new() }
}

/// A health-check request is answered 200 with the status body, whatever
/// headers it carries and whatever body length it advertises.
pub proof fn lemma_health_check_response(
    path: Seq<char>,
    headers: Seq<HeaderField>,
    upper: Option<u64>,
)
    requires
        spec_is_health(path),
    ensures
        spec_handle(path, headers, upper) == Step::Respond(STATUS_OK, spec_health_body()),
{
}

/// A ping delivery is answered 200 with an empty body, whatever body length
/// it advertises: the body is never asked for.
pub proof fn lemma_ping_response(path: Seq<char>, headers: Seq<HeaderField>, upper: Option<u64>)
    requires
        !spec_is_health(path),
        spec_header_or_empty(headers, "x-github-event"@) == "ping"@,
    ensures
        spec_handle(path, headers, upper) == Step::Respond(STATUS_OK, Seq::<char>::empty()),
{
}

/// A delivery whose event name is neither ping nor push, the empty name of
/// a missing header included, is answered 501, the body naming the event.
pub proof fn lemma_unsupported_event_response(
    path: Seq<char>,
    headers: Seq<HeaderField>,
    upper: Option<u64>,
)
    requires
        !spec_is_health(path),
        spec_header_or_empty(headers, "x-github-event"@) != "ping"@,
        spec_header_or_empty(headers, "x-github-event"@) != "push"@,
    ensures
        spec_handle(path, headers, upper) == Step::Respond(
            STATUS_NOT_IMPLEMENTED,
            spec_unsupported_body(spec_header_or_empty(headers, "x-github-event"@)),
        ),
{
}

/// A push delivery whose advertised body length is over the limit is
/// answered 413 with an empty body: the body is never asked for.
pub proof fn lemma_oversized_push_response(path: Seq<char>, headers: Seq<HeaderField>, u: u64)
    requires
        !spec_is_health(path),
        spec_header_or_empty(headers, "x-github-event"@) == "push"@,
        u > MAX_PUSH_BODY_LEN,
    ensures
        spec_handle(path, headers, Some(u)) == Step::Respond(
            STATUS_PAYLOAD_TOO_LARGE,
            Seq::<char>::empty(),
        ),
{
    reveal_strlit("ping");
    reveal_strlit("push");
    assert("push"@[1] == 'u');
    assert("ping"@[1] == 'i');
    assert("push"@ != "ping"@);
}

/// A push body that parses to a well-shaped payload is answered 200, and the
/// log line is exactly the payload's pretty rendering.
pub proof fn lemma_good_push_body(b: Seq<char>)
    requires
        spec_parse_text(b) is Some,
        spec_push_shape(spec_parse_text(b).unwrap()),
    ensures
        spec_push_outcome(b) == (
            STATUS_OK,
            Some(spec_pretty(spec_parse_text(b).unwrap(), Seq::<char>::empty())),
        ),
{
}

/// A push body that is not one valid JSON document, or whose payload lacks a
/// required field or gives one the wrong type, is answered 500 with an empty
/// body, and nothing is logged.
pub proof fn lemma_bad_push_body(b: Seq<char>)
    requires
        spec_parse_text(b) is None || !spec_push_shape(spec_parse_text(b).unwrap()),
    ensures
        spec_push_outcome(b) == (STATUS_INTERNAL_ERROR, None::<Seq<char>>),
{
}

/// Answering a health check or a ping touches no state: the answer is a
/// function of the path and the headers alone, so two deliveries of the same
/// request get identical responses, whatever body lengths they advertise.
pub proof fn lemma_ping_health_idempotent(
    path: Seq<char>,
    headers: Seq<HeaderField>,
    u1: Option<u64>,
    u2: Option<u64>,
)
    requires
        spec_is_health(path) || spec_header_or_empty(headers, "x-github-event"@) == "ping"@,
    ensures
        spec_handle(path, headers, u1) == spec_handle(path, headers, u2),
{
}

} // verus!
