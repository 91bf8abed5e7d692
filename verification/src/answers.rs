//! What a request that is not passed through is answered.
use vstd::prelude::*;

use crate::json;
use crate::json::{empty_object, set_member, text_value, value_text, JsonView};
use crate::text;
use crate::text::{join, to_decimal};
use crate::time::{Duration, NANOS_PER_SEC};

verus! {

/// The error envelope: an object that holds one object, under `error`.
pub open spec fn envelope(code: Seq<char>, message: Seq<char>) -> JsonView {
    JsonView::Object(
        Map::empty().insert(
            "error"@,
            JsonView::Object(
                Map::empty().insert("message"@, JsonView::Text(message)).insert(
                    "type"@,
                    JsonView::Text("proxy_error"@),
                ).insert("code"@, JsonView::Text(code)),
            ),
        ),
    )
}

/// The event that ends a stream with an error.
pub open spec fn error_event(code: Seq<char>, message: Seq<char>) -> Seq<char> {
    "data: "@ + json::json_text(envelope(code, message)) + "\n\ndata: [DONE]\n\n"@
}

/// The error envelope.
pub fn proxy_error_json(code: &str, message: &str) -> (r: serde_json::Value)
    ensures
        json::value_content(r) == envelope(code@, message@),
{
    let mut inner = empty_object();
    set_member(&mut inner, "message", text_value(message));
    set_member(&mut inner, "type", text_value("proxy_error"));
    set_member(&mut inner, "code", text_value(code));
    let mut outer = empty_object();
    set_member(&mut outer, "error", inner);
    outer
}

/// The event that ends a stream with an error of a given code.
pub fn sse_error_with_code(code: &str, message: &str) -> (r: String)
    ensures
        r@ == error_event(code@, message@),
{
    let event = value_text(&proxy_error_json(code, message));
    let start = join("data: ", event.as_str());
    join(start.as_str(), "\n\ndata: [DONE]\n\n")
}

/// The event that ends a stream with an upstream error.
pub fn sse_error(message: &str) -> (r: String)
    ensures
        r@ == error_event("upstream_unavailable"@, message@),
{
    sse_error_with_code("upstream_unavailable", message)
}

/// A request that is refused, or that could not be served.
pub struct Refusal {
    pub status: u16,
    pub code: String,
    pub message: String,
    /// A header that goes with it.
    pub header: Option<(&'static str, &'static str)>,
}

/// What a refusal says.
pub struct RefusalView {
    pub status: u16,
    pub code: Seq<char>,
    pub message: Seq<char>,
}

impl View for Refusal {
    type V = RefusalView;

    open spec fn view(&self) -> RefusalView {
        RefusalView { status: self.status, code: self.code@, message: self.message@ }
    }
}

/// The refusal says this.
pub open spec fn says(r: Refusal, status: u16, code: Seq<char>, message: Seq<char>) -> bool {
    r.status == status && r.code@ == code && r.message@ == message
}

/// The refusal carries this header.
pub open spec fn carries(r: Refusal, name: Seq<char>, value: Seq<char>) -> bool {
    r.header matches Some((n, v)) && n@ == name && v@ == value
}

impl Refusal {
    pub fn new(status: u16, code: &str, message: &str) -> (r: Refusal)
        ensures
            says(r, status, code@, message@),
            r.header is None,
    {
        Refusal { status, code: code.to_owned(), message: message.to_owned(), header: None }
    }

    /// The body that goes with the refusal: the text of its envelope.
    pub fn body(&self) -> (r: String)
        ensures
            r@ == json::json_text(envelope(self.code@, self.message@)),
    {
        value_text(&proxy_error_json(self.code.as_str(), self.message.as_str()))
    }
}

/// No client key, or none that is known.
pub fn unauthorized() -> (r: Refusal)
    ensures
        says(
            r,
            401,
            "unauthorized"@,
            "missing or invalid proxy API key (Authorization: Bearer ...)"@,
        ),
        carries(r, "www-authenticate"@, "Bearer"@),
{
    let mut r = Refusal::new(
        401,
        "unauthorized",
        "missing or invalid proxy API key (Authorization: Bearer ...)",
    );
    r.header = Some(("www-authenticate", "Bearer"));
    r
}

/// A deadline header that says no deadline.
pub fn invalid_deadline() -> (r: Refusal)
    ensures
        says(
            r,
            400,
            "invalid_deadline"@,
            "X-Nim-Proxy-Deadline-Ms must be one unsigned decimal millisecond value"@,
        ),
        r.header is None,
{
    Refusal::new(
        400,
        "invalid_deadline",
        "X-Nim-Proxy-Deadline-Ms must be one unsigned decimal millisecond value",
    )
}

/// The request's own deadline has passed.
pub fn deadline_exceeded() -> (r: Refusal)
    ensures
        says(r, 504, "deadline_exceeded"@, "proxy request deadline exceeded"@),
        r.header is None,
{
    Refusal::new(504, "deadline_exceeded", "proxy request deadline exceeded")
}

/// The message of a proxy that has as many requests in flight as it takes.
pub open spec fn overloaded_message(max_inflight: usize) -> Seq<char> {
    "proxy at capacity ("@ + text::decimal(max_inflight as nat)
        + " concurrent requests); retry shortly"@
}

/// The proxy has as many requests in flight as it takes.
pub fn overloaded(max_inflight: usize) -> (r: Refusal)
    ensures
        says(r, 503, "overloaded"@, overloaded_message(max_inflight)),
        carries(r, "retry-after"@, "5"@),
{
    let n = to_decimal(max_inflight as u128);
    let start = join("proxy at capacity (", n.as_str());
    let message = join(start.as_str(), " concurrent requests); retry shortly");
    let mut r = Refusal::new(503, "overloaded", message.as_str());
    r.header = Some(("retry-after", "5"));
    r
}

/// The upstream's answer broke off.
pub fn bad_gateway() -> (r: Refusal)
    ensures
        says(r, 502, "bad_gateway"@, "upstream response failed or timed out"@),
        r.header is None,
{
    Refusal::new(502, "bad_gateway", "upstream response failed or timed out")
}

/// The message of a request that waited for a slot in vain.
pub open spec fn timeout_message(max_wait: Duration, keys: usize) -> Seq<char> {
    "no upstream slot became available within "@ + text::decimal(
        (max_wait.nanos / NANOS_PER_SEC) as nat,
    ) + "s (all "@ + text::decimal(keys as nat) + " keys saturated)"@
}

/// No slot came free in time.
pub fn gateway_timeout(max_wait: Duration, keys: usize) -> (r: Refusal)
    ensures
        says(r, 504, "rate_limited"@, timeout_message(max_wait, keys)),
        r.header is None,
{
    let secs = to_decimal(max_wait.as_secs());
    let n = to_decimal(keys as u128);
    let a = join("no upstream slot became available within ", secs.as_str());
    let b = join(a.as_str(), "s (all ");
    let c = join(b.as_str(), n.as_str());
    let message = join(c.as_str(), " keys saturated)");
    Refusal::new(504, "rate_limited", message.as_str())
}

/// The headers that harden every answer. Pages may run their own scripts and
/// styles and load logos and fonts, but connect to nothing but the proxy.
pub fn security_headers() -> (r: Vec<(&'static str, &'static str)>)
    ensures
        r@.len() == 4,
        r@[0].0@ == "content-security-policy"@,
        r@[0].1@
            == "default-src 'none'; img-src 'self' https://unpkg.com data:; style-src 'self' 'unsafe-inline' https://fonts.googleapis.com; font-src https://fonts.gstatic.com; script-src 'self' 'unsafe-inline'; connect-src 'self'; frame-ancestors 'none'; base-uri 'none'; form-action 'self'"@,
        r@[1].0@ == "x-content-type-options"@,
        r@[1].1@ == "nosniff"@,
        r@[2].0@ == "x-frame-options"@,
        r@[2].1@ == "DENY"@,
        r@[3].0@ == "referrer-policy"@,
        r@[3].1@ == "no-referrer"@,
{
    let mut headers: Vec<(&'static str, &'static str)> = Vec::new();
    headers.push(
        (
            "content-security-policy",
            "default-src 'none'; img-src 'self' https://unpkg.com data:; style-src 'self' 'unsafe-inline' https://fonts.googleapis.com; font-src https://fonts.gstatic.com; script-src 'self' 'unsafe-inline'; connect-src 'self'; frame-ancestors 'none'; base-uri 'none'; form-action 'self'",
        ),
    );
    headers.push(("x-content-type-options", "nosniff"));
    headers.push(("x-frame-options", "DENY"));
    headers.push(("referrer-policy", "no-referrer"));
    headers
}

// ---------------------------------------------------------------------------
// Laws
// ---------------------------------------------------------------------------
/// The document tells of an error with this code and this message, and of nothing
/// else: an object that holds, under `error`, an object with the message, the one
/// type, and the code.
pub open spec fn tells(v: JsonView, code: Seq<char>, message: Seq<char>) -> bool {
    &&& v matches JsonView::Object(outer)
    &&& outer.dom() == set!["error"@]
    &&& outer["error"@] matches JsonView::Object(inner)
    &&& inner.dom() == set!["message"@, "type"@, "code"@]
    &&& inner["message"@] == JsonView::Text(message)
    &&& inner["type"@] == JsonView::Text("proxy_error"@)
    &&& inner["code"@] == JsonView::Text(code)
}

proof fn an_envelope_tells(code: Seq<char>, message: Seq<char>)
    ensures
        tells(envelope(code, message), code, message),
{
    reveal_strlit("message");
    reveal_strlit("type");
    reveal_strlit("code");
    assert("message"@.len() == 7 && "type"@.len() == 4 && "code"@.len() == 4);
    assert("type"@[0] == 't' && "code"@[0] == 'c');
    let outer = envelope(code, message)->Object_0;
    assert(outer.dom() =~= set!["error"@]);
    let inner = outer["error"@]->Object_0;
    assert(inner.dom() =~= set!["message"@, "type"@, "code"@]);
}

/// Errors are told in one shape: as a body, as a value, and as the event that ends
/// a stream, which is followed by the event that says it is done.
pub proof fn errors_are_told_in_one_shape(
    code: &str,
    message: &str,
    v: serde_json::Value,
    event: String,
    plain: String,
    refusal: &Refusal,
    body: String,
) -> (told: (JsonView, JsonView))
    requires
        call_ensures(proxy_error_json, (code, message), v),
        call_ensures(sse_error_with_code, (code, message), event),
        call_ensures(sse_error, (message,), plain),
        call_ensures(Refusal::body, (refusal,), body),
        refusal.code@ == code@,
        refusal.message@ == message@,
    ensures
        told.0 == json::value_content(v),
        tells(told.0, code@, message@),
        tells(told.1, "upstream_unavailable"@, message@),
        event@ == "data: "@ + json::json_text(told.0) + "\n\ndata: [DONE]\n\n"@,
        plain@ == "data: "@ + json::json_text(told.1) + "\n\ndata: [DONE]\n\n"@,
        body@ == json::json_text(told.0),
{
    an_envelope_tells(code@, message@);
    an_envelope_tells("upstream_unavailable"@, message@);
    (envelope(code@, message@), envelope("upstream_unavailable"@, message@))
}

/// Each refusal has its own status and code, and says what it is about; those that
/// tell the client what to do carry a header for it, and no other does.
pub proof fn each_refusal_has_its_own_status(
    max_inflight: usize,
    max_wait: Duration,
    keys: usize,
    unknown: Refusal,
    deadline: Refusal,
    late: Refusal,
    busy: Refusal,
    broken: Refusal,
    timeout: Refusal,
)
    requires
        call_ensures(unauthorized, (), unknown),
        call_ensures(invalid_deadline, (), deadline),
        call_ensures(deadline_exceeded, (), late),
        call_ensures(overloaded, (max_inflight,), busy),
        call_ensures(bad_gateway, (), broken),
        call_ensures(gateway_timeout, (max_wait, keys), timeout),
    ensures
        unknown.status == 401 && unknown.code@ == "unauthorized"@ && unknown.message@
            == "missing or invalid proxy API key (Authorization: Bearer ...)"@ && (
        unknown.header matches Some((n, v)) && n@ == "www-authenticate"@ && v@ == "Bearer"@),
        deadline.status == 400 && deadline.code@ == "invalid_deadline"@ && deadline.message@
            == "X-Nim-Proxy-Deadline-Ms must be one unsigned decimal millisecond value"@
            && deadline.header is None,
        late.status == 504 && late.code@ == "deadline_exceeded"@ && late.message@
            == "proxy request deadline exceeded"@ && late.header is None,
        busy.status == 503 && busy.code@ == "overloaded"@ && busy.message@ == "proxy at capacity ("@
            + text::decimal(max_inflight as nat) + " concurrent requests); retry shortly"@ && (
        busy.header matches Some((n, v)) && n@ == "retry-after"@ && v@ == "5"@),
        broken.status == 502 && broken.code@ == "bad_gateway"@ && broken.message@
            == "upstream response failed or timed out"@ && broken.header is None,
        timeout.status == 504 && timeout.code@ == "rate_limited"@ && timeout.message@
            == "no upstream slot became available within "@ + text::decimal(
            (max_wait.nanos / 1_000_000_000) as nat,
        ) + "s (all "@ + text::decimal(keys as nat) + " keys saturated)"@ && timeout.header is None,
{
}

/// Every answer forbids being framed, being sniffed for another type, and telling
/// where a link was followed from; and a page may connect to nothing but the proxy.
pub proof fn every_answer_is_hardened(headers: Vec<(&'static str, &'static str)>)
    requires
        call_ensures(security_headers, (), headers),
    ensures
        headers@.len() == 4,
        headers@[0].0@ == "content-security-policy"@,
        headers@[0].1@
            == "default-src 'none'; img-src 'self' https://unpkg.com data:; style-src 'self' 'unsafe-inline' https://fonts.googleapis.com; font-src https://fonts.gstatic.com; script-src 'self' 'unsafe-inline'; connect-src 'self'; frame-ancestors 'none'; base-uri 'none'; form-action 'self'"@,
        headers@[1].0@ == "x-content-type-options"@ && headers@[1].1@ == "nosniff"@,
        headers@[2].0@ == "x-frame-options"@ && headers@[2].1@ == "DENY"@,
        headers@[3].0@ == "referrer-policy"@ && headers@[3].1@ == "no-referrer"@,
{
}

/// A refusal says what it is made with, and carries no header unless it is given one.
pub proof fn a_refusal_says_what_it_is_made_with(
    status: u16,
    code: &str,
    message: &str,
    r: Refusal,
)
    requires
        call_ensures(Refusal::new, (status, code, message), r),
    ensures
        r.status == status,
        r.code@ == code@,
        r.message@ == message@,
        r.header is None,
{
}

} // verus!
