//! Upstream answers that are handed back: the cached model catalog, and whole
//! answers as they came.
use vstd::prelude::*;

use crate::answers;
use crate::answers::{bad_gateway, gateway_timeout, Refusal};
use crate::backoff;
use crate::backoff::{retryable, RateLimitCounts};
use crate::json;
use crate::json::{items_of, Json, JsonView};
use crate::retry;
use crate::retry::{penalty, Penalty, RATE_LIMITED};
use crate::shape;
use crate::shape::{harvest, Harvest};
use crate::streaming;
use crate::text::join;
use crate::time::Duration;

verus! {

/// How long a refresh of the model catalog waits for a slot, in seconds.
pub const MODELS_WAIT_SECS: u64 = 30;

// ---------------------------------------------------------------------------
// The model catalog
// ---------------------------------------------------------------------------
/// Whether a cached catalog of this age is still served.
pub fn catalog_is_fresh(age: Duration, ttl: Duration) -> (r: bool)
    ensures
        r == (age.nanos < ttl.nanos),
{
    age.nanos < ttl.nanos
}

/// How a refresh of the catalog fared.
pub enum Refresh {
    /// No slot came free in time.
    NoSlot,
    /// The upstream could not be reached.
    Failed,
    /// The upstream answered.
    Answered { lane: usize, key: String, status: u16, retry_after: Option<String> },
}

/// What is done with a refresh of the catalog.
pub struct Catalog {
    /// The body is served from now on, until it is too old.
    pub keep: bool,
    pub penalty: Option<Penalty>,
    /// The status under which the upstream's body is returned.
    pub status: Option<u16>,
    pub refusal: Option<Refusal>,
}

/// What is done with a refresh.
pub open spec fn is_catalog(
    c: Catalog,
    refresh: Refresh,
    max_wait: Duration,
    keys: usize,
    counts: Map<Seq<char>, u32>,
) -> bool {
    match refresh {
        Refresh::Answered { lane, key, status, retry_after } => {
            &&& c.keep == streaming::is_success(status)
            &&& c.status == Some(
                if streaming::is_success(status) {
                    200u16
                } else {
                    status
                },
            )
            &&& c.refusal is None
            &&& if backoff::is_retryable(status) {
                c.penalty matches Some(p) && p@ == retry::penalty_of(
                    counts,
                    lane,
                    key@,
                    status,
                    retry::opt_text(retry_after),
                    false,
                )
            } else {
                c.penalty is None
            }
        },
        _ => {
            &&& !c.keep
            &&& c.penalty is None
            &&& c.status is None
            &&& c.refusal matches Some(x)
            &&& answers::says(x, 504, "rate_limited"@, answers::timeout_message(max_wait, keys))
            &&& x.header is None
        },
    }
}

/// The rate-limit counts after a refresh.
pub open spec fn counts_after_refresh(refresh: Refresh, counts: Map<Seq<char>, u32>) -> Map<
    Seq<char>,
    u32,
> {
    match refresh {
        Refresh::Answered { key, status, .. } => retry::counts_after(counts, key@, status, false),
        _ => counts,
    }
}

/// Decides what is done with a refresh of the catalog.
pub fn models(refresh: Refresh, max_wait: Duration, keys: usize, counts: &mut RateLimitCounts) -> (r:
    Catalog)
    requires
        refresh matches Refresh::Answered { key, status, .. } ==> status == RATE_LIMITED
            ==> backoff::count_of(old(counts)@, key@) < u32::MAX,
    ensures
        is_catalog(r, refresh, max_wait, keys, old(counts)@),
        final(counts)@ == counts_after_refresh(refresh, old(counts)@),
{
    match refresh {
        Refresh::Answered { lane, key, status, retry_after } => {
            if 200 <= status && status <= 299 {
                return Catalog { keep: true, penalty: None, status: Some(200), refusal: None };
            }
            let paid: Option<Penalty> = if retryable(status) {
                Some(penalty(counts, lane, key.as_str(), status, &retry_after, false))
            } else {
                None
            };
            Catalog { keep: false, penalty: paid, status: Some(status), refusal: None }
        },
        _ => Catalog {
            keep: false,
            penalty: None,
            status: None,
            refusal: Some(gateway_timeout(max_wait, keys)),
        },
    }
}

/// How many models a catalog lists.
pub open spec fn models_listed(catalog: JsonView) -> nat {
    match json::as_items(json::member(catalog, "data"@)) {
        Some(items) => items.len(),
        None => 0,
    }
}

/// How many models a catalog lists.
pub fn count_models(catalog: &Json) -> (r: usize)
    ensures
        r == models_listed(catalog.view()),
{
    match items_of(catalog.get("data")) {
        Some(items) => {
            proof {
                json::items_view_len(items@);
            }
            items.len()
        },
        None => 0,
    }
}

/// How a probe of a key fared.
pub enum Probe {
    /// The upstream could not be reached, and what is said of that.
    Unreachable(String),
    /// The upstream answered with a status (and the line that names it) and a
    /// body.
    Answered { status: u16, line: String, body: Vec<u8> },
    /// The upstream accepted the key, but the body broke off; and what is said
    /// of that.
    Unreadable(String),
}

/// What a probe of a key finds: how many models the key can use, or why it
/// cannot be used.
pub fn probe_key(probe: Probe) -> (r: Result<usize, String>)
    ensures
        match probe {
            Probe::Unreachable(e) => r matches Err(m) && m@ == "cannot reach upstream: "@ + e@,
            Probe::Unreadable(e) => r matches Err(m) && m@
                == "upstream sent an unreadable model list: "@ + e@,
            Probe::Answered { status, line, body } => if streaming::is_success(status) {
                match json::json_of(body@) {
                    Ok(v) => r matches Ok(n) && n == models_listed(v),
                    Err(e) => r matches Err(m) && m@ == "upstream sent an unreadable model list: "@
                        + e,
                }
            } else {
                r matches Err(m) && m@ == "upstream rejected the key ("@ + line@ + ")"@
            },
        },
{
    match probe {
        Probe::Unreachable(e) => Err(join("cannot reach upstream: ", e.as_str())),
        Probe::Unreadable(e) => Err(
            join("upstream sent an unreadable model list: ", e.as_str()),
        ),
        Probe::Answered { status, line, body } => {
            if 200 <= status && status <= 299 {
                match json::read(body.as_slice()) {
                    Ok(v) => Ok(count_models(&v)),
                    Err(e) => Err(join("upstream sent an unreadable model list: ", e.as_str())),
                }
            } else {
                let start = join("upstream rejected the key (", line.as_str());
                Err(join(start.as_str(), ")"))
            }
        },
    }
}

// ---------------------------------------------------------------------------
// Whole answers
// ---------------------------------------------------------------------------
/// An upstream answer to hand back.
pub struct Relayed {
    pub status: u16,
    pub content_type: String,
    pub body: Vec<u8>,
    /// What is counted of it.
    pub harvest: Option<Harvest>,
}

/// Hands an upstream answer back as it came, counting what it reports. An
/// answer without a content type counts as JSON, and one whose body broke off
/// is not handed back at all.
pub fn relay(status: u16, content_type: Option<String>, body: Option<Vec<u8>>) -> (r: Result<
    Relayed,
    Refusal,
>)
    ensures
        match body {
            Some(bytes) => {
                &&& r matches Ok(x)
                &&& x.status == status
                &&& x.content_type@ == match content_type {
                    Some(t) => t@,
                    None => "application/json"@,
                }
                &&& x.body@ == bytes@
                &&& shape::is_harvest(
                    x.harvest,
                    streaming::is_success(status),
                    json::json_in(bytes@),
                )
            },
            None => r matches Err(x) && answers::says(
                x,
                502,
                "bad_gateway"@,
                "upstream response failed or timed out"@,
            ) && x.header is None,
        },
{
    match body {
        Some(bytes) => {
            let content_type = match content_type {
                Some(t) => t,
                None => "application/json".to_owned(),
            };
            let counted = harvest(200 <= status && status <= 299, bytes.as_slice());
            Ok(Relayed { status, content_type, body: bytes, harvest: counted })
        },
        None => Err(bad_gateway()),
    }
}

// ---------------------------------------------------------------------------
// Laws
// ---------------------------------------------------------------------------
/// A cached catalog is served as long as it is younger than its time to live, and
/// no longer.
pub proof fn a_catalog_grows_old(age: Duration, ttl: Duration, r: bool)
    requires
        call_ensures(catalog_is_fresh, (age, ttl), r),
    ensures
        r <==> ttl.nanos - age.nanos > 0,
{
}

/// A refresh that succeeds, and no other, is kept, and is returned as 200. Any other
/// answer is returned under its own status, and costs its lane what such an answer
/// costs any request, where it is one worth waiting out; a refresh that got no slot
/// or no answer is told to time out, and costs nobody anything.
pub proof fn only_a_success_is_cached(
    refresh: Refresh,
    max_wait: Duration,
    keys: usize,
    counts: &mut RateLimitCounts,
    r: Catalog,
)
    requires
        call_ensures(models, (refresh, max_wait, keys, counts), r),
    ensures
        refresh matches Refresh::Answered { lane, key, status, .. } ==> {
            let passes = status == 429 || status == 500 || status == 502 || status == 503 || status
                == 504;
            &&& r.refusal is None
            &&& r.keep <==> 200 <= status < 300
            &&& 200 <= status < 300 ==> r.status == Some(200u16) && r.penalty is None
            &&& !(200 <= status < 300) ==> r.status == Some(status)
            &&& r.penalty is Some <==> passes
            &&& passes ==> (r.penalty matches Some(Penalty::Lane { lane: l, backoff, .. }) && l
                == lane && (status != 429 ==> backoff.nanos == 5_000_000_000) && (status == 429
                ==> backoff.nanos >= 63_000_000_000))
            &&& status != 429 ==> final(counts)@ == old(counts)@
            &&& status == 429 ==> backoff::count_of(final(counts)@, key@) as int
                == backoff::count_of(old(counts)@, key@) + 1 || backoff::count_of(
                old(counts)@,
                key@,
            ) == u32::MAX
        },
        !(refresh is Answered) ==> {
            &&& !r.keep
            &&& r.penalty is None
            &&& r.status is None
            &&& r.refusal matches Some(x) && x.status == 504 && x.code@ == "rate_limited"@
                && x.message@ == answers::timeout_message(max_wait, keys)
            &&& final(counts)@ == old(counts)@
        },
{
}

/// A refresh costs what any request with the same answer costs, and is counted the
/// same.
pub proof fn a_refresh_pays_like_any_request(
    lane: usize,
    key: String,
    status: u16,
    retry_after: Option<String>,
    max_wait: Duration,
    keys: usize,
    counts: &mut RateLimitCounts,
    r: Catalog,
    tally: &mut RateLimitCounts,
    text: &str,
    p: Penalty,
)
    requires
        call_ensures(
            models,
            (Refresh::Answered { lane, key, status, retry_after }, max_wait, keys, counts),
            r,
        ),
        call_ensures(penalty, (tally, lane, text, status, &retry_after, false), p),
        text@ == key@,
        old(tally)@ == old(counts)@,
        status == 429 || status == 500 || status == 502 || status == 503 || status == 504,
    ensures
        r.penalty matches Some(q) && q@ == p@,
        final(counts)@ == final(tally)@,
{
}

/// A catalog lists as many models as its data has items, and none where it has no
/// list.
pub proof fn models_are_counted_by_their_list(catalog: &Json, n: usize)
    requires
        call_ensures(count_models, (catalog,), n),
    ensures
        catalog.view() matches JsonView::Object(m) ==> {
            &&& m.contains_key("data"@) ==> (m["data"@] matches JsonView::Array(items) ==> n
                == items.len())
            &&& !m.contains_key("data"@) || !(m["data"@] is Array) ==> n == 0
        },
        !(catalog.view() is Object) ==> n == 0,
{
}

/// What a probe says of a key: a success whose list can be read says how many models
/// there are; everything else says what went wrong, and with the upstream's own
/// words.
pub proof fn a_probe_says_what_went_wrong(probe: Probe, r: Result<usize, String>)
    requires
        call_ensures(probe_key, (probe,), r),
    ensures
        probe matches Probe::Unreachable(e) ==> (r matches Err(m) && m@
            == "cannot reach upstream: "@ + e@),
        probe matches Probe::Unreadable(e) ==> (r matches Err(m) && m@
            == "upstream sent an unreadable model list: "@ + e@),
        probe matches Probe::Answered { status, line, body } ==> {
            &&& !(200 <= status < 300) ==> (r matches Err(m) && m@ == "upstream rejected the key ("@
                + line@ + ")"@)
            &&& 200 <= status < 300 ==> match json::json_of(body@) {
                Ok(JsonView::Object(m)) => r matches Ok(n) && n == if m.contains_key("data"@) {
                    match m["data"@] {
                        JsonView::Array(items) => items.len(),
                        _ => 0,
                    }
                } else {
                    0
                },
                Ok(_) => r == Ok::<usize, String>(0),
                Err(e) => r matches Err(m) && m@ == "upstream sent an unreadable model list: "@ + e,
            }
        },
{
}

/// An answer is handed back as it came: its status, its content type (JSON where it
/// names none) and its body to the byte; what it reports is counted where it
/// succeeded. One whose body broke off is a bad gateway.
pub proof fn an_answer_is_handed_back_as_it_came(
    status: u16,
    content_type: Option<String>,
    body: Option<Vec<u8>>,
    r: Result<Relayed, Refusal>,
    i: int,
)
    requires
        call_ensures(relay, (status, content_type, body), r),
    ensures
        r is Ok <==> body is Some,
        r matches Ok(x) ==> {
            &&& x.status == status
            &&& content_type matches Some(t) ==> x.content_type@ == t@
            &&& content_type is None ==> x.content_type@ == "application/json"@
            &&& x.body@.len() == body->0@.len()
            &&& 0 <= i < x.body@.len() ==> x.body@[i] == body->0@[i]
            &&& x.harvest is Some <==> 200 <= status < 300 && json::json_in(body->0@) is Some
        },
        r matches Err(x) ==> x.status == 502 && x.code@ == "bad_gateway"@ && x.message@
            == "upstream response failed or timed out"@ && x.header is None,
{
}

/// What is counted of an answer that is handed back is what is counted of its body.
pub proof fn an_answer_is_counted_by_its_body(
    status: u16,
    content_type: Option<String>,
    bytes: Vec<u8>,
    r: Result<Relayed, Refusal>,
    part: &[u8],
    h: Option<Harvest>,
)
    requires
        call_ensures(relay, (status, content_type, Some(bytes)), r),
        part@ == bytes@,
        call_ensures(harvest, (200 <= status && status < 300, part), h),
    ensures
        r matches Ok(x) && {
            &&& x.harvest is Some <==> h is Some
            &&& h is Some ==> {
                &&& x.harvest->0.tokens is Some <==> h->0.tokens is Some
                &&& h->0.tokens is Some ==> x.harvest->0.tokens->0.prompt == h->0.tokens->0.prompt
                    && x.harvest->0.tokens->0.completion == h->0.tokens->0.completion
                &&& x.harvest->0.quality.tool_calls == h->0.quality.tool_calls
                &&& x.harvest->0.quality.reasoning == h->0.quality.reasoning
                &&& x.harvest->0.quality.finish is Some <==> h->0.quality.finish is Some
                &&& h->0.quality.finish is Some ==> x.harvest->0.quality.finish->0@
                    == h->0.quality.finish->0@
            }
        },
{
}

/// A refresh of the catalog waits for a slot for half a minute at most.
pub proof fn a_refresh_waits_half_a_minute()
    ensures
        2 * MODELS_WAIT_SECS == 60,
{
}

} // verus!
