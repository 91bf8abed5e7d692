//! What becomes of a request when it arrives: whether it is let in, as whom,
//! and how it is passed on.
use vstd::prelude::*;
use vstd::slice::slice_to_vec;

use crate::affinity;
use crate::affinity::affinity;
use crate::answers;
use crate::answers::{invalid_deadline, overloaded, unauthorized, Refusal};
use crate::json;
use crate::json::{text_of, Document, JsonView};
use crate::labels;
use crate::labels::{label_model, label_path, LabelSet, MODEL_LABEL_CAP};
use crate::secrets;
use crate::secrets::{ct_eq, sha256_hex};
use crate::shape;
use crate::shape::{record_shape, RequestShape};
use crate::store;
use crate::text;
use crate::text::{join, str_eq, strip_prefix};
use crate::time::{Instant, NANOS_PER_MILLI};
use crate::waiting;
use crate::waiting::parse_request_deadline;

verus! {

// ---------------------------------------------------------------------------
// Admission
// ---------------------------------------------------------------------------
/// The token that an authorization header presents; an empty one where it
/// presents none.
pub open spec fn token_of(authorization: Option<Seq<char>>) -> Seq<char> {
    match authorization {
        Some(h) => if text::opens_with(h, "Bearer "@) {
            h.skip("Bearer "@.len() as int)
        } else {
            ""@
        },
        None => ""@,
    }
}

/// The name that goes with a digest in a list of digests and names: the later
/// one where the digest is listed twice.
pub open spec fn name_for(clients: Seq<(String, String)>, digest: Seq<char>) -> Option<Seq<char>>
    decreases clients.len(),
{
    if clients.len() == 0 {
        None
    } else if clients.last().0@ == digest {
        Some(clients.last().1@)
    } else {
        name_for(clients.drop_last(), digest)
    }
}

/// Who a request comes from: anyone is `local` where no client keys are kept,
/// else the client whose token it presents.
pub open spec fn client_of(
    clients: Option<Seq<(String, String)>>,
    authorization: Option<Seq<char>>,
) -> Option<Seq<char>> {
    match clients {
        None => Some("local"@),
        Some(list) => name_for(list, secrets::digest_of(token_of(authorization))),
    }
}

/// The name that goes with a digest. Every entry is compared, and each
/// comparison looks at every byte.
pub fn match_client(clients: &Vec<(String, String)>, digest: &str) -> (r: Option<String>)
    ensures
        match r {
            Some(name) => name_for(clients@, digest@) == Some(name@),
            None => name_for(clients@, digest@) is None,
        },
{
    let mut matched: Option<usize> = None;
    let mut i: usize = 0;
    assert(clients@.take(0) =~= Seq::empty());
    while i < clients.len()
        invariant
            i <= clients@.len(),
            match matched {
                Some(k) => k < i && name_for(clients@.take(i as int), digest@) == Some(
                    clients@[k as int].1@,
                ),
                None => name_for(clients@.take(i as int), digest@) is None,
            },
        decreases clients.len() - i,
    {
        assert(clients@.take(i + 1).drop_last() =~= clients@.take(i as int));
        if ct_eq(digest, clients[i].0.as_str()) {
            matched = Some(i);
        }
        i += 1;
    }
    assert(clients@.take(i as int) =~= clients@);
    match matched {
        Some(k) => Some(clients[k].1.clone()),
        None => None,
    }
}

/// What an optional text holds.
pub open spec fn opt_str(s: Option<&str>) -> Option<Seq<char>> {
    match s {
        Some(t) => Some(t@),
        None => None,
    }
}

/// The clients that are kept, where there are any.
pub open spec fn opt_clients(clients: Option<&Vec<(String, String)>>) -> Option<
    Seq<(String, String)>,
> {
    match clients {
        Some(list) => Some(list@),
        None => None,
    }
}

/// Who a request comes from.
pub fn identify_client(clients: Option<&Vec<(String, String)>>, authorization: Option<&str>) -> (r:
    Option<String>)
    ensures
        match r {
            Some(name) => client_of(opt_clients(clients), opt_str(authorization)) == Some(name@),
            None => client_of(opt_clients(clients), opt_str(authorization)) is None,
        },
{
    match clients {
        None => Some("local".to_owned()),
        Some(list) => {
            let token = match authorization {
                Some(h) => match strip_prefix(h, "Bearer ") {
                    Some(t) => t,
                    None => "".to_owned(),
                },
                None => "".to_owned(),
            };
            let digest = sha256_hex(token.as_str());
            match_client(list, digest.as_str())
        },
    }
}

/// A request that is let in.
pub struct Admitted {
    pub client: String,
    /// The deadline that the request sets for itself.
    pub deadline: Option<Instant>,
}

/// Why a request is not let in.
pub enum Denied {
    /// First-time setup is not complete.
    SetupRequired,
    /// Too many requests are in flight.
    Overloaded(Refusal),
    /// The client is not known.
    Unauthorized(Refusal),
    /// The deadline header says no deadline.
    BadDeadline(Refusal),
}

/// The deadline headers set a deadline that can be represented, or none.
pub open spec fn deadline_ok(values: Seq<Option<String>>, accepted: Instant) -> bool {
    match waiting::deadline_millis(values) {
        Ok(Some(millis)) => accepted.nanos + millis * NANOS_PER_MILLI <= u128::MAX,
        Ok(None) => true,
        Err(_) => false,
    }
}

/// Lets a request in or not. `inflight` counts the requests in flight, this one
/// among them.
pub fn let_in(
    setup_required: bool,
    inflight: usize,
    max_inflight: usize,
    clients: Option<&Vec<(String, String)>>,
    authorization: Option<&str>,
    deadlines: &Vec<Option<String>>,
    accepted: Instant,
) -> (r: Result<Admitted, Denied>)
    ensures
        ({
            let client = client_of(opt_clients(clients), opt_str(authorization));
            if setup_required {
                r matches Err(Denied::SetupRequired)
            } else if inflight > max_inflight {
                r matches Err(Denied::Overloaded(x)) && answers::says(
                    x,
                    503,
                    "overloaded"@,
                    answers::overloaded_message(max_inflight),
                ) && answers::carries(x, "retry-after"@, "5"@)
            } else if client is None {
                r matches Err(Denied::Unauthorized(x)) && answers::says(
                    x,
                    401,
                    "unauthorized"@,
                    "missing or invalid proxy API key (Authorization: Bearer ...)"@,
                ) && answers::carries(x, "www-authenticate"@, "Bearer"@)
            } else if !deadline_ok(deadlines@, accepted) {
                r matches Err(Denied::BadDeadline(x)) && answers::says(
                    x,
                    400,
                    "invalid_deadline"@,
                    "X-Nim-Proxy-Deadline-Ms must be one unsigned decimal millisecond value"@,
                ) && x.header is None
            } else {
                r matches Ok(a) && Some(a.client@) == client && match waiting::deadline_millis(
                    deadlines@,
                ) {
                    Ok(Some(millis)) => a.deadline matches Some(t) && t.nanos == accepted.nanos
                        + millis * NANOS_PER_MILLI,
                    _ => a.deadline is None,
                }
            }
        }),
{
    if setup_required {
        return Err(Denied::SetupRequired);
    }
    if inflight > max_inflight {
        return Err(Denied::Overloaded(overloaded(max_inflight)));
    }
    match identify_client(clients, authorization) {
        Some(client) => match parse_request_deadline(deadlines, accepted) {
            Ok(deadline) => Ok(Admitted { client, deadline }),
            Err(_) => Err(Denied::BadDeadline(invalid_deadline())),
        },
        None => Err(Denied::Unauthorized(unauthorized())),
    }
}

// ---------------------------------------------------------------------------
// Planning
// ---------------------------------------------------------------------------
/// How a request is served.
#[derive(Clone, Copy, Debug, PartialEq, Eq, Structural)]
pub enum Route {
    /// From the cached model catalog.
    Models,
    /// Streamed.
    Stream,
    /// Answered whole.
    Whole,
}

/// What is done with a request that was let in.
pub struct Plan {
    /// The label of the model that the request names.
    pub model: String,
    /// The label of the path.
    pub path: String,
    pub route: Route,
    /// The lane that the conversation keeps to.
    pub prefer: Option<usize>,
    /// What a generation request asks for.
    pub shape: Option<RequestShape>,
    /// The body to send in place of the client's: the same with the usage
    /// option, which streamed answers need to report exact token usage.
    pub injected: Option<String>,
}

/// The model that a body names.
pub open spec fn model_named(body: Option<JsonView>) -> Seq<char> {
    match body {
        Some(v) => match json::as_text(json::member(v, "model"@)) {
            Some(m) => m,
            None => "none"@,
        },
        None => "none"@,
    }
}

/// The body asks for a stream.
pub open spec fn wants_stream(body: Option<JsonView>) -> bool {
    match body {
        Some(v) => json::as_flag(json::member(v, "stream"@)) == Some(true),
        None => false,
    }
}

/// How a request is served.
pub open spec fn route_of(get: bool, path: Seq<char>, body: Option<JsonView>) -> Route {
    if get && path == "/v1/models"@ {
        Route::Models
    } else if wants_stream(body) {
        Route::Stream
    } else {
        Route::Whole
    }
}

/// The lane that a body prefers.
pub open spec fn preferred(body: Option<JsonView>, lanes: usize) -> Option<usize> {
    match body {
        Some(v) => match affinity::conversation(v) {
            Some(texts) => Some(affinity::lane_of(texts, lanes)),
            None => None,
        },
        None => None,
    }
}

/// The path is one on which text is generated.
pub open spec fn generates(path: Seq<char>) -> bool {
    path == "/v1/chat/completions"@ || path == "/v1/completions"@
}

/// The usage option is added: on a streamed chat request whose body is an
/// object without stream options, unless bodies are not to be touched or the
/// model has rejected the option.
pub open spec fn injects(
    path: Seq<char>,
    body: Option<JsonView>,
    strict: bool,
    rejected: bool,
) -> bool {
    &&& wants_stream(body)
    &&& !strict
    &&& path == "/v1/chat/completions"@
    &&& body matches Some(v) && v is Object && json::member(v, "stream_options"@) is None
    &&& !rejected
}

/// A body with the usage option.
pub open spec fn with_usage(v: JsonView) -> JsonView {
    JsonView::Object(
        v->Object_0.insert(
            "stream_options"@,
            JsonView::Object(Map::empty().insert("include_usage"@, JsonView::Bool(true))),
        ),
    )
}

/// The label of the model that a body names.
pub open spec fn model_label(body: Option<JsonView>, seen: Set<Seq<char>>) -> Seq<char> {
    labels::bounded(seen, labels::sanitized(model_named(body)), MODEL_LABEL_CAP as nat).0
}

/// What is done with a request.
pub open spec fn is_plan(
    p: Plan,
    get: bool,
    path: Seq<char>,
    body: Option<JsonView>,
    lanes: usize,
    strict: bool,
    no_inject: Set<Seq<char>>,
    seen: Set<Seq<char>>,
) -> bool {
    let model = model_label(body, seen);
    &&& p.model@ == model
    &&& p.path@ == labels::path_label(path)
    &&& p.route == route_of(get, path, body)
    &&& if p.route == Route::Models {
        p.prefer is None && p.shape is None && p.injected is None
    } else {
        &&& p.prefer == preferred(body, lanes)
        &&& if generates(path) {
            p.shape matches Some(s) && shape::is_shape(s, body, wants_stream(body))
        } else {
            p.shape is None
        }
        &&& if injects(path, body, strict, no_inject.contains(model)) {
            p.injected matches Some(t) && t@ == json::json_text(with_usage(body->0))
        } else {
            p.injected is None
        }
    }
}

/// What may be read, seen as what it holds.
pub open spec fn opt_doc(doc: Option<Document>) -> Option<JsonView> {
    match doc {
        Some(d) => Some(d@),
        None => None,
    }
}

/// A body holds messages, so that it prefers a lane.
pub open spec fn has_messages(body: Option<JsonView>) -> bool {
    body matches Some(v) && json::as_items(json::member(v, "messages"@)) is Some
}

/// Decides what is done with a request whose body was read as `doc` (if it
/// could be). Where the body holds messages there has to be a lane.
pub fn plan_of(
    get: bool,
    path: &str,
    doc: Option<Document>,
    lanes: usize,
    strict: bool,
    no_inject: &LabelSet,
    seen: &mut LabelSet,
) -> (r: Plan)
    requires
        old(seen).wf(),
        doc matches Some(d) ==> d.wf(),
        route_of(get, path@, opt_doc(doc)) != Route::Models && has_messages(opt_doc(doc)) ==> lanes
            > 0,
    ensures
        final(seen).wf(),
        final(seen)@ == labels::bounded(
            old(seen)@,
            labels::sanitized(model_named(opt_doc(doc))),
            MODEL_LABEL_CAP as nat,
        ).1,
        is_plan(r, get, path@, opt_doc(doc), lanes, strict, no_inject@, old(seen)@),
{
    let model = {
        let raw: &str = match &doc {
            Some(d) => match text_of(d.content().get("model")) {
                Some(m) => m,
                None => "none",
            },
            None => "none",
        };
        label_model(seen, raw)
    };
    let path_name = label_path(path);
    if get && str_eq(path, "/v1/models") {
        return Plan {
            model,
            path: path_name,
            route: Route::Models,
            prefer: None,
            shape: None,
            injected: None,
        };
    }
    let stream: bool = match &doc {
        Some(d) => match d.content().get("stream") {
            Some(v) => match v.as_bool() {
                Some(b) => b,
                None => false,
            },
            None => false,
        },
        None => false,
    };
    let prefer: Option<usize> = match &doc {
        Some(d) => affinity(d, lanes),
        None => None,
    };
    let shape: Option<RequestShape> = if str_eq(path, "/v1/chat/completions") || str_eq(
        path,
        "/v1/completions",
    ) {
        match &doc {
            Some(d) => Some(record_shape(Some(d.content()), stream)),
            None => Some(record_shape(None, stream)),
        }
    } else {
        None
    };
    let rejected: bool = no_inject.contains(model.as_str());
    let injected: Option<String> = match doc {
        Some(d) => {
            if stream && !strict && str_eq(path, "/v1/chat/completions") && d.content().is_object()
                && d.content().get("stream_options").is_none() && !rejected {
                Some(d.text_with_flag("stream_options", "include_usage", true))
            } else {
                None
            }
        },
        None => None,
    };
    let route = if stream {
        Route::Stream
    } else {
        Route::Whole
    };
    Plan { model, path: path_name, route, prefer, shape, injected }
}

/// Decides what is done with a request. Nothing is decided (`None`) for a body
/// with messages while there is no lane that it could prefer.
pub fn plan(
    get: bool,
    path: &str,
    body: &[u8],
    lanes: usize,
    strict: bool,
    no_inject: &LabelSet,
    seen: &mut LabelSet,
) -> (r: Option<Plan>)
    requires
        old(seen).wf(),
    ensures
        final(seen).wf(),
        final(seen)@ == if r is Some {
            labels::bounded(
                old(seen)@,
                labels::sanitized(model_named(json::json_in(body@))),
                MODEL_LABEL_CAP as nat,
            ).1
        } else {
            old(seen)@
        },
        match r {
            Some(p) => is_plan(
                p,
                get,
                path@,
                json::json_in(body@),
                lanes,
                strict,
                no_inject@,
                old(seen)@,
            ),
            None => lanes == 0 && has_messages(json::json_in(body@)) && route_of(
                get,
                path@,
                json::json_in(body@),
            ) != Route::Models,
        },
{
    let doc = Document::read(body);
    let messages: bool = match &doc {
        Some(d) => match d.content().get("messages") {
            Some(m) => m.as_array().is_some(),
            None => false,
        },
        None => false,
    };
    if lanes == 0 && messages && !(get && str_eq(path, "/v1/models")) {
        return None;
    }
    Some(plan_of(get, path, doc, lanes, strict, no_inject, seen))
}

// ---------------------------------------------------------------------------
// Passing on
// ---------------------------------------------------------------------------
/// The address that a request is passed on to.
pub fn upstream_url(base_url: &str, path_query: &str) -> (r: String)
    ensures
        r@ == base_url@ + path_query@,
{
    join(base_url, path_query)
}

/// A header with its value.
pub struct Header {
    pub name: &'static str,
    pub value: Vec<u8>,
}

/// The headers of a passed-on request are these: the authorization of the
/// upstream key, and of the client's headers its content type and what it
/// accepts, where it sent them.
pub open spec fn is_head(
    head: Seq<Header>,
    key: Seq<char>,
    content_type: Option<Seq<u8>>,
    accept: Option<Seq<u8>>,
) -> bool {
    let n = if content_type is Some {
        2int
    } else {
        1int
    };
    &&& head.len() == n + if accept is Some {
        1int
    } else {
        0int
    }
    &&& head[0].name@ == "authorization"@
    &&& head[0].value@ == vstd::utf8::encode_utf8("Bearer "@ + key)
    &&& content_type matches Some(v) ==> head[1].name@ == "content-type"@ && head[1].value@ == v
    &&& accept matches Some(v) ==> head[n].name@ == "accept"@ && head[n].value@ == v
}

/// What an optional value holds.
pub open spec fn opt_bytes(v: Option<Vec<u8>>) -> Option<Seq<u8>> {
    match v {
        Some(b) => Some(b@),
        None => None,
    }
}

/// The headers of a request that is passed on with an upstream key. Nothing
/// else of the client's headers goes out, its own authorization least of all.
pub fn upstream_request(key: &str, content_type: Option<Vec<u8>>, accept: Option<Vec<u8>>) -> (r:
    Vec<Header>)
    ensures
        is_head(r@, key@, opt_bytes(content_type), opt_bytes(accept)),
{
    let bearer = join("Bearer ", key);
    let mut head: Vec<Header> = Vec::new();
    head.push(Header { name: "authorization", value: slice_to_vec(bearer.as_str().as_bytes()) });
    if let Some(v) = content_type {
        head.push(Header { name: "content-type", value: v });
    }
    if let Some(v) = accept {
        head.push(Header { name: "accept", value: v });
    }
    head
}

// ---------------------------------------------------------------------------
// Laws
// ---------------------------------------------------------------------------
/// While client keys are kept, only a request that presents the token of a
/// listed client is taken for that client, and nothing but the token decides;
/// while none are kept no one is turned away for want of one.
pub proof fn the_door_is_kept(
    list: Seq<(String, String)>,
    authorization: Option<Seq<char>>,
    other: Option<Seq<char>>,
)
    ensures
        client_of(None, authorization) == Some("local"@),
        client_of(Some(list), authorization) matches Some(name) ==> exists|i: int|
            0 <= i < list.len() && #[trigger] list[i].0@ == secrets::digest_of(
                token_of(authorization),
            ) && list[i].1@ == name,
        token_of(authorization) == token_of(other) ==> client_of(Some(list), authorization)
            == client_of(Some(list), other),
{
    named_is_listed(list, secrets::digest_of(token_of(authorization)));
}

/// The name that goes with a digest is the one that the list gives it.
pub proof fn a_name_is_looked_up(list: Seq<(String, String)>, digest: Seq<char>)
    ensures
        name_for(list, digest) == if store::names_by_digest(list).contains_key(digest) {
            Some(store::names_by_digest(list)[digest])
        } else {
            None
        },
    decreases list.len(),
{
    if list.len() > 0 {
        a_name_is_looked_up(list.drop_last(), digest);
    }
}

proof fn named_is_listed(list: Seq<(String, String)>, digest: Seq<char>)
    ensures
        name_for(list, digest) matches Some(name) ==> exists|i: int|
            0 <= i < list.len() && #[trigger] list[i].0@ == digest && list[i].1@ == name,
    decreases list.len(),
{
    if list.len() > 0 {
        let rest = list.drop_last();
        if list.last().0@ == digest {
            assert(list[list.len() - 1].0@ == digest);
        } else {
            named_is_listed(rest, digest);
            if let Some(name) = name_for(rest, digest) {
                let i = choose|i: int|
                    0 <= i < rest.len() && #[trigger] rest[i].0@ == digest && rest[i].1@ == name;
                assert(list[i].0@ == digest);
            }
        }
    }
}

/// The body is touched only to add the usage option, and never where bodies
/// are not to be touched, where the model has rejected the option, or where the
/// request is no streamed chat request.
pub proof fn a_body_is_touched_only_for_usage(
    path: Seq<char>,
    body: Option<JsonView>,
    strict: bool,
    rejected: bool,
    name: Seq<char>,
)
    ensures
        strict || rejected || !wants_stream(body) || path != "/v1/chat/completions"@ ==> !injects(
            path,
            body,
            strict,
            rejected,
        ),
        injects(path, body, strict, rejected) ==> {
            &&& name != "stream_options"@ ==> json::member(with_usage(body->0), name)
                == json::member(body->0, name)
            &&& json::as_flag(
                json::member_of(
                    json::member(with_usage(body->0), "stream_options"@),
                    "include_usage"@,
                ),
            ) == Some(true)
            &&& !injects(path, Some(with_usage(body->0)), strict, rejected)
        },
{
}

/// The body is an object in which this member is `true`.
pub open spec fn says_true(body: Option<JsonView>, name: Seq<char>) -> bool {
    body matches Some(JsonView::Object(m)) && m.contains_key(name) && m[name] == JsonView::Bool(
        true,
    )
}

/// How a request is served is up to its body: whatever its path and its method,
/// unless it asks for the model catalog, it is streamed exactly when its body says
/// `"stream": true`, and answered whole otherwise.
pub proof fn the_body_decides_whether_to_stream(
    get: bool,
    path: &str,
    doc: Option<Document>,
    lanes: usize,
    strict: bool,
    no_inject: &LabelSet,
    seen: &mut LabelSet,
    p: Plan,
)
    requires
        call_ensures(plan_of, (get, path, doc, lanes, strict, no_inject, seen), p),
    ensures
        ({
            let catalog = get && path@ == "/v1/models"@;
            let streams = says_true(opt_doc(doc), "stream"@);
            &&& catalog ==> p.route == Route::Models
            &&& !catalog && streams ==> p.route == Route::Stream
            &&& !catalog && !streams ==> p.route == Route::Whole
        }),
{
}

/// The same holds of a body that is yet to be read: one that is no JSON is answered
/// whole. Nothing is decided only where a body holds messages and there is no lane.
pub proof fn every_body_decides_whether_to_stream(
    get: bool,
    path: &str,
    body: &[u8],
    lanes: usize,
    strict: bool,
    no_inject: &LabelSet,
    seen: &mut LabelSet,
    r: Option<Plan>,
)
    requires
        call_ensures(plan, (get, path, body, lanes, strict, no_inject, seen), r),
    ensures
        ({
            let catalog = get && path@ == "/v1/models"@;
            let streams = says_true(json::json_in(body@), "stream"@);
            let talks = json::json_in(body@) matches Some(JsonView::Object(m)) && m.contains_key(
                "messages"@,
            ) && m["messages"@] is Array;
            &&& r is None ==> lanes == 0 && talks && !catalog && final(seen)@ == old(seen)@
            &&& lanes > 0 || !talks || catalog ==> r is Some
            &&& r matches Some(p) ==> {
                &&& catalog ==> p.route == Route::Models
                &&& !catalog && streams ==> p.route == Route::Stream
                &&& !catalog && !streams ==> p.route == Route::Whole
            }
        }),
{
}

/// A plan that is made for bytes is the one that is made for the document that
/// they hold.
pub proof fn a_plan_is_of_what_the_body_holds(
    get: bool,
    path: &str,
    body: &[u8],
    doc: Option<Document>,
    lanes: usize,
    strict: bool,
    no_inject: &LabelSet,
    seen: &mut LabelSet,
    twin: &mut LabelSet,
    r: Option<Plan>,
    p: Plan,
)
    requires
        call_ensures(plan, (get, path, body, lanes, strict, no_inject, seen), r),
        call_ensures(plan_of, (get, path, doc, lanes, strict, no_inject, twin), p),
        opt_doc(doc) == json::json_in(body@),
        old(twin)@ == old(seen)@,
        r is Some,
    ensures
        final(seen)@ == final(twin)@,
        r->0.route == p.route,
        r->0.model@ == p.model@,
        r->0.path@ == p.path@,
        r->0.prefer == p.prefer,
        r->0.injected is Some <==> p.injected is Some,
        r->0.injected is Some ==> r->0.injected->0@ == p.injected->0@,
        r->0.shape is Some <==> p.shape is Some,
        r->0.shape is Some ==> same_shape(r->0.shape->0, p.shape->0),
{
}

/// Two shapes measure the same.
pub open spec fn same_shape(a: RequestShape, b: RequestShape) -> bool {
    &&& a.stream@ == b.stream@
    &&& a.messages == b.messages
    &&& a.tools is Some <==> b.tools is Some
    &&& a.tools matches Some((n, mode)) ==> (b.tools matches Some((m, other)) && n == m && mode@
        == other@)
    &&& a.max_tokens == b.max_tokens
    &&& a.json_mode == b.json_mode
}

/// A generation is measured by its body and by whether it is streamed.
pub proof fn a_generation_is_measured_by_its_body(
    get: bool,
    path: &str,
    doc: Option<Document>,
    lanes: usize,
    strict: bool,
    no_inject: &LabelSet,
    seen: &mut LabelSet,
    p: Plan,
    parsed: Option<&json::Json>,
    s: RequestShape,
)
    requires
        call_ensures(plan_of, (get, path, doc, lanes, strict, no_inject, seen), p),
        json::opt_view(parsed) == opt_doc(doc),
        call_ensures(record_shape, (parsed, says_true(opt_doc(doc), "stream"@)), s),
    ensures
        p.shape matches Some(x) ==> same_shape(x, s),
{
}

/// The body is touched exactly on a streamed chat request whose body is an object
/// that says nothing of stream options, unless bodies are not to be touched or the
/// model has rejected the option. What is sent in its place holds every member as
/// it was and, besides, asks for usage.
pub proof fn the_usage_option_is_added(
    get: bool,
    path: &str,
    doc: Option<Document>,
    lanes: usize,
    strict: bool,
    no_inject: &LabelSet,
    seen: &mut LabelSet,
    p: Plan,
)
    requires
        call_ensures(plan_of, (get, path, doc, lanes, strict, no_inject, seen), p),
    ensures
        p.injected is Some <==> {
            &&& path@ == "/v1/chat/completions"@
            &&& says_true(opt_doc(doc), "stream"@)
            &&& !strict
            &&& !no_inject@.contains(p.model@)
            &&& opt_doc(doc) matches Some(JsonView::Object(m)) && !m.contains_key("stream_options"@)
        },
        p.injected matches Some(t) ==> (opt_doc(doc) matches Some(JsonView::Object(m)) && t@
            == json::json_text(
            JsonView::Object(
                m.insert(
                    "stream_options"@,
                    JsonView::Object(
                        Map::empty().insert("include_usage"@, JsonView::Bool(true)),
                    ),
                ),
            ),
        )),
{
    reveal_strlit("/v1/chat/completions");
    reveal_strlit("/v1/models");
    assert("/v1/chat/completions"@.len() != "/v1/models"@.len());
}

/// A request is labelled by the model that its body names (`none` where it names
/// none) and by its path, a conversation keeps to its lane, and what a generation
/// asks for is measured, on the two paths on which text is generated. The catalog
/// takes no lane and is not measured.
pub proof fn a_request_is_known_by_its_body(
    get: bool,
    path: &str,
    doc: Option<Document>,
    lanes: usize,
    strict: bool,
    no_inject: &LabelSet,
    seen: &mut LabelSet,
    p: Plan,
    twin: &mut LabelSet,
    named: &str,
    model: String,
    path_name: String,
    lane: Option<usize>,
)
    requires
        call_ensures(plan_of, (get, path, doc, lanes, strict, no_inject, seen), p),
        named@ == match opt_doc(doc) {
            Some(JsonView::Object(m)) => if m.contains_key("model"@) {
                match m["model"@] {
                    JsonView::Text(s) => s,
                    _ => "none"@,
                }
            } else {
                "none"@
            },
            _ => "none"@,
        },
        call_ensures(label_model, (twin, named), model),
        old(twin)@ == old(seen)@,
        call_ensures(label_path, (path,), path_name),
        doc matches Some(d) ==> call_ensures(affinity, (&d, lanes), lane),
        doc is None ==> lane is None,
    ensures
        p.model@ == model@,
        final(seen)@ == final(twin)@,
        p.path@ == path_name@,
        ({
            let catalog = get && path@ == "/v1/models"@;
            let generates = path@ == "/v1/chat/completions"@ || path@ == "/v1/completions"@;
            &&& catalog ==> p.prefer is None && p.shape is None && p.injected is None
            &&& !catalog ==> p.prefer == lane
            &&& !catalog ==> (p.shape is Some <==> generates)
            &&& p.shape matches Some(s) ==> s.stream@ == if says_true(opt_doc(doc), "stream"@) {
                "true"@
            } else {
                "false"@
            }
        }),
{
}

/// Who is let in, and why not, in this order: no one before setup is complete; no
/// one above the limit of requests in flight, who are told to come back in five
/// seconds; no one who is not known, where client keys are kept; no one with a
/// deadline that cannot be read. Everyone else is, as the client they are, with the
/// deadline they set.
pub proof fn the_door_says_why(
    setup_required: bool,
    inflight: usize,
    max_inflight: usize,
    clients: Option<&Vec<(String, String)>>,
    authorization: Option<&str>,
    deadlines: &Vec<Option<String>>,
    accepted: Instant,
    r: Result<Admitted, Denied>,
    client: Option<String>,
    deadline: Result<Option<Instant>, ()>,
)
    requires
        call_ensures(
            let_in,
            (
                setup_required,
                inflight,
                max_inflight,
                clients,
                authorization,
                deadlines,
                accepted,
            ),
            r,
        ),
        call_ensures(identify_client, (clients, authorization), client),
        call_ensures(parse_request_deadline, (deadlines, accepted), deadline),
    ensures
        setup_required ==> (r matches Err(Denied::SetupRequired)),
        !setup_required && inflight > max_inflight ==> (r matches Err(Denied::Overloaded(x)) && {
            &&& x.status == 503
            &&& x.code@ == "overloaded"@
            &&& x.message@ == "proxy at capacity ("@ + text::decimal(max_inflight as nat)
                + " concurrent requests); retry shortly"@
            &&& x.header matches Some((n, v)) && n@ == "retry-after"@ && v@ == "5"@
        }),
        !setup_required && inflight <= max_inflight && client is None ==> (
        r matches Err(Denied::Unauthorized(x)) && {
            &&& x.status == 401
            &&& x.code@ == "unauthorized"@
            &&& x.header matches Some((n, v)) && n@ == "www-authenticate"@ && v@ == "Bearer"@
        }),
        !setup_required && inflight <= max_inflight && client is Some && deadline is Err ==> (
        r matches Err(Denied::BadDeadline(x)) && x.status == 400 && x.code@ == "invalid_deadline"@
            && x.header is None),
        !setup_required && inflight <= max_inflight && client is Some && deadline is Ok ==> (
        r matches Ok(a) && a.client@ == client->0@ && a.deadline == deadline->Ok_0),
{
}

proof fn name_for_is_the_last(list: Seq<(String, String)>, digest: Seq<char>)
    ensures
        match name_for(list, digest) {
            Some(name) => exists|i: int|
                0 <= i < list.len() && #[trigger] list[i].0@ == digest && list[i].1@ == name && (
                forall|j: int| i < j < list.len() ==> #[trigger] list[j].0@ != digest),
            None => forall|i: int| 0 <= i < list.len() ==> #[trigger] list[i].0@ != digest,
        },
    decreases list.len(),
{
    if list.len() > 0 {
        let rest = list.drop_last();
        if list.last().0@ == digest {
            assert(list[list.len() - 1].0@ == digest);
        } else {
            name_for_is_the_last(rest, digest);
            match name_for(rest, digest) {
                Some(name) => {
                    let i = choose|i: int|
                        0 <= i < rest.len() && #[trigger] rest[i].0@ == digest && rest[i].1@ == name
                            && (forall|j: int|
                            i < j < rest.len() ==> #[trigger] rest[j].0@ != digest);
                    assert(list[i].0@ == digest);
                    assert forall|j: int| i < j < list.len() implies #[trigger] list[j].0@
                        != digest by {
                        if j < rest.len() {
                            assert(rest[j].0@ != digest);
                        }
                    }
                },
                None => {
                    assert forall|i: int| 0 <= i < list.len() implies #[trigger] list[i].0@
                        != digest by {
                        if i < rest.len() {
                            assert(rest[i].0@ != digest);
                        }
                    }
                },
            }
        }
    }
}

/// A client is known by the digest of the token that follows `Bearer ` in the
/// header (an empty one where none does): the name is that of the last listed
/// client with that digest, and no one else is known. Where no client keys are
/// kept, everyone is `local`.
pub proof fn a_client_is_known_by_its_token(
    clients: Option<&Vec<(String, String)>>,
    authorization: Option<&str>,
    token: Seq<char>,
    r: Option<String>,
)
    requires
        call_ensures(identify_client, (clients, authorization), r),
        (authorization matches Some(h) && h@ == "Bearer "@ + token) || (token.len() == 0 && (
        authorization matches Some(h) ==> forall|t: Seq<char>| h@ != #[trigger] ("Bearer "@ + t))),
    ensures
        clients is None ==> (r matches Some(name) && name@ == "local"@),
        clients matches Some(list) ==> match r {
            Some(name) => exists|i: int|
                0 <= i < list@.len() && #[trigger] list@[i].0@ == secrets::digest_of(token)
                    && list@[i].1@ == name@ && (forall|j: int|
                    i < j < list@.len() ==> #[trigger] list@[j].0@ != secrets::digest_of(token)),
            None => forall|i: int|
                0 <= i < list@.len() ==> #[trigger] list@[i].0@ != secrets::digest_of(token),
        },
{
    let header = opt_str(authorization);
    assert(token_of(header) == token) by {
        reveal_strlit("");
        if let Some(h) = authorization {
            if h@ == "Bearer "@ + token {
                assert(h@.subrange(0, "Bearer "@.len() as int) =~= "Bearer "@);
                assert(h@.skip("Bearer "@.len() as int) =~= token);
            } else if text::opens_with(h@, "Bearer "@) {
                let t = h@.skip("Bearer "@.len() as int);
                assert(h@ =~= "Bearer "@ + t);
            } else {
                assert(""@ =~= token);
            }
        } else {
            assert(""@ =~= token);
        }
    }
    if let Some(list) = clients {
        name_for_is_the_last(list@, secrets::digest_of(token));
    }
}

/// What goes out is the upstream key as a bearer token, the client's content type
/// and what it accepts, in this order and as far as it sent them, and no other
/// header; and the address is the upstream's, followed by what was asked for.
pub proof fn only_three_headers_go_out(
    key: &str,
    content_type: Option<Vec<u8>>,
    accept: Option<Vec<u8>>,
    r: Vec<Header>,
    base_url: &str,
    path_query: &str,
    url: String,
    i: int,
)
    requires
        call_ensures(upstream_request, (key, content_type, accept), r),
        call_ensures(upstream_url, (base_url, path_query), url),
    ensures
        r@.len() >= 1,
        r@[0].name@ == "authorization"@,
        r@[0].value@ == vstd::utf8::encode_utf8("Bearer "@ + key@),
        content_type is None && accept is None ==> r@.len() == 1,
        content_type is Some && accept is None ==> r@.len() == 2,
        content_type is None && accept is Some ==> r@.len() == 2,
        content_type is Some && accept is Some ==> r@.len() == 3,
        content_type matches Some(v) ==> r@[1].name@ == "content-type"@ && r@[1].value@ == v@,
        accept matches Some(v) ==> r@.last().name@ == "accept"@ && r@.last().value@ == v@,
        url@.len() == base_url@.len() + path_query@.len(),
        url@.take(base_url@.len() as int) == base_url@,
        url@.skip(base_url@.len() as int) == path_query@,
{
    assert(url@.take(base_url@.len() as int) =~= base_url@);
    assert(url@.skip(base_url@.len() as int) =~= path_query@);
}

/// The client keys of a store open the door, and nothing else does: where the API is
/// keyed, a request that presents a secret is taken for the client whose kept digest
/// is that of the secret (the last one of several), and for no one where no kept
/// digest is. Where the API is open, everyone is `local`.
pub proof fn a_kept_client_key_opens_the_door(
    sc: &store::StoredConfig,
    config: store::Config,
    authorization: Option<&str>,
    secret: Seq<char>,
    list: &Vec<(String, String)>,
    r: Option<String>,
    i: int,
)
    requires
        call_ensures(store::StoredConfig::runtime, (sc,), config),
        authorization matches Some(h) && h@ == "Bearer "@ + secret,
        config.clients matches Some(l) ==> l == *list && call_ensures(
            identify_client,
            (Some(list), authorization),
            r,
        ),
        config.clients is None ==> call_ensures(
            identify_client,
            (None::<&Vec<(String, String)>>, authorization),
            r,
        ),
    ensures
        sc.client_auth.mode == store::Mode::Open ==> (r matches Some(name) && name@ == "local"@),
        sc.client_auth.mode == store::Mode::Keyed ==> {
            let keys = sc.client_auth.keys@;
            &&& 0 <= i < keys.len() && keys[i].secret_sha256@ == secrets::digest_of(secret) && (
            forall|j: int|
                i < j < keys.len() ==> (#[trigger] keys[j]).secret_sha256@ != secrets::digest_of(
                    secret,
                )) ==> (r matches Some(name) && name@ == keys[i].name@)
            &&& (forall|j: int|
                0 <= j < keys.len() ==> (#[trigger] keys[j]).secret_sha256@ != secrets::digest_of(
                    secret,
                )) ==> r is None
        },
{
    let h = authorization->0;
    let digest = secrets::digest_of(secret);
    assert(h@.subrange(0, "Bearer "@.len() as int) =~= "Bearer "@);
    assert(h@.skip("Bearer "@.len() as int) =~= secret);
    if sc.client_auth.mode == store::Mode::Keyed {
        let keys = sc.client_auth.keys@;
        a_name_is_looked_up(list@, digest);
        if 0 <= i < keys.len() && keys[i].secret_sha256@ == digest && (forall|j: int|
            i < j < keys.len() ==> (#[trigger] keys[j]).secret_sha256@ != digest) {
            store::the_last_client_counts(sc@.client_keys, i);
        }
        if forall|j: int|
            0 <= j < keys.len() ==> (#[trigger] keys[j]).secret_sha256@ != digest {
            store::named_clients(sc@.client_keys, digest);
            if store::client_names_by_digest(sc@.client_keys).contains_key(digest) {
                let k = choose|k: int|
                    0 <= k < sc@.client_keys.len() && (#[trigger] sc@.client_keys[k]).secret_sha256
                        == digest;
                assert(keys[k].secret_sha256@ == digest);
            }
        }
    }
}

/// A digest is looked up among all that are listed, and the last one that is the
/// same gives the name.
pub proof fn the_last_listed_client_counts(
    clients: Vec<(String, String)>,
    digest: &str,
    r: Option<String>,
)
    requires
        call_ensures(match_client, (&clients, digest), r),
    ensures
        match r {
            Some(name) => exists|i: int|
                0 <= i < clients@.len() && #[trigger] clients@[i].0@ == digest@ && clients@[i].1@
                    == name@ && (forall|j: int|
                    i < j < clients@.len() ==> #[trigger] clients@[j].0@ != digest@),
            None => forall|i: int| 0 <= i < clients@.len() ==> #[trigger] clients@[i].0@ != digest@,
        },
{
    name_for_is_the_last(clients@, digest@);
}

} // verus!
