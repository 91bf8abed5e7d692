//! What is measured of a request and of its answer: counts and sizes only,
//! never what a message says.
use vstd::prelude::*;

use crate::json;
use crate::json::{get_in, items_of, parse, text_of, unsigned_at, Json, JsonView};
use crate::labels;
use crate::labels::finish_label;
use crate::scan;
use crate::scan::SseScan;
use crate::text::str_eq;

verus! {

// ---------------------------------------------------------------------------
// The request
// ---------------------------------------------------------------------------
/// How a request selects among the tools it offers. A request that offers
/// tools and does not say takes the provider's default.
pub open spec fn tool_mode(body: JsonView) -> Seq<char> {
    match json::member(body, "tool_choice"@) {
        Some(JsonView::Text(s)) => if s == "auto"@ || s == "none"@ || s == "required"@ {
            s
        } else {
            "other"@
        },
        Some(JsonView::Object(_)) => "named"@,
        _ => "auto"@,
    }
}

/// How many tools a request offers, under either name for them.
pub open spec fn tool_count(body: JsonView) -> Option<nat> {
    match json::as_items(json::member(body, "tools"@)) {
        Some(tools) => Some(tools.len()),
        None => match json::as_items(json::member(body, "functions"@)) {
            Some(functions) => Some(functions.len()),
            None => None,
        },
    }
}

/// The request asks for JSON output.
pub open spec fn json_mode(body: JsonView) -> bool {
    match json::as_text(json::member_of(json::member(body, "response_format"@), "type"@)) {
        Some(t) => t == "json_object"@ || t == "json_schema"@,
        None => false,
    }
}

/// The cap that a request puts on the output, under either name for it.
pub open spec fn output_cap(body: JsonView) -> Option<u64> {
    match json::as_unsigned(json::member(body, "max_tokens"@)) {
        Some(n) => Some(n),
        None => json::as_unsigned(json::member(body, "max_completion_tokens"@)),
    }
}

/// How a request selects among the tools it offers.
pub fn tool_choice_mode(v: &Json) -> (r: &'static str)
    ensures
        r@ == tool_mode(v.view()),
{
    match v.get("tool_choice") {
        Some(Json::Text(s)) => if str_eq(s.as_str(), "auto") {
            "auto"
        } else if str_eq(s.as_str(), "none") {
            "none"
        } else if str_eq(s.as_str(), "required") {
            "required"
        } else {
            "other"
        },
        Some(Json::Object(_)) => "named",
        _ => "auto",
    }
}

/// How many tools a request offers.
pub fn count_tools(v: &Json) -> (r: Option<usize>)
    ensures
        match r {
            Some(n) => tool_count(v.view()) == Some(n as nat),
            None => tool_count(v.view()) is None,
        },
{
    match items_of(v.get("tools")) {
        Some(tools) => {
            proof {
                json::items_view_len(tools@);
            }
            Some(tools.len())
        },
        None => match items_of(v.get("functions")) {
            Some(functions) => {
                proof {
                    json::items_view_len(functions@);
                }
                Some(functions.len())
            },
            None => None,
        },
    }
}

/// Whether the request asks for JSON output.
pub fn is_json_mode(v: &Json) -> (r: bool)
    ensures
        r == json_mode(v.view()),
{
    match text_of(get_in(v.get("response_format"), "type")) {
        Some(t) => str_eq(t, "json_object") || str_eq(t, "json_schema"),
        None => false,
    }
}

/// What a generation request asks for.
pub struct RequestShape {
    /// The request streams, as a label.
    pub stream: &'static str,
    /// How many messages the conversation holds.
    pub messages: Option<usize>,
    /// How many tools are offered, and how one is selected.
    pub tools: Option<(usize, &'static str)>,
    pub max_tokens: Option<u64>,
    pub json_mode: bool,
}

/// The shape is that of a body, as far as there is one.
pub open spec fn is_shape(s: RequestShape, body: Option<JsonView>, wants_stream: bool) -> bool {
    &&& s.stream@ == if wants_stream {
        "true"@
    } else {
        "false"@
    }
    &&& match body {
        Some(v) => {
            &&& match json::as_items(json::member(v, "messages"@)) {
                Some(m) => s.messages matches Some(n) && n == m.len(),
                None => s.messages is None,
            }
            &&& match tool_count(v) {
                Some(n) => s.tools matches Some((k, mode)) && k == n && mode@ == tool_mode(v),
                None => s.tools is None,
            }
            &&& s.max_tokens == output_cap(v)
            &&& s.json_mode == json_mode(v)
        },
        None => s.messages is None && s.tools is None && s.max_tokens is None && !s.json_mode,
    }
}

/// What a generation request asks for.
pub fn record_shape(parsed: Option<&Json>, wants_stream: bool) -> (r: RequestShape)
    ensures
        is_shape(r, json::opt_view(parsed), wants_stream),
{
    let stream: &'static str = if wants_stream {
        "true"
    } else {
        "false"
    };
    match parsed {
        Some(v) => {
            let messages: Option<usize> = match items_of(v.get("messages")) {
                Some(m) => {
                    proof {
                        json::items_view_len(m@);
                    }
                    Some(m.len())
                },
                None => None,
            };
            let tools: Option<(usize, &'static str)> = match count_tools(v) {
                Some(n) => Some((n, tool_choice_mode(v))),
                None => None,
            };
            let max_tokens: Option<u64> = match unsigned_at(Some(v), "max_tokens") {
                Some(n) => Some(n),
                None => unsigned_at(Some(v), "max_completion_tokens"),
            };
            RequestShape { stream, messages, tools, max_tokens, json_mode: is_json_mode(v) }
        },
        None => RequestShape {
            stream,
            messages: None,
            tools: None,
            max_tokens: None,
            json_mode: false,
        },
    }
}

// ---------------------------------------------------------------------------
// The answer
// ---------------------------------------------------------------------------
/// What is counted of a finished generation.
pub struct Quality {
    /// How it ended, as a label.
    pub finish: Option<String>,
    /// The tokens spent on reasoning, unless there were none.
    pub reasoning: Option<u64>,
    /// The tool calls made, unless there were none.
    pub tool_calls: Option<u128>,
}

/// The quality of a generation that ended so, with such reasoning and calls.
pub open spec fn is_quality(
    q: Quality,
    finish: Option<Seq<char>>,
    reasoning: Option<u64>,
    tool_calls: Option<nat>,
) -> bool {
    &&& match finish {
        Some(raw) => q.finish matches Some(l) && l@ == labels::finish_reason_label(raw),
        None => q.finish is None,
    }
    &&& q.reasoning == match reasoning {
        Some(n) => if n > 0 {
            Some(n)
        } else {
            None
        },
        None => None,
    }
    &&& match tool_calls {
        Some(n) => if n > 0 {
            q.tool_calls matches Some(k) && k == n
        } else {
            q.tool_calls is None
        },
        None => q.tool_calls is None,
    }
}

/// What is counted of a generation.
pub fn record_quality(
    finish: Option<&str>,
    reasoning: Option<u64>,
    tool_calls: Option<u128>,
) -> (r: Quality)
    ensures
        is_quality(
            r,
            match finish {
                Some(s) => Some(s@),
                None => None,
            },
            reasoning,
            match tool_calls {
                Some(n) => Some(n as nat),
                None => None,
            },
        ),
{
    Quality {
        finish: match finish {
            Some(raw) => Some(finish_label(raw)),
            None => None,
        },
        reasoning: match reasoning {
            Some(n) => if n > 0 {
                Some(n)
            } else {
                None
            },
            None => None,
        },
        tool_calls: match tool_calls {
            Some(n) => if n > 0 {
                Some(n)
            } else {
                None
            },
            None => None,
        },
    }
}

/// The tokens of a generation, and where the numbers come from.
pub struct TokenCounts {
    pub prompt: Option<u64>,
    pub completion: Option<u64>,
    pub source: &'static str,
}

/// The tokens of a finished stream: as reported, or else one for each event.
pub open spec fn is_stream_count(t: TokenCounts, seen: scan::ScanView) -> bool {
    &&& t.prompt == seen.prompt
    &&& match seen.completion {
        Some(n) => t.completion == Some(n) && t.source@ == "usage"@,
        None => t.completion matches Some(n) && n == seen.events && t.source@ == "estimate"@,
    }
}

/// How many tool calls a stream made: one more than the highest index.
pub open spec fn stream_tool_calls(seen: scan::ScanView) -> Option<nat> {
    match seen.tool_call_max {
        Some(m) => Some((m + 1) as nat),
        None => None,
    }
}

/// What is counted of a finished stream.
pub fn stream_totals(seen: &SseScan) -> (r: (TokenCounts, Quality))
    ensures
        is_stream_count(r.0, seen@),
        is_quality(r.1, seen@.finish_reason, seen@.reasoning, stream_tool_calls(seen@)),
{
    let tokens = match seen.completion {
        Some(n) => TokenCounts { prompt: seen.prompt, completion: Some(n), source: "usage" },
        None => TokenCounts {
            prompt: seen.prompt,
            completion: Some(seen.events),
            source: "estimate",
        },
    };
    let calls: Option<u128> = match seen.tool_call_max {
        Some(m) => Some(m as u128 + 1),
        None => None,
    };
    let finish: Option<&str> = match &seen.finish_reason {
        Some(s) => Some(s.as_str()),
        None => None,
    };
    (tokens, record_quality(finish, seen.reasoning, calls))
}

/// How many tool calls one choice of a whole answer makes.
pub open spec fn calls_in(choice: JsonView) -> nat {
    match json::as_items(json::member_of(json::member(choice, "message"@), "tool_calls"@)) {
        Some(calls) => calls.len(),
        None => 0,
    }
}

/// How many tool calls some choices make together.
pub open spec fn calls_total(choices: Seq<JsonView>) -> nat
    decreases choices.len(),
{
    if choices.len() == 0 {
        0
    } else {
        calls_total(choices.drop_last()) + calls_in(choices.last())
    }
}

/// How the first choice of an answer ended.
pub open spec fn finish_of(answer: JsonView) -> Option<Seq<char>> {
    match json::as_items(json::member(answer, "choices"@)) {
        Some(choices) => if choices.len() > 0 {
            json::as_text(json::member(choices[0], "finish_reason"@))
        } else {
            None
        },
        None => None,
    }
}

/// How many tool calls an answer makes, where it has choices.
pub open spec fn tool_calls_of(answer: JsonView) -> Option<nat> {
    match json::as_items(json::member(answer, "choices"@)) {
        Some(choices) => Some(calls_total(choices)),
        None => None,
    }
}

/// What is counted of a whole answer.
pub struct Harvest {
    pub tokens: Option<TokenCounts>,
    pub quality: Quality,
}

/// What is counted of an answer, nothing of one that failed or is no JSON.
pub open spec fn is_harvest(h: Option<Harvest>, success: bool, answer: Option<JsonView>) -> bool {
    match answer {
        Some(v) => if success {
            &&& h matches Some(x)
            &&& match scan::usage_of(v) {
                Some(u) => {
                    &&& x.tokens matches Some(t)
                    &&& t.prompt == json::as_unsigned(json::member(u, "prompt_tokens"@))
                    &&& t.completion == json::as_unsigned(json::member(u, "completion_tokens"@))
                    &&& t.source@ == "usage"@
                },
                None => x.tokens is None,
            }
            &&& is_quality(
                x.quality,
                finish_of(v),
                scan::reasoning_of(json::member(v, "usage"@)),
                tool_calls_of(v),
            )
        } else {
            h is None
        },
        None => h is None,
    }
}

/// How many tool calls some choices make together.
fn count_calls(choices: &Vec<Json>) -> (r: u128)
    ensures
        r == calls_total(json::items_view(choices@)),
{
    let ghost all = json::items_view(choices@);
    proof {
        json::items_view_len(choices@);
    }
    let mut total: u128 = 0;
    let mut i: usize = 0;
    assert(all.take(0) =~= Seq::empty());
    while i < choices.len()
        invariant
            i <= choices.len(),
            all == json::items_view(choices@),
            all.len() == choices@.len(),
            total == calls_total(all.take(i as int)),
            total <= i * usize::MAX,
        decreases choices.len() - i,
    {
        proof {
            json::items_view_at(choices@, i as int);
        }
        assert(all.take(i + 1).drop_last() =~= all.take(i as int));
        let n: usize = match items_of(get_in(choices[i].get("message"), "tool_calls")) {
            Some(calls) => {
                proof {
                    json::items_view_len(calls@);
                }
                calls.len()
            },
            None => 0,
        };
        assert(i * usize::MAX + n <= (i + 1) * usize::MAX) by (nonlinear_arith)
            requires
                n <= usize::MAX,
        ;
        assert((i + 1) * usize::MAX <= u128::MAX) by (nonlinear_arith)
            requires
                i + 1 <= usize::MAX,
                usize::MAX <= 0xffff_ffff_ffff_ffff,
        ;
        total = total + n as u128;
        i += 1;
    }
    assert(all.take(i as int) =~= all);
    total
}

/// What is counted of an answer whose body was read as JSON.
pub fn harvest_of(success: bool, answer: Option<&Json>) -> (r: Option<Harvest>)
    ensures
        is_harvest(r, success, json::opt_view(answer)),
{
    if !success {
        return None;
    }
    match answer {
        Some(v) => {
            let usage = v.get("usage");
            let tokens: Option<TokenCounts> = match usage {
                Some(u) => if u.is_null() {
                    None
                } else {
                    Some(
                        TokenCounts {
                            prompt: unsigned_at(usage, "prompt_tokens"),
                            completion: unsigned_at(usage, "completion_tokens"),
                            source: "usage",
                        },
                    )
                },
                None => None,
            };
            let reasoning: Option<u64> = unsigned_at(
                get_in(usage, "completion_tokens_details"),
                "reasoning_tokens",
            );
            let choices = items_of(v.get("choices"));
            let finish: Option<&str> = match choices {
                Some(c) => {
                    proof {
                        json::items_view_len(c@);
                    }
                    if c.len() > 0 {
                        proof {
                            json::items_view_at(c@, 0);
                        }
                        text_of(c[0].get("finish_reason"))
                    } else {
                        None
                    }
                },
                None => None,
            };
            let calls: Option<u128> = match choices {
                Some(c) => Some(count_calls(c)),
                None => None,
            };
            Some(Harvest { tokens, quality: record_quality(finish, reasoning, calls) })
        },
        None => None,
    }
}

/// What is counted of an answer: its body is read as JSON when it succeeded.
pub fn harvest(success: bool, body: &[u8]) -> (r: Option<Harvest>)
    ensures
        is_harvest(r, success, json::json_in(body@)),
{
    if !success {
        return None;
    }
    match parse(body) {
        Some(v) => harvest_of(success, Some(&v)),
        None => None,
    }
}

// ---------------------------------------------------------------------------
// Laws
// ---------------------------------------------------------------------------
/// What an object holds under a name, if the document is an object that holds it.
pub open spec fn held(v: JsonView, name: Seq<char>) -> Option<JsonView> {
    if v matches JsonView::Object(m) && m.contains_key(name) {
        Some(v->Object_0[name])
    } else {
        None
    }
}

/// How tools are selected: one of three words as it is, any other word is `other`,
/// an object names a tool, and everything else is the provider's own choice.
pub proof fn a_tool_choice_has_five_names(v: &Json, r: &'static str)
    requires
        call_ensures(tool_choice_mode, (v,), r),
    ensures
        match held(v.view(), "tool_choice"@) {
            Some(JsonView::Text(s)) => (s == "auto"@ || s == "none"@ || s == "required"@ ==> r@ == s)
                && (s != "auto"@ && s != "none"@ && s != "required"@ ==> r@ == "other"@),
            Some(JsonView::Object(_)) => r@ == "named"@,
            _ => r@ == "auto"@,
        },
{
}

/// Tools are counted under either name, the newer one first.
pub proof fn tools_have_two_names(v: &Json, r: Option<usize>)
    requires
        call_ensures(count_tools, (v,), r),
    ensures
        held(v.view(), "tools"@) matches Some(JsonView::Array(items)) ==> (r matches Some(n) && n
            == items.len()),
        !(held(v.view(), "tools"@) matches Some(JsonView::Array(_))) ==> match held(
            v.view(),
            "functions"@,
        ) {
            Some(JsonView::Array(items)) => r matches Some(n) && n == items.len(),
            _ => r is None,
        },
{
}

/// JSON is asked for by the type of the response format, by either of two.
pub proof fn json_mode_has_two_names(v: &Json, r: bool)
    requires
        call_ensures(is_json_mode, (v,), r),
    ensures
        r <==> (held(v.view(), "response_format"@) matches Some(f) && (held(f, "type"@) == Some(
            JsonView::Text("json_object"@),
        ) || held(f, "type"@) == Some(JsonView::Text("json_schema"@)))),
{
}

/// What is measured of a request: how it is answered, how many messages it holds,
/// its tools and how one is selected (where it offers any), the cap on its output
/// under either name for it, the older one first, and whether it asks for JSON. Of a
/// body that is not there nothing but the first is measured.
pub proof fn a_request_is_measured(
    parsed: Option<&Json>,
    wants_stream: bool,
    r: RequestShape,
    v: &Json,
    tools: Option<usize>,
    choice: &'static str,
    asks_json: bool,
)
    requires
        call_ensures(record_shape, (parsed, wants_stream), r),
        call_ensures(count_tools, (v,), tools),
        call_ensures(tool_choice_mode, (v,), choice),
        call_ensures(is_json_mode, (v,), asks_json),
        parsed matches Some(p) ==> *p == *v,
    ensures
        wants_stream ==> r.stream@ == "true"@,
        !wants_stream ==> r.stream@ == "false"@,
        parsed is None ==> r.messages is None && r.tools is None && r.max_tokens is None
            && !r.json_mode,
        parsed is Some ==> {
            &&& match held(v.view(), "messages"@) {
                Some(JsonView::Array(items)) => r.messages matches Some(n) && n == items.len(),
                _ => r.messages is None,
            }
            &&& tools is Some <==> r.tools is Some
            &&& tools matches Some(n) ==> (r.tools matches Some((k, mode)) && k == n && mode@
                == choice@)
            &&& r.json_mode == asks_json
            &&& match held(v.view(), "max_tokens"@) {
                Some(JsonView::Number { unsigned: Some(n), .. }) => r.max_tokens == Some(n),
                _ => match held(v.view(), "max_completion_tokens"@) {
                    Some(JsonView::Number { unsigned, .. }) => r.max_tokens == unsigned,
                    _ => r.max_tokens is None,
                },
            }
        },
{
}

/// What is counted of a generation: how it ended, as a label; and its reasoning and
/// its tool calls, unless there were none.
pub proof fn nothing_is_counted_as_something(
    finish: Option<&str>,
    reasoning: Option<u64>,
    tool_calls: Option<u128>,
    r: Quality,
    raw: &str,
    label: String,
)
    requires
        call_ensures(record_quality, (finish, reasoning, tool_calls), r),
        call_ensures(finish_label, (raw,), label),
        finish matches Some(f) ==> f@ == raw@,
    ensures
        finish is None ==> r.finish is None,
        finish is Some ==> (r.finish matches Some(l) && l@ == label@),
        reasoning is None || reasoning == Some(0u64) ==> r.reasoning is None,
        reasoning matches Some(n) ==> (n > 0 ==> r.reasoning == Some(n)),
        tool_calls is None || tool_calls == Some(0u128) ==> r.tool_calls is None,
        tool_calls matches Some(n) ==> (n > 0 ==> r.tool_calls == Some(n)),
{
}

/// A finished stream amounts to what it reported; where it reported no completion
/// tokens, each event counts as one. It made one more tool call than the highest
/// index that it gave.
pub proof fn a_stream_amounts_to_what_it_reported(
    seen: &SseScan,
    r: (TokenCounts, Quality),
    raw: &str,
    label: String,
)
    requires
        call_ensures(stream_totals, (seen,), r),
        call_ensures(finish_label, (raw,), label),
    ensures
        seen.finish_reason matches Some(f) ==> (f@ == raw@ ==> (r.1.finish matches Some(l) && l@
            == label@)),
        r.0.prompt == seen.prompt,
        seen.completion is Some ==> r.0.completion == seen.completion && r.0.source@ == "usage"@,
        seen.completion is None ==> r.0.completion == Some(seen.events) && r.0.source@
            == "estimate"@,
        seen.tool_call_max is None ==> r.1.tool_calls is None,
        seen.tool_call_max matches Some(m) ==> (r.1.tool_calls matches Some(n) && n == m + 1),
        seen.finish_reason is Some <==> r.1.finish is Some,
        seen.reasoning is None || seen.reasoning == Some(0u64) ==> r.1.reasoning is None,
        seen.reasoning matches Some(n) ==> (n > 0 ==> r.1.reasoning == Some(n)),
{
}

proof fn total_is_the_sum(choices: Seq<JsonView>)
    ensures
        calls_total(choices) == choices.map_values(|c: JsonView| calls_in(c) as int).fold_left(
            0int,
            |a: int, b: int| a + b,
        ),
    decreases choices.len(),
{
    if choices.len() > 0 {
        total_is_the_sum(choices.drop_last());
        let s = choices.map_values(|c: JsonView| calls_in(c) as int);
        assert(s.drop_last() =~= choices.drop_last().map_values(|c: JsonView| calls_in(c) as int));
    }
}

/// The tool calls of the message of a choice.
pub open spec fn calls_made(choice: JsonView) -> int {
    match held(choice, "message"@) {
        Some(message) => match held(message, "tool_calls"@) {
            Some(JsonView::Array(items)) => items.len() as int,
            _ => 0,
        },
        None => 0,
    }
}

/// The reasoning tokens that an answer reports.
pub open spec fn reported_reasoning(answer: JsonView) -> Option<u64> {
    match held(answer, "usage"@) {
        Some(usage) => match held(usage, "completion_tokens_details"@) {
            Some(details) => match held(details, "reasoning_tokens"@) {
                Some(JsonView::Number { unsigned, .. }) => unsigned,
                _ => None,
            },
            None => None,
        },
        None => None,
    }
}

/// What is counted of a whole answer: nothing of one that failed or is no JSON;
/// else the tokens of its usage, where it reports any, how its first choice ended,
/// its reasoning, and the tool calls of all its choices together.
pub proof fn an_answer_is_counted(
    success: bool,
    answer: Option<&Json>,
    r: Option<Harvest>,
    raw: &str,
    label: String,
)
    requires
        call_ensures(harvest_of, (success, answer), r),
        call_ensures(finish_label, (raw,), label),
    ensures
        r is Some <==> success && answer is Some,
        r matches Some(h) ==> {
            let v = answer->0.view();
            &&& h.tokens is Some <==> (held(v, "usage"@) matches Some(u) && u != JsonView::Null)
            &&& h.tokens matches Some(t) ==> {
                let u = held(v, "usage"@)->0;
                &&& t.prompt == match held(u, "prompt_tokens"@) {
                    Some(JsonView::Number { unsigned, .. }) => unsigned,
                    _ => None,
                }
                &&& t.completion == match held(u, "completion_tokens"@) {
                    Some(JsonView::Number { unsigned, .. }) => unsigned,
                    _ => None,
                }
                &&& t.source@ == "usage"@
            }
            &&& h.quality.reasoning == match reported_reasoning(v) {
                Some(n) => if n == 0 {
                    None
                } else {
                    Some(n)
                },
                None => None,
            }
            &&& match held(v, "choices"@) {
                Some(JsonView::Array(choices)) => {
                    let total = choices.map_values(|c: JsonView| calls_made(c)).fold_left(
                        0int,
                        |a: int, b: int| a + b,
                    );
                    &&& total > 0 ==> (h.quality.tool_calls matches Some(n) && n == total)
                    &&& total <= 0 ==> h.quality.tool_calls is None
                    &&& h.quality.finish is Some <==> choices.len() > 0 && (held(
                        choices[0],
                        "finish_reason"@,
                    ) matches Some(JsonView::Text(_)))
                    &&& choices.len() > 0 && held(choices[0], "finish_reason"@) == Some(
                        JsonView::Text(raw@),
                    ) ==> (h.quality.finish matches Some(l) && l@ == label@)
                },
                _ => h.quality.tool_calls is None && h.quality.finish is None,
            }
        },
{
    if let Some(a) = answer {
        if let Some(JsonView::Array(choices)) = held(a.view(), "choices"@) {
            total_is_the_sum(choices);
            assert(choices.map_values(|c: JsonView| calls_made(c)) =~= choices.map_values(
                |c: JsonView| calls_in(c) as int,
            ));
        }
    }
}

/// Bytes are counted as the document that they hold.
pub proof fn bytes_are_counted_as_what_they_hold(
    success: bool,
    body: &[u8],
    r: Option<Harvest>,
    answer: Option<&Json>,
    h: Option<Harvest>,
)
    requires
        call_ensures(harvest, (success, body), r),
        call_ensures(harvest_of, (success, answer), h),
        json::opt_view(answer) == json::json_in(body@),
    ensures
        r is Some <==> h is Some,
        r is Some ==> {
            &&& r->0.tokens is Some <==> h->0.tokens is Some
            &&& r->0.tokens is Some ==> r->0.tokens->0.prompt == h->0.tokens->0.prompt
                && r->0.tokens->0.completion == h->0.tokens->0.completion
            &&& r->0.quality.tool_calls == h->0.quality.tool_calls
            &&& r->0.quality.reasoning == h->0.quality.reasoning
            &&& r->0.quality.finish is Some <==> h->0.quality.finish is Some
            &&& r->0.quality.finish is Some ==> r->0.quality.finish->0@ == h->0.quality.finish->0@
        },
{
}

} // verus!
