//! Watches a server-sent event stream on its way through: token usage, how the
//! generation ended, tool calls, and the number of data events (about one token
//! each, the estimate where the upstream reports no usage). It only looks; the
//! bytes reach the client untouched.
use vstd::prelude::*;
use vstd::utf8;

use crate::json;
use crate::json::{get_in, items_of, parse, text_of, unsigned_at, Json, JsonView};
use crate::text;
use crate::text::{
    byte_len, chars_of, contains, join, str_eq, string_of, strip_prefix, trim, trim_start,
};

verus! {

/// The longest unfinished line that is kept, in bytes.
pub const LINE_CAP_BYTES: usize = 1_048_576;

/// What has been seen of a stream.
pub struct SseScan {
    /// The unfinished last line.
    pub buf: String,
    pub events: u64,
    pub prompt: Option<u64>,
    pub completion: Option<u64>,
    pub reasoning: Option<u64>,
    pub finish_reason: Option<String>,
    /// The highest tool call index seen; one more is the number of tool calls.
    pub tool_call_max: Option<u64>,
}

/// What has been seen of a stream.
#[verifier::ext_equal]
pub struct ScanView {
    pub buf: Seq<char>,
    pub events: nat,
    pub prompt: Option<u64>,
    pub completion: Option<u64>,
    pub reasoning: Option<u64>,
    pub finish_reason: Option<Seq<char>>,
    pub tool_call_max: Option<u64>,
}

impl View for SseScan {
    type V = ScanView;

    open spec fn view(&self) -> ScanView {
        ScanView {
            buf: self.buf@,
            events: self.events as nat,
            prompt: self.prompt,
            completion: self.completion,
            reasoning: self.reasoning,
            finish_reason: match self.finish_reason {
                Some(s) => Some(s@),
                None => None,
            },
            tool_call_max: self.tool_call_max,
        }
    }
}

// ---------------------------------------------------------------------------
// Model
// ---------------------------------------------------------------------------
/// The newer of two readings.
pub open spec fn newer(new: Option<u64>, old: Option<u64>) -> Option<u64> {
    match new {
        Some(n) => Some(n),
        None => old,
    }
}

/// The larger of a number that may be known and another.
pub open spec fn max_of(known: Option<u64>, n: u64) -> Option<u64> {
    match known {
        Some(m) => if m >= n {
            Some(m)
        } else {
            Some(n)
        },
        None => Some(n),
    }
}

/// The usage object of an event, if it holds one that is not null.
pub open spec fn usage_of(event: JsonView) -> Option<JsonView> {
    match json::member(event, "usage"@) {
        Some(u) => if u == JsonView::Null {
            None
        } else {
            Some(u)
        },
        None => None,
    }
}

/// The reasoning tokens that a usage object reports.
pub open spec fn reasoning_of(usage: Option<JsonView>) -> Option<u64> {
    json::as_unsigned(
        json::member_of(
            json::member_of(usage, "completion_tokens_details"@),
            "reasoning_tokens"@,
        ),
    )
}

/// What is known once the usage of an event is read.
pub open spec fn usage_read(v: ScanView, event: JsonView) -> ScanView {
    match usage_of(event) {
        Some(u) => ScanView {
            prompt: newer(json::as_unsigned(json::member(u, "prompt_tokens"@)), v.prompt),
            completion: newer(
                json::as_unsigned(json::member(u, "completion_tokens"@)),
                v.completion,
            ),
            reasoning: newer(reasoning_of(Some(u)), v.reasoning),
            ..v
        },
        None => v,
    }
}

/// What is known once the tool calls of a choice are read.
pub open spec fn tool_calls_read(v: ScanView, calls: Seq<JsonView>) -> ScanView
    decreases calls.len(),
{
    if calls.len() == 0 {
        v
    } else {
        let before = tool_calls_read(v, calls.drop_last());
        match json::as_unsigned(json::member(calls.last(), "index"@)) {
            Some(n) => ScanView { tool_call_max: max_of(before.tool_call_max, n), ..before },
            None => before,
        }
    }
}

/// The tool calls of one choice.
pub open spec fn calls_of(choice: JsonView) -> Option<Seq<JsonView>> {
    json::as_items(json::member_of(json::member(choice, "delta"@), "tool_calls"@))
}

/// What is known once one choice is read.
pub open spec fn choice_read(v: ScanView, choice: JsonView) -> ScanView {
    let ended = match json::as_text(json::member(choice, "finish_reason"@)) {
        Some(reason) => ScanView { finish_reason: Some(reason), ..v },
        None => v,
    };
    match calls_of(choice) {
        Some(calls) => tool_calls_read(ended, calls),
        None => ended,
    }
}

/// What is known once some choices are read, in order.
pub open spec fn choices_read(v: ScanView, choices: Seq<JsonView>) -> ScanView
    decreases choices.len(),
{
    if choices.len() == 0 {
        v
    } else {
        choice_read(choices_read(v, choices.drop_last()), choices.last())
    }
}

/// What is known once a parsed event is read.
pub open spec fn event_read(v: ScanView, event: JsonView) -> ScanView {
    let used = usage_read(v, event);
    match json::as_items(json::member(event, "choices"@)) {
        Some(choices) => choices_read(used, choices),
        None => used,
    }
}

/// Events worth parsing: those that speak of usage, of a finish reason, or of
/// tool calls. A finish reason that is null changes nothing once it is read.
pub open spec fn interesting(data: Seq<char>) -> bool {
    ||| text::occurs_in("\"usage\""@, data)
    ||| text::occurs_in("\"finish_reason\""@, data)
    ||| text::occurs_in("\"tool_calls\""@, data)
}

/// The data that a line carries, if it carries any.
pub open spec fn data_of(line: Seq<char>) -> Option<Seq<char>> {
    let bare = text::trimmed(line);
    if text::opens_with(bare, "data:"@) {
        Some(text::trimmed_start(bare.skip("data:"@.len() as int)))
    } else {
        None
    }
}

/// What is known once a line is read.
pub open spec fn line_read(v: ScanView, line: Seq<char>) -> ScanView {
    match data_of(line) {
        Some(data) => if data == "[DONE]"@ {
            v
        } else {
            let counted = ScanView { events: v.events + 1, ..v };
            if interesting(data) {
                match json::json_in(utf8::encode_utf8(data)) {
                    Some(event) => event_read(counted, event),
                    None => counted,
                }
            } else {
                counted
            }
        },
        None => v,
    }
}

/// The index of the first line break, or the length where there is none.
pub open spec fn first_break(s: Seq<char>) -> int
    decreases s.len(),
{
    if s.len() == 0 {
        0
    } else if s[0] == '\n' {
        0
    } else {
        1 + first_break(s.drop_first())
    }
}

/// What is known once every finished line of the buffer is read.
pub open spec fn drained(v: ScanView) -> ScanView
    decreases v.buf.len(),
{
    let at = first_break(v.buf);
    if 0 <= at < v.buf.len() {
        drained(
            ScanView { buf: v.buf.skip(at + 1), ..line_read(v, v.buf.take(at + 1)) },
        )
    } else {
        v
    }
}

/// What is known once more text has arrived. An unfinished line that is longer
/// than the cap is dropped.
pub open spec fn text_fed(v: ScanView, more: Seq<char>) -> ScanView {
    let read = drained(ScanView { buf: v.buf + more, ..v });
    if utf8::encode_utf8(read.buf).len() > LINE_CAP_BYTES {
        ScanView { buf: Seq::empty(), ..read }
    } else {
        read
    }
}

// ---------------------------------------------------------------------------
// Scanning
// ---------------------------------------------------------------------------
/// The text that `String::from_utf8_lossy` makes of bytes.
pub uninterp spec fn lossy(bytes: Seq<u8>) -> Seq<char>;

/// Calls `String::from_utf8_lossy`: valid UTF-8 is decoded, and each invalid
/// run of bytes becomes one replacement character, so that there are never
/// more characters than bytes.
#[verifier::external_body]
pub(crate) fn utf8_lossy(bytes: &[u8]) -> (r: String)
    ensures
        r@ == lossy(bytes@),
        utf8::valid_utf8(bytes@) ==> r@ == utf8::decode_utf8(bytes@),
        r@.len() <= bytes@.len(),
{
    String::from_utf8_lossy(bytes).into_owned()
}

proof fn first_break_bounds(s: Seq<char>)
    ensures
        0 <= first_break(s) <= s.len(),
    decreases s.len(),
{
    if s.len() > 0 && s[0] != '\n' {
        first_break_bounds(s.drop_first());
    }
}

/// The first line break of `chars[from..]`, or the end.
fn find_break(chars: &Vec<char>, from: usize) -> (r: usize)
    requires
        from <= chars@.len(),
    ensures
        from <= r <= chars@.len(),
        r - from == first_break(chars@.skip(from as int)),
{
    let mut i: usize = from;
    while i < chars.len() && chars[i] != '\n'
        invariant
            from <= i <= chars@.len(),
            first_break(chars@.skip(from as int)) == i - from + first_break(
                chars@.skip(i as int),
            ),
        decreases chars.len() - i,
    {
        assert(chars@.skip(i as int).drop_first() =~= chars@.skip(i + 1));
        i += 1;
    }
    i
}

/// Nothing seen yet.
pub open spec fn nothing_seen() -> ScanView {
    ScanView {
        buf: Seq::empty(),
        events: 0,
        prompt: None,
        completion: None,
        reasoning: None,
        finish_reason: None,
        tool_call_max: None,
    }
}

impl Default for SseScan {
    fn default() -> (r: SseScan)
        ensures
            r@ == nothing_seen(),
    {
        let r = SseScan {
            buf: String::new(),
            events: 0,
            prompt: None,
            completion: None,
            reasoning: None,
            finish_reason: None,
            tool_call_max: None,
        };
        assert(r@.buf =~= Seq::empty());
        r
    }
}

impl SseScan {
    /// Reads the usage of an event.
    fn read_usage(&mut self, event: &Json)
        ensures
            final(self)@ == usage_read(old(self)@, event.view()),
    {
        let usage = match event.get("usage") {
            Some(u) => if u.is_null() {
                None
            } else {
                Some(u)
            },
            None => None,
        };
        if usage.is_some() {
            if let Some(n) = unsigned_at(usage, "prompt_tokens") {
                self.prompt = Some(n);
            }
            if let Some(n) = unsigned_at(usage, "completion_tokens") {
                self.completion = Some(n);
            }
            if let Some(n) = unsigned_at(
                get_in(usage, "completion_tokens_details"),
                "reasoning_tokens",
            ) {
                self.reasoning = Some(n);
            }
        }
    }

    /// Reads the tool calls of a choice.
    fn read_tool_calls(&mut self, calls: &Vec<Json>)
        ensures
            final(self)@ == tool_calls_read(old(self)@, json::items_view(calls@)),
    {
        let ghost before = self@;
        let ghost all = json::items_view(calls@);
        let mut i: usize = 0;
        proof {
            json::items_view_len(calls@);
        }
        assert(all.take(0) =~= Seq::empty());
        while i < calls.len()
            invariant
                i <= calls@.len(),
                all == json::items_view(calls@),
                all.len() == calls@.len(),
                self@ == tool_calls_read(before, all.take(i as int)),
            decreases calls.len() - i,
        {
            proof {
                json::items_view_at(calls@, i as int);
            }
            assert(all.take(i + 1).drop_last() =~= all.take(i as int));
            if let Some(n) = unsigned_at(Some(&calls[i]), "index") {
                let max: u64 = match self.tool_call_max {
                    Some(m) => if m >= n {
                        m
                    } else {
                        n
                    },
                    None => n,
                };
                self.tool_call_max = Some(max);
            }
            i += 1;
        }
        assert(all.take(i as int) =~= all);
    }

    /// Reads one choice of an event.
    fn read_choice(&mut self, choice: &Json)
        ensures
            final(self)@ == choice_read(old(self)@, choice.view()),
    {
        if let Some(reason) = text_of(choice.get("finish_reason")) {
            self.finish_reason = Some(reason.to_owned());
        }
        if let Some(calls) = items_of(get_in(choice.get("delta"), "tool_calls")) {
            self.read_tool_calls(calls);
        }
    }

    /// Reads a parsed event.
    fn read_event(&mut self, event: &Json)
        ensures
            final(self)@ == event_read(old(self)@, event.view()),
    {
        self.read_usage(event);
        if let Some(choices) = items_of(event.get("choices")) {
            let ghost before = self@;
            let ghost all = json::items_view(choices@);
            let mut i: usize = 0;
            proof {
                json::items_view_len(choices@);
            }
            assert(all.take(0) =~= Seq::empty());
            while i < choices.len()
                invariant
                    i <= choices@.len(),
                    all == json::items_view(choices@),
                    all.len() == choices@.len(),
                    self@ == choices_read(before, all.take(i as int)),
                decreases choices.len() - i,
            {
                proof {
                    json::items_view_at(choices@, i as int);
                }
                assert(all.take(i + 1).drop_last() =~= all.take(i as int));
                self.read_choice(&choices[i]);
                i += 1;
            }
            assert(all.take(i as int) =~= all);
        }
    }

    /// Reads one line.
    fn read_line(&mut self, line: &str)
        requires
            old(self).events < u64::MAX,
        ensures
            final(self)@ == line_read(old(self)@, line@),
            final(self)@.events <= old(self)@.events + 1,
            final(self)@.buf == old(self)@.buf,
    {
        let ghost before = self@;
        let bare = trim(line);
        match strip_prefix(bare.as_str(), "data:") {
            Some(rest) => {
                let data = trim_start(rest.as_str());
                if !str_eq(data.as_str(), "[DONE]") {
                    self.events += 1;
                    if contains(data.as_str(), "\"usage\"") || contains(
                        data.as_str(),
                        "\"finish_reason\"",
                    ) || contains(data.as_str(), "\"tool_calls\"") {
                        if let Some(event) = parse(data.as_str().as_bytes()) {
                            let ghost counted = self@;
                            self.read_event(&event);
                            proof {
                                event_read_frame(counted, event.view());
                            }
                        }
                    }
                }
            },
            None => {},
        }
    }

    /// Takes in more of the stream.
    pub fn feed(&mut self, bytes: &[u8])
        requires
            old(self).events + old(self).buf@.len() + bytes@.len() <= u64::MAX,
        ensures
            final(self)@ == text_fed(old(self)@, lossy(bytes@)),
            utf8::valid_utf8(bytes@) ==> final(self)@ == text_fed(
                old(self)@,
                utf8::decode_utf8(bytes@),
            ),
            utf8::encode_utf8(final(self)@.buf).len() <= LINE_CAP_BYTES,
            final(self).events + final(self).buf@.len() <= old(self).events + old(self).buf@.len()
                + bytes@.len(),
    {
        let ghost before = self@;
        let more = utf8_lossy(bytes);
        let whole = join(self.buf.as_str(), more.as_str());
        let ghost start = ScanView { buf: whole@, ..before };
        let chars = chars_of(whole.as_str());
        let n: usize = chars.len();
        let mut from: usize = 0;
        let mut at: usize = find_break(&chars, 0);
        assert(chars@.skip(0) =~= whole@);
        while at < n
            invariant
                n == chars@.len(),
                from <= at <= n,
                at - from == first_break(chars@.skip(from as int)),
                self.events + (n - from) <= before.events + n <= u64::MAX,
                drained(start) == drained(ScanView { buf: chars@.skip(from as int), ..self@ }),
            decreases n - from,
        {
            let line = string_of(&chars, from, at + 1);
            let ghost rest = chars@.skip(from as int);
            let ghost here = ScanView { buf: rest, ..self@ };
            assert(line@ =~= rest.take(at - from + 1));
            assert(rest.skip(at - from + 1) =~= chars@.skip(at + 1));
            proof {
                line_read_ignores_buf(self@, rest, line@);
            }
            self.read_line(line.as_str());
            from = at + 1;
            at = find_break(&chars, from);
        }
        self.buf = string_of(&chars, from, n);
        assert(chars@.skip(from as int) =~= self.buf@);
        assert(self@ =~= ScanView { buf: chars@.skip(from as int), ..self@ });
        if byte_len(self.buf.as_str()) > LINE_CAP_BYTES {
            self.buf = String::new();
            assert(self.buf@ =~= Seq::empty());
        }
        proof {
            empty_is_short();
        }
    }
}

pub proof fn empty_is_short()
    ensures
        utf8::encode_utf8(Seq::<char>::empty()).len() == 0,
{
    reveal_with_fuel(utf8::encode_utf8, 1);
}

/// Reading tool calls changes neither the buffer nor the event count.
proof fn tool_calls_read_frame(v: ScanView, calls: Seq<JsonView>, buf: Seq<char>)
    ensures
        tool_calls_read(v, calls).buf == v.buf,
        tool_calls_read(v, calls).events == v.events,
        tool_calls_read(ScanView { buf, ..v }, calls) == (ScanView {
            buf,
            ..tool_calls_read(v, calls)
        }),
    decreases calls.len(),
{
    if calls.len() > 0 {
        tool_calls_read_frame(v, calls.drop_last(), buf);
    }
}

proof fn choices_read_frame(v: ScanView, choices: Seq<JsonView>, buf: Seq<char>)
    ensures
        choices_read(v, choices).buf == v.buf,
        choices_read(v, choices).events == v.events,
        choices_read(ScanView { buf, ..v }, choices) == (ScanView {
            buf,
            ..choices_read(v, choices)
        }),
    decreases choices.len(),
{
    if choices.len() > 0 {
        choices_read_frame(v, choices.drop_last(), buf);
        let before = choices_read(v, choices.drop_last());
        let choice = choices.last();
        let ended = match json::as_text(json::member(choice, "finish_reason"@)) {
            Some(reason) => ScanView { finish_reason: Some(reason), ..before },
            None => before,
        };
        match calls_of(choice) {
            Some(calls) => {
                tool_calls_read_frame(ended, calls, buf);
            },
            None => {},
        }
    }
}

/// Reading an event changes neither the buffer nor the event count.
proof fn event_read_frame(v: ScanView, event: JsonView)
    ensures
        event_read(v, event).buf == v.buf,
        event_read(v, event).events == v.events,
{
    match json::as_items(json::member(event, "choices"@)) {
        Some(choices) => {
            choices_read_frame(usage_read(v, event), choices, v.buf);
        },
        None => {},
    }
}

/// What a line says does not depend on what is left in the buffer.
proof fn line_read_ignores_buf(v: ScanView, buf: Seq<char>, line: Seq<char>)
    ensures
        line_read(ScanView { buf, ..v }, line) == (ScanView { buf, ..line_read(v, line) }),
{
    match data_of(line) {
        Some(data) => {
            if data != "[DONE]"@ && interesting(data) {
                match json::json_in(utf8::encode_utf8(data)) {
                    Some(event) => {
                        let counted = ScanView { events: v.events + 1, ..v };
                        match json::as_items(json::member(event, "choices"@)) {
                            Some(choices) => {
                                choices_read_frame(usage_read(counted, event), choices, buf);
                            },
                            None => {},
                        }
                    },
                    None => {},
                }
            }
        },
        None => {},
    }
}

// ---------------------------------------------------------------------------
// Laws
// ---------------------------------------------------------------------------
proof fn first_break_of_longer(s: Seq<char>, more: Seq<char>)
    requires
        first_break(s) < s.len(),
    ensures
        first_break(s + more) == first_break(s),
    decreases s.len(),
{
    if s[0] != '\n' {
        first_break_of_longer(s.drop_first(), more);
        assert((s + more).drop_first() =~= s.drop_first() + more);
    }
}

/// Draining now and again later is draining once.
proof fn drained_in_steps(v: ScanView, more: Seq<char>)
    ensures
        drained(ScanView { buf: v.buf + more, ..v }) == drained(
            ScanView { buf: drained(v).buf + more, ..drained(v) },
        ),
    decreases v.buf.len(),
{
    let at = first_break(v.buf);
    first_break_bounds(v.buf);
    if at < v.buf.len() {
        let whole = ScanView { buf: v.buf + more, ..v };
        let line = v.buf.take(at + 1);
        first_break_of_longer(v.buf, more);
        assert(whole.buf.take(at + 1) =~= line);
        assert(whole.buf.skip(at + 1) =~= v.buf.skip(at + 1) + more);
        line_read_ignores_buf(v, whole.buf, line);
        let next = ScanView { buf: v.buf.skip(at + 1), ..line_read(v, line) };
        drained_in_steps(next, more);
    }
}

/// How the stream is cut makes no difference: text that arrives in two parts
/// is read as if it had arrived at once, as long as no part of it is dropped
/// for being an unfinished line beyond the cap.
pub proof fn a_cut_stream_reads_the_same(v: ScanView, x: Seq<char>, y: Seq<char>)
    requires
        utf8::encode_utf8(drained(ScanView { buf: v.buf + x, ..v }).buf).len() <= LINE_CAP_BYTES,
    ensures
        text_fed(text_fed(v, x), y) == text_fed(v, x + y),
{
    let half = ScanView { buf: v.buf + x, ..v };
    assert(v.buf + (x + y) =~= (v.buf + x) + y);
    drained_in_steps(half, y);
}

proof fn no_break_before(s: Seq<char>, i: int)
    requires
        0 <= i < first_break(s),
    ensures
        i < s.len(),
        s[i] != '\n',
    decreases s.len(),
{
    first_break_bounds(s);
    if i > 0 {
        no_break_before(s.drop_first(), i - 1);
    }
}

proof fn drained_has_no_break(v: ScanView)
    ensures
        first_break(drained(v).buf) == drained(v).buf.len(),
        drained(v).events >= v.events,
    decreases v.buf.len(),
{
    let at = first_break(v.buf);
    first_break_bounds(v.buf);
    if at < v.buf.len() {
        let line = v.buf.take(at + 1);
        match data_of(line) {
            Some(data) => {
                let counted = ScanView { events: v.events + 1, ..v };
                match json::json_in(utf8::encode_utf8(data)) {
                    Some(event) => {
                        event_read_frame(counted, event);
                    },
                    None => {},
                }
            },
            None => {},
        }
        drained_has_no_break(ScanView { buf: v.buf.skip(at + 1), ..line_read(v, line) });
    }
}

/// Whatever arrives, what is kept of it is one unfinished line within the cap,
/// and the event count never goes down.
pub proof fn only_an_unfinished_line_is_kept(v: ScanView, more: Seq<char>)
    ensures
        utf8::encode_utf8(text_fed(v, more).buf).len() <= LINE_CAP_BYTES,
        forall|i: int|
            0 <= i < text_fed(v, more).buf.len() ==> #[trigger] text_fed(v, more).buf[i] != '\n',
        text_fed(v, more).events >= v.events,
{
    empty_is_short();
    let read = drained(ScanView { buf: v.buf + more, ..v });
    drained_has_no_break(ScanView { buf: v.buf + more, ..v });
    assert forall|i: int| 0 <= i < text_fed(v, more).buf.len() implies #[trigger] text_fed(
        v,
        more,
    ).buf[i] != '\n' by {
        no_break_before(read.buf, i);
    }
}

/// One of some tool calls gives this index.
pub open spec fn gives_index(calls: Seq<JsonView>, n: u64) -> bool {
    exists|k: int|
        0 <= k < calls.len() && #[trigger] json::as_unsigned(json::member(calls[k], "index"@))
            == Some(n)
}

/// The choice makes a tool call with this index.
pub open spec fn calls_with(choice: JsonView, n: u64) -> bool {
    json::as_items(json::member_of(json::member(choice, "delta"@), "tool_calls"@)) matches Some(
        calls,
    ) && gives_index(calls, n)
}

/// How a choice ended, if it says so.
pub open spec fn ended(choice: JsonView) -> Option<Seq<char>> {
    json::as_text(json::member(choice, "finish_reason"@))
}

proof fn the_highest_index_of_calls(v: ScanView, calls: Seq<JsonView>, n: u64)
    ensures
        ({
            let after = tool_calls_read(v, calls).tool_call_max;
            &&& v.tool_call_max is Some ==> after is Some && after->0 >= v.tool_call_max->0
            &&& gives_index(calls, n) ==> after is Some && after->0 >= n
            &&& after == v.tool_call_max || (after matches Some(m) && gives_index(calls, m))
            &&& tool_calls_read(v, calls) == (ScanView { tool_call_max: after, ..v })
        }),
    decreases calls.len(),
{
    if calls.len() > 0 {
        let rest = calls.drop_last();
        the_highest_index_of_calls(v, rest, n);
        let before = tool_calls_read(v, rest).tool_call_max;
        let last = json::as_unsigned(json::member(calls.last(), "index"@));
        if gives_index(calls, n) {
            let k = choose|k: int|
                0 <= k < calls.len() && #[trigger] json::as_unsigned(
                    json::member(calls[k], "index"@),
                ) == Some(n);
            if k < rest.len() {
                assert(json::as_unsigned(json::member(rest[k], "index"@)) == Some(n));
                assert(gives_index(rest, n));
            }
        }
        if let Some(m) = before {
            if gives_index(rest, m) {
                let k = choose|k: int|
                    0 <= k < rest.len() && #[trigger] json::as_unsigned(
                        json::member(rest[k], "index"@),
                    ) == Some(m);
                assert(json::as_unsigned(json::member(calls[k], "index"@)) == Some(m));
                assert(gives_index(calls, m));
            }
        }
        if let Some(m) = last {
            assert(json::as_unsigned(json::member(calls[calls.len() - 1], "index"@)) == Some(m));
            assert(gives_index(calls, m));
        }
    }
}

/// Some choice makes a tool call with this index.
pub open spec fn some_calls_with(choices: Seq<JsonView>, n: u64) -> bool {
    exists|i: int| 0 <= i < choices.len() && #[trigger] calls_with(choices[i], n)
}

proof fn what_choices_say(v: ScanView, choices: Seq<JsonView>, n: u64, i: int)
    ensures
        ({
            let after = choices_read(v, choices);
            &&& v.tool_call_max is Some ==> after.tool_call_max is Some && after.tool_call_max->0
                >= v.tool_call_max->0
            &&& some_calls_with(choices, n) ==> after.tool_call_max is Some
                && after.tool_call_max->0 >= n
            &&& after.tool_call_max == v.tool_call_max || (after.tool_call_max matches Some(m)
                && some_calls_with(choices, m))
            &&& 0 <= i < choices.len() && ended(choices[i]) is Some && (forall|j: int|
                i < j < choices.len() ==> ended(#[trigger] choices[j]) is None)
                ==> after.finish_reason == ended(choices[i])
            &&& (forall|j: int| 0 <= j < choices.len() ==> ended(#[trigger] choices[j]) is None)
                ==> after.finish_reason == v.finish_reason
            &&& after.prompt == v.prompt && after.completion == v.completion && after.reasoning
                == v.reasoning
        }),
    decreases choices.len(),
{
    if choices.len() > 0 {
        let rest = choices.drop_last();
        let last = choices.last();
        what_choices_say(v, rest, n, i);
        let before = choices_read(v, rest);
        let closed = match ended(last) {
            Some(reason) => ScanView { finish_reason: Some(reason), ..before },
            None => before,
        };
        if let Some(calls) = calls_of(last) {
            the_highest_index_of_calls(closed, calls, n);
        }
        assert(choices[choices.len() - 1] == last);
        if some_calls_with(choices, n) {
            let k = choose|k: int| 0 <= k < choices.len() && #[trigger] calls_with(choices[k], n);
            if k < rest.len() {
                assert(calls_with(rest[k], n));
                assert(some_calls_with(rest, n));
            }
        }
        if let Some(m) = before.tool_call_max {
            if some_calls_with(rest, m) {
                let k = choose|k: int| 0 <= k < rest.len() && #[trigger] calls_with(rest[k], m);
                assert(calls_with(choices[k], m));
                assert(some_calls_with(choices, m));
            }
        }
        if let Some(m) = choices_read(v, choices).tool_call_max {
            if calls_with(last, m) {
                assert(calls_with(choices[choices.len() - 1], m));
                assert(some_calls_with(choices, m));
            }
        }
        if 0 <= i < choices.len() && ended(choices[i]) is Some && (forall|j: int|
            i < j < choices.len() ==> ended(#[trigger] choices[j]) is None) {
            if i < rest.len() {
                assert(ended(choices[choices.len() - 1]) is None);
                assert(rest[i] == choices[i]);
                assert forall|j: int| i < j < rest.len() implies ended(
                    #[trigger] rest[j],
                ) is None by {
                    assert(ended(choices[j]) is None);
                }
            }
        }
        if forall|j: int| 0 <= j < choices.len() ==> ended(#[trigger] choices[j]) is None {
            assert(ended(choices[choices.len() - 1]) is None);
            assert forall|j: int| 0 <= j < rest.len() implies ended(#[trigger] rest[j]) is None by {
                assert(ended(choices[j]) is None);
            }
        }
    }
}

/// The choices of an event, none where it lists none.
pub open spec fn listed_choices(event: JsonView) -> Seq<JsonView> {
    match json::as_items(json::member(event, "choices"@)) {
        Some(items) => items,
        None => Seq::empty(),
    }
}

/// The usage that an event reports, if it reports any.
pub open spec fn reported_usage(event: JsonView) -> Option<JsonView> {
    match json::member(event, "usage"@) {
        Some(JsonView::Null) => None,
        u => u,
    }
}

/// The finish reason afterwards is that of the last choice that gives one, or else
/// the one before.
pub open spec fn ends_as(before: ScanView, choices: Seq<JsonView>, after: ScanView) -> bool {
    &&& forall|i: int|
        0 <= i < choices.len() && ended(#[trigger] choices[i]) is Some && (forall|j: int|
            i < j < choices.len() ==> ended(#[trigger] choices[j]) is None)
            ==> after.finish_reason == ended(choices[i])
    &&& (forall|j: int| 0 <= j < choices.len() ==> ended(#[trigger] choices[j]) is None)
        ==> after.finish_reason == before.finish_reason
}

/// The highest tool call index afterwards is the highest of those that the choices
/// give and the one before.
pub open spec fn counts_calls(before: ScanView, choices: Seq<JsonView>, after: ScanView) -> bool {
    &&& before.tool_call_max is Some ==> after.tool_call_max is Some && after.tool_call_max->0
        >= before.tool_call_max->0
    &&& forall|n: u64| #[trigger]
        some_calls_with(choices, n) ==> after.tool_call_max is Some && after.tool_call_max->0 >= n
    &&& after.tool_call_max == before.tool_call_max || (after.tool_call_max matches Some(m)
        && some_calls_with(choices, m))
}

/// A number of the usage afterwards is the one that is reported, or else the one
/// before.
pub open spec fn reads_number(
    before: Option<u64>,
    reported: Option<JsonView>,
    after: Option<u64>,
) -> bool {
    match reported {
        Some(JsonView::Number { unsigned: Some(n), .. }) => after == Some(n),
        _ => after == before,
    }
}

/// What an event says is taken over: each number of its usage that it gives in place
/// of the one before; the finish reason of the last choice that gives one; and the
/// highest index of a tool call, if it is higher than any before. What it does not
/// say stays as it was.
pub open spec fn takes_over(before: ScanView, event: JsonView, after: ScanView) -> bool {
    let usage = reported_usage(event);
    &&& reads_number(before.prompt, json::member_of(usage, "prompt_tokens"@), after.prompt)
    &&& reads_number(
        before.completion,
        json::member_of(usage, "completion_tokens"@),
        after.completion,
    )
    &&& reads_number(
        before.reasoning,
        json::member_of(
            json::member_of(usage, "completion_tokens_details"@),
            "reasoning_tokens"@,
        ),
        after.reasoning,
    )
    &&& ends_as(before, listed_choices(event), after)
    &&& counts_calls(before, listed_choices(event), after)
}

proof fn choices_take_over(v: ScanView, choices: Seq<JsonView>)
    ensures
        ends_as(v, choices, choices_read(v, choices)),
        counts_calls(v, choices, choices_read(v, choices)),
        choices_read(v, choices).prompt == v.prompt,
        choices_read(v, choices).completion == v.completion,
        choices_read(v, choices).reasoning == v.reasoning,
{
    let after = choices_read(v, choices);
    what_choices_say(v, choices, 0, 0);
    assert forall|n: u64| #[trigger] some_calls_with(
        choices,
        n,
    ) implies after.tool_call_max is Some && after.tool_call_max->0 >= n by {
        what_choices_say(v, choices, n, 0);
    }
    assert forall|i: int|
        0 <= i < choices.len() && ended(#[trigger] choices[i]) is Some && (forall|j: int|
            i < j < choices.len() ==> ended(#[trigger] choices[j]) is None) implies after.finish_reason
        == ended(choices[i]) by {
        what_choices_say(v, choices, 0, i);
    }
}

proof fn an_event_takes_over(v: ScanView, event: JsonView)
    ensures
        takes_over(v, event, event_read(v, event)),
{
    let used = usage_read(v, event);
    let choices = listed_choices(event);
    choices_take_over(used, choices);
    assert(event_read(v, event) == choices_read(used, choices));
    assert(used.finish_reason == v.finish_reason && used.tool_call_max == v.tool_call_max);
}

proof fn first_break_of_a_line(s: Seq<char>)
    requires
        s.len() > 0,
        s.last() == '\n',
        forall|i: int| 0 <= i < s.len() - 1 ==> #[trigger] s[i] != '\n',
    ensures
        first_break(s) == s.len() - 1,
    decreases s.len(),
{
    if s.len() > 1 {
        assert(s[0] != '\n');
        let rest = s.drop_first();
        assert forall|i: int| 0 <= i < rest.len() - 1 implies #[trigger] rest[i] != '\n' by {
            assert(s[i + 1] != '\n');
        }
        first_break_of_a_line(rest);
    }
}

/// A finished line is read once, and leaves nothing behind. A line that carries data,
/// other than the mark of the end, counts as one event; what such data says of usage,
/// of the finish or of tool calls, where it is JSON and speaks of one of them at all,
/// is taken over. Any other line changes nothing.
pub proof fn a_line_counts_as_one_event(
    seen: &mut SseScan,
    bytes: &[u8],
    line: &str,
    bare: String,
    bare_text: &str,
    rest: Option<String>,
    rest_text: &str,
    data: String,
    data_text: &str,
    speaks: (bool, bool, bool),
)
    requires
        call_ensures(SseScan::feed, (seen, bytes), ()),
        old(seen)@.buf.len() == 0,
        line@ == lossy(bytes@),
        line@.len() > 0 && line@.last() == '\n',
        forall|i: int| 0 <= i < line@.len() - 1 ==> #[trigger] line@[i] != '\n',
        call_ensures(trim, (line,), bare),
        bare_text@ == bare@,
        call_ensures(strip_prefix, (bare_text, "data:"), rest),
        rest matches Some(t) ==> t@ == rest_text@,
        call_ensures(trim_start, (rest_text,), data),
        data_text@ == data@,
        call_ensures(contains, (data_text, "\"usage\""), speaks.0),
        call_ensures(contains, (data_text, "\"finish_reason\""), speaks.1),
        call_ensures(contains, (data_text, "\"tool_calls\""), speaks.2),
    ensures
        final(seen)@.buf.len() == 0,
        rest is None || data@ == "[DONE]"@ ==> final(seen)@ == old(seen)@,
        rest is Some && data@ != "[DONE]"@ ==> {
            let event = json::json_in(utf8::encode_utf8(data@));
            let read = (speaks.0 || speaks.1 || speaks.2) && event is Some;
            &&& final(seen)@.events == old(seen)@.events + 1
            &&& read ==> takes_over(old(seen)@, event->0, final(seen)@)
            &&& !read ==> final(seen)@ == (ScanView {
                events: old(seen)@.events + 1,
                ..old(seen)@
            })
        },
{
    let v = old(seen)@;
    let s = line@;
    assert(v.buf =~= Seq::<char>::empty());
    assert(v.buf + s =~= s);
    let whole = ScanView { buf: v.buf + s, ..v };
    first_break_of_a_line(s);
    assert(s.take(s.len() as int) =~= s);
    assert(s.skip(s.len() as int) =~= Seq::<char>::empty());
    let read = ScanView { buf: Seq::empty(), ..line_read(whole, s) };
    assert(drained(whole) == drained(read));
    assert(first_break(read.buf) == 0);
    assert(drained(read) == read);
    empty_is_short();
    line_read_ignores_buf(v, s, s);
    assert(read == (ScanView { buf: Seq::empty(), ..line_read(v, s) }));
    match data_of(s) {
        Some(d) => {
            let counted = ScanView { events: v.events + 1, ..v };
            assert(d == data@);
            assert(interesting(d) <==> speaks.0 || speaks.1 || speaks.2);
            if let Some(event) = json::json_in(utf8::encode_utf8(d)) {
                an_event_takes_over(counted, event);
                event_read_frame(counted, event);
                if d != "[DONE]"@ && interesting(d) {
                    assert(final(seen)@ == (ScanView {
                        buf: Seq::empty(),
                        ..event_read(counted, event)
                    }));
                    assert(takes_over(v, event, final(seen)@));
                }
            }
        },
        None => {},
    }
}

/// An unfinished line waits for its end, unless it is longer than one mebibyte: then
/// it is dropped. Nothing is counted before a line is finished.
pub proof fn an_unfinished_line_waits(seen: &mut SseScan, bytes: &[u8])
    requires
        call_ensures(SseScan::feed, (seen, bytes), ()),
        forall|i: int| 0 <= i < old(seen)@.buf.len() ==> #[trigger] old(seen)@.buf[i] != '\n',
        forall|i: int| 0 <= i < lossy(bytes@).len() ==> #[trigger] lossy(bytes@)[i] != '\n',
    ensures
        ({
            let line = old(seen)@.buf + lossy(bytes@);
            let long = utf8::encode_utf8(line).len() > 1_048_576;
            &&& !long ==> final(seen)@ == (ScanView { buf: line, ..old(seen)@ })
            &&& long ==> final(seen)@ == (ScanView { buf: Seq::empty(), ..old(seen)@ })
        }),
{
    let line = old(seen)@.buf + lossy(bytes@);
    first_break_bounds(line);
    let at = first_break(line);
    if at < line.len() {
        breaks_at(line);
        if at < old(seen)@.buf.len() {
            assert(old(seen)@.buf[at] != '\n');
        } else {
            assert(lossy(bytes@)[at - old(seen)@.buf.len()] != '\n');
        }
    }
}

proof fn breaks_at(s: Seq<char>)
    requires
        first_break(s) < s.len(),
    ensures
        s[first_break(s)] == '\n',
    decreases s.len(),
{
    first_break_bounds(s);
    if s[0] != '\n' {
        let rest = s.drop_first();
        first_break_bounds(rest);
        breaks_at(rest);
        assert(rest[first_break(rest)] == s[first_break(rest) + 1]);
    }
}

/// However a stream is cut on its way, the same is seen of it: two parts that come
/// one after the other are read like the two together, as long as no character is cut
/// in two and no unfinished line is dropped for its length.
pub proof fn the_cut_makes_no_difference(
    first: &mut SseScan,
    second: &mut SseScan,
    whole: &mut SseScan,
    a: &[u8],
    b: &[u8],
    both: &[u8],
)
    requires
        call_ensures(SseScan::feed, (first, a), ()),
        call_ensures(SseScan::feed, (second, b), ()),
        call_ensures(SseScan::feed, (whole, both), ()),
        final(first)@ == old(second)@,
        old(whole)@ == old(first)@,
        lossy(both@) == lossy(a@) + lossy(b@),
        utf8::encode_utf8(
            drained(
                ScanView { buf: old(first)@.buf + lossy(a@), ..old(first)@ },
            ).buf,
        ).len() <= LINE_CAP_BYTES,
    ensures
        final(second)@ == final(whole)@,
{
    a_cut_stream_reads_the_same(old(first)@, lossy(a@), lossy(b@));
}

} // verus!
