//! A streamed request, from its first frame to its last.
//!
//! The client is committed to a stream at once and kept alive with comment
//! frames while the request waits for admission or rides out upstream trouble;
//! then the upstream's stream is passed through. [`Stream`] decides; its caller
//! does what it asks for and reports what came of it.
use vstd::prelude::*;

use crate::answers;
use crate::answers::{sse_error, sse_error_with_code};
use crate::backoff;
use crate::backoff::{retryable, RateLimitCounts};
use crate::retry;
use crate::retry::{connect_failed, penalty, Penalty, PenaltyView, RATE_LIMITED};
use crate::scan;
use crate::scan::{ScanView, SseScan};
use crate::shape;
use crate::shape::{stream_totals, Quality, TokenCounts};
use crate::text;
use crate::text::{join, to_decimal};
use crate::time::Instant;

verus! {

/// Where a stream stands: what was asked for last.
pub enum Stage {
    /// The opening frame is on its way.
    Opening,
    /// Waiting for the model to admit one more request.
    Gate,
    /// Waiting for a slot.
    Queue,
    /// The request is with the upstream.
    Sent { lane: usize, key: String },
    /// The upstream pushed back; its answer is being read to see why.
    Sniffing { lane: usize, key: String, status: u16, retry_after: Option<String> },
    /// The frame that says another try follows is on its way.
    Notifying,
    /// The upstream refused; its answer is being read to be passed on.
    Refused { status: u16, line: String },
    /// The upstream's stream is being read.
    Relaying { key: String },
    /// A part of the upstream's stream is on its way to the client.
    Forwarding { key: String },
    /// The last frame is on its way.
    Closing,
    Over,
}

/// What came of what was asked for, or happened meanwhile.
pub enum Event {
    /// A frame or a part of the stream was delivered, or the client is gone.
    Delivered(bool),
    /// The model admitted the request, or did not in time.
    Gate(bool),
    /// A slot was granted, or none came in time.
    Slot(Option<(usize, String)>),
    /// The upstream could not be reached.
    ConnectFailed,
    /// The upstream answered, with a status (and the line that names it).
    Answered { status: u16, line: String, retry_after: Option<String>, now: Instant },
    /// The body of an error answer: whether it tells of a worker shortage, and
    /// its text.
    ErrorBody { exhausted: bool, text: String },
    /// A part of the upstream's stream arrived.
    Chunk(Vec<u8>),
    /// The upstream's stream came to its end.
    Ended,
    /// The upstream sent nothing for too long.
    Stalled,
    /// The upstream's stream broke off.
    Broken,
    /// The client hung up.
    ClientGone,
    /// The request's own deadline has passed.
    DeadlinePassed,
}

/// What is asked for next.
#[derive(Clone, Copy, Debug, PartialEq, Eq, Structural)]
pub enum Ask {
    /// Send the opening frame.
    SendConnected,
    /// Send the frame that says another try follows.
    SendRetrying,
    /// Have the model admit the request, with heartbeat frames meanwhile.
    AcquirePermit,
    /// Get a slot, with heartbeat frames meanwhile.
    ReserveSlot,
    /// Send the request with the key of the slot.
    SendUpstream,
    /// Read the body of the answer.
    ReadError,
    /// Read the next part of the stream.
    ReadChunk,
    /// Pass the part on.
    Forward,
    /// Send the last frame.
    SendLast,
    /// Nothing more: the stream is over. A last frame that comes with this is
    /// sent only if it can be at once.
    Stop,
}

/// The comment frame that goes with what is asked for: the one to send, or the
/// one to send at every heartbeat meanwhile.
pub open spec fn frame_of(ask: Ask) -> Option<Seq<char>> {
    match ask {
        Ask::SendConnected => Some(": connected\n\n"@),
        Ask::SendRetrying => Some(": retrying\n\n"@),
        Ask::AcquirePermit | Ask::ReserveSlot => Some(": heartbeat\n\n"@),
        _ => None,
    }
}

/// The comment frame that goes with what is asked for. Clients of event streams
/// ignore comments.
pub fn frame(ask: Ask) -> (r: Option<&'static str>)
    ensures
        match r {
            Some(text) => frame_of(ask) == Some(text@),
            None => frame_of(ask) is None,
        },
{
    match ask {
        Ask::SendConnected => Some(": connected\n\n"),
        Ask::SendRetrying => Some(": retrying\n\n"),
        Ask::AcquirePermit | Ask::ReserveSlot => Some(": heartbeat\n\n"),
        _ => None,
    }
}

/// How the answer to a streamed request begins.
pub struct Head {
    pub status: u16,
    pub content_type: &'static str,
    pub cache_control: &'static str,
}

/// How the answer to a streamed request begins, whatever becomes of it.
pub fn head() -> (r: Head)
    ensures
        r.status == 200,
        r.content_type@ == "text/event-stream"@,
        r.cache_control@ == "no-cache"@,
{
    Head { status: 200, content_type: "text/event-stream", cache_control: "no-cache" }
}

/// What a step brings about.
pub struct Turn {
    /// Who pays for upstream trouble.
    pub penalty: Option<Penalty>,
    /// The model rejected the usage option: it is never asked again, and from
    /// now on the body is sent as the client wrote it.
    pub drop_injection: bool,
    /// The first part of the stream has arrived.
    pub first_chunk: bool,
    /// What the finished stream amounted to.
    pub totals: Option<(TokenCounts, Quality)>,
    /// The status under which the request is recorded.
    pub record: Option<String>,
    /// The frame that ends the stream.
    pub last_words: Option<String>,
    pub ask: Ask,
}

/// A streamed request.
pub struct Stream {
    stage: Stage,
    /// The body holds the usage option, and the client's own body is kept.
    fallback: bool,
    /// Some of the upstream's stream has arrived.
    started: bool,
    scan: SseScan,
    /// No try is made after this.
    deadline: Instant,
}

// ---------------------------------------------------------------------------
// Model
// ---------------------------------------------------------------------------
/// Where a stream stands.
pub enum StageView {
    Opening,
    Gate,
    Queue,
    Sent { lane: usize, key: Seq<char> },
    Sniffing { lane: usize, key: Seq<char>, status: u16, retry_after: Option<Seq<char>> },
    Notifying,
    Refused { status: u16, line: Seq<char> },
    Relaying { key: Seq<char> },
    Forwarding { key: Seq<char> },
    Closing,
    Over,
}

impl View for Stage {
    type V = StageView;

    open spec fn view(&self) -> StageView {
        match self {
            Stage::Opening => StageView::Opening,
            Stage::Gate => StageView::Gate,
            Stage::Queue => StageView::Queue,
            Stage::Sent { lane, key } => StageView::Sent { lane: *lane, key: key@ },
            Stage::Sniffing { lane, key, status, retry_after } => StageView::Sniffing {
                lane: *lane,
                key: key@,
                status: *status,
                retry_after: retry::opt_text(*retry_after),
            },
            Stage::Notifying => StageView::Notifying,
            Stage::Refused { status, line } => StageView::Refused { status: *status, line: line@ },
            Stage::Relaying { key } => StageView::Relaying { key: key@ },
            Stage::Forwarding { key } => StageView::Forwarding { key: key@ },
            Stage::Closing => StageView::Closing,
            Stage::Over => StageView::Over,
        }
    }
}

/// A streamed request.
pub struct StreamView {
    pub stage: StageView,
    pub fallback: bool,
    pub started: bool,
    pub scan: ScanView,
    pub deadline: Instant,
}

impl View for Stream {
    type V = StreamView;

    closed spec fn view(&self) -> StreamView {
        StreamView {
            stage: self.stage@,
            fallback: self.fallback,
            started: self.started,
            scan: self.scan@,
            deadline: self.deadline,
        }
    }
}

/// What a step brings about.
pub struct TurnView {
    pub penalty: Option<PenaltyView>,
    pub drop_injection: bool,
    pub first_chunk: bool,
    pub totals: Option<ScanView>,
    pub record: Option<Seq<char>>,
    pub last_words: Option<Seq<char>>,
    pub ask: Ask,
}

/// The turn brings this about.
pub open spec fn is_turn(t: Turn, v: TurnView) -> bool {
    &&& match v.penalty {
        Some(p) => t.penalty matches Some(q) && q@ == p,
        None => t.penalty is None,
    }
    &&& t.drop_injection == v.drop_injection
    &&& t.first_chunk == v.first_chunk
    &&& match v.totals {
        Some(seen) => {
            &&& t.totals matches Some((tokens, quality))
            &&& shape::is_stream_count(tokens, seen)
            &&& shape::is_quality(
                quality,
                seen.finish_reason,
                seen.reasoning,
                shape::stream_tool_calls(seen),
            )
        },
        None => t.totals is None,
    }
    &&& retry::opt_text(t.record) == v.record
    &&& retry::opt_text(t.last_words) == v.last_words
    &&& t.ask == v.ask
}

/// Nothing but asking.
pub open spec fn asking(ask: Ask) -> TurnView {
    TurnView {
        penalty: None,
        drop_injection: false,
        first_chunk: false,
        totals: None,
        record: None,
        last_words: None,
        ask,
    }
}

/// The end, recorded under a status.
pub open spec fn ending(record: Seq<char>) -> TurnView {
    TurnView { record: Some(record), ..asking(Ask::Stop) }
}

/// The end, recorded under a status, with a last frame that tells of trouble.
pub open spec fn trouble(record: Seq<char>, message: Seq<char>) -> TurnView {
    TurnView {
        record: Some(record),
        last_words: Some(answers::error_event("upstream_unavailable"@, message)),
        ..asking(Ask::SendLast)
    }
}

/// A status that tells of success.
pub open spec fn is_success(status: u16) -> bool {
    200 <= status <= 299
}

/// The message that passes an upstream refusal on.
pub open spec fn refusal_message(line: Seq<char>, detail: Seq<char>) -> Seq<char> {
    "upstream error "@ + line + ": "@ + detail
}

/// Where an upstream answer leads.
pub open spec fn answered(
    s: StreamView,
    lane: usize,
    key: Seq<char>,
    status: u16,
    line: Seq<char>,
    retry_after: Option<Seq<char>>,
    now: Instant,
) -> (StreamView, TurnView) {
    if status == 400 && s.fallback {
        (
            StreamView { stage: StageView::Gate, fallback: false, ..s },
            TurnView { drop_injection: true, ..asking(Ask::AcquirePermit) },
        )
    } else if backoff::is_retryable(status) {
        if now.nanos >= s.deadline.nanos {
            (
                StreamView { stage: StageView::Closing, ..s },
                trouble("504"@, "upstream unavailable, retries exhausted"@),
            )
        } else {
            (
                StreamView {
                    stage: StageView::Sniffing { lane, key, status, retry_after },
                    ..s
                },
                asking(Ask::ReadError),
            )
        }
    } else if !is_success(status) {
        (
            StreamView { stage: StageView::Refused { status, line }, ..s },
            asking(Ask::ReadError),
        )
    } else {
        (
            StreamView { stage: StageView::Relaying { key }, ..s },
            asking(Ask::ReadChunk),
        )
    }
}

/// Where an event leads a stream, what it does to the rate-limit counts, and
/// what it brings about. An event that nothing was asked for leads nowhere.
pub open spec fn next(s: StreamView, e: Event, counts: Map<Seq<char>, u32>) -> (
    StreamView,
    Map<Seq<char>, u32>,
    TurnView,
) {
    let over = StreamView { stage: StageView::Over, ..s };
    let closing = StreamView { stage: StageView::Closing, ..s };
    let gate = StreamView { stage: StageView::Gate, ..s };
    let no_slot = "proxy timed out waiting for an upstream slot"@;
    match (s.stage, e) {
        (StageView::Over, _) => (s, counts, asking(Ask::Stop)),
        (_, Event::DeadlinePassed) => (
            over,
            counts,
            TurnView {
                last_words: Some(
                    answers::error_event(
                        "deadline_exceeded"@,
                        "proxy request deadline exceeded"@,
                    ),
                ),
                ..ending("deadline"@)
            },
        ),
        (StageView::Opening, Event::Delivered(ok)) | (StageView::Notifying, Event::Delivered(ok)) =>
        if ok {
            (gate, counts, asking(Ask::AcquirePermit))
        } else {
            (over, counts, ending("disconnect"@))
        },
        (StageView::Gate, Event::Gate(ok)) => if ok {
            (
                StreamView { stage: StageView::Queue, ..s },
                counts,
                asking(Ask::ReserveSlot),
            )
        } else {
            (closing, counts, trouble("504"@, no_slot))
        },
        (StageView::Queue, Event::Slot(slot)) => match slot {
            Some((lane, key)) => (
                StreamView { stage: StageView::Sent { lane, key: key@ }, ..s },
                counts,
                asking(Ask::SendUpstream),
            ),
            None => (closing, counts, trouble("504"@, no_slot)),
        },
        (StageView::Sent { lane, key }, Event::ConnectFailed) => (
            gate,
            counts,
            TurnView {
                penalty: Some(retry::connect_penalty(lane)),
                ..asking(Ask::AcquirePermit)
            },
        ),
        (StageView::Sent { lane, key }, Event::Answered { status, line, retry_after, now }) => {
            let (after, turn) = answered(
                s,
                lane,
                key,
                status,
                line@,
                retry::opt_text(retry_after),
                now,
            );
            (after, counts, turn)
        },
        (
            StageView::Sniffing { lane, key, status, retry_after },
            Event::ErrorBody { exhausted, text },
        ) => (
            StreamView { stage: StageView::Notifying, ..s },
            retry::counts_after(counts, key, status, exhausted),
            TurnView {
                penalty: Some(
                    retry::penalty_of(counts, lane, key, status, retry_after, exhausted),
                ),
                ..asking(Ask::SendRetrying)
            },
        ),
        (StageView::Refused { status, line }, Event::ErrorBody { exhausted, text }) => (
            closing,
            counts,
            trouble(text::decimal(status as nat), refusal_message(line, text@)),
        ),
        (StageView::Relaying { key }, Event::Chunk(bytes)) => (
            StreamView {
                stage: StageView::Forwarding { key },
                started: true,
                scan: scan::text_fed(s.scan, scan::lossy(bytes@)),
                ..s
            },
            counts,
            TurnView { first_chunk: !s.started, ..asking(Ask::Forward) },
        ),
        (StageView::Forwarding { key }, Event::Delivered(ok)) => if ok {
            (
                StreamView { stage: StageView::Relaying { key }, ..s },
                counts,
                asking(Ask::ReadChunk),
            )
        } else {
            (over, counts, ending("disconnect"@))
        },
        (StageView::Relaying { key }, Event::ClientGone) => (
            over,
            counts,
            ending("disconnect"@),
        ),
        (StageView::Relaying { key }, Event::Stalled) => (
            closing,
            counts,
            trouble("stall"@, "upstream stream stalled"@),
        ),
        (StageView::Relaying { key }, Event::Broken) => (
            closing,
            counts,
            trouble("stream_error"@, "upstream stream interrupted"@),
        ),
        (StageView::Relaying { key }, Event::Ended) => (
            over,
            counts.remove(key),
            TurnView { totals: Some(s.scan), ..ending("200"@) },
        ),
        (StageView::Closing, Event::Delivered(_)) => (over, counts, asking(Ask::Stop)),
        _ => (s, counts, asking(ask_of(s.stage))),
    }
}

/// One more rate-limit answer, if the event tells of one, can be counted.
pub open spec fn countable(stage: StageView, e: Event, counts: Map<Seq<char>, u32>) -> bool {
    match (stage, e) {
        (
            StageView::Sniffing { key, status, .. },
            Event::ErrorBody { exhausted, .. },
        ) => !exhausted && status == RATE_LIMITED ==> backoff::count_of(counts, key) < u32::MAX,
        _ => true,
    }
}

/// What was asked for at a stage.
pub open spec fn ask_of(stage: StageView) -> Ask {
    match stage {
        StageView::Opening => Ask::SendConnected,
        StageView::Gate => Ask::AcquirePermit,
        StageView::Queue => Ask::ReserveSlot,
        StageView::Sent { .. } => Ask::SendUpstream,
        StageView::Sniffing { .. } => Ask::ReadError,
        StageView::Notifying => Ask::SendRetrying,
        StageView::Refused { .. } => Ask::ReadError,
        StageView::Relaying { .. } => Ask::ReadChunk,
        StageView::Forwarding { .. } => Ask::Forward,
        StageView::Closing => Ask::SendLast,
        StageView::Over => Ask::Stop,
    }
}

// ---------------------------------------------------------------------------
// Deciding
// ---------------------------------------------------------------------------
fn ask_only(ask: Ask) -> (r: Turn)
    ensures
        is_turn(r, asking(ask)),
{
    Turn {
        penalty: None,
        drop_injection: false,
        first_chunk: false,
        totals: None,
        record: None,
        last_words: None,
        ask,
    }
}

fn end(record: &str) -> (r: Turn)
    ensures
        is_turn(r, ending(record@)),
{
    let mut t = ask_only(Ask::Stop);
    t.record = Some(record.to_owned());
    t
}

impl Stage {
    /// What was asked for at this stage.
    fn asked(&self) -> (r: Ask)
        ensures
            r == ask_of(self@),
    {
        match self {
            Stage::Opening => Ask::SendConnected,
            Stage::Gate => Ask::AcquirePermit,
            Stage::Queue => Ask::ReserveSlot,
            Stage::Sent { .. } => Ask::SendUpstream,
            Stage::Sniffing { .. } => Ask::ReadError,
            Stage::Notifying => Ask::SendRetrying,
            Stage::Refused { .. } => Ask::ReadError,
            Stage::Relaying { .. } => Ask::ReadChunk,
            Stage::Forwarding { .. } => Ask::Forward,
            Stage::Closing => Ask::SendLast,
            Stage::Over => Ask::Stop,
        }
    }
}

impl Stream {
    /// A stream that has just been asked to send its opening frame. `fallback`
    /// tells that the body holds the usage option, which the client did not
    /// ask for.
    pub fn new(fallback: bool, deadline: Instant) -> (r: Stream)
        ensures
            r@.stage == StageView::Opening,
            r@.fallback == fallback,
            !r@.started,
            r@.scan == scan::nothing_seen(),
            r@.deadline == deadline,
    {
        Stream { stage: Stage::Opening, fallback, started: false, scan: SseScan::default(), deadline }
    }

    /// Whether a part of `n` bytes can still be counted.
    pub fn has_room(&self, n: usize) -> (r: bool)
        ensures
            r == (self@.scan.events + self@.scan.buf.len() + n <= u64::MAX),
    {
        let buffered: usize = self.scan.buf.as_str().unicode_len();
        self.scan.events as u128 + buffered as u128 + n as u128 <= u64::MAX as u128
    }

    /// Ends the stream with a last frame that tells of trouble.
    fn close(&mut self, record: &str, message: &str) -> (r: Turn)
        ensures
            final(self)@ == (StreamView { stage: StageView::Closing, ..old(self)@ }),
            is_turn(r, trouble(record@, message@)),
    {
        self.stage = Stage::Closing;
        let mut t = ask_only(Ask::SendLast);
        t.record = Some(record.to_owned());
        t.last_words = Some(sse_error(message));
        t
    }

    /// Takes in what an upstream answer says.
    fn answer(
        &mut self,
        lane: usize,
        key: String,
        status: u16,
        line: String,
        retry_after: Option<String>,
        now: Instant,
    ) -> (r: Turn)
        ensures
            ({
                let (after, turn) = answered(
                    old(self)@,
                    lane,
                    key@,
                    status,
                    line@,
                    retry::opt_text(retry_after),
                    now,
                );
                final(self)@ == after && is_turn(r, turn)
            }),
    {
        if status == 400 && self.fallback {
            self.stage = Stage::Gate;
            self.fallback = false;
            let mut t = ask_only(Ask::AcquirePermit);
            t.drop_injection = true;
            t
        } else if retryable(status) {
            if now.nanos >= self.deadline.nanos {
                self.close("504", "upstream unavailable, retries exhausted")
            } else {
                self.stage = Stage::Sniffing { lane, key, status, retry_after };
                ask_only(Ask::ReadError)
            }
        } else if !(200 <= status && status <= 299) {
            self.stage = Stage::Refused { status, line };
            ask_only(Ask::ReadError)
        } else {
            self.stage = Stage::Relaying { key };
            ask_only(Ask::ReadChunk)
        }
    }

    /// Takes in an event and decides what follows.
    pub fn step(&mut self, event: Event, counts: &mut RateLimitCounts) -> (r: Turn)
        requires
            event matches Event::Chunk(bytes) ==> old(self)@.scan.events + old(
                self,
            )@.scan.buf.len() + bytes@.len() <= u64::MAX,
            countable(old(self)@.stage, event, old(counts)@),
        ensures
            ({
                let (after, tally, turn) = next(old(self)@, event, old(counts)@);
                final(self)@ == after && final(counts)@ == tally && is_turn(r, turn)
            }),
    {
        let mut stage = Stage::Over;
        std::mem::swap(&mut stage, &mut self.stage);
        match (stage, event) {
            (Stage::Over, _) => ask_only(Ask::Stop),
            (_, Event::DeadlinePassed) => {
                let mut t = end("deadline");
                t.last_words = Some(
                    sse_error_with_code("deadline_exceeded", "proxy request deadline exceeded"),
                );
                t
            },
            (Stage::Opening, Event::Delivered(ok)) | (Stage::Notifying, Event::Delivered(ok)) => {
                if ok {
                    self.stage = Stage::Gate;
                    ask_only(Ask::AcquirePermit)
                } else {
                    end("disconnect")
                }
            },
            (Stage::Gate, Event::Gate(ok)) => {
                if ok {
                    self.stage = Stage::Queue;
                    ask_only(Ask::ReserveSlot)
                } else {
                    self.close("504", "proxy timed out waiting for an upstream slot")
                }
            },
            (Stage::Queue, Event::Slot(slot)) => match slot {
                Some((lane, key)) => {
                    self.stage = Stage::Sent { lane, key };
                    ask_only(Ask::SendUpstream)
                },
                None => self.close("504", "proxy timed out waiting for an upstream slot"),
            },
            (Stage::Sent { lane, key }, Event::ConnectFailed) => {
                self.stage = Stage::Gate;
                let mut t = ask_only(Ask::AcquirePermit);
                t.penalty = Some(connect_failed(lane));
                t
            },
            (Stage::Sent { lane, key }, Event::Answered { status, line, retry_after, now }) => {
                self.answer(lane, key, status, line, retry_after, now)
            },
            (
                Stage::Sniffing { lane, key, status, retry_after },
                Event::ErrorBody { exhausted, text },
            ) => {
                self.stage = Stage::Notifying;
                let mut t = ask_only(Ask::SendRetrying);
                t.penalty = Some(
                    penalty(counts, lane, key.as_str(), status, &retry_after, exhausted),
                );
                t
            },
            (Stage::Refused { status, line }, Event::ErrorBody { exhausted, text }) => {
                let a = join("upstream error ", line.as_str());
                let b = join(a.as_str(), ": ");
                let message = join(b.as_str(), text.as_str());
                let record = to_decimal(status as u128);
                self.close(record.as_str(), message.as_str())
            },
            (Stage::Relaying { key }, Event::Chunk(bytes)) => {
                self.stage = Stage::Forwarding { key };
                let mut t = ask_only(Ask::Forward);
                t.first_chunk = !self.started;
                self.started = true;
                self.scan.feed(bytes.as_slice());
                t
            },
            (Stage::Forwarding { key }, Event::Delivered(ok)) => {
                if ok {
                    self.stage = Stage::Relaying { key };
                    ask_only(Ask::ReadChunk)
                } else {
                    end("disconnect")
                }
            },
            (Stage::Relaying { key }, Event::ClientGone) => end("disconnect"),
            (Stage::Relaying { key }, Event::Stalled) => self.close(
                "stall",
                "upstream stream stalled",
            ),
            (Stage::Relaying { key }, Event::Broken) => self.close(
                "stream_error",
                "upstream stream interrupted",
            ),
            (Stage::Relaying { key }, Event::Ended) => {
                counts.reset_429_count(key.as_str());
                let mut t = end("200");
                t.totals = Some(stream_totals(&self.scan));
                t
            },
            (Stage::Closing, Event::Delivered(_)) => ask_only(Ask::Stop),
            (same, _) => {
                let ask = same.asked();
                self.stage = same;
                ask_only(ask)
            },
        }
    }
}

// ---------------------------------------------------------------------------
// Laws
// ---------------------------------------------------------------------------
/// The stream's end is settled.
pub open spec fn is_ending(stage: StageView) -> bool {
    stage is Closing || stage is Over
}

/// A request is recorded exactly when the end of its stream is settled, and once
/// more if its own deadline passes while the last frame is on its way. Nothing
/// is asked for after a stream is over.
pub proof fn a_stream_is_recorded_when_it_ends(
    s: StreamView,
    e: Event,
    counts: Map<Seq<char>, u32>,
)
    ensures
        ({
            let (then, tally, turn) = next(s, e, counts);
            &&& turn.record is Some <==> (!is_ending(s.stage) && is_ending(then.stage)) || (
            s.stage is Closing && e is DeadlinePassed)
            &&& is_ending(s.stage) ==> is_ending(then.stage)
            &&& turn.ask == ask_of(then.stage)
            &&& turn.last_words is Some ==> turn.record is Some
            &&& s.stage is Over ==> then == s && tally == counts && turn == asking(Ask::Stop)
        }),
{
}

/// Whatever a stream is doing, its own deadline ends it at once: nothing is
/// waited for any more, not even the client.
pub proof fn the_deadline_waits_for_nothing(s: StreamView, counts: Map<Seq<char>, u32>)
    ensures
        next(s, Event::DeadlinePassed, counts).0.stage is Over,
        next(s, Event::DeadlinePassed, counts).2.ask == Ask::Stop,
        next(s, Event::DeadlinePassed, counts).1 == counts,
{
}

/// The client's own body takes the place of the one with the usage option only
/// when the upstream rejects that one, and once it has, it stays.
pub proof fn the_own_body_is_kept_for_one_rejection(
    s: StreamView,
    e: Event,
    counts: Map<Seq<char>, u32>,
)
    ensures
        next(s, e, counts).2.drop_injection <==> s.fallback && !next(s, e, counts).0.fallback,
        next(s, e, counts).0.fallback ==> s.fallback,
        next(s, e, counts).2.drop_injection ==> (e matches Event::Answered { status, .. } && status
            == 400),
{
}

/// Every answer that is being sniffed is one worth waiting out.
pub open spec fn sniffs_only_retryable(s: StreamView) -> bool {
    s.stage matches StageView::Sniffing { status, .. } ==> backoff::is_retryable(status)
}

/// A lane pays only when the request on it could not be delivered, or came back
/// with an answer worth waiting out that tells of no worker shortage; and the
/// lane that pays is the one that the request was sent on.
pub proof fn only_the_lane_in_trouble_pays(s: StreamView, e: Event, counts: Map<Seq<char>, u32>)
    requires
        sniffs_only_retryable(s),
    ensures
        sniffs_only_retryable(next(s, e, counts).0),
        next(s, e, counts).2.penalty matches Some(PenaltyView::Lane { lane, .. }) ==> {
            ||| e is ConnectFailed && (s.stage matches StageView::Sent { lane: l, .. } && l == lane)
            ||| (e matches Event::ErrorBody { exhausted, .. } && !exhausted) && (
            s.stage matches StageView::Sniffing { lane: l, status, .. } && l == lane
                && backoff::is_retryable(status))
        },
        next(s, e, counts).2.penalty == Some(PenaltyView::Model) ==> (
        e matches Event::ErrorBody { exhausted, .. } && exhausted),
{
}

/// Once the time for waiting is over, trouble ends the stream: no other try is
/// asked for.
pub proof fn no_try_follows_the_deadline(
    s: StreamView,
    status: u16,
    line: String,
    retry_after: Option<String>,
    now: Instant,
    counts: Map<Seq<char>, u32>,
)
    requires
        s.stage is Sent,
        backoff::is_retryable(status),
        now.nanos >= s.deadline.nanos,
    ensures
        next(s, Event::Answered { status, line, retry_after, now }, counts).2.ask
            == Ask::SendLast,
{
}

/// Before the upstream's stream is passed through, a client gets comment frames
/// only, the opening one first: nothing else is asked to be sent until a part of
/// that stream has arrived, unless the stream comes to its end.
pub proof fn comments_come_first(s: StreamView, e: Event, counts: Map<Seq<char>, u32>)
    ensures
        s.stage is Opening ==> frame_of(ask_of(s.stage)) == Some(": connected\n\n"@),
        next(s, e, counts).2.ask == Ask::Forward && !(s.stage is Forwarding) ==> e is Chunk
            && s.stage is Relaying,
        next(s, e, counts).2.ask == Ask::SendConnected ==> s.stage is Opening,
        next(s, e, counts).2.last_words is Some ==> is_ending(next(s, e, counts).0.stage),
{
}

/// A key's rate-limit count is forgotten by a stream that was passed through to
/// its end, and by nothing else.
pub proof fn only_a_finished_stream_forgets(
    s: StreamView,
    e: Event,
    counts: Map<Seq<char>, u32>,
    key: Seq<char>,
)
    requires
        countable(s.stage, e, counts),
        backoff::count_of(next(s, e, counts).1, key) < backoff::count_of(counts, key),
    ensures
        e is Ended,
        s.stage == (StageView::Relaying { key }),
        next(s, e, counts).2.record == Some("200"@),
        backoff::count_of(next(s, e, counts).1, key) == 0,
{
}

/// A stream after the first `n` events.
pub open spec fn after(
    s: StreamView,
    counts: Map<Seq<char>, u32>,
    events: Seq<Event>,
    n: int,
) -> (StreamView, Map<Seq<char>, u32>)
    decreases n,
{
    if n <= 0 {
        (s, counts)
    } else {
        let (before, tally) = after(s, counts, events, n - 1);
        let (then, after_tally, turn) = next(before, events[n - 1], tally);
        (then, after_tally)
    }
}

/// What the event after the first `n` brings about.
pub open spec fn turn_at(
    s: StreamView,
    counts: Map<Seq<char>, u32>,
    events: Seq<Event>,
    n: int,
) -> TurnView {
    let (before, tally) = after(s, counts, events, n);
    next(before, events[n], tally).2
}

proof fn what_stays(
    s: StreamView,
    counts: Map<Seq<char>, u32>,
    events: Seq<Event>,
    i: int,
    j: int,
)
    requires
        0 <= i <= j <= events.len(),
    ensures
        is_ending(after(s, counts, events, i).0.stage) ==> is_ending(
            after(s, counts, events, j).0.stage,
        ),
        after(s, counts, events, i).0.stage is Over ==> after(s, counts, events, j).0.stage is Over,
        !after(s, counts, events, i).0.fallback ==> !after(s, counts, events, j).0.fallback,
    decreases j - i,
{
    if i < j {
        what_stays(s, counts, events, i, j - 1);
    }
}

/// Whatever happens, and in whatever order, a stream gives up the usage option
/// at most once; and it is recorded a second time only when its own deadline
/// passes before the last frame, which was settled on at the first, is away.
pub proof fn recorded_once_and_rejected_once(
    s: StreamView,
    counts: Map<Seq<char>, u32>,
    events: Seq<Event>,
    i: int,
    j: int,
)
    requires
        0 <= i < j < events.len(),
    ensures
        turn_at(s, counts, events, i).record is Some && turn_at(
            s,
            counts,
            events,
            j,
        ).record is Some ==> events[j] is DeadlinePassed && turn_at(s, counts, events, i).ask
            == Ask::SendLast,
        !(turn_at(s, counts, events, i).drop_injection && turn_at(
            s,
            counts,
            events,
            j,
        ).drop_injection),
{
    let (before, tally) = after(s, counts, events, i);
    a_stream_is_recorded_when_it_ends(before, events[i], tally);
    the_own_body_is_kept_for_one_rejection(before, events[i], tally);
    what_stays(s, counts, events, i + 1, j);
    let (later, later_tally) = after(s, counts, events, j);
    a_stream_is_recorded_when_it_ends(later, events[j], later_tally);
    the_own_body_is_kept_for_one_rejection(later, events[j], later_tally);
}

/// The turn asks for this and brings nothing else about.
pub open spec fn only_asks(t: Turn, ask: Ask) -> bool {
    &&& t.penalty is None
    &&& !t.drop_injection
    &&& !t.first_chunk
    &&& t.totals is None
    &&& t.record is None
    &&& t.last_words is None
    &&& t.ask == ask
}

/// The turn settles the end: this is recorded, this frame is the last one, and
/// no lane pays.
pub open spec fn ends_with(t: Turn, record: Seq<char>, words: Option<Seq<char>>, ask: Ask) -> bool {
    &&& t.penalty is None
    &&& !t.drop_injection
    &&& !t.first_chunk
    &&& retry::opt_text(t.record) == Some(record)
    &&& retry::opt_text(t.last_words) == words
    &&& t.ask == ask
}

/// Nothing of a stream but where it stands is another.
pub open spec fn moved(before: StreamView, after: StreamView) -> bool {
    &&& after.fallback == before.fallback
    &&& after.started == before.started
    &&& after.scan == before.scan
    &&& after.deadline == before.deadline
}

/// Every answer that tells of rate limiting or of transient server trouble and
/// comes before the deadline is read to see why, whatever the status among
/// these; nothing is recorded, nobody has paid yet, and the client is told
/// nothing.
pub proof fn trouble_is_looked_into(
    stream: &mut Stream,
    counts: &mut RateLimitCounts,
    status: u16,
    line: String,
    retry_after: Option<String>,
    now: Instant,
    turn: Turn,
)
    requires
        call_ensures(
            Stream::step,
            (stream, Event::Answered { status, line, retry_after, now }, counts),
            turn,
        ),
        old(stream)@.stage is Sent,
        status == 429 || status == 500 || status == 502 || status == 503 || status == 504,
        now.nanos < old(stream)@.deadline.nanos,
    ensures
        final(stream)@.stage == (StageView::Sniffing {
            lane: old(stream)@.stage->Sent_lane,
            key: old(stream)@.stage->Sent_key,
            status,
            retry_after: retry::opt_text(retry_after),
        }),
        moved(old(stream)@, final(stream)@),
        final(counts)@ == old(counts)@,
        only_asks(turn, Ask::ReadError),
{
}

/// An answer that is being looked into always leads to another try, whatever its
/// body says: the client is told so, somebody pays, and nothing is recorded.
pub proof fn what_is_looked_into_is_tried_again(
    stream: &mut Stream,
    counts: &mut RateLimitCounts,
    exhausted: bool,
    text: String,
    turn: Turn,
)
    requires
        call_ensures(Stream::step, (stream, Event::ErrorBody { exhausted, text }, counts), turn),
        old(stream)@.stage is Sniffing,
    ensures
        final(stream)@.stage is Notifying,
        moved(old(stream)@, final(stream)@),
        turn.ask == Ask::SendRetrying,
        turn.penalty is Some,
        turn.record is None,
        turn.last_words is None,
        turn.totals is None,
        !turn.drop_injection,
        exhausted ==> (turn.penalty matches Some(Penalty::Model)) && final(counts)@ == old(counts)@,
        !exhausted ==> (turn.penalty matches Some(Penalty::Lane { lane, backoff, .. }) && {
            &&& lane == old(stream)@.stage->Sniffing_lane
            &&& old(stream)@.stage->Sniffing_status != 429 ==> backoff.nanos == 5_000_000_000
                && final(counts)@ == old(counts)@
            &&& old(stream)@.stage->Sniffing_status == 429 ==> backoff.nanos >= 63_000_000_000
        }),
{
}

/// A try that could not be delivered, or one that was answered with trouble
/// before the deadline, is followed by another: after the frame that says so (if
/// trouble was answered) the stream asks to be admitted again.
pub proof fn trouble_leads_to_another_try(
    first: &mut Stream,
    second: &mut Stream,
    third: &mut Stream,
    counts: &mut RateLimitCounts,
    tally: &mut RateLimitCounts,
    after_tally: &mut RateLimitCounts,
    status: u16,
    line: String,
    retry_after: Option<String>,
    now: Instant,
    exhausted: bool,
    text: String,
    turns: (Turn, Turn, Turn),
)
    requires
        call_ensures(
            Stream::step,
            (first, Event::Answered { status, line, retry_after, now }, counts),
            turns.0,
        ),
        call_ensures(
            Stream::step,
            (second, Event::ErrorBody { exhausted, text }, tally),
            turns.1,
        ),
        call_ensures(Stream::step, (third, Event::Delivered(true), after_tally), turns.2),
        *final(first) == *old(second),
        *final(second) == *old(third),
        old(first)@.stage is Sent,
        status == 429 || status == 500 || status == 502 || status == 503 || status == 504,
        now.nanos < old(first)@.deadline.nanos,
    ensures
        turns.0.ask == Ask::ReadError,
        turns.1.ask == Ask::SendRetrying,
        turns.1.penalty is Some,
        turns.2.ask == Ask::AcquirePermit,
        turns.0.record is None && turns.1.record is None && turns.2.record is None,
        final(third)@.stage is Gate,
        final(third)@.deadline == old(first)@.deadline,
{
}

/// A try that could not be delivered costs its lane five seconds and is followed
/// by another at once; no key's count changes and nothing is recorded.
pub proof fn a_failed_delivery_is_tried_again(
    stream: &mut Stream,
    counts: &mut RateLimitCounts,
    turn: Turn,
)
    requires
        call_ensures(Stream::step, (stream, Event::ConnectFailed, counts), turn),
        old(stream)@.stage is Sent,
    ensures
        final(stream)@.stage is Gate,
        moved(old(stream)@, final(stream)@),
        final(counts)@ == old(counts)@,
        turn.penalty matches Some(Penalty::Lane { lane, label, backoff }) && lane == old(stream)@.stage->Sent_lane && label@ == "connect"@ && backoff.nanos == 5_000_000_000,
        turn.ask == Ask::AcquirePermit,
        turn.record is None,
        turn.last_words is None,
        turn.totals is None,
        !turn.drop_injection,
{
}

/// Trouble that is answered once the deadline has come ends the stream with a
/// frame that says so; nobody pays.
pub proof fn late_trouble_ends_the_stream(
    stream: &mut Stream,
    counts: &mut RateLimitCounts,
    status: u16,
    line: String,
    retry_after: Option<String>,
    now: Instant,
    turn: Turn,
)
    requires
        call_ensures(
            Stream::step,
            (stream, Event::Answered { status, line, retry_after, now }, counts),
            turn,
        ),
        old(stream)@.stage is Sent,
        status == 429 || status == 500 || status == 502 || status == 503 || status == 504,
        now.nanos >= old(stream)@.deadline.nanos,
    ensures
        final(stream)@.stage is Closing,
        final(counts)@ == old(counts)@,
        ends_with(
            turn,
            "504"@,
            Some(
                answers::error_event(
                    "upstream_unavailable"@,
                    "upstream unavailable, retries exhausted"@,
                ),
            ),
            Ask::SendLast,
        ),
        turn.totals is None,
{
}

/// A success is passed through, however late it comes: what follows is to read
/// the upstream's stream. The key's count stays until that stream has come to its
/// end.
pub proof fn a_success_is_passed_through(
    stream: &mut Stream,
    counts: &mut RateLimitCounts,
    status: u16,
    line: String,
    retry_after: Option<String>,
    now: Instant,
    turn: Turn,
)
    requires
        call_ensures(
            Stream::step,
            (stream, Event::Answered { status, line, retry_after, now }, counts),
            turn,
        ),
        old(stream)@.stage is Sent,
        200 <= status < 300,
    ensures
        final(stream)@.stage == (StageView::Relaying { key: old(stream)@.stage->Sent_key }),
        moved(old(stream)@, final(stream)@),
        final(counts)@ == old(counts)@,
        only_asks(turn, Ask::ReadChunk),
{
}

/// An answer that tells neither of success nor of trouble that passes is passed
/// on: its body is read, and the last frame tells the client the status line and
/// that body; the request is recorded under the status. Nobody pays. (A client
/// whose body was touched gets another try first, where the answer is 400.)
pub proof fn a_refusal_is_passed_on(
    stream: &mut Stream,
    then: &mut Stream,
    counts: &mut RateLimitCounts,
    tally: &mut RateLimitCounts,
    status: u16,
    line: String,
    retry_after: Option<String>,
    now: Instant,
    exhausted: bool,
    text: String,
    turns: (Turn, Turn),
)
    requires
        call_ensures(
            Stream::step,
            (stream, Event::Answered { status, line, retry_after, now }, counts),
            turns.0,
        ),
        call_ensures(Stream::step, (then, Event::ErrorBody { exhausted, text }, tally), turns.1),
        *final(stream) == *old(then),
        old(stream)@.stage is Sent,
        status < 200 || status >= 300,
        status != 429 && status != 500 && status != 502 && status != 503 && status != 504,
        !(status == 400 && old(stream)@.fallback),
    ensures
        only_asks(turns.0, Ask::ReadError),
        final(counts)@ == old(counts)@,
        final(tally)@ == old(tally)@,
        final(then)@.stage is Closing,
        moved(old(stream)@, final(then)@),
        ends_with(
            turns.1,
            text::decimal(status as nat),
            Some(
                answers::error_event(
                    "upstream_unavailable"@,
                    "upstream error "@ + line@ + ": "@ + text@,
                ),
            ),
            Ask::SendLast,
        ),
        turns.1.totals is None,
{
}

/// A rejection of a body that the proxy touched is followed by another try with
/// the client's own body, before any deadline or after it; nobody pays, nothing
/// is recorded, and the body is not touched again.
pub proof fn a_rejected_option_is_given_up(
    stream: &mut Stream,
    counts: &mut RateLimitCounts,
    line: String,
    retry_after: Option<String>,
    now: Instant,
    turn: Turn,
)
    requires
        call_ensures(
            Stream::step,
            (stream, Event::Answered { status: 400, line, retry_after, now }, counts),
            turn,
        ),
        old(stream)@.stage is Sent,
        old(stream)@.fallback,
    ensures
        final(stream)@.stage is Gate,
        !final(stream)@.fallback,
        final(stream)@.scan == old(stream)@.scan,
        final(stream)@.started == old(stream)@.started,
        final(stream)@.deadline == old(stream)@.deadline,
        final(counts)@ == old(counts)@,
        turn.drop_injection,
        turn.penalty is None && turn.record is None && turn.last_words is None,
        turn.totals is None,
        turn.ask == Ask::AcquirePermit,
{
}

/// Every part of the upstream's stream is passed on before the next one is read,
/// and counted as it goes by; the first one, and no other, is reported as such.
pub proof fn every_part_is_passed_on(
    stream: &mut Stream,
    then: &mut Stream,
    counts: &mut RateLimitCounts,
    tally: &mut RateLimitCounts,
    seen: &mut SseScan,
    bytes: Vec<u8>,
    part: &[u8],
    turns: (Turn, Turn),
)
    requires
        call_ensures(Stream::step, (stream, Event::Chunk(bytes), counts), turns.0),
        call_ensures(Stream::step, (then, Event::Delivered(true), tally), turns.1),
        call_ensures(SseScan::feed, (seen, part), ()),
        part@ == bytes@,
        *final(stream) == *old(then),
        old(stream)@.stage is Relaying,
        old(seen)@ == old(stream)@.scan,
    ensures
        turns.0.ask == Ask::Forward,
        turns.0.first_chunk == !old(stream)@.started,
        turns.0.record is None && turns.0.penalty is None && turns.0.last_words is None,
        turns.0.totals is None && !turns.0.drop_injection,
        only_asks(turns.1, Ask::ReadChunk),
        final(then)@.stage == old(stream)@.stage,
        final(then)@.started,
        final(then)@.fallback == old(stream)@.fallback,
        final(then)@.deadline == old(stream)@.deadline,
        final(then)@.scan == final(seen)@,
        final(counts)@ == old(counts)@,
        final(tally)@ == old(tally)@,
{
}

/// A stream that is passed through to its end is recorded as a success with what
/// it amounted to; its key starts over, and no other key's count changes. No
/// frame of the proxy's own follows.
pub proof fn a_finished_stream_is_a_success(
    stream: &mut Stream,
    counts: &mut RateLimitCounts,
    turn: Turn,
    other: Seq<char>,
)
    requires
        call_ensures(Stream::step, (stream, Event::Ended, counts), turn),
        old(stream)@.stage is Relaying,
    ensures
        final(stream)@.stage is Over,
        ends_with(turn, "200"@, None, Ask::Stop),
        turn.totals matches Some((tokens, quality)) && {
            &&& tokens.prompt == old(stream)@.scan.prompt
            &&& match old(stream)@.scan.completion {
                Some(n) => tokens.completion == Some(n) && tokens.source@ == "usage"@,
                None => (tokens.completion matches Some(n) && n == old(stream)@.scan.events)
                    && tokens.source@ == "estimate"@,
            }
            &&& quality.finish is Some <==> old(stream)@.scan.finish_reason is Some
        },
        !final(counts)@.contains_key(old(stream)@.stage->Relaying_key),
        other != old(stream)@.stage->Relaying_key ==> backoff::count_of(final(counts)@, other)
            == backoff::count_of(old(counts)@, other),
{
}

/// A stream that falls silent or breaks off is recorded as such, and the last
/// frame says which; a client that hangs up, or cannot be written to, is not
/// written to any more. In none of these does a key's count change, nor is
/// anything counted as a finished generation.
pub proof fn a_broken_stream_says_why(
    stream: &mut Stream,
    event: Event,
    counts: &mut RateLimitCounts,
    turn: Turn,
)
    requires
        call_ensures(Stream::step, (stream, event, counts), turn),
    ensures
        old(stream)@.stage is Relaying && event is Stalled ==> final(stream)@.stage is Closing
            && ends_with(
            turn,
            "stall"@,
            Some(answers::error_event("upstream_unavailable"@, "upstream stream stalled"@)),
            Ask::SendLast,
        ) && turn.totals is None && final(counts)@ == old(counts)@,
        old(stream)@.stage is Relaying && event is Broken ==> final(stream)@.stage is Closing
            && ends_with(
            turn,
            "stream_error"@,
            Some(answers::error_event("upstream_unavailable"@, "upstream stream interrupted"@)),
            Ask::SendLast,
        ) && turn.totals is None && final(counts)@ == old(counts)@,
        (old(stream)@.stage is Relaying && event is ClientGone) || ((old(stream)@.stage is Opening
            || old(stream)@.stage is Notifying || old(stream)@.stage is Forwarding) && event
            == Event::Delivered(false)) ==> final(stream)@.stage is Over && ends_with(
            turn,
            "disconnect"@,
            None,
            Ask::Stop,
        ) && turn.totals is None && final(counts)@ == old(counts)@,
{
}

/// A request that is not admitted in time, or gets no slot in time, is ended with
/// a frame that says so.
pub proof fn a_wait_in_vain_says_so(
    stream: &mut Stream,
    event: Event,
    counts: &mut RateLimitCounts,
    turn: Turn,
)
    requires
        call_ensures(Stream::step, (stream, event, counts), turn),
        (old(stream)@.stage is Gate && event == Event::Gate(false)) || (old(stream)@.stage is Queue
            && (event matches Event::Slot(None))),
    ensures
        final(stream)@.stage is Closing,
        final(counts)@ == old(counts)@,
        ends_with(
            turn,
            "504"@,
            Some(
                answers::error_event(
                    "upstream_unavailable"@,
                    "proxy timed out waiting for an upstream slot"@,
                ),
            ),
            Ask::SendLast,
        ),
        turn.totals is None,
{
}

/// Every try goes the same way: admitted, given a slot, sent with the key of that
/// very slot. A frame that was delivered makes way for the next thing to do.
pub proof fn every_try_goes_the_same_way(
    stream: &mut Stream,
    event: Event,
    counts: &mut RateLimitCounts,
    turn: Turn,
)
    requires
        call_ensures(Stream::step, (stream, event, counts), turn),
    ensures
        (old(stream)@.stage is Opening || old(stream)@.stage is Notifying) && event
            == Event::Delivered(true) ==> final(stream)@.stage is Gate && moved(
            old(stream)@,
            final(stream)@,
        ) && only_asks(turn, Ask::AcquirePermit) && final(counts)@ == old(counts)@,
        old(stream)@.stage is Gate && event == Event::Gate(true) ==> final(stream)@.stage is Queue
            && moved(old(stream)@, final(stream)@) && only_asks(turn, Ask::ReserveSlot)
            && final(counts)@ == old(counts)@,
        old(stream)@.stage is Queue ==> (event matches Event::Slot(Some((lane, key)))
            ==> final(stream)@.stage == (StageView::Sent { lane, key: key@ }) && moved(
            old(stream)@,
            final(stream)@,
        ) && only_asks(turn, Ask::SendUpstream) && final(counts)@ == old(counts)@),
        old(stream)@.stage is Closing && event is Delivered ==> final(stream)@.stage is Over
            && only_asks(turn, Ask::Stop) && final(counts)@ == old(counts)@,
{
}

/// Whatever a stream is doing, unless it is over, its own deadline ends it with a
/// frame that says so, recorded as a missed deadline; nobody pays.
pub proof fn a_missed_deadline_says_so(
    stream: &mut Stream,
    counts: &mut RateLimitCounts,
    turn: Turn,
)
    requires
        call_ensures(Stream::step, (stream, Event::DeadlinePassed, counts), turn),
        !(old(stream)@.stage is Over),
    ensures
        final(stream)@.stage is Over,
        final(counts)@ == old(counts)@,
        ends_with(
            turn,
            "deadline"@,
            Some(
                answers::error_event("deadline_exceeded"@, "proxy request deadline exceeded"@),
            ),
            Ask::Stop,
        ),
        turn.totals is None,
{
}

/// What a stage waits for.
pub open spec fn waits_for(stage: StageView, e: Event) -> bool {
    match stage {
        StageView::Opening => e is Delivered,
        StageView::Gate => e is Gate,
        StageView::Queue => e is Slot,
        StageView::Sent { .. } => e is ConnectFailed || e is Answered,
        StageView::Sniffing { .. } => e is ErrorBody,
        StageView::Notifying => e is Delivered,
        StageView::Refused { .. } => e is ErrorBody,
        StageView::Relaying { .. } => {
            e is Chunk || e is Ended || e is Stalled || e is Broken || e is ClientGone
        },
        StageView::Forwarding { .. } => e is Delivered,
        StageView::Closing => e is Delivered,
        StageView::Over => false,
    }
}

/// An event that a stage does not wait for changes nothing, unless it is the
/// request's own deadline: the same is asked for again.
pub proof fn the_unexpected_changes_nothing(
    stream: &mut Stream,
    event: Event,
    counts: &mut RateLimitCounts,
    turn: Turn,
)
    requires
        call_ensures(Stream::step, (stream, event, counts), turn),
        !waits_for(old(stream)@.stage, event),
        !(event is DeadlinePassed),
    ensures
        final(stream)@ == old(stream)@,
        final(counts)@ == old(counts)@,
        only_asks(turn, turn.ask),
        old(stream)@.stage is Gate ==> turn.ask == Ask::AcquirePermit,
        old(stream)@.stage is Queue ==> turn.ask == Ask::ReserveSlot,
        old(stream)@.stage is Sent ==> turn.ask == Ask::SendUpstream,
        old(stream)@.stage is Sniffing || old(stream)@.stage is Refused ==> turn.ask
            == Ask::ReadError,
        old(stream)@.stage is Opening ==> turn.ask == Ask::SendConnected,
        old(stream)@.stage is Notifying ==> turn.ask == Ask::SendRetrying,
        old(stream)@.stage is Relaying ==> turn.ask == Ask::ReadChunk,
        old(stream)@.stage is Forwarding ==> turn.ask == Ask::Forward,
        old(stream)@.stage is Closing ==> turn.ask == Ask::SendLast,
        old(stream)@.stage is Over ==> turn.ask == Ask::Stop,
{
}

/// A stream starts with nothing behind it: its opening frame is on its way, and
/// its deadline and its body are those it was given.
pub proof fn a_stream_starts_fresh(fallback: bool, deadline: Instant, stream: Stream)
    requires
        call_ensures(Stream::new, (fallback, deadline), stream),
    ensures
        stream@.stage is Opening,
        stream@.fallback == fallback,
        stream@.deadline == deadline,
        !stream@.started,
        stream@.scan.events == 0,
        stream@.scan.buf.len() == 0,
        stream@.scan.prompt is None && stream@.scan.completion is None,
        stream@.scan.finish_reason is None && stream@.scan.reasoning is None,
        stream@.scan.tool_call_max is None,
{
}

/// Each comment frame goes with one thing to do, and nothing else is sent as one:
/// the opening frame opens, the retry frame announces another try, and heartbeats
/// go with waiting.
pub proof fn each_frame_has_its_time(ask: Ask, text: Option<&'static str>)
    requires
        call_ensures(frame, (ask,), text),
    ensures
        ask == Ask::SendConnected ==> (text matches Some(t) && t@ == ": connected\n\n"@),
        ask == Ask::SendRetrying ==> (text matches Some(t) && t@ == ": retrying\n\n"@),
        ask == Ask::AcquirePermit || ask == Ask::ReserveSlot ==> (text matches Some(t) && t@
            == ": heartbeat\n\n"@),
        text is Some ==> ask == Ask::SendConnected || ask == Ask::SendRetrying || ask
            == Ask::AcquirePermit || ask == Ask::ReserveSlot,
{
}

/// The answer to a streamed request begins as an event stream that nothing on the
/// way may keep.
pub proof fn a_stream_is_committed_to(h: Head)
    requires
        call_ensures(head, (), h),
    ensures
        h.status == 200,
        h.content_type@ == "text/event-stream"@,
        h.cache_control@ == "no-cache"@,
{
}

/// Who pays for an answer that is looked into is settled by what it says, and the
/// same is counted, as for any other request.
pub proof fn the_answer_says_who_pays(
    stream: &mut Stream,
    counts: &mut RateLimitCounts,
    exhausted: bool,
    text: String,
    turn: Turn,
    tally: &mut RateLimitCounts,
    key: &str,
    retry_after: &Option<String>,
    p: Penalty,
)
    requires
        call_ensures(Stream::step, (stream, Event::ErrorBody { exhausted, text }, counts), turn),
        old(stream)@.stage is Sniffing,
        call_ensures(
            penalty,
            (
                tally,
                old(stream)@.stage->Sniffing_lane,
                key,
                old(stream)@.stage->Sniffing_status,
                retry_after,
                exhausted,
            ),
            p,
        ),
        key@ == old(stream)@.stage->Sniffing_key,
        retry::opt_text(*retry_after) == old(stream)@.stage->Sniffing_retry_after,
        old(tally)@ == old(counts)@,
    ensures
        turn.penalty matches Some(q) && q@ == p@,
        final(counts)@ == final(tally)@,
{
}

/// A part can be counted exactly as long as the count of events cannot overflow by
/// it.
pub proof fn there_is_room_for_what_can_be_counted(stream: &Stream, n: usize, r: bool)
    requires
        call_ensures(Stream::has_room, (stream, n), r),
    ensures
        r <==> stream@.scan.events + stream@.scan.buf.len() + n <= 0xffff_ffff_ffff_ffff,
{
}

/// What a finished stream amounts to is what was seen of it.
pub proof fn a_finished_stream_amounts_to_what_was_seen(
    stream: &mut Stream,
    counts: &mut RateLimitCounts,
    turn: Turn,
    seen: &SseScan,
    totals: (TokenCounts, Quality),
)
    requires
        call_ensures(Stream::step, (stream, Event::Ended, counts), turn),
        old(stream)@.stage is Relaying,
        seen@ == old(stream)@.scan,
        call_ensures(stream_totals, (seen,), totals),
    ensures
        turn.totals matches Some((tokens, quality)) && {
            &&& tokens.prompt == totals.0.prompt
            &&& tokens.completion == totals.0.completion
            &&& tokens.source@ == totals.0.source@
            &&& quality.reasoning == totals.1.reasoning
            &&& quality.tool_calls == totals.1.tool_calls
            &&& quality.finish is Some <==> totals.1.finish is Some
            &&& quality.finish is Some ==> quality.finish->0@ == totals.1.finish->0@
        },
{
}

} // verus!
