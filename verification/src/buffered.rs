//! A request that is answered whole: it is paced and retried, and the
//! upstream's answer is returned as it came.
//!
//! [`Buffered`] decides; its caller does what it asks for and reports what came
//! of it.
use vstd::prelude::*;

use crate::answers;
use crate::answers::{deadline_exceeded, gateway_timeout, Refusal, RefusalView};
use crate::backoff;
use crate::backoff::{retryable, RateLimitCounts};
use crate::retry;
use crate::retry::{connect_failed, penalty, Penalty, PenaltyView, RATE_LIMITED};
use crate::streaming;
use crate::text;
use crate::text::to_decimal;
use crate::time::{Duration, Instant};

verus! {

/// Where a request stands: what was asked for last.
pub enum Stage {
    /// Waiting for the model to admit one more request.
    Gate,
    /// Waiting for a slot.
    Queue,
    /// The request is with the upstream.
    Sent { lane: usize, key: String },
    /// The upstream pushed back; its answer is being read to see why.
    Sniffing { lane: usize, key: String, status: u16, retry_after: Option<String> },
    /// The upstream's answer is being read to be returned.
    Relaying,
    Over,
}

/// What came of what was asked for, or happened meanwhile.
pub enum Event {
    /// The model admitted the request, or did not in time.
    Gate(bool),
    /// A slot was granted, or none came in time.
    Slot(Option<(usize, String)>),
    /// The upstream could not be reached.
    ConnectFailed,
    /// The upstream answered.
    Answered { status: u16, retry_after: Option<String>, now: Instant },
    /// Whether the body of an error answer tells of a worker shortage.
    ErrorBody { exhausted: bool },
    /// The upstream's answer was read, or broke off, and was returned.
    Relayed,
    /// The request's own deadline has passed.
    DeadlinePassed,
}

/// What is asked for next.
#[derive(Clone, Copy, Debug, PartialEq, Eq, Structural)]
pub enum Ask {
    /// Have the model admit the request.
    AcquirePermit,
    /// Get a slot.
    ReserveSlot,
    /// Send the request with the key of the slot.
    SendUpstream,
    /// Read the body of the answer.
    ReadError,
    /// Return the upstream's answer as it came.
    Relay,
    /// Return the refusal.
    Refuse,
    /// Nothing more: the request was answered.
    Stop,
}

/// What a step brings about.
pub struct Turn {
    /// Who pays for upstream trouble.
    pub penalty: Option<Penalty>,
    /// The status under which the request is recorded.
    pub record: Option<String>,
    pub refusal: Option<Refusal>,
    pub ask: Ask,
}

/// A request that is answered whole.
pub struct Buffered {
    stage: Stage,
    /// No try is made after this.
    deadline: Instant,
    /// How long a request waits for a slot at most.
    max_wait: Duration,
}

// ---------------------------------------------------------------------------
// Model
// ---------------------------------------------------------------------------
/// Where a request stands.
pub enum StageView {
    Gate,
    Queue,
    Sent { lane: usize, key: Seq<char> },
    Sniffing { lane: usize, key: Seq<char>, status: u16, retry_after: Option<Seq<char>> },
    Relaying,
    Over,
}

impl View for Stage {
    type V = StageView;

    open spec fn view(&self) -> StageView {
        match self {
            Stage::Gate => StageView::Gate,
            Stage::Queue => StageView::Queue,
            Stage::Sent { lane, key } => StageView::Sent { lane: *lane, key: key@ },
            Stage::Sniffing { lane, key, status, retry_after } => StageView::Sniffing {
                lane: *lane,
                key: key@,
                status: *status,
                retry_after: retry::opt_text(*retry_after),
            },
            Stage::Relaying => StageView::Relaying,
            Stage::Over => StageView::Over,
        }
    }
}

/// A request that is answered whole.
pub struct BufferedView {
    pub stage: StageView,
    pub deadline: Instant,
    pub max_wait: Duration,
}

impl View for Buffered {
    type V = BufferedView;

    closed spec fn view(&self) -> BufferedView {
        BufferedView { stage: self.stage@, deadline: self.deadline, max_wait: self.max_wait }
    }
}

/// What a step brings about.
pub struct TurnView {
    pub penalty: Option<PenaltyView>,
    pub record: Option<Seq<char>>,
    pub refusal: Option<RefusalView>,
    pub ask: Ask,
}

/// The turn brings this about.
pub open spec fn is_turn(t: Turn, v: TurnView) -> bool {
    &&& match v.penalty {
        Some(p) => t.penalty matches Some(q) && q@ == p,
        None => t.penalty is None,
    }
    &&& retry::opt_text(t.record) == v.record
    &&& match v.refusal {
        Some(x) => t.refusal matches Some(y) && y@ == x && y.header is None,
        None => t.refusal is None,
    }
    &&& t.ask == v.ask
}

/// Nothing but asking.
pub open spec fn asking(ask: Ask) -> TurnView {
    TurnView { penalty: None, record: None, refusal: None, ask }
}

/// A refusal, recorded under a status.
pub open spec fn refusing(
    record: Seq<char>,
    status: u16,
    code: Seq<char>,
    message: Seq<char>,
) -> TurnView {
    TurnView {
        record: Some(record),
        refusal: Some(RefusalView { status, code, message }),
        ..asking(Ask::Refuse)
    }
}

/// What was asked for at a stage.
pub open spec fn ask_of(stage: StageView) -> Ask {
    match stage {
        StageView::Gate => Ask::AcquirePermit,
        StageView::Queue => Ask::ReserveSlot,
        StageView::Sent { .. } => Ask::SendUpstream,
        StageView::Sniffing { .. } => Ask::ReadError,
        StageView::Relaying => Ask::Relay,
        StageView::Over => Ask::Stop,
    }
}

/// One more rate-limit answer, if the event tells of one, can be counted.
pub open spec fn countable(stage: StageView, e: Event, counts: Map<Seq<char>, u32>) -> bool {
    match (stage, e) {
        (
            StageView::Sniffing { key, status, .. },
            Event::ErrorBody { exhausted },
        ) => !exhausted && status == RATE_LIMITED ==> backoff::count_of(counts, key) < u32::MAX,
        _ => true,
    }
}

/// Where an event leads a request, what it does to the rate-limit counts, and
/// what it brings about; `keys` is the number of keys in the pool. An event
/// that nothing was asked for leads nowhere.
pub open spec fn next(s: BufferedView, e: Event, keys: usize, counts: Map<Seq<char>, u32>) -> (
    BufferedView,
    Map<Seq<char>, u32>,
    TurnView,
) {
    let over = BufferedView { stage: StageView::Over, ..s };
    let gate = BufferedView { stage: StageView::Gate, ..s };
    let timed_out = refusing(
        "504"@,
        504,
        "rate_limited"@,
        answers::timeout_message(s.max_wait, keys),
    );
    match (s.stage, e) {
        (StageView::Over, _) => (s, counts, asking(Ask::Stop)),
        (_, Event::DeadlinePassed) => (
            over,
            counts,
            refusing(
                "deadline"@,
                504,
                "deadline_exceeded"@,
                "proxy request deadline exceeded"@,
            ),
        ),
        (StageView::Gate, Event::Gate(ok)) => if ok {
            (
                BufferedView { stage: StageView::Queue, ..s },
                counts,
                asking(Ask::ReserveSlot),
            )
        } else {
            (over, counts, timed_out)
        },
        (StageView::Queue, Event::Slot(slot)) => match slot {
            Some((lane, key)) => (
                BufferedView { stage: StageView::Sent { lane, key: key@ }, ..s },
                counts,
                asking(Ask::SendUpstream),
            ),
            None => (over, counts, timed_out),
        },
        (StageView::Sent { lane, key }, Event::ConnectFailed) => (
            gate,
            counts,
            TurnView {
                penalty: Some(retry::connect_penalty(lane)),
                ..asking(Ask::AcquirePermit)
            },
        ),
        (StageView::Sent { lane, key }, Event::Answered { status, retry_after, now }) => {
            if backoff::is_retryable(status) && now.nanos < s.deadline.nanos {
                (
                    BufferedView {
                        stage: StageView::Sniffing {
                            lane,
                            key,
                            status,
                            retry_after: retry::opt_text(retry_after),
                        },
                        ..s
                    },
                    counts,
                    asking(Ask::ReadError),
                )
            } else {
                (
                    BufferedView { stage: StageView::Relaying, ..s },
                    if streaming::is_success(status) {
                        counts.remove(key)
                    } else {
                        counts
                    },
                    TurnView {
                        record: Some(text::decimal(status as nat)),
                        ..asking(Ask::Relay)
                    },
                )
            }
        },
        (
            StageView::Sniffing { lane, key, status, retry_after },
            Event::ErrorBody { exhausted },
        ) => (
            gate,
            retry::counts_after(counts, key, status, exhausted),
            TurnView {
                penalty: Some(
                    retry::penalty_of(counts, lane, key, status, retry_after, exhausted),
                ),
                ..asking(Ask::AcquirePermit)
            },
        ),
        (StageView::Relaying, Event::Relayed) => (over, counts, asking(Ask::Stop)),
        _ => (s, counts, asking(ask_of(s.stage))),
    }
}

// ---------------------------------------------------------------------------
// Deciding
// ---------------------------------------------------------------------------
fn ask_only(ask: Ask) -> (r: Turn)
    ensures
        is_turn(r, asking(ask)),
{
    Turn { penalty: None, record: None, refusal: None, ask }
}

fn refuse(record: &str, refusal: Refusal) -> (r: Turn)
    requires
        refusal.header is None,
    ensures
        is_turn(r, refusing(record@, refusal.status, refusal.code@, refusal.message@)),
{
    Turn {
        penalty: None,
        record: Some(record.to_owned()),
        refusal: Some(refusal),
        ask: Ask::Refuse,
    }
}

impl Stage {
    /// What was asked for at this stage.
    fn asked(&self) -> (r: Ask)
        ensures
            r == ask_of(self@),
    {
        match self {
            Stage::Gate => Ask::AcquirePermit,
            Stage::Queue => Ask::ReserveSlot,
            Stage::Sent { .. } => Ask::SendUpstream,
            Stage::Sniffing { .. } => Ask::ReadError,
            Stage::Relaying => Ask::Relay,
            Stage::Over => Ask::Stop,
        }
    }
}

impl Buffered {
    /// A request that has just asked to be admitted.
    pub fn new(max_wait: Duration, deadline: Instant) -> (r: Buffered)
        ensures
            r@ == (BufferedView { stage: StageView::Gate, deadline, max_wait }),
    {
        Buffered { stage: Stage::Gate, deadline, max_wait }
    }

    /// Takes in an event and decides what follows.
    pub fn step(&mut self, event: Event, keys: usize, counts: &mut RateLimitCounts) -> (r: Turn)
        requires
            countable(old(self)@.stage, event, old(counts)@),
        ensures
            ({
                let (after, tally, turn) = next(old(self)@, event, keys, old(counts)@);
                final(self)@ == after && final(counts)@ == tally && is_turn(r, turn)
            }),
    {
        let mut stage = Stage::Over;
        std::mem::swap(&mut stage, &mut self.stage);
        match (stage, event) {
            (Stage::Over, _) => ask_only(Ask::Stop),
            (_, Event::DeadlinePassed) => refuse("deadline", deadline_exceeded()),
            (Stage::Gate, Event::Gate(ok)) => {
                if ok {
                    self.stage = Stage::Queue;
                    ask_only(Ask::ReserveSlot)
                } else {
                    refuse("504", gateway_timeout(self.max_wait, keys))
                }
            },
            (Stage::Queue, Event::Slot(slot)) => match slot {
                Some((lane, key)) => {
                    self.stage = Stage::Sent { lane, key };
                    ask_only(Ask::SendUpstream)
                },
                None => refuse("504", gateway_timeout(self.max_wait, keys)),
            },
            (Stage::Sent { lane, key }, Event::ConnectFailed) => {
                self.stage = Stage::Gate;
                let mut t = ask_only(Ask::AcquirePermit);
                t.penalty = Some(connect_failed(lane));
                t
            },
            (Stage::Sent { lane, key }, Event::Answered { status, retry_after, now }) => {
                if retryable(status) && now.nanos < self.deadline.nanos {
                    self.stage = Stage::Sniffing { lane, key, status, retry_after };
                    ask_only(Ask::ReadError)
                } else {
                    self.stage = Stage::Relaying;
                    if 200 <= status && status <= 299 {
                        counts.reset_429_count(key.as_str());
                    }
                    let mut t = ask_only(Ask::Relay);
                    t.record = Some(to_decimal(status as u128));
                    t
                }
            },
            (
                Stage::Sniffing { lane, key, status, retry_after },
                Event::ErrorBody { exhausted },
            ) => {
                self.stage = Stage::Gate;
                let mut t = ask_only(Ask::AcquirePermit);
                t.penalty = Some(
                    penalty(counts, lane, key.as_str(), status, &retry_after, exhausted),
                );
                t
            },
            (Stage::Relaying, Event::Relayed) => ask_only(Ask::Stop),
            (same, _) => {
                let ask = same.asked();
                self.stage = same;
                ask_only(ask)
            },
        }
    }
}

// ---------------------------------------------------------------------------
// Laws
// ---------------------------------------------------------------------------
/// A request is recorded exactly when its answer is settled: the upstream's, or
/// a refusal. A refusal is final. The upstream's answer can still give way to
/// one: when the request's own deadline passes before the answer is read.
pub proof fn a_request_is_recorded_when_it_is_answered(
    s: BufferedView,
    e: Event,
    keys: usize,
    counts: Map<Seq<char>, u32>,
)
    ensures
        ({
            let (then, tally, turn) = next(s, e, keys, counts);
            let answered = s.stage is Sent && then.stage is Relaying;
            &&& turn.record is Some <==> answered || turn.refusal is Some
            &&& turn.refusal is Some <==> turn.ask == Ask::Refuse
            &&& turn.refusal is Some ==> !(s.stage is Over) && then.stage is Over
            &&& s.stage is Relaying ==> (turn.refusal is Some <==> e is DeadlinePassed)
            &&& s.stage is Over ==> then == s && tally == counts && turn == asking(Ask::Stop)
        }),
{
}

/// Every answer that is being sniffed is one worth waiting out.
pub open spec fn sniffs_only_retryable(s: BufferedView) -> bool {
    s.stage matches StageView::Sniffing { status, .. } ==> backoff::is_retryable(status)
}

/// A lane pays only when the request on it could not be delivered, or came back
/// with an answer worth waiting out that tells of no worker shortage; and the
/// lane that pays is the one that the request was sent on.
pub proof fn only_the_lane_in_trouble_pays(
    s: BufferedView,
    e: Event,
    keys: usize,
    counts: Map<Seq<char>, u32>,
)
    requires
        sniffs_only_retryable(s),
    ensures
        sniffs_only_retryable(next(s, e, keys, counts).0),
        next(s, e, keys, counts).2.penalty matches Some(PenaltyView::Lane { lane, .. }) ==> {
            ||| e is ConnectFailed && (s.stage matches StageView::Sent { lane: l, .. } && l == lane)
            ||| (e matches Event::ErrorBody { exhausted } && !exhausted) && (
            s.stage matches StageView::Sniffing { lane: l, status, .. } && l == lane
                && backoff::is_retryable(status))
        },
        next(s, e, keys, counts).2.penalty == Some(PenaltyView::Model) ==> (
        e matches Event::ErrorBody { exhausted } && exhausted),
{
}

/// A key's rate-limit count is forgotten by a successful answer, and by nothing
/// else: not by a refusal, nor by a rate limit that came too late to be waited
/// out.
pub proof fn only_a_success_forgets(
    s: BufferedView,
    e: Event,
    keys: usize,
    counts: Map<Seq<char>, u32>,
    key: Seq<char>,
)
    requires
        countable(s.stage, e, counts),
    ensures
        backoff::count_of(next(s, e, keys, counts).1, key) < backoff::count_of(counts, key) ==> {
            &&& e matches Event::Answered { status, .. }
            &&& streaming::is_success(status)
            &&& s.stage matches StageView::Sent { key: k, .. }
            &&& k == key
        },
        s.stage matches StageView::Sent { key: k, .. } && k == key && (
        e matches Event::Answered { status, .. } && streaming::is_success(status))
            ==> backoff::count_of(next(s, e, keys, counts).1, key) == 0,
{
}

/// An answer that is not worth waiting out is returned at once, and one that is
/// only when the time for waiting is over.
pub proof fn an_answer_is_returned_or_waited_out(
    s: BufferedView,
    status: u16,
    retry_after: Option<String>,
    now: Instant,
    keys: usize,
    counts: Map<Seq<char>, u32>,
)
    requires
        s.stage is Sent,
    ensures
        next(s, Event::Answered { status, retry_after, now }, keys, counts).2.ask == Ask::Relay
            <==> !backoff::is_retryable(status) || now.nanos >= s.deadline.nanos,
{
}

/// The turn asks for this and brings nothing else about.
pub open spec fn only_asks(t: Turn, ask: Ask) -> bool {
    t.penalty is None && t.record is None && t.refusal is None && t.ask == ask
}

/// The turn refuses the request with this, recorded under this; nobody pays.
pub open spec fn refuses(
    t: Turn,
    record: Seq<char>,
    status: u16,
    code: Seq<char>,
    message: Seq<char>,
) -> bool {
    &&& t.penalty is None
    &&& retry::opt_text(t.record) == Some(record)
    &&& t.refusal matches Some(x) && answers::says(x, status, code, message) && x.header is None
    &&& t.ask == Ask::Refuse
}

/// An answer that is being looked into always leads to another try, whatever its
/// body says: the request asks to be admitted again and somebody pays. It is
/// neither refused nor recorded, not even where every worker is busy.
pub proof fn what_is_looked_into_is_tried_again(
    request: &mut Buffered,
    keys: usize,
    counts: &mut RateLimitCounts,
    exhausted: bool,
    turn: Turn,
)
    requires
        call_ensures(Buffered::step, (request, Event::ErrorBody { exhausted }, keys, counts), turn),
        old(request)@.stage is Sniffing,
    ensures
        final(request)@.stage is Gate,
        final(request)@.deadline == old(request)@.deadline,
        final(request)@.max_wait == old(request)@.max_wait,
        turn.ask == Ask::AcquirePermit,
        turn.penalty is Some,
        turn.refusal is None,
        turn.record is None,
        exhausted ==> (turn.penalty matches Some(Penalty::Model)) && final(counts)@ == old(counts)@,
        !exhausted ==> (turn.penalty matches Some(Penalty::Lane { lane, backoff, .. }) && {
            &&& lane == old(request)@.stage->Sniffing_lane
            &&& old(request)@.stage->Sniffing_status != 429 ==> backoff.nanos == 5_000_000_000
                && final(counts)@ == old(counts)@
            &&& old(request)@.stage->Sniffing_status == 429 ==> backoff.nanos >= 63_000_000_000
        }),
{
}

/// Who pays for an answer that is looked into is settled by what it says, and the
/// same is counted, as for any other request.
pub proof fn the_answer_says_who_pays(
    request: &mut Buffered,
    keys: usize,
    counts: &mut RateLimitCounts,
    exhausted: bool,
    turn: Turn,
    tally: &mut RateLimitCounts,
    key: &str,
    retry_after: &Option<String>,
    p: Penalty,
)
    requires
        call_ensures(Buffered::step, (request, Event::ErrorBody { exhausted }, keys, counts), turn),
        old(request)@.stage is Sniffing,
        call_ensures(
            penalty,
            (
                tally,
                old(request)@.stage->Sniffing_lane,
                key,
                old(request)@.stage->Sniffing_status,
                retry_after,
                exhausted,
            ),
            p,
        ),
        key@ == old(request)@.stage->Sniffing_key,
        retry::opt_text(*retry_after) == old(request)@.stage->Sniffing_retry_after,
        old(tally)@ == old(counts)@,
    ensures
        turn.penalty matches Some(q) && q@ == p@,
        final(counts)@ == final(tally)@,
{
}

/// A request is told that no slot came free exactly when the model did not admit
/// it in time, or no slot was granted in time: never because of what an upstream
/// answer said.
pub proof fn only_a_wait_in_vain_times_out(
    request: &mut Buffered,
    event: Event,
    keys: usize,
    counts: &mut RateLimitCounts,
    turn: Turn,
)
    requires
        call_ensures(Buffered::step, (request, event, keys, counts), turn),
    ensures
        ({
            let stage = old(request)@.stage;
            let in_vain = (stage is Gate && event == Event::Gate(false)) || (stage is Queue && (
            event matches Event::Slot(None)));
            &&& in_vain ==> refuses(
                turn,
                "504"@,
                504,
                "rate_limited"@,
                answers::timeout_message(old(request)@.max_wait, keys),
            ) && final(request)@.stage is Over && final(counts)@ == old(counts)@
            &&& turn.refusal matches Some(x) ==> in_vain || event is DeadlinePassed
            &&& turn.refusal is Some ==> turn.penalty is None
        }),
{
}

/// An answer that tells of rate limiting or of transient server trouble and comes
/// before the deadline is read to see why, whatever the status among these; every
/// other answer is returned as it came and recorded under its status.
pub proof fn trouble_is_looked_into(
    request: &mut Buffered,
    keys: usize,
    counts: &mut RateLimitCounts,
    status: u16,
    retry_after: Option<String>,
    now: Instant,
    turn: Turn,
    other: Seq<char>,
)
    requires
        call_ensures(
            Buffered::step,
            (request, Event::Answered { status, retry_after, now }, keys, counts),
            turn,
        ),
        old(request)@.stage is Sent,
    ensures
        ({
            let passes = status == 429 || status == 500 || status == 502 || status == 503 || status
                == 504;
            let early = now.nanos < old(request)@.deadline.nanos;
            &&& passes && early ==> {
                &&& final(request)@.stage == (StageView::Sniffing {
                    lane: old(request)@.stage->Sent_lane,
                    key: old(request)@.stage->Sent_key,
                    status,
                    retry_after: retry::opt_text(retry_after),
                })
                &&& final(counts)@ == old(counts)@
                &&& only_asks(turn, Ask::ReadError)
            }
            &&& !(passes && early) ==> {
                &&& final(request)@.stage is Relaying
                &&& turn.ask == Ask::Relay
                &&& turn.penalty is None && turn.refusal is None
                &&& retry::opt_text(turn.record) == Some(text::decimal(status as nat))
            }
            &&& 200 <= status < 300 ==> !final(counts)@.contains_key(old(request)@.stage->Sent_key)
            &&& other != old(request)@.stage->Sent_key || !(200 <= status < 300)
                ==> backoff::count_of(final(counts)@, other) == backoff::count_of(
                old(counts)@,
                other,
            )
            &&& final(request)@.deadline == old(request)@.deadline
            &&& final(request)@.max_wait == old(request)@.max_wait
        }),
{
}

/// Trouble that is answered before the deadline leads to another try, whatever
/// its status and whatever its body says; and so does a try that could not be
/// delivered, which costs its lane five seconds.
pub proof fn trouble_leads_to_another_try(
    first: &mut Buffered,
    second: &mut Buffered,
    keys: usize,
    counts: &mut RateLimitCounts,
    tally: &mut RateLimitCounts,
    status: u16,
    retry_after: Option<String>,
    now: Instant,
    exhausted: bool,
    turns: (Turn, Turn),
)
    requires
        call_ensures(
            Buffered::step,
            (first, Event::Answered { status, retry_after, now }, keys, counts),
            turns.0,
        ),
        call_ensures(
            Buffered::step,
            (second, Event::ErrorBody { exhausted }, keys, tally),
            turns.1,
        ),
        *final(first) == *old(second),
        old(first)@.stage is Sent,
        status == 429 || status == 500 || status == 502 || status == 503 || status == 504,
        now.nanos < old(first)@.deadline.nanos,
    ensures
        turns.0.ask == Ask::ReadError,
        turns.1.ask == Ask::AcquirePermit,
        turns.1.penalty is Some,
        turns.0.refusal is None && turns.1.refusal is None,
        turns.0.record is None && turns.1.record is None,
        final(second)@.stage is Gate,
{
}

/// Every try goes the same way: admitted, given a slot, sent with the key of that
/// very slot. One that could not be delivered costs its lane five seconds and is
/// followed by another.
pub proof fn every_try_goes_the_same_way(
    request: &mut Buffered,
    event: Event,
    keys: usize,
    counts: &mut RateLimitCounts,
    turn: Turn,
)
    requires
        call_ensures(Buffered::step, (request, event, keys, counts), turn),
    ensures
        old(request)@.stage is Gate && event == Event::Gate(true) ==> {
            &&& final(request)@.stage is Queue
            &&& only_asks(turn, Ask::ReserveSlot)
            &&& final(counts)@ == old(counts)@
        },
        old(request)@.stage is Queue ==> (event matches Event::Slot(Some((lane, key)))
            ==> final(request)@.stage == (StageView::Sent { lane, key: key@ }) && only_asks(
            turn,
            Ask::SendUpstream,
        ) && final(counts)@ == old(counts)@),
        old(request)@.stage is Sent && event is ConnectFailed ==> {
            &&& final(request)@.stage is Gate
            &&& turn.ask == Ask::AcquirePermit
            &&& turn.record is None && turn.refusal is None
            &&& final(counts)@ == old(counts)@
            &&& turn.penalty matches Some(Penalty::Lane { lane, label, backoff })
            &&& lane == old(request)@.stage->Sent_lane
            &&& label@ == "connect"@
            &&& backoff.nanos == 5_000_000_000
        },
        old(request)@.stage is Relaying && event is Relayed ==> final(request)@.stage is Over
            && only_asks(turn, Ask::Stop) && final(counts)@ == old(counts)@,
        !(old(request)@.stage is Over) && event is DeadlinePassed ==> {
            &&& final(request)@.stage is Over
            &&& refuses(
                turn,
                "deadline"@,
                504,
                "deadline_exceeded"@,
                "proxy request deadline exceeded"@,
            )
            &&& final(counts)@ == old(counts)@
        },
        final(request)@.deadline == old(request)@.deadline,
        final(request)@.max_wait == old(request)@.max_wait,
{
}

/// What a stage waits for.
pub open spec fn waits_for(stage: StageView, e: Event) -> bool {
    match stage {
        StageView::Gate => e is Gate,
        StageView::Queue => e is Slot,
        StageView::Sent { .. } => e is ConnectFailed || e is Answered,
        StageView::Sniffing { .. } => e is ErrorBody,
        StageView::Relaying => e is Relayed,
        StageView::Over => false,
    }
}

/// An event that a stage does not wait for changes nothing, unless it is the
/// request's own deadline: the same is asked for again.
pub proof fn the_unexpected_changes_nothing(
    request: &mut Buffered,
    event: Event,
    keys: usize,
    counts: &mut RateLimitCounts,
    turn: Turn,
)
    requires
        call_ensures(Buffered::step, (request, event, keys, counts), turn),
        !waits_for(old(request)@.stage, event),
        !(event is DeadlinePassed),
    ensures
        final(request)@ == old(request)@,
        final(counts)@ == old(counts)@,
        only_asks(turn, turn.ask),
        old(request)@.stage is Gate ==> turn.ask == Ask::AcquirePermit,
        old(request)@.stage is Queue ==> turn.ask == Ask::ReserveSlot,
        old(request)@.stage is Sent ==> turn.ask == Ask::SendUpstream,
        old(request)@.stage is Sniffing ==> turn.ask == Ask::ReadError,
        old(request)@.stage is Relaying ==> turn.ask == Ask::Relay,
        old(request)@.stage is Over ==> turn.ask == Ask::Stop,
{
}

/// A request starts by asking to be admitted, under the deadline and the longest
/// wait that it was given.
pub proof fn a_request_starts_at_the_door(max_wait: Duration, deadline: Instant, request: Buffered)
    requires
        call_ensures(Buffered::new, (max_wait, deadline), request),
    ensures
        request@.stage is Gate,
        request@.max_wait == max_wait,
        request@.deadline == deadline,
{
}

} // verus!
