//! Waiting for admission: the model's gate, the queue for slots, and the
//! deadlines that end a wait.
use vstd::prelude::*;

use crate::text;
use crate::text::{parse_plain_u64, str_eq};
use crate::time::{Duration, Instant, NANOS_PER_MILLI};

verus! {

/// The header in which a client sets its own deadline, in milliseconds.
pub const DEADLINE_HEADER: &'static str = "x-nim-proxy-deadline-ms";

/// Every this many heartbeats a wait in the queue is logged.
pub const LOG_EVERY_BEATS: u32 = 3;

// ---------------------------------------------------------------------------
// Deadlines
// ---------------------------------------------------------------------------
/// The milliseconds that the deadline headers of a request set: none where
/// there is no header, and a failure where there are several, or where the one
/// is not a plain decimal number that fits.
pub open spec fn deadline_millis(values: Seq<Option<String>>) -> Result<Option<u64>, ()> {
    if values.len() == 0 {
        Ok(None)
    } else if values.len() > 1 {
        Err(())
    } else {
        match values[0] {
            Some(raw) => match text::plain_u64(raw@) {
                Some(millis) => Ok(Some(millis)),
                None => Err(()),
            },
            None => Err(()),
        }
    }
}

/// The deadline that a request sets for itself, counted from when it was
/// accepted. `values` are the values of its deadline headers, those that are
/// not text as `None`.
pub fn parse_request_deadline(values: &Vec<Option<String>>, accepted: Instant) -> (r: Result<
    Option<Instant>,
    (),
>)
    ensures
        match deadline_millis(values@) {
            Ok(None) => r == Ok::<Option<Instant>, ()>(None),
            Ok(Some(millis)) => if accepted.nanos + millis * NANOS_PER_MILLI <= u128::MAX {
                r matches Ok(Some(t)) && t.nanos == accepted.nanos + millis * NANOS_PER_MILLI
            } else {
                r is Err
            },
            Err(_) => r is Err,
        },
{
    if values.len() == 0 {
        return Ok(None);
    }
    if values.len() > 1 {
        return Err(());
    }
    match &values[0] {
        Some(raw) => match parse_plain_u64(raw.as_str()) {
            Some(millis) => match accepted.checked_add(Duration::from_millis(millis)) {
                Some(t) => Ok(Some(t)),
                None => Err(()),
            },
            None => Err(()),
        },
        None => Err(()),
    }
}

/// Until when a request waits for admission.
pub fn wait_deadline(now: Instant, max_wait: Duration) -> (r: Instant)
    requires
        now.nanos + max_wait.nanos <= u128::MAX,
    ensures
        r.nanos == now.nanos + max_wait.nanos,
{
    Instant { nanos: now.nanos + max_wait.nanos }
}

// ---------------------------------------------------------------------------
// The model's gate
// ---------------------------------------------------------------------------
/// A request that the model has to admit: a generation that names a model,
/// while the governor is on.
pub open spec fn gated(enabled: bool, model: Seq<char>, path: Seq<char>) -> bool {
    &&& enabled
    &&& model != "none"@
    &&& path == "/v1/chat/completions"@ || path == "/v1/completions"@
}

/// Whether the model has to admit the request.
pub fn is_gated(enabled: bool, model: &str, path: &str) -> (r: bool)
    ensures
        r == gated(enabled, model@, path@),
{
    enabled && !str_eq(model, "none") && (str_eq(path, "/v1/chat/completions") || str_eq(
        path,
        "/v1/completions",
    ))
}

/// What happened while a request waited for its model.
#[derive(Clone, Copy)]
pub enum GateEvent {
    /// The model admitted the request.
    Admitted,
    /// The model did not.
    Refused { now: Instant },
    /// The pause is over.
    Woke { now: Instant },
    /// The heartbeat was sent, or the client is gone.
    Beat { alive: bool, now: Instant },
}

/// What is asked for next.
#[derive(Clone, Copy, Debug, PartialEq, Eq, Structural)]
pub enum GateAsk {
    /// Ask the model again.
    Try,
    /// Pause for the poll interval.
    Pause,
    /// Send a heartbeat.
    Beat,
    /// Go on: the request is admitted.
    Enter,
    /// Give the request up.
    GiveUp,
}

/// A wait for the model to admit a request.
pub struct GateWait {
    pub poll: Duration,
    pub heartbeat: Duration,
    pub deadline: Instant,
    pub next_heartbeat: Instant,
}

/// The next step of a wait, and when the next heartbeat is due.
pub open spec fn gate_next(w: GateWait, e: GateEvent) -> (GateAsk, int) {
    let due = w.next_heartbeat.nanos as int;
    match e {
        GateEvent::Admitted => (GateAsk::Enter, due),
        GateEvent::Refused { now } => if now.nanos + w.poll.nanos > w.deadline.nanos {
            (GateAsk::GiveUp, due)
        } else {
            (GateAsk::Pause, due)
        },
        GateEvent::Woke { now } => if now.nanos >= w.next_heartbeat.nanos {
            (GateAsk::Beat, due)
        } else {
            (GateAsk::Try, due)
        },
        GateEvent::Beat { alive, now } => if alive {
            (GateAsk::Try, now.nanos + w.heartbeat.nanos)
        } else {
            (GateAsk::GiveUp, due)
        },
    }
}

/// The instants that an event is reckoned with can be represented.
pub open spec fn gate_fits(w: GateWait, e: GateEvent) -> bool {
    match e {
        GateEvent::Refused { now } => now.nanos + w.poll.nanos <= u128::MAX,
        GateEvent::Beat { now, .. } => now.nanos + w.heartbeat.nanos <= u128::MAX,
        _ => true,
    }
}

impl GateWait {
    /// A wait that starts now.
    pub fn new(now: Instant, poll: Duration, heartbeat: Duration, deadline: Instant) -> (r:
        GateWait)
        requires
            now.nanos + heartbeat.nanos <= u128::MAX,
        ensures
            r.poll == poll,
            r.heartbeat == heartbeat,
            r.deadline == deadline,
            r.next_heartbeat.nanos == now.nanos + heartbeat.nanos,
    {
        GateWait {
            poll,
            heartbeat,
            deadline,
            next_heartbeat: Instant { nanos: now.nanos + heartbeat.nanos },
        }
    }

    /// Takes in what happened and decides what follows.
    pub fn step(&mut self, event: GateEvent) -> (r: GateAsk)
        requires
            gate_fits(*old(self), event),
        ensures
            r == gate_next(*old(self), event).0,
            final(self).next_heartbeat.nanos == gate_next(*old(self), event).1,
            final(self).poll == old(self).poll,
            final(self).heartbeat == old(self).heartbeat,
            final(self).deadline == old(self).deadline,
    {
        match event {
            GateEvent::Admitted => GateAsk::Enter,
            GateEvent::Refused { now } => {
                if now.nanos + self.poll.nanos > self.deadline.nanos {
                    GateAsk::GiveUp
                } else {
                    GateAsk::Pause
                }
            },
            GateEvent::Woke { now } => {
                if now.nanos >= self.next_heartbeat.nanos {
                    GateAsk::Beat
                } else {
                    GateAsk::Try
                }
            },
            GateEvent::Beat { alive, now } => {
                if alive {
                    self.next_heartbeat = Instant { nanos: now.nanos + self.heartbeat.nanos };
                    GateAsk::Try
                } else {
                    GateAsk::GiveUp
                }
            },
        }
    }
}

/// Such a wait never pauses past its deadline, and a client whose
/// heartbeat is due gets it before anything else is tried.
pub proof fn a_gate_wait_ends_and_beats(w: GateWait, now: Instant)
    ensures
        gate_next(w, GateEvent::Refused { now }).0 == GateAsk::Pause ==> now.nanos + w.poll.nanos
            <= w.deadline.nanos,
        now.nanos >= w.deadline.nanos && w.poll.nanos > 0 ==> gate_next(
            w,
            GateEvent::Refused { now },
        ).0 == GateAsk::GiveUp,
        now.nanos >= w.next_heartbeat.nanos ==> gate_next(w, GateEvent::Woke { now }).0
            == GateAsk::Beat,
        gate_next(w, GateEvent::Beat { alive: false, now }).0 == GateAsk::GiveUp,
{
}

// ---------------------------------------------------------------------------
// The queue
// ---------------------------------------------------------------------------
/// What a heartbeat in the queue leads to.
#[derive(Clone, Copy, Debug, PartialEq, Eq, Structural)]
pub enum QueueAsk {
    /// Wait on, and log the wait if so told.
    Wait { report: bool },
    /// Give the request up: the client is gone.
    GiveUp,
}

/// A wait in the queue for slots.
pub struct QueueWait {
    pub beats: u32,
}

impl QueueWait {
    /// A wait that starts now.
    pub fn new() -> (r: QueueWait)
        ensures
            r.beats == 0,
    {
        QueueWait { beats: 0 }
    }

    /// Takes in how a heartbeat fared.
    pub fn beat(&mut self, alive: bool) -> (r: QueueAsk)
        requires
            old(self).beats < u32::MAX,
        ensures
            final(self).beats == old(self).beats + if alive {
                1int
            } else {
                0
            },
            r == if alive {
                QueueAsk::Wait { report: (old(self).beats + 1) % LOG_EVERY_BEATS as int == 0 }
            } else {
                QueueAsk::GiveUp
            },
    {
        if !alive {
            return QueueAsk::GiveUp;
        }
        self.beats += 1;
        QueueAsk::Wait { report: self.beats % LOG_EVERY_BEATS == 0 }
    }
}

// ---------------------------------------------------------------------------
// Laws
// ---------------------------------------------------------------------------
/// A request sets a deadline with one header that is a plain number of
/// milliseconds, counted from when the request was accepted; without a header it
/// sets none. Several headers, one that is no such number, and a deadline that
/// cannot be represented are failures.
pub proof fn a_deadline_is_counted_from_acceptance(
    values: &Vec<Option<String>>,
    accepted: Instant,
    r: Result<Option<Instant>, ()>,
    raw: &str,
    millis: Option<u64>,
)
    requires
        call_ensures(parse_request_deadline, (values, accepted), r),
        call_ensures(parse_plain_u64, (raw,), millis),
        values@.len() == 1 ==> (values@[0] matches Some(v) ==> raw@ == v@),
    ensures
        values@.len() == 0 ==> r == Ok::<Option<Instant>, ()>(None),
        values@.len() > 1 ==> r is Err,
        values@.len() == 1 && values@[0] is None ==> r is Err,
        values@.len() == 1 && values@[0] is Some && millis is None ==> r is Err,
        values@.len() == 1 && values@[0] is Some ==> (millis matches Some(ms) ==> {
            let due = accepted.nanos + ms * 1_000_000;
            &&& due <= u128::MAX ==> (r matches Ok(Some(t)) && t.nanos == due)
            &&& due > u128::MAX ==> r is Err
        }),
{
}

/// A request waits until the longest wait after now is over.
pub proof fn a_wait_is_counted_from_now(now: Instant, max_wait: Duration, r: Instant)
    requires
        call_ensures(wait_deadline, (now, max_wait), r),
    ensures
        r.nanos - now.nanos == max_wait.nanos,
{
}

/// A model has to admit exactly the generations that name it, on either of the two
/// paths, and only while the governor is on.
pub proof fn only_generations_are_gated(enabled: bool, model: &str, path: &str, r: bool)
    requires
        call_ensures(is_gated, (enabled, model, path), r),
    ensures
        r ==> enabled && model@ != "none"@,
        r ==> path@ == "/v1/chat/completions"@ || path@ == "/v1/completions"@,
        enabled && model@ != "none"@ && path@ == "/v1/chat/completions"@ ==> r,
        enabled && model@ != "none"@ && path@ == "/v1/completions"@ ==> r,
{
}

/// A wait for a model, step by step: an admission ends it at once; a refusal leads
/// to a pause if the pause is over by the deadline, and else ends the wait; after a
/// pause a heartbeat that is due goes out first; a heartbeat that arrived puts the
/// next one off by one interval and leads to another try, and one that did not ends
/// the wait. Nothing else of the wait changes.
pub proof fn a_gate_wait_goes_by_the_clock(wait: &mut GateWait, event: GateEvent, r: GateAsk)
    requires
        call_ensures(GateWait::step, (wait, event), r),
    ensures
        event is Admitted ==> r == GateAsk::Enter,
        r == GateAsk::Enter ==> event is Admitted,
        event matches GateEvent::Refused { now } ==> {
            &&& now.nanos + old(wait).poll.nanos <= old(wait).deadline.nanos ==> r == GateAsk::Pause
            &&& now.nanos + old(wait).poll.nanos > old(wait).deadline.nanos ==> r == GateAsk::GiveUp
        },
        event matches GateEvent::Woke { now } ==> {
            &&& now.nanos >= old(wait).next_heartbeat.nanos ==> r == GateAsk::Beat
            &&& now.nanos < old(wait).next_heartbeat.nanos ==> r == GateAsk::Try
        },
        event matches GateEvent::Beat { alive, now } ==> {
            &&& alive ==> r == GateAsk::Try && final(wait).next_heartbeat.nanos - now.nanos
                == old(wait).heartbeat.nanos
            &&& !alive ==> r == GateAsk::GiveUp
        },
        !(event matches GateEvent::Beat { alive, .. } && alive) ==> final(wait).next_heartbeat.nanos
            == old(wait).next_heartbeat.nanos,
        final(wait).poll == old(wait).poll,
        final(wait).heartbeat == old(wait).heartbeat,
        final(wait).deadline == old(wait).deadline,
{
}

/// A wait starts with its first heartbeat one interval away.
pub proof fn the_first_heartbeat_is_an_interval_away(
    now: Instant,
    poll: Duration,
    heartbeat: Duration,
    deadline: Instant,
    r: GateWait,
)
    requires
        call_ensures(GateWait::new, (now, poll, heartbeat, deadline), r),
    ensures
        r.next_heartbeat.nanos - now.nanos == heartbeat.nanos,
        r.poll == poll,
        r.heartbeat == heartbeat,
        r.deadline == deadline,
{
}

/// Every third heartbeat in the queue is reported, counted from the start of the
/// wait; a client that is gone ends the wait and counts for nothing.
pub proof fn every_third_beat_is_reported(
    fresh: QueueWait,
    wait: &mut QueueWait,
    alive: bool,
    r: QueueAsk,
)
    requires
        call_ensures(QueueWait::new, (), fresh),
        call_ensures(QueueWait::beat, (wait, alive), r),
        old(wait).beats < u32::MAX,
    ensures
        fresh.beats == 0,
        !alive ==> r == QueueAsk::GiveUp && final(wait).beats == old(wait).beats,
        alive ==> final(wait).beats == old(wait).beats + 1,
        alive && final(wait).beats % 3 == 0 ==> r == (QueueAsk::Wait { report: true }),
        alive && final(wait).beats % 3 != 0 ==> r == (QueueAsk::Wait { report: false }),
{
}

/// A client sets its deadline in milliseconds, under this header.
pub proof fn a_deadline_has_its_header()
    ensures
        DEADLINE_HEADER@ == "x-nim-proxy-deadline-ms"@,
{
}

} // verus!
