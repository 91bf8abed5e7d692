//! Who pays for an upstream answer that is worth waiting out.
//!
//! A worker shortage is the model's trouble and shared by every key, so it
//! never benches a lane: that would burn healthy capacity on a change of key
//! that cannot help. A rate limit is the key's trouble and benches its lane for
//! a growing time. Anything else benches the lane for a short fixed time.
use vstd::prelude::*;

use crate::backoff;
use crate::backoff::{
    backoff_for, connect_backoff, retry_hint, RateLimitCounts, CONNECT_BACKOFF_SECS,
};
use crate::pool;
use crate::pool::{Pool, WINDOW_NANOS};
use crate::text;
use crate::text::to_decimal;
use crate::time::{Duration, MAX_SPAN_NANOS, NANOS_PER_SEC};

verus! {

/// Too many requests.
pub const RATE_LIMITED: u16 = 429;

/// Who pays.
pub enum Penalty {
    /// The model: its concurrency is turned down.
    Model,
    /// The lane: it is benched, under a label that says why.
    Lane { lane: usize, label: String, backoff: Duration },
}

/// Who pays.
pub enum PenaltyView {
    Model,
    Lane { lane: usize, label: Seq<char>, nanos: nat },
}

impl View for Penalty {
    type V = PenaltyView;

    open spec fn view(&self) -> PenaltyView {
        match self {
            Penalty::Model => PenaltyView::Model,
            Penalty::Lane { lane, label, backoff } => PenaltyView::Lane {
                lane: *lane,
                label: label@,
                nanos: backoff.nanos as nat,
            },
        }
    }
}

/// The wait that an answer asks for, as far as it differs from the default.
pub open spec fn asked(retry_after: Option<Seq<char>>) -> Option<Duration> {
    backoff::hint_of(
        Duration { nanos: (backoff::asked_secs(retry_after) * NANOS_PER_SEC) as u128 },
    )
}

/// Who pays for an answer.
pub open spec fn penalty_of(
    counts: Map<Seq<char>, u32>,
    lane: usize,
    key: Seq<char>,
    status: u16,
    retry_after: Option<Seq<char>>,
    exhausted: bool,
) -> PenaltyView {
    if exhausted {
        PenaltyView::Model
    } else if status == RATE_LIMITED {
        PenaltyView::Lane {
            lane,
            label: "429"@,
            nanos: backoff::lane_backoff_nanos(
                backoff::count_of(counts, key) as nat,
                asked(retry_after),
            ),
        }
    } else {
        PenaltyView::Lane {
            lane,
            label: text::decimal(status as nat),
            nanos: (CONNECT_BACKOFF_SECS * NANOS_PER_SEC) as nat,
        }
    }
}

/// The rate-limit counts after an answer.
pub open spec fn counts_after(
    counts: Map<Seq<char>, u32>,
    key: Seq<char>,
    status: u16,
    exhausted: bool,
) -> Map<Seq<char>, u32> {
    if !exhausted && status == RATE_LIMITED {
        counts.insert(key, (backoff::count_of(counts, key) + 1) as u32)
    } else {
        counts
    }
}

/// The penalty for a connection that failed.
pub open spec fn connect_penalty(lane: usize) -> PenaltyView {
    PenaltyView::Lane {
        lane,
        label: "connect"@,
        nanos: (CONNECT_BACKOFF_SECS * NANOS_PER_SEC) as nat,
    }
}

/// What an optional text holds.
pub open spec fn opt_text(s: Option<String>) -> Option<Seq<char>> {
    match s {
        Some(t) => Some(t@),
        None => None,
    }
}

/// Settles who pays for an answer that is worth waiting out, counting it where
/// it is a rate limit of the key.
pub fn penalty(
    counts: &mut RateLimitCounts,
    lane: usize,
    key: &str,
    status: u16,
    retry_after: &Option<String>,
    exhausted: bool,
) -> (r: Penalty)
    requires
        !exhausted && status == RATE_LIMITED ==> backoff::count_of(old(counts)@, key@) < u32::MAX,
    ensures
        r@ == penalty_of(old(counts)@, lane, key@, status, opt_text(*retry_after), exhausted),
        final(counts)@ == counts_after(old(counts)@, key@, status, exhausted),
        r matches Penalty::Lane { backoff, .. } ==> backoff.nanos <= MAX_SPAN_NANOS,
{
    if exhausted {
        Penalty::Model
    } else if status == RATE_LIMITED {
        let header: Option<&str> = match retry_after {
            Some(h) => Some(h.as_str()),
            None => None,
        };
        let wait = backoff_for(header);
        let backoff = counts.bench_on_429(key, retry_hint(wait));
        Penalty::Lane { lane, label: "429".to_owned(), backoff }
    } else {
        Penalty::Lane { lane, label: to_decimal(status as u128), backoff: connect_backoff() }
    }
}

/// The penalty for a connection that failed.
pub fn connect_failed(lane: usize) -> (r: Penalty)
    ensures
        r@ == connect_penalty(lane),
        r matches Penalty::Lane { backoff, .. } ==> backoff.nanos <= MAX_SPAN_NANOS,
{
    Penalty::Lane { lane, label: "connect".to_owned(), backoff: connect_backoff() }
}

/// Benches the lane that pays, if a lane does; a model that pays leaves the pool
/// alone. The pool is the one that granted the slot, whichever is in force now.
pub fn bench(pool: &mut Pool, p: &Penalty)
    requires
        old(pool).wf(),
        p matches Penalty::Lane { lane, backoff, .. } ==> *lane < old(pool)@.lanes.len()
            && backoff.nanos <= MAX_SPAN_NANOS,
    ensures
        final(pool).wf(),
        match *p {
            Penalty::Model => *final(pool) == *old(pool),
            Penalty::Lane { lane, backoff, .. } => pool::benched(
                old(pool)@,
                lane,
                backoff,
                final(pool).latest(),
                final(pool)@,
            ) && final(pool).has_read(*old(pool)),
        },
{
    match p {
        Penalty::Model => {},
        Penalty::Lane { lane, backoff, .. } => {
            pool.penalize(*lane, *backoff);
        },
    }
}

// ---------------------------------------------------------------------------
// Laws
// ---------------------------------------------------------------------------
/// A worker shortage never costs a lane or a key anything.
pub proof fn a_worker_shortage_spares_the_lane(
    counts: Map<Seq<char>, u32>,
    lane: usize,
    key: Seq<char>,
    status: u16,
    retry_after: Option<Seq<char>>,
)
    ensures
        penalty_of(counts, lane, key, status, retry_after, true) == PenaltyView::Model,
        counts_after(counts, key, status, true) == counts,
{
}

/// A rate limit benches the lane for longer than the window, and for no less
/// than the upstream asked for; every other trouble benches it for the short
/// fixed time and leaves the count alone.
pub proof fn a_lane_pays_for_a_rate_limit_with_the_window(
    counts: Map<Seq<char>, u32>,
    lane: usize,
    key: Seq<char>,
    status: u16,
    retry_after: Option<Seq<char>>,
)
    ensures
        penalty_of(counts, lane, key, status, retry_after, false) matches PenaltyView::Lane {
            lane: l,
            nanos,
            ..
        } && l == lane && (status == RATE_LIMITED ==> nanos > WINDOW_NANOS && nanos
            >= backoff::asked_secs(retry_after) * NANOS_PER_SEC) && (status != RATE_LIMITED ==> nanos
            == CONNECT_BACKOFF_SECS * NANOS_PER_SEC && nanos < WINDOW_NANOS),
        status != RATE_LIMITED ==> counts_after(counts, key, status, false) == counts,
{
    let wait = Duration { nanos: (backoff::asked_secs(retry_after) * NANOS_PER_SEC) as u128 };
    backoff::the_upstream_wait_is_honored(backoff::count_of(counts, key) as nat, wait);
}

/// Who pays, and how much. A worker shortage costs the model, and no key's count
/// changes. Else the lane pays: a rate limit counts one more for its key, and for
/// no other, and benches the lane for as long as the key's count and the wait that
/// was asked for call for; any other trouble benches it for five seconds under its
/// status and counts nothing.
pub proof fn each_trouble_has_its_price(
    counts: &mut RateLimitCounts,
    lane: usize,
    key: &str,
    status: u16,
    retry_after: &Option<String>,
    exhausted: bool,
    p: Penalty,
    header: Option<&str>,
    asked_for: Duration,
    due: Duration,
    other: Seq<char>,
)
    requires
        call_ensures(penalty, (counts, lane, key, status, retry_after, exhausted), p),
        !exhausted && status == 429 ==> backoff::count_of(old(counts)@, key@) < u32::MAX,
        header is Some <==> retry_after is Some,
        header is Some ==> header->0@ == retry_after->0@,
        call_ensures(backoff_for, (header,), asked_for),
        call_ensures(
            backoff::lane_backoff,
            (backoff::count_of(old(counts)@, key@), Some(asked_for)),
            due,
        ),
    ensures
        p is Model <==> exhausted,
        exhausted || status != 429 ==> final(counts)@ == old(counts)@,
        !exhausted ==> (p matches Penalty::Lane { lane: l, label, backoff } && {
            &&& l == lane
            &&& status == 429 ==> label@ == "429"@ && backoff == due
            &&& status != 429 ==> label@ == text::decimal(status as nat) && backoff.nanos
                == 5_000_000_000
        }),
        !exhausted && status == 429 ==> {
            &&& backoff::count_of(final(counts)@, key@) == backoff::count_of(old(counts)@, key@) + 1
            &&& other != key@ ==> backoff::count_of(final(counts)@, other) == backoff::count_of(
                old(counts)@,
                other,
            )
        },
{
    backoff::the_upstream_wait_is_honored(
        backoff::count_of(old(counts)@, key@) as nat,
        asked_for,
    );
    assert(asked_for == Duration {
        nanos: (backoff::asked_secs(opt_text(*retry_after)) * NANOS_PER_SEC) as u128,
    });
}

/// A connection that failed costs its own lane five seconds.
pub proof fn a_failed_connection_has_its_price(lane: usize, p: Penalty)
    requires
        call_ensures(connect_failed, (lane,), p),
    ensures
        p matches Penalty::Lane { lane: l, label, backoff } && l == lane && label@ == "connect"@
            && backoff.nanos == 5_000_000_000,
{
}

/// Benching costs the lane that pays and no other, and a model that pays costs no
/// lane: a lane comes back at the later of the end of the bench that it was
/// serving and the end of the new one, which starts when the pool's clock is read.
pub proof fn only_the_lane_that_pays_is_benched(pool: &mut Pool, p: Penalty, i: int)
    requires
        call_ensures(bench, (pool, &p), ()),
        0 <= i < old(pool)@.lanes.len(),
        p matches Penalty::Lane { lane, backoff, .. } ==> lane < old(pool)@.lanes.len()
            && backoff.nanos <= MAX_SPAN_NANOS,
    ensures
        p is Model ==> *final(pool) == *old(pool),
        p matches Penalty::Lane { lane, .. } ==> (lane != i ==> old(pool)@.lanes[i]
            == final(pool)@.lanes[i]),
        p matches Penalty::Lane { lane, backoff, .. } ==> (lane == i ==> {
            let before = old(pool)@.lanes[i];
            let after = final(pool)@.lanes[i];
            let end = final(pool).latest().nanos + backoff.nanos;
            &&& after.cooldown_until.nanos >= end
            &&& after.cooldown_until.nanos >= before.cooldown_until.nanos
            &&& after.cooldown_until.nanos == end || after.cooldown_until == before.cooldown_until
            &&& after.sent == before.sent && after.rpm == before.rpm && after.key == before.key
        }),
        final(pool)@.lanes.len() == old(pool)@.lanes.len(),
        final(pool)@.active == old(pool)@.active,
        final(pool).latest().nanos >= old(pool).latest().nanos,
{
}

} // verus!
