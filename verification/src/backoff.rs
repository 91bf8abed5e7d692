//! How long a lane is benched when the upstream pushes back.
//!
//! A rate-limit answer benches the key for a time that doubles with every
//! consecutive one. Transient trouble (a failed connection, a server error)
//! benches it for a short fixed time and leaves the count alone.
use vstd::hash_map::StringHashMap;
use vstd::prelude::*;

use crate::pool::{LaneView, WINDOW_NANOS};
use crate::pool_laws;
use crate::text;
use crate::text::parse_u64;
use crate::time::{Duration, Instant, MAX_SPAN_NANOS, NANOS_PER_SEC};

verus! {

/// The first rate-limit bench, in seconds.
pub const RETRY_BASE_SECS: u64 = 60;

/// The longest bench that doubling can reach, in seconds.
pub const RETRY_MAX_SECS: u64 = 600;

/// The wait taken from an answer that names none, in seconds.
pub const RETRY_DEFAULT_SECS: u64 = 60;

/// What a rate-limit bench adds to the window, so that the window has drained
/// by the time the lane comes back.
pub const WINDOW_ALIGN_MARGIN_NANOS: u128 = 2_000_000_000;

/// The bench after a failed connection or a server error, in seconds.
pub const CONNECT_BACKOFF_SECS: u64 = 5;

/// `base` doubled `n` times.
pub open spec fn doubled(base: nat, n: nat) -> nat
    decreases n,
{
    if n == 0 {
        base
    } else {
        2 * doubled(base, (n - 1) as nat)
    }
}

/// The seconds of the bench after `n` earlier rate-limit answers in a row.
pub open spec fn backoff_secs(n: nat) -> nat {
    if doubled(RETRY_BASE_SECS as nat, n) <= RETRY_MAX_SECS {
        doubled(RETRY_BASE_SECS as nat, n)
    } else {
        RETRY_MAX_SECS as nat
    }
}

/// The nanoseconds of a rate-limit bench: doubling, but never less than the
/// window and its margin, and never less than the upstream asked for.
pub open spec fn lane_backoff_nanos(n: nat, retry_after: Option<Duration>) -> nat {
    let doubling = backoff_secs(n) * NANOS_PER_SEC as nat;
    let aligned = (WINDOW_NANOS + WINDOW_ALIGN_MARGIN_NANOS) as nat;
    let own = if doubling >= aligned {
        doubling
    } else {
        aligned
    };
    match retry_after {
        Some(ra) => if ra.nanos >= own {
            ra.nanos as nat
        } else {
            own
        },
        None => own,
    }
}

/// The wait that a `Retry-After` header asks for.
pub open spec fn asked_secs(header: Option<Seq<char>>) -> u64 {
    match header {
        Some(h) => match text::signed_plain_u64(h) {
            Some(secs) => secs,
            None => RETRY_DEFAULT_SECS,
        },
        None => RETRY_DEFAULT_SECS,
    }
}

/// Statuses worth waiting out: rate limiting and transient server trouble.
pub open spec fn is_retryable(status: u16) -> bool {
    status == 429 || status == 500 || status == 502 || status == 503 || status == 504
}

proof fn doubled_grows(base: nat, i: nat, j: nat)
    requires
        i <= j,
    ensures
        doubled(base, i) <= doubled(base, j),
    decreases j - i,
{
    if i < j {
        doubled_grows(base, i, (j - 1) as nat);
    }
}

/// Whether a status is worth waiting out.
pub fn retryable(status: u16) -> (r: bool)
    ensures
        r == is_retryable(status),
{
    status == 429 || status == 500 || status == 502 || status == 503 || status == 504
}

/// The doubling bench: one minute the first time, twice as long each time in a
/// row, ten minutes at most.
pub fn exponential_backoff(consecutive_429: u32) -> (r: Duration)
    ensures
        r.nanos == backoff_secs(consecutive_429 as nat) * NANOS_PER_SEC,
{
    let mut secs: u64 = RETRY_BASE_SECS;
    let mut i: u32 = 0;
    while i < consecutive_429 && secs < RETRY_MAX_SECS
        invariant
            i <= consecutive_429,
            secs == doubled(RETRY_BASE_SECS as nat, i as nat),
            secs < 2 * RETRY_MAX_SECS,
        decreases consecutive_429 - i,
    {
        secs = secs * 2;
        i += 1;
    }
    proof {
        doubled_grows(RETRY_BASE_SECS as nat, i as nat, consecutive_429 as nat);
    }
    if secs > RETRY_MAX_SECS {
        secs = RETRY_MAX_SECS;
    }
    Duration::from_secs(secs)
}

/// How long a lane is really benched on a rate-limit answer.
pub fn lane_backoff(consecutive_429: u32, retry_after: Option<Duration>) -> (r: Duration)
    ensures
        r.nanos == lane_backoff_nanos(consecutive_429 as nat, retry_after),
{
    let doubling = exponential_backoff(consecutive_429);
    let aligned = Duration::from_nanos(WINDOW_NANOS + WINDOW_ALIGN_MARGIN_NANOS);
    let own = doubling.longer(aligned);
    match retry_after {
        Some(ra) => own.longer(ra),
        None => own,
    }
}

/// The wait that a `Retry-After` header asks for, the default where there is
/// no header or it is not a number of seconds.
pub fn backoff_for(header: Option<&str>) -> (r: Duration)
    ensures
        r.nanos == asked_secs(
            match header {
                Some(h) => Some(h@),
                None => None,
            },
        ) * NANOS_PER_SEC,
        r.nanos <= MAX_SPAN_NANOS,
{
    let secs: u64 = match header {
        Some(h) => match parse_u64(h) {
            Some(secs) => secs,
            None => RETRY_DEFAULT_SECS,
        },
        None => RETRY_DEFAULT_SECS,
    };
    Duration::from_secs(secs)
}

/// The wait counts as asked for unless it is the default.
pub open spec fn hint_of(wait: Duration) -> Option<Duration> {
    if wait.nanos / NANOS_PER_SEC == RETRY_DEFAULT_SECS {
        None
    } else {
        Some(wait)
    }
}

/// What the upstream asked for, as far as it differs from the default.
pub fn retry_hint(wait: Duration) -> (r: Option<Duration>)
    ensures
        r == hint_of(wait),
{
    if wait.as_secs() == RETRY_DEFAULT_SECS as u128 {
        None
    } else {
        Some(wait)
    }
}

/// The bench for failed connections and server errors.
pub fn connect_backoff() -> (r: Duration)
    ensures
        r.nanos == CONNECT_BACKOFF_SECS * NANOS_PER_SEC,
{
    Duration::from_secs(CONNECT_BACKOFF_SECS)
}

/// How many rate-limit answers each key has had since a request last succeeded with it.
pub struct RateLimitCounts {
    counts: StringHashMap<u32>,
}

impl View for RateLimitCounts {
    type V = Map<Seq<char>, u32>;

    closed spec fn view(&self) -> Map<Seq<char>, u32> {
        self.counts@
    }
}

/// The count of a key; a key without an entry has had none.
pub open spec fn count_of(counts: Map<Seq<char>, u32>, key: Seq<char>) -> u32 {
    if counts.contains_key(key) {
        counts[key]
    } else {
        0
    }
}

impl RateLimitCounts {
    pub fn new() -> (r: RateLimitCounts)
        ensures
            r@ == Map::<Seq<char>, u32>::empty(),
    {
        RateLimitCounts { counts: StringHashMap::new() }
    }

    /// How many rate-limit answers `key` has had since a request last succeeded with it.
    pub fn count(&self, key: &str) -> (r: u32)
        ensures
            r == count_of(self@, key@),
    {
        match self.counts.get(key) {
            Some(c) => *c,
            None => 0,
        }
    }

    /// Counts one more rate-limit answer for `key` and gives the bench for it.
    pub fn bench_on_429(&mut self, key: &str, retry_after: Option<Duration>) -> (r: Duration)
        requires
            count_of(old(self)@, key@) < u32::MAX,
        ensures
            r.nanos == lane_backoff_nanos(count_of(old(self)@, key@) as nat, retry_after),
            (retry_after matches Some(ra) ==> ra.nanos <= MAX_SPAN_NANOS) ==> r.nanos
                <= MAX_SPAN_NANOS,
            final(self)@ == old(self)@.insert(key@, (count_of(old(self)@, key@) + 1) as u32),
    {
        let count: u32 = self.count(key);
        self.counts.insert(key.to_owned(), count + 1);
        lane_backoff(count, retry_after)
    }

    /// Forgets the rate-limit answers of a key with which a request has succeeded.
    pub fn reset_429_count(&mut self, key: &str)
        ensures
            final(self)@ == old(self)@.remove(key@),
    {
        self.counts.remove(key);
    }
}

// ---------------------------------------------------------------------------
// Laws
// ---------------------------------------------------------------------------
/// One more rate-limit answer never shortens the bench, and no count of them
/// takes the doubling past its limit.
pub proof fn benches_grow_to_a_limit(n: nat, m: nat, retry_after: Option<Duration>)
    requires
        n <= m,
    ensures
        RETRY_BASE_SECS <= backoff_secs(n) <= backoff_secs(m) <= RETRY_MAX_SECS,
        lane_backoff_nanos(n, retry_after) <= lane_backoff_nanos(m, retry_after),
{
    doubled_grows(RETRY_BASE_SECS as nat, n, m);
    doubled_grows(RETRY_BASE_SECS as nat, 0, n);
    let a = backoff_secs(n);
    let b = backoff_secs(m);
    assert(a * NANOS_PER_SEC as nat <= b * NANOS_PER_SEC as nat) by (nonlinear_arith)
        requires
            a <= b,
    ;
}

/// A lane benched on a rate-limit answer comes back with an empty window, so
/// coming back cannot by itself bring the next rate-limit answer.
pub proof fn a_rate_limited_lane_comes_back_empty(
    l: LaneView,
    n: nat,
    retry_after: Option<Duration>,
    benched: Instant,
    t: Instant,
)
    requires
        pool_laws::ordered(l.sent),
        pool_laws::past(l.sent, benched),
        t.nanos >= benched.nanos + lane_backoff_nanos(n, retry_after),
    ensures
        lane_backoff_nanos(n, retry_after) > WINDOW_NANOS,
        l.load(t) == 0,
{
    pool_laws::a_long_bench_empties_the_window(l, benched, t);
}

/// The bench is never shorter than what the upstream asked for; that a wait
/// equal to the default counts as not asked for changes nothing.
pub proof fn the_upstream_wait_is_honored(n: nat, wait: Duration)
    ensures
        lane_backoff_nanos(n, hint_of(wait)) == lane_backoff_nanos(n, Some(wait)),
        lane_backoff_nanos(n, hint_of(wait)) >= wait.nanos,
{
}

/// A success starts the count over: the next rate-limit bench of the key is
/// the first one again, and no other key's count changes.
pub proof fn a_success_starts_over(counts: Map<Seq<char>, u32>, key: Seq<char>, other: Seq<char>)
    ensures
        count_of(counts.remove(key), key) == 0,
        backoff_secs(count_of(counts.remove(key), key) as nat) == RETRY_BASE_SECS,
        other != key ==> count_of(counts.remove(key), other) == count_of(counts, other),
{
}

/// The statuses worth waiting out are these five, and no other.
pub proof fn five_statuses_are_waited_out(status: u16, r: bool)
    requires
        call_ensures(retryable, (status,), r),
    ensures
        r <==> status == 429 || status == 500 || status == 502 || status == 503 || status == 504,
{
}

/// The doubling bench is a minute at first; each further rate-limit answer in a
/// row doubles it, until it is ten minutes.
pub proof fn each_answer_doubles_the_bench(n: u32, m: u32, a: Duration, b: Duration)
    requires
        call_ensures(exponential_backoff, (n,), a),
        call_ensures(exponential_backoff, (m,), b),
        m == n + 1,
    ensures
        n == 0 ==> a.nanos == 60_000_000_000,
        2 * a.nanos <= 600_000_000_000 ==> b.nanos == 2 * a.nanos,
        2 * a.nanos > 600_000_000_000 ==> b.nanos == 600_000_000_000,
{
    assert(doubled(60, m as nat) == 2 * doubled(60, n as nat));
}

/// The bench of a rate-limited lane is the longest of three: the doubling one, the
/// window with its margin (63 seconds), and the wait that was asked for.
pub proof fn the_longest_bench_counts(
    n: u32,
    retry_after: Option<Duration>,
    doubling: Duration,
    r: Duration,
)
    requires
        call_ensures(exponential_backoff, (n,), doubling),
        call_ensures(lane_backoff, (n, retry_after), r),
    ensures
        r.nanos >= doubling.nanos,
        r.nanos >= 63_000_000_000,
        retry_after matches Some(ra) ==> r.nanos >= ra.nanos,
        r.nanos == doubling.nanos || r.nanos == 63_000_000_000 || retry_after == Some(r),
{
}

/// A header that is a number asks for that many seconds; without a header, or
/// with one that is no number, the wait is a minute.
pub proof fn a_header_asks_for_seconds(header: Option<&str>, n: Option<u64>, r: Duration)
    requires
        call_ensures(backoff_for, (header,), r),
        header matches Some(h) ==> call_ensures(parse_u64, (h,), n),
        header is None ==> n is None,
    ensures
        n matches Some(secs) ==> r.nanos == secs * 1_000_000_000,
        n is None ==> r.nanos == 60_000_000_000,
{
}

/// A wait of a minute (and a fraction of a second) counts as not asked for; every
/// other wait counts as it is.
pub proof fn only_a_minute_is_no_hint(wait: Duration, r: Option<Duration>)
    requires
        call_ensures(retry_hint, (wait,), r),
    ensures
        r is None <==> 60_000_000_000 <= wait.nanos < 61_000_000_000,
        r matches Some(w) ==> w == wait,
{
}

/// The bench after a failed connection or a server error is five seconds.
pub proof fn a_short_bench_is_five_seconds(r: Duration)
    requires
        call_ensures(connect_backoff, (), r),
    ensures
        r.nanos == 5_000_000_000,
{
}

/// Each key has a count of its own, none at first: a rate-limit answer adds one to
/// it and is answered with the bench for the count before it; forgetting brings
/// the count back to none. Other keys' counts stay.
pub proof fn each_key_is_counted_apart(
    fresh: RateLimitCounts,
    counts: &mut RateLimitCounts,
    key: &str,
    retry_after: Option<Duration>,
    r: Duration,
    due: Duration,
    before: u32,
    forgetful: &mut RateLimitCounts,
    other: Seq<char>,
)
    requires
        call_ensures(RateLimitCounts::new, (), fresh),
        count_of(old(counts)@, key@) < u32::MAX,
        call_ensures(RateLimitCounts::count, (&*old(counts), key), before),
        call_ensures(RateLimitCounts::bench_on_429, (counts, key, retry_after), r),
        call_ensures(lane_backoff, (before, retry_after), due),
        call_ensures(RateLimitCounts::reset_429_count, (forgetful, key), ()),
    ensures
        count_of(fresh@, other) == 0,
        before == count_of(old(counts)@, key@),
        r == due,
        count_of(final(counts)@, key@) == before + 1,
        count_of(final(forgetful)@, key@) == 0,
        other != key@ ==> count_of(final(counts)@, other) == count_of(old(counts)@, other)
            && count_of(final(forgetful)@, other) == count_of(old(forgetful)@, other),
{
}

} // verus!
