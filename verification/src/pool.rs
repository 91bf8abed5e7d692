//! Key pool: one "lane" per upstream API key, each with an exact sliding-window
//! rate limiter (at most `rpm` requests per rolling window). A sliding window
//! matches the upstream's semantics better than a token bucket, which would
//! allow a double-sized burst inside a single minute.
//!
//! Settings changes build a replacement pool via [`Pool::rebuild`], in which a
//! kept key's in-window timestamps carry over. Disabled keys stay in the pool
//! as inactive *state carriers*: never granted, invisible to the length, the
//! capacity and the statistics. Without them a disable-then-enable cycle would
//! resurrect a key with a fresh window while the upstream still remembers it.
use std::collections::VecDeque;

use vstd::prelude::*;

use crate::text::str_eq;
use crate::time;
use crate::time::{Clock, Duration, Instant, MAX_SPAN_NANOS, NANOS_PER_MILLI};

verus! {

/// The rolling window. The upstream's is sixty seconds; the extra second is a
/// delivery-jitter margin, because slots are reserved when they are granted
/// but the upstream clocks arrivals.
pub const WINDOW_NANOS: u128 = 61_000_000_000;

/// A lane blueprint. Disabled specs become state carriers.
pub struct LaneSpec {
    pub key: String,
    pub rpm: usize,
    pub enabled: bool,
}

/// One key's rate state.
struct Lane {
    key: String,
    /// Requests per window that this key may spend.
    rpm: usize,
    /// When the requests of the last window were sent, oldest first.
    sent: VecDeque<Instant>,
    /// The lane is benched until this instant.
    cooldown_until: Instant,
}

/// The lanes, enabled ones first.
pub struct Pool {
    lanes: Vec<Lane>,
    active: usize,
    /// What every instant of the pool is read from.
    clock: Clock,
    /// The latest instant that was read. A later reading is never taken for an
    /// earlier one.
    latest: Instant,
}

/// One lane's live state.
pub struct LaneStat {
    pub key: String,
    pub rpm: usize,
    pub in_window: usize,
    pub cooldown_ms: u64,
}

/// What a request for a slot is answered.
pub enum Reservation {
    /// Slot reserved; send the request with this key. `stamp` identifies the
    /// reservation so that an unused slot can be returned with
    /// [`Pool::release`]; `sticky` tells that the preferred lane won.
    Ready { lane: usize, key: String, stamp: Instant, sticky: bool },
    /// All lanes are busy; how long until the soonest slot frees up (the window,
    /// where no lane is enabled).
    Wait(Duration),
}

// ---------------------------------------------------------------------------
// Model
// ---------------------------------------------------------------------------
/// What a lane holds.
#[verifier::ext_equal]
pub struct LaneView {
    pub key: Seq<char>,
    pub rpm: usize,
    pub sent: Seq<Instant>,
    pub cooldown_until: Instant,
}

/// What a pool holds: the lanes, of which the first `active` are enabled.
#[verifier::ext_equal]
pub struct PoolView {
    pub lanes: Seq<LaneView>,
    pub active: nat,
}

/// A request sent at `t` no longer counts at `now`.
pub open spec fn expired(t: Instant, now: Instant) -> bool {
    now.nanos - t.nanos >= WINDOW_NANOS
}

/// The timestamps left once the expired ones at the front are dropped.
pub open spec fn pruned(sent: Seq<Instant>, now: Instant) -> Seq<Instant>
    decreases sent.len(),
{
    if sent.len() > 0 && expired(sent[0], now) {
        pruned(sent.drop_first(), now)
    } else {
        sent
    }
}

/// How many timestamps still count at `now`.
pub open spec fn in_window(sent: Seq<Instant>, now: Instant) -> nat
    decreases sent.len(),
{
    if sent.len() == 0 {
        0
    } else {
        in_window(sent.drop_last(), now) + if expired(sent.last(), now) {
            0nat
        } else {
            1nat
        }
    }
}

impl LaneView {
    /// The lane with the expired timestamps at its front dropped.
    pub open spec fn prune(self, now: Instant) -> LaneView {
        LaneView { sent: pruned(self.sent, now), ..self }
    }

    /// The lane once a slot has been reserved on it.
    pub open spec fn take(self, now: Instant) -> LaneView {
        LaneView { sent: pruned(self.sent, now).push(now), ..self }
    }

    /// The requests that count against the lane's budget at `now`.
    pub open spec fn load(self, now: Instant) -> nat {
        pruned(self.sent, now).len()
    }

    /// The lane can be granted at `now`: it is not benched and has budget left.
    pub open spec fn grantable(self, now: Instant) -> bool {
        self.cooldown_until.nanos <= now.nanos && self.load(now) < self.rpm
    }

    /// The slots that the lane can still grant at `now`: none while it is
    /// benched.
    pub open spec fn free_slots(self, now: Instant) -> nat {
        if self.grantable(now) {
            (self.rpm - self.load(now)) as nat
        } else {
            0
        }
    }

    /// When the lane's window has room again, as far as `now` shows it.
    pub open spec fn window_ready_at(self, now: Instant) -> int {
        let p = pruned(self.sent, now);
        if p.len() < self.rpm {
            now.nanos as int
        } else if self.rpm == 0 {
            now.nanos + WINDOW_NANOS
        } else {
            p[p.len() - self.rpm].nanos + WINDOW_NANOS
        }
    }

    /// When the lane is ready: its window has room and it is not benched.
    pub open spec fn ready_at(self, now: Instant) -> int {
        if self.window_ready_at(now) >= self.cooldown_until.nanos {
            self.window_ready_at(now)
        } else {
            self.cooldown_until.nanos as int
        }
    }
}

/// The shortest time after `now` at which one of the first `n` lanes is ready;
/// none where no lane is ready later than `now`.
pub open spec fn soonest(lanes: Seq<LaneView>, n: int, now: Instant) -> Option<int>
    decreases n,
{
    if n <= 0 {
        None
    } else {
        let rest = soonest(lanes, n - 1, now);
        let wait = lanes[n - 1].ready_at(now) - now.nanos;
        if wait > 0 && (rest matches Some(least) ==> wait < least) {
            Some(wait)
        } else {
            rest
        }
    }
}

/// How long a request waits that no lane can be granted to: until the soonest
/// lane is ready, or for the window where there is no lane to wait for.
pub open spec fn wait_of(soonest: Option<int>) -> int {
    match soonest {
        Some(wait) => wait,
        None => WINDOW_NANOS as int,
    }
}

/// Trying to take a slot of lane `l` at `now` is `granted` or not and leaves the
/// lane `m`: a slot is granted where the lane can be granted, and is recorded at
/// once; where it is not, nothing but expired timestamps may go.
pub open spec fn tried(l: LaneView, now: Instant, granted: bool, m: LaneView) -> bool {
    &&& granted == l.grantable(now)
    &&& granted ==> m == l.take(now)
    &&& !granted ==> m == l || m == l.prune(now)
}

/// The answer is a slot of lane `i`, reserved at `now`.
pub open spec fn is_slot(r: Reservation, i: int, key: Seq<char>, now: Instant, sticky: bool) -> bool {
    &&& r matches Reservation::Ready { lane, key: k, stamp, sticky: s }
    &&& lane == i
    &&& k@ == key
    &&& stamp == now
    &&& s == sticky
}

/// Trying to take a slot of lane `i` at `now` is answered `r` and turns the pool
/// `p` into `q`.
pub open spec fn tried_on(
    p: PoolView,
    i: int,
    now: Instant,
    sticky: bool,
    r: Option<Reservation>,
    q: PoolView,
) -> bool {
    &&& q.active == p.active
    &&& q.lanes == p.lanes.update(i, q.lanes[i])
    &&& tried(p.lanes[i], now, r is Some, q.lanes[i])
    &&& r matches Some(slot) ==> is_slot(slot, i, p.lanes[i].key, now, sticky)
}

/// Lane `i` is the one to grant: grantable, and of the grantable lanes among
/// the first `n` the least loaded, the first of them where several are.
pub open spec fn least_loaded(lanes: Seq<LaneView>, n: int, now: Instant, i: int) -> bool {
    &&& 0 <= i < n
    &&& lanes[i].grantable(now)
    &&& forall|j: int|
        0 <= j < n && #[trigger] lanes[j].grantable(now) ==> {
            ||| lanes[i].load(now) < lanes[j].load(now)
            ||| lanes[i].load(now) == lanes[j].load(now) && i <= j
        }
}

/// Some lane among the first `n` can be granted.
pub open spec fn some_grantable(lanes: Seq<LaneView>, n: int, now: Instant) -> bool {
    exists|j: int| 0 <= j < n && #[trigger] lanes[j].grantable(now)
}

impl PoolView {
    /// The preferred lane is enabled and can be granted.
    pub open spec fn sticky_hit(self, prefer: Option<usize>, now: Instant) -> bool {
        match prefer {
            Some(p) => p < self.active && self.lanes[p as int].grantable(now),
            None => false,
        }
    }

    /// Every enabled lane pruned.
    pub open spec fn swept(self, now: Instant) -> PoolView {
        PoolView {
            lanes: Seq::new(
                self.lanes.len(),
                |i: int|
                    if i < self.active {
                        self.lanes[i].prune(now)
                    } else {
                        self.lanes[i]
                    },
            ),
            active: self.active,
        }
    }

    /// The pool with a slot reserved on lane `i`.
    pub open spec fn take(self, i: int, now: Instant) -> PoolView {
        PoolView { lanes: self.lanes.update(i, self.lanes[i].take(now)), active: self.active }
    }

    /// What reserving a slot at `now` answers, and what it leaves behind.
    pub open spec fn reserves(
        self,
        prefer: Option<usize>,
        now: Instant,
        r: Reservation,
        after: PoolView,
    ) -> bool {
        if self.sticky_hit(prefer, now) {
            &&& r matches Reservation::Ready { lane, key, stamp, sticky }
            &&& Some(lane) == prefer
            &&& key@ == self.lanes[lane as int].key
            &&& stamp == now
            &&& sticky
            &&& after == self.take(lane as int, now)
        } else if some_grantable(self.lanes, self.active as int, now) {
            &&& r matches Reservation::Ready { lane, key, stamp, sticky }
            &&& least_loaded(self.lanes, self.active as int, now, lane as int)
            &&& key@ == self.lanes[lane as int].key
            &&& stamp == now
            &&& !sticky
            &&& after == self.swept(now).take(lane as int, now)
        } else {
            &&& r matches Reservation::Wait(wait)
            &&& wait.nanos == wait_of(soonest(self.lanes, self.active as int, now))
            &&& after == self.swept(now)
        }
    }

    /// Requests per window that the enabled lanes may spend together.
    pub open spec fn capacity(self) -> nat {
        rpm_total(self.lanes, self.active as int)
    }
}

/// The sum of the first `n` budgets.
pub open spec fn rpm_total(lanes: Seq<LaneView>, n: int) -> nat
    decreases n,
{
    if n <= 0 {
        0
    } else {
        rpm_total(lanes, n - 1) + lanes[n - 1].rpm as nat
    }
}

/// The first lane that holds `key`.
pub open spec fn kept(lanes: Seq<LaneView>, key: Seq<char>) -> Option<LaneView>
    decreases lanes.len(),
{
    if lanes.len() == 0 {
        None
    } else if lanes[0].key == key {
        Some(lanes[0])
    } else {
        kept(lanes.drop_first(), key)
    }
}

/// The lane that a spec becomes: the rate state of the same key among `old`
/// where there is one, a fresh lane, which was never benched, where there is
/// none.
pub open spec fn carried(old: Seq<LaneView>, spec: LaneSpec) -> LaneView {
    match kept(old, spec.key@) {
        Some(prev) => LaneView {
            key: spec.key@,
            rpm: spec.rpm,
            sent: prev.sent,
            cooldown_until: prev.cooldown_until,
        },
        None => LaneView {
            key: spec.key@,
            rpm: spec.rpm,
            sent: Seq::empty(),
            cooldown_until: Instant { nanos: 0 },
        },
    }
}

/// The specs that are enabled (or the ones that are not), in their order.
pub open spec fn with_enabled(specs: Seq<LaneSpec>, enabled: bool) -> Seq<LaneSpec>
    decreases specs.len(),
{
    if specs.len() == 0 {
        Seq::empty()
    } else {
        let rest = with_enabled(specs.drop_last(), enabled);
        if specs.last().enabled == enabled {
            rest.push(specs.last())
        } else {
            rest
        }
    }
}

/// The lanes that specs become.
pub open spec fn lanes_of(old: Seq<LaneView>, specs: Seq<LaneSpec>) -> Seq<LaneView> {
    Seq::new(specs.len(), |i: int| carried(old, specs[i]))
}

/// The pool built from specs: enabled lanes first, then the carriers, each
/// group in the order of the specs.
pub open spec fn assembled(old: Seq<LaneView>, specs: Seq<LaneSpec>) -> PoolView {
    PoolView {
        lanes: lanes_of(old, with_enabled(specs, true) + with_enabled(specs, false)),
        active: with_enabled(specs, true).len(),
    }
}

/// The index of the last timestamp equal to `stamp`, or -1.
pub open spec fn last_index(sent: Seq<Instant>, stamp: Instant) -> int
    decreases sent.len(),
{
    if sent.len() == 0 {
        -1
    } else if sent.last() == stamp {
        sent.len() - 1
    } else {
        last_index(sent.drop_last(), stamp)
    }
}

/// The timestamps without the last one equal to `stamp`.
pub open spec fn released(sent: Seq<Instant>, stamp: Instant) -> Seq<Instant> {
    let i = last_index(sent, stamp);
    if i < 0 {
        sent
    } else {
        sent.remove(i)
    }
}

/// When a lane benched at `now` for `backoff` comes back: a bench never
/// shortens one that is already running.
pub open spec fn benched_until(cooldown: Instant, backoff: Duration, now: Instant) -> int {
    if cooldown.nanos < now.nanos + backoff.nanos {
        now.nanos + backoff.nanos
    } else {
        cooldown.nanos as int
    }
}

/// Benching lane `lane` at `now` turns the pool `p` into `q`.
pub open spec fn benched(
    p: PoolView,
    lane: usize,
    backoff: Duration,
    now: Instant,
    q: PoolView,
) -> bool {
    let l = p.lanes[lane as int];
    let m = q.lanes[lane as int];
    &&& q.active == p.active
    &&& q.lanes == p.lanes.update(
        lane as int,
        LaneView { cooldown_until: m.cooldown_until, ..l },
    )
    &&& m.cooldown_until.nanos == benched_until(l.cooldown_until, backoff, now)
}

/// The instant `now` is read from the clock of a pool whose latest reading is
/// `latest`.
pub open spec fn read_after(latest: Instant, now: Instant) -> bool {
    latest.nanos <= now.nanos && time::is_reading(now)
}

/// Returning a slot of lane `lane` turns the pool `p` into `q`.
pub open spec fn returned(p: PoolView, lane: usize, stamp: Instant, q: PoolView) -> bool {
    let l = p.lanes[lane as int];
    &&& q.active == p.active
    &&& q.lanes == p.lanes.update(
        lane as int,
        LaneView { sent: released(l.sent, stamp), ..l },
    )
}

/// One lane's live state at `now`.
pub open spec fn stat_of(l: LaneView, now: Instant, s: LaneStat) -> bool {
    &&& s.key@ == l.key
    &&& s.rpm == l.rpm
    &&& s.in_window == in_window(l.sent, now)
    &&& s.cooldown_ms == ((if l.cooldown_until.nanos >= now.nanos {
        (l.cooldown_until.nanos - now.nanos) as u128
    } else {
        0u128
    }) / NANOS_PER_MILLI) as u64
}

/// The live state of every enabled lane.
pub open spec fn stats_of(p: PoolView, now: Instant, r: Seq<LaneStat>) -> bool {
    &&& r.len() == p.active
    &&& forall|i: int| 0 <= i < r.len() ==> stat_of(p.lanes[i], now, #[trigger] r[i])
}

/// A timestamp that has room for the window to end after it.
spec fn stamp_fits(t: Instant) -> bool {
    t.nanos + WINDOW_NANOS <= u128::MAX
}

impl Lane {
    spec fn view(self) -> LaneView {
        LaneView {
            key: self.key@,
            rpm: self.rpm,
            sent: self.sent@,
            cooldown_until: self.cooldown_until,
        }
    }

    spec fn wf(self) -> bool {
        forall|k: int| 0 <= k < self.sent@.len() ==> stamp_fits(#[trigger] self.sent@[k])
    }
}

/// What each of the lanes holds.
spec fn views(lanes: Seq<Lane>) -> Seq<LaneView> {
    Seq::new(lanes.len(), |i: int| lanes[i].view())
}

/// Every lane is well formed.
spec fn all_wf(lanes: Seq<Lane>) -> bool {
    forall|i: int| 0 <= i < lanes.len() ==> (#[trigger] lanes[i]).wf()
}

impl View for Pool {
    type V = PoolView;

    closed spec fn view(&self) -> PoolView {
        PoolView {
            lanes: views(self.lanes@),
            active: self.active as nat,
        }
    }
}

impl Pool {
    /// The enabled lanes are among the lanes, every timestamp leaves room for
    /// its window to end, and the latest instant is a reading.
    pub closed spec fn wf(&self) -> bool {
        &&& self.active <= self.lanes@.len()
        &&& all_wf(self.lanes@)
        &&& time::is_reading(self.latest)
    }

    /// What every instant of the pool is read from.
    pub closed spec fn clock(&self) -> Clock {
        self.clock
    }

    /// The latest instant that was read.
    pub closed spec fn latest(&self) -> Instant {
        self.latest
    }

    /// The pool goes on with the clock and the latest reading of `before`.
    pub open spec fn keeps_time(&self, before: Pool) -> bool {
        self.clock() == before.clock() && self.latest() == before.latest()
    }

    /// The pool goes on with the clock of `before`, which has been read since:
    /// its latest reading is new.
    pub open spec fn has_read(&self, before: Pool) -> bool {
        self.clock() == before.clock() && read_after(before.latest(), self.latest())
    }
}

// ---------------------------------------------------------------------------
// Operations
// ---------------------------------------------------------------------------
/// Drops the expired timestamps at the front.
fn prune(sent: &mut VecDeque<Instant>, now: Instant)
    ensures
        final(sent)@ == pruned(old(sent)@, now),
        forall|k: int|
            0 <= k < final(sent)@.len() ==> old(sent)@.contains(#[trigger] final(sent)@[k]),
{
    let ghost before = sent@;
    let mut more: bool = true;
    while more
        invariant
            pruned(sent@, now) == pruned(before, now),
            !more ==> sent@ == pruned(before, now),
            forall|k: int| 0 <= k < sent@.len() ==> before.contains(#[trigger] sent@[k]),
        decreases sent@.len(), more as int,
    {
        if sent.len() > 0 && now.nanos >= WINDOW_NANOS && sent[0].nanos <= now.nanos - WINDOW_NANOS {
            let ghost prev = sent@;
            let _ = sent.pop_front();
            assert(sent@ =~= prev.drop_first());
            assert(forall|k: int| 0 <= k < sent@.len() ==> sent@[k] == prev[k + 1]);
        } else {
            more = false;
        }
    }
}

/// Pruning twice is pruning once.
pub proof fn pruned_again(sent: Seq<Instant>, now: Instant)
    ensures
        pruned(pruned(sent, now), now) == pruned(sent, now),
    decreases sent.len(),
{
    if sent.len() > 0 && expired(sent[0], now) {
        pruned_again(sent.drop_first(), now);
    }
}

/// Pruning a lane changes nothing that a reservation looks at.
proof fn prune_is_unseen(l: LaneView, now: Instant)
    ensures
        l.prune(now).prune(now) == l.prune(now),
        l.prune(now).load(now) == l.load(now),
        l.prune(now).grantable(now) == l.grantable(now),
        l.prune(now).take(now) == l.take(now),
{
    pruned_again(l.sent, now);
}

impl Lane {
    /// Drops the expired timestamps at the front of the lane.
    fn prune(&mut self, now: Instant)
        requires
            old(self).wf(),
        ensures
            final(self).wf(),
            final(self).view() == old(self).view().prune(now),
    {
        let ghost before = self.sent@;
        prune(&mut self.sent, now);
        assert forall|k: int| 0 <= k < self.sent@.len() implies stamp_fits(
            #[trigger] self.sent@[k],
        ) by {
            assert(before.contains(self.sent@[k]));
        }
    }

    /// Reserves a slot on the lane if it has capacity at `now`. Reserving
    /// records the timestamp at once, so no later caller can oversubscribe.
    fn take(&mut self, now: Instant) -> (r: bool)
        requires
            old(self).wf(),
            stamp_fits(now),
        ensures
            final(self).wf(),
            tried(old(self).view(), now, r, final(self).view()),
    {
        if self.cooldown_until.nanos > now.nanos {
            return false;
        }
        self.prune(now);
        if self.sent.len() < self.rpm {
            self.sent.push_back(now);
            true
        } else {
            false
        }
    }

    /// How long after `now` the (already pruned) lane is ready.
    fn wait(&self, now: Instant) -> (r: Duration)
        requires
            self.wf(),
            stamp_fits(now),
            self.sent@ == pruned(self.sent@, now),
        ensures
            r.nanos == if self.view().ready_at(now) > now.nanos {
                self.view().ready_at(now) - now.nanos
            } else {
                0
            },
    {
        let len: usize = self.sent.len();
        let window_ready: u128 = if len < self.rpm {
            now.nanos
        } else if self.rpm == 0 {
            now.nanos + WINDOW_NANOS
        } else {
            assert(stamp_fits(self.sent@[len - self.rpm]));
            self.sent[len - self.rpm].nanos + WINDOW_NANOS
        };
        let ready_at: u128 = if window_ready >= self.cooldown_until.nanos {
            window_ready
        } else {
            self.cooldown_until.nanos
        };
        Instant { nanos: ready_at }.saturating_duration_since(now)
    }
}

impl Pool {
    /// Reserves a slot on lane `i` if it has capacity at `now`. Reserving records
    /// the send at once, so that takers can never oversubscribe a lane.
    pub fn try_take(&mut self, i: usize, now: Instant, sticky: bool) -> (r: Option<Reservation>)
        requires
            old(self).wf(),
            i < old(self)@.lanes.len(),
            now.nanos + WINDOW_NANOS <= u128::MAX,
        ensures
            final(self).wf(),
            tried_on(old(self)@, i as int, now, sticky, r, final(self)@),
            final(self).keeps_time(*old(self)),
    {
        let ghost before = *self;
        assert(self.lanes@[i as int].wf());
        let granted: bool = self.lanes[i].take(now);
        assert(self@.lanes =~= before@.lanes.update(i as int, self@.lanes[i as int]));
        if granted {
            Some(
                Reservation::Ready {
                    lane: i,
                    key: self.lanes[i].key.clone(),
                    stamp: now,
                    sticky,
                },
            )
        } else {
            None
        }
    }

    /// Reserves a slot at the instant `now`. `prefer` pins a conversation to
    /// one lane while it has capacity, which keeps an upstream prefix cache
    /// warm on a single key; otherwise the least loaded ready lane wins,
    /// spreading requests evenly over the keys. A preference that is out of
    /// range (it was computed for a pool that has shrunk since) is ignored.
    pub fn reserve_at(&mut self, prefer: Option<usize>, now: Instant) -> (r: Reservation)
        requires
            old(self).wf(),
            now.nanos + WINDOW_NANOS <= u128::MAX,
        ensures
            final(self).wf(),
            old(self)@.reserves(prefer, now, r, final(self)@),
            final(self).keeps_time(*old(self)),
    {
        let ghost o = self@;
        if let Some(p) = prefer {
            if p < self.active {
                if let Some(r) = self.try_take(p, now, true) {
                    return r;
                }
            }
        }
        assert(self@.lanes.len() == o.lanes.len());
        let n: usize = self.active;
        let mut best: Option<(usize, usize)> = None;
        let mut best_wait: Option<u128> = None;
        let mut i: usize = 0;
        while i < n
            invariant
                i <= n,
                n == self.active,
                n == o.active,
                self.wf(),
                stamp_fits(now),
                self.keeps_time(*old(self)),
                self.lanes@.len() == o.lanes.len(),
                forall|j: int| 0 <= j < i ==> #[trigger] self@.lanes[j] == o.lanes[j].prune(now),
                forall|j: int|
                    i <= j < n ==> #[trigger] self@.lanes[j] == o.lanes[j] || self@.lanes[j]
                        == o.lanes[j].prune(now),
                forall|j: int|
                    n <= j < self.lanes@.len() ==> #[trigger] self@.lanes[j] == o.lanes[j],
                match best_wait {
                    Some(w) => soonest(o.lanes, i as int, now) == Some(w as int),
                    None => soonest(o.lanes, i as int, now) is None,
                },
                match best {
                    Some((load, b)) => {
                        &&& least_loaded(o.lanes, i as int, now, b as int)
                        &&& load == o.lanes[b as int].load(now)
                    },
                    None => !some_grantable(o.lanes, i as int, now),
                },
            decreases n - i,
        {
            proof {
                prune_is_unseen(o.lanes[i as int], now);
                pruned_again(o.lanes[i as int].sent, now);
                assert(self@.lanes[i as int] == self.lanes@[i as int].view());
                assert(self.lanes@[i as int].wf());
            }
            let ghost before = self@;
            self.lanes[i].prune(now);
            assert(self@.lanes =~= before.lanes.update(i as int, o.lanes[i as int].prune(now)));
            let load: usize = self.lanes[i].sent.len();
            let ready: bool = self.lanes[i].cooldown_until.nanos <= now.nanos && load
                < self.lanes[i].rpm;
            if ready {
                let better: bool = match best {
                    Some((l, b)) => load < l,
                    None => true,
                };
                if better {
                    best = Some((load, i));
                }
            }
            let wait: u128 = self.lanes[i].wait(now).nanos;
            let sooner: bool = match best_wait {
                Some(w) => wait < w,
                None => true,
            };
            if wait > 0 && sooner {
                best_wait = Some(wait);
            }
            i += 1;
        }
        assert(self@ =~= o.swept(now));
        let wait: u128 = match best_wait {
            Some(w) => w,
            None => WINDOW_NANOS,
        };
        match best {
            Some((load, b)) => {
                proof {
                    prune_is_unseen(o.lanes[b as int], now);
                }
                match self.try_take(b, now, false) {
                    Some(r) => r,
                    None => Reservation::Wait(Duration::from_nanos(wait)),
                }
            },
            None => Reservation::Wait(Duration::from_nanos(wait)),
        }
    }
}

/// The first lane that holds `key`.
fn find_lane(lanes: &Vec<Lane>, key: &str) -> (r: Option<usize>)
    ensures
        match r {
            Some(i) => i < lanes@.len() && kept(views(lanes@), key@) == Some(
                lanes@[i as int].view(),
            ),
            None => kept(views(lanes@), key@) is None,
        },
{
    let mut i: usize = 0;
    assert(views(lanes@).skip(0) =~= views(lanes@));
    while i < lanes.len()
        invariant
            i <= lanes@.len(),
            kept(views(lanes@), key@) == kept(views(lanes@).skip(i as int), key@),
        decreases lanes.len() - i,
    {
        if str_eq(lanes[i].key.as_str(), key) {
            return Some(i);
        }
        assert(views(lanes@).skip(i as int).drop_first() =~= views(lanes@).skip(i + 1));
        i += 1;
    }
    None
}

/// Appends the lanes of the specs that are enabled (or of those that are not).
fn push_group(
    lanes: &mut Vec<Lane>,
    old_lanes: &Vec<Lane>,
    specs: &Vec<LaneSpec>,
    enabled: bool,
)
    requires
        all_wf(old(lanes)@),
        all_wf(old_lanes@),
    ensures
        all_wf(final(lanes)@),
        views(final(lanes)@) == views(old(lanes)@) + lanes_of(
            views(old_lanes@),
            with_enabled(specs@, enabled),
        ),
{
    let ghost before = views(lanes@);
    let ghost olds = views(old_lanes@);
    let mut i: usize = 0;
    assert(views(lanes@) =~= before + lanes_of(
        olds,
        with_enabled(specs@.take(0), enabled),
    ));
    while i < specs.len()
        invariant
            i <= specs@.len(),
            all_wf(lanes@),
            all_wf(old_lanes@),
            olds == views(old_lanes@),
            views(lanes@) == before + lanes_of(
                olds,
                with_enabled(specs@.take(i as int), enabled),
            ),
        decreases specs.len() - i,
    {
        let ghost group = with_enabled(specs@.take(i as int), enabled);
        let spec = &specs[i];
        assert(specs@.take(i + 1).drop_last() =~= specs@.take(i as int));
        if spec.enabled == enabled {
            let lane = match find_lane(old_lanes, spec.key.as_str()) {
                Some(k) => {
                    assert(old_lanes@[k as int].wf());
                    let sent = old_lanes[k].sent.clone();
                    assert(sent@ =~= old_lanes@[k as int].sent@);
                    Lane {
                        key: spec.key.clone(),
                        rpm: spec.rpm,
                        sent,
                        cooldown_until: old_lanes[k].cooldown_until,
                    }
                },
                None => Lane {
                    key: spec.key.clone(),
                    rpm: spec.rpm,
                    sent: VecDeque::new(),
                    cooldown_until: Instant { nanos: 0 },
                },
            };
            let ghost prior = lanes@;
            assert(lane.view() =~= carried(olds, specs@[i as int]));
            lanes.push(lane);
            assert(views(lanes@) =~= views(prior).push(lane.view()));
            assert(lanes_of(olds, group.push(specs@[i as int])) =~= lanes_of(
                olds,
                group,
            ).push(lane.view()));
        }
        i += 1;
    }
    assert(specs@.take(i as int) =~= specs@);
}

impl Pool {
    /// Builds the pool of `specs`: enabled lanes first, so that an index only
    /// ever means an enabled lane, and the carriers after them.
    fn assemble(specs: Vec<LaneSpec>, old_lanes: &Vec<Lane>, clock: Clock, latest: Instant) -> (r:
        Pool)
        requires
            all_wf(old_lanes@),
            time::is_reading(latest),
        ensures
            r.wf(),
            r@ == assembled(views(old_lanes@), specs@),
            r.clock() == clock,
            r.latest() == latest,
    {
        let mut lanes: Vec<Lane> = Vec::new();
        assert(views(lanes@) =~= Seq::empty());
        push_group(&mut lanes, old_lanes, &specs, true);
        let active: usize = lanes.len();
        assert(views(lanes@) =~= lanes_of(views(old_lanes@), with_enabled(specs@, true)));
        assert(active == views(lanes@).len());
        push_group(&mut lanes, old_lanes, &specs, false);
        assert(views(lanes@).len() == lanes@.len());
        assert(views(lanes@) =~= lanes_of(
            views(old_lanes@),
            with_enabled(specs@, true) + with_enabled(specs@, false),
        ));
        Pool { lanes, active, clock, latest }
    }

    /// A pool of fresh lanes, one per spec, on a clock of its own.
    pub fn new(specs: Vec<LaneSpec>) -> (r: Pool)
        ensures
            r.wf(),
            r@ == assembled(Seq::empty(), specs@),
            time::is_reading(r.latest()),
    {
        let none: Vec<Lane> = Vec::new();
        assert(views(none@) =~= Seq::empty());
        let clock = Clock::start();
        let latest = clock.now();
        Pool::assemble(specs, &none, clock, latest)
    }

    /// Builds a replacement pool from `specs`, carrying over the in-window
    /// timestamps and the cooldown of every key kept from `self`, enabled or
    /// not. A kept key can never be spent twice across a swap, a lowered
    /// budget is honored at once, and a disabled key comes back warm. The
    /// replacement goes on with the same clock.
    pub fn rebuild(&self, specs: Vec<LaneSpec>) -> (r: Pool)
        requires
            self.wf(),
        ensures
            r.wf(),
            r@ == assembled(self@.lanes, specs@),
            r.keeps_time(*self),
    {
        Pool::assemble(specs, &self.lanes, self.clock, self.latest)
    }

    /// The present moment by the pool's clock, never before one that was read
    /// already.
    fn present(&self) -> (r: Instant)
        requires
            self.wf(),
        ensures
            read_after(self.latest(), r),
    {
        let now = self.clock.now();
        if now.nanos >= self.latest.nanos {
            now
        } else {
            self.latest
        }
    }

    /// Tries to reserve a request slot now.
    pub fn reserve(&mut self, prefer: Option<usize>) -> (r: Reservation)
        requires
            old(self).wf(),
        ensures
            final(self).wf(),
            old(self)@.reserves(prefer, final(self).latest(), r, final(self)@),
            final(self).has_read(*old(self)),
    {
        let now = self.present();
        self.latest = now;
        self.reserve_at(prefer, now)
    }

    /// Returns a reserved slot that was never spent on an upstream request,
    /// because the client hung up while it was queued, say.
    pub fn release(&mut self, lane: usize, stamp: Instant)
        requires
            old(self).wf(),
            lane < old(self)@.lanes.len(),
        ensures
            final(self).wf(),
            returned(old(self)@, lane, stamp, final(self)@),
            final(self).keeps_time(*old(self)),
    {
        let ghost before = *self;
        let ghost sent = self.lanes@[lane as int].sent@;
        assert(self.lanes@[lane as int].wf());
        let mut i: usize = self.lanes[lane].sent.len();
        assert(sent.take(i as int) =~= sent);
        let mut searching: bool = true;
        while searching && i > 0
            invariant
                lane < self.lanes@.len(),
                sent == self.lanes@[lane as int].sent@,
                i <= sent.len(),
                searching ==> last_index(sent, stamp) == last_index(sent.take(i as int), stamp),
                !searching ==> i < sent.len() && last_index(sent, stamp) == i,
            decreases i, searching as int,
        {
            assert(sent.take(i as int).drop_last() =~= sent.take(i - 1));
            i -= 1;
            if self.lanes[lane].sent[i].nanos == stamp.nanos {
                searching = false;
            }
        }
        if !searching {
            let _ = self.lanes[lane].sent.remove(i);
        }
        let ghost after = LaneView {
            sent: released(sent, stamp),
            ..before.lanes@[lane as int].view()
        };
        assert(self.lanes@[lane as int].view() == after);
        assert(self@.lanes =~= before@.lanes.update(lane as int, after));
        assert forall|i: int| 0 <= i < self.lanes@.len() implies (#[trigger]
        self.lanes@[i]).wf() by {
            assert(before.lanes@[i].wf());
        }
    }

    /// Benches a lane at the instant `now`.
    pub fn penalize_at(&mut self, lane: usize, backoff: Duration, now: Instant)
        requires
            old(self).wf(),
            lane < old(self)@.lanes.len(),
            now.nanos + backoff.nanos <= u128::MAX,
        ensures
            final(self).wf(),
            benched(old(self)@, lane, backoff, now, final(self)@),
            final(self).keeps_time(*old(self)),
    {
        let ghost before = *self;
        let until = Instant { nanos: now.nanos + backoff.nanos };
        if self.lanes[lane].cooldown_until.nanos < until.nanos {
            self.lanes[lane].cooldown_until = until;
        }
        assert(self@.lanes =~= before@.lanes.update(
            lane as int,
            LaneView {
                cooldown_until: self@.lanes[lane as int].cooldown_until,
                ..before@.lanes[lane as int]
            },
        ));
        assert forall|i: int| 0 <= i < self.lanes@.len() implies (#[trigger]
        self.lanes@[i]).wf() by {
            assert(before.lanes@[i].wf());
        }
    }

    /// Benches a lane after the upstream said to back off.
    pub fn penalize(&mut self, lane: usize, backoff: Duration)
        requires
            old(self).wf(),
            lane < old(self)@.lanes.len(),
            backoff.nanos <= MAX_SPAN_NANOS,
        ensures
            final(self).wf(),
            benched(old(self)@, lane, backoff, final(self).latest(), final(self)@),
            final(self).has_read(*old(self)),
    {
        let now = self.present();
        self.latest = now;
        self.penalize_at(lane, backoff, now);
    }

    /// How many lanes are enabled. Carriers are invisible.
    pub fn len(&self) -> (r: usize)
        ensures
            r == self@.active,
    {
        self.active
    }

    /// Requests per window over all the enabled lanes.
    pub fn capacity_rpm(&self) -> (r: usize)
        requires
            self.wf(),
            self@.capacity() <= usize::MAX,
        ensures
            r == self@.capacity(),
    {
        let mut total: usize = 0;
        let mut i: usize = 0;
        while i < self.active
            invariant
                i <= self.active,
                self.wf(),
                self@.capacity() <= usize::MAX,
                total == rpm_total(self@.lanes, i as int),
            decreases self.active - i,
        {
            proof {
                rpm_total_grows(self@.lanes, i + 1, self.active as int);
            }
            total = total + self.lanes[i].rpm;
            i += 1;
        }
        total
    }

    /// The budgets of the enabled lanes, in lane order.
    pub fn rpms(&self) -> (r: Vec<usize>)
        requires
            self.wf(),
        ensures
            r@ == Seq::new(self@.active, |i: int| self@.lanes[i].rpm),
    {
        let mut v: Vec<usize> = Vec::new();
        let mut i: usize = 0;
        while i < self.active
            invariant
                i <= self.active,
                self.wf(),
                v@ == Seq::new(i as nat, |k: int| self@.lanes[k].rpm),
            decreases self.active - i,
        {
            v.push(self.lanes[i].rpm);
            i += 1;
        }
        v
    }

    /// The live state of every enabled lane at the instant `now`.
    pub fn lane_stats_at(&self, now: Instant) -> (r: Vec<LaneStat>)
        requires
            self.wf(),
        ensures
            stats_of(self@, now, r@),
    {
        let mut v: Vec<LaneStat> = Vec::new();
        let mut i: usize = 0;
        while i < self.active
            invariant
                i <= self.active,
                self.wf(),
                v@.len() == i,
                forall|k: int| 0 <= k < i ==> stat_of(self@.lanes[k], now, #[trigger] v@[k]),
            decreases self.active - i,
        {
            let lane = &self.lanes[i];
            let cooldown: u128 = lane.cooldown_until.saturating_duration_since(now).as_millis();
            let stat = LaneStat {
                key: lane.key.clone(),
                rpm: lane.rpm,
                in_window: count_in_window(&lane.sent, now),
                cooldown_ms: #[verifier::truncate] (cooldown as u64),
            };
            assert(stat_of(self@.lanes[i as int], now, stat));
            v.push(stat);
            i += 1;
        }
        v
    }

    /// A view of the enabled lanes as they stand now.
    pub fn lane_stats(&self) -> (r: Vec<LaneStat>)
        requires
            self.wf(),
        ensures
            exists|now: Instant| #[trigger]
                stats_of(self@, now, r@) && read_after(self.latest(), now),
    {
        let now = self.present();
        self.lane_stats_at(now)
    }
}

/// More lanes never have a smaller budget together.
proof fn rpm_total_grows(lanes: Seq<LaneView>, i: int, j: int)
    requires
        0 <= i <= j,
    ensures
        rpm_total(lanes, i) <= rpm_total(lanes, j),
    decreases j - i,
{
    if i < j {
        rpm_total_grows(lanes, i, j - 1);
    }
}

/// How many timestamps still count at `now`.
fn count_in_window(sent: &VecDeque<Instant>, now: Instant) -> (r: usize)
    ensures
        r == in_window(sent@, now),
{
    let mut n: usize = 0;
    let mut i: usize = 0;
    while i < sent.len()
        invariant
            i <= sent.len(),
            n <= i,
            n == in_window(sent@.take(i as int), now),
        decreases sent.len() - i,
    {
        assert(sent@.take(i + 1).drop_last() =~= sent@.take(i as int));
        if now.saturating_duration_since(sent[i]).nanos < WINDOW_NANOS {
            n += 1;
        }
        i += 1;
    }
    assert(sent@.take(i as int) =~= sent@);
    n
}

} // verus!
