//! What holds of a pool over many operations: no key is ever spent beyond its
//! budget, a wait is as short as it can be, and what a rebuild keeps.
use vstd::prelude::*;

use crate::pool;
use crate::pool::{LaneSpec, LaneStat, LaneView, Pool, PoolView, Reservation, WINDOW_NANOS};
use crate::time::{Duration, Instant, MAX_SPAN_NANOS};

verus! {

// ---------------------------------------------------------------------------
// The budget
// ---------------------------------------------------------------------------
/// One operation on a pool.
pub enum Step {
    Reserve { prefer: Option<usize>, now: Instant, answer: Reservation },
    Release { lane: usize, stamp: Instant },
    Penalize { lane: usize, backoff: Duration, now: Instant },
    Rebuild { specs: Seq<LaneSpec> },
}

/// The operation turns the pool `p` into the pool `q`.
pub open spec fn steps(p: PoolView, s: Step, q: PoolView) -> bool {
    match s {
        Step::Reserve { prefer, now, answer } => p.reserves(prefer, now, answer, q),
        Step::Release { lane, stamp } => lane < p.lanes.len() && pool::returned(p, lane, stamp, q),
        Step::Penalize { lane, backoff, now } => lane < p.lanes.len() && pool::benched(
            p,
            lane,
            backoff,
            now,
            q,
        ),
        Step::Rebuild { specs } => q == pool::assembled(p.lanes, specs),
    }
}

/// When the operation happens, where it reads the clock.
pub open spec fn time_of(s: Step) -> Option<Instant> {
    match s {
        Step::Reserve { now, .. } => Some(now),
        Step::Release { .. } => None,
        Step::Penalize { now, .. } => Some(now),
        Step::Rebuild { .. } => None,
    }
}

/// Some spec names `key`.
pub open spec fn named(specs: Seq<LaneSpec>, key: Seq<char>) -> bool {
    exists|i: int| 0 <= i < specs.len() && #[trigger] specs[i].key@ == key
}

/// The slots spent on `key` (granted and not returned) after the operation,
/// where `h` were spent before it. A rebuild that leaves the key out forgets it.
pub open spec fn spent_after(h: Seq<Instant>, key: Seq<char>, p: PoolView, s: Step) -> Seq<
    Instant,
> {
    match s {
        Step::Reserve { now, answer: Reservation::Ready { lane, .. }, .. } => if p.lanes[lane as int].key
            == key {
            h.push(now)
        } else {
            h
        },
        Step::Release { lane, stamp } => if p.lanes[lane as int].key == key {
            pool::released(h, stamp)
        } else {
            h
        },
        Step::Rebuild { specs } => if named(specs, key) {
            h
        } else {
            Seq::empty()
        },
        _ => h,
    }
}

/// No two lanes hold the same key.
pub open spec fn distinct_keys(p: PoolView) -> bool {
    forall|i: int, j: int|
        0 <= i < j < p.lanes.len() ==> #[trigger] p.lanes[i].key != #[trigger] p.lanes[j].key
}

/// No two specs name the same key.
pub open spec fn distinct_specs(specs: Seq<LaneSpec>) -> bool {
    forall|i: int, j: int|
        0 <= i < j < specs.len() ==> #[trigger] specs[i].key@ != #[trigger] specs[j].key@
}

/// Every spec that names `key` has a budget of at most `cap`.
pub open spec fn within(specs: Seq<LaneSpec>, key: Seq<char>, cap: nat) -> bool {
    forall|i: int| 0 <= i < specs.len() && #[trigger] specs[i].key@ == key ==> specs[i].rpm <= cap
}

/// In order, oldest first.
pub open spec fn ordered(h: Seq<Instant>) -> bool {
    forall|i: int, j: int| 0 <= i <= j < h.len() ==> #[trigger] h[i].nanos <= #[trigger] h[j].nanos
}

/// No slot was spent after `now`.
pub open spec fn past(h: Seq<Instant>, now: Instant) -> bool {
    forall|i: int| 0 <= i < h.len() ==> #[trigger] h[i].nanos <= now.nanos
}

/// Slot `n` was spent while fewer than `cap` others counted.
pub open spec fn in_pace(h: Seq<Instant>, n: int, cap: nat) -> bool {
    pool::in_window(h.take(n), h[n]) < cap
}

/// Each slot was spent while fewer than `cap` others counted.
pub open spec fn paced(h: Seq<Instant>, cap: nat) -> bool {
    forall|n: int| 0 <= n < h.len() ==> #[trigger] in_pace(h, n, cap)
}

/// The spent slots in the rolling window that opens at `t`.
pub open spec fn spent_within(h: Seq<Instant>, t: int) -> nat
    decreases h.len(),
{
    if h.len() == 0 {
        0
    } else {
        spent_within(h.drop_last(), t) + if t <= h.last().nanos < t + WINDOW_NANOS {
            1nat
        } else {
            0nat
        }
    }
}

/// The timestamps of a lane are the spent slots but for some oldest ones, all
/// of which have expired.
pub open spec fn remembers(sent: Seq<Instant>, h: Seq<Instant>, now: Instant) -> bool {
    &&& sent.len() <= h.len()
    &&& sent == h.skip(h.len() - sent.len())
    &&& forall|i: int| 0 <= i < h.len() - sent.len() ==> #[trigger] pool::expired(h[i], now)
}

/// The pool's record of `key` agrees with the slots `h` that were spent on it.
pub open spec fn balanced(
    p: PoolView,
    key: Seq<char>,
    h: Seq<Instant>,
    cap: nat,
    now: Instant,
) -> bool {
    &&& distinct_keys(p)
    &&& p.active <= p.lanes.len()
    &&& ordered(h)
    &&& past(h, now)
    &&& paced(h, cap)
    &&& forall|i: int|
        0 <= i < p.lanes.len() && #[trigger] p.lanes[i].key == key ==> p.lanes[i].rpm <= cap
            && remembers(p.lanes[i].sent, h, now)
    &&& (forall|i: int| 0 <= i < p.lanes.len() ==> #[trigger] p.lanes[i].key != key)
        ==> h.len() == 0
}

/// What an operation asks of its caller for the budget to hold: the clock does
/// not run backwards, and a rebuild names no key twice and keeps to `cap`.
pub open spec fn admissible(s: Step, key: Seq<char>, cap: nat, now: Instant) -> bool {
    &&& time_of(s) matches Some(t) ==> now.nanos <= t.nanos
    &&& s matches Step::Rebuild { specs } ==> distinct_specs(specs) && within(specs, key, cap)
}

/// The time after an operation.
pub open spec fn later(s: Step, now: Instant) -> Instant {
    match time_of(s) {
        Some(t) => t,
        None => now,
    }
}

proof fn in_window_of_expired(h: Seq<Instant>, now: Instant)
    requires
        forall|i: int| 0 <= i < h.len() ==> #[trigger] pool::expired(h[i], now),
    ensures
        pool::in_window(h, now) == 0,
    decreases h.len(),
{
    if h.len() > 0 {
        assert(pool::expired(h[h.len() - 1], now));
        assert(forall|i: int| 0 <= i < h.drop_last().len() ==> h.drop_last()[i] == h[i]);
        in_window_of_expired(h.drop_last(), now);
    }
}

proof fn in_window_splits(a: Seq<Instant>, b: Seq<Instant>, now: Instant)
    ensures
        pool::in_window(a + b, now) == pool::in_window(a, now) + pool::in_window(b, now),
    decreases b.len(),
{
    if b.len() > 0 {
        assert((a + b).drop_last() =~= a + b.drop_last());
        in_window_splits(a, b.drop_last(), now);
    } else {
        assert(a + b =~= a);
    }
}

/// In an ordered run the timestamps that pruning leaves are those that count.
proof fn pruned_counts(s: Seq<Instant>, now: Instant)
    requires
        ordered(s),
    ensures
        pool::pruned(s, now).len() == pool::in_window(s, now),
        pool::pruned(s, now).len() <= s.len(),
        pool::pruned(s, now) == s.skip(s.len() - pool::pruned(s, now).len()),
        forall|i: int|
            0 <= i < s.len() - pool::pruned(s, now).len() ==> #[trigger] pool::expired(s[i], now),
        forall|i: int|
            s.len() - pool::pruned(s, now).len() <= i < s.len() ==> !#[trigger] pool::expired(s[i], now),
    decreases s.len(),
{
    if s.len() > 0 && pool::expired(s[0], now) {
        let rest = s.drop_first();
        assert(forall|i: int| 0 <= i < rest.len() ==> rest[i] == s[i + 1]);
        pruned_counts(rest, now);
        assert(s =~= seq![s[0]] + rest);
        in_window_splits(seq![s[0]], rest, now);
        in_window_of_expired(seq![s[0]], now);
        let k = pool::pruned(s, now).len();
        assert(rest.skip(rest.len() - k) =~= s.skip(s.len() - k));
        assert forall|i: int| 0 <= i < s.len() - k implies #[trigger] pool::expired(s[i], now) by {
            if i > 0 {
                assert(rest[i - 1] == s[i]);
            }
        }
        assert forall|i: int| s.len() - k <= i < s.len() implies !pool::expired(
            #[trigger] s[i],
            now,
        ) by {
            assert(rest[i - 1] == s[i]);
        }
    } else {
        assert(s.skip(0) =~= s);
        assert forall|i: int| 0 <= i < s.len() implies !#[trigger] pool::expired(s[i], now) by {
            assert(s[0].nanos <= s[i].nanos);
        }
        all_in_window(s, now);
    }
}

proof fn all_in_window(s: Seq<Instant>, now: Instant)
    requires
        forall|i: int| 0 <= i < s.len() ==> !#[trigger] pool::expired(s[i], now),
    ensures
        pool::in_window(s, now) == s.len(),
    decreases s.len(),
{
    if s.len() > 0 {
        assert(!pool::expired(s[s.len() - 1], now));
        assert(forall|i: int| 0 <= i < s.drop_last().len() ==> s.drop_last()[i] == s[i]);
        all_in_window(s.drop_last(), now);
    }
}

/// What a lane remembers, pruned, is still what it has to remember; and its
/// load is the number of spent slots that count.
proof fn remembers_pruned(sent: Seq<Instant>, h: Seq<Instant>, now: Instant, t: Instant)
    requires
        ordered(h),
        remembers(sent, h, now),
        now.nanos <= t.nanos,
    ensures
        remembers(pool::pruned(sent, t), h, t),
        pool::pruned(sent, t).len() == pool::in_window(h, t),
{
    let cut = h.len() - sent.len();
    let gone = h.take(cut);
    assert(h =~= gone + sent);
    assert(forall|i: int| 0 <= i < sent.len() ==> sent[i] == h[cut + i]);
    assert(ordered(sent));
    pruned_counts(sent, t);
    assert forall|i: int| 0 <= i < gone.len() implies #[trigger] pool::expired(gone[i], t) by {
        assert(pool::expired(h[i], now));
    }
    in_window_of_expired(gone, t);
    in_window_splits(gone, sent, t);
    let p = pool::pruned(sent, t);
    assert(p =~= h.skip(h.len() - p.len()));
    assert forall|i: int| 0 <= i < h.len() - p.len() implies #[trigger] pool::expired(h[i], t) by {
        if i < cut {
            assert(pool::expired(h[i], now));
        } else {
            assert(h[i] == sent[i - cut]);
        }
    }
}

/// Removing a slot leaves the others as well paced as they were.
proof fn paced_without(h: Seq<Instant>, k: int, cap: nat)
    requires
        0 <= k < h.len(),
        paced(h, cap),
    ensures
        paced(h.remove(k), cap),
{
    let g = h.remove(k);
    assert forall|n: int| 0 <= n < g.len() implies #[trigger] in_pace(g, n, cap) by {
        if n < k {
            assert(in_pace(h, n, cap));
            assert(g.take(n) =~= h.take(n));
        } else {
            assert(in_pace(h, n + 1, cap));
            let one = seq![h[k]];
            let tail = h.subrange(k + 1, n + 1);
            let last = g[n];
            assert(h[n + 1] == last);
            assert(h.take(n + 1) =~= h.take(k) + one + tail);
            assert(g.take(n) =~= h.take(k) + tail);
            pool_splits(h.take(k), one, tail, last);
        }
    }
}

proof fn pool_splits(a: Seq<Instant>, b: Seq<Instant>, c: Seq<Instant>, now: Instant)
    ensures
        pool::in_window(a + c, now) <= pool::in_window(a + b + c, now),
{
    in_window_splits(a + b, c, now);
    in_window_splits(a, b, now);
    in_window_splits(a, c, now);
}

proof fn last_index_bounds(s: Seq<Instant>, stamp: Instant)
    ensures
        -1 <= pool::last_index(s, stamp) < s.len(),
        pool::last_index(s, stamp) >= 0 ==> s[pool::last_index(s, stamp)] == stamp,
    decreases s.len(),
{
    if s.len() > 0 && s.last() != stamp {
        last_index_bounds(s.drop_last(), stamp);
    }
}

proof fn last_index_splits(a: Seq<Instant>, b: Seq<Instant>, stamp: Instant)
    ensures
        pool::last_index(a + b, stamp) == if pool::last_index(b, stamp) >= 0 {
            a.len() + pool::last_index(b, stamp)
        } else {
            pool::last_index(a, stamp)
        },
    decreases b.len(),
{
    if b.len() > 0 {
        assert((a + b).drop_last() =~= a + b.drop_last());
        last_index_bounds(b.drop_last(), stamp);
        last_index_splits(a, b.drop_last(), stamp);
    } else {
        assert(a + b =~= a);
    }
}

/// A lane that remembers all but some oldest slots, which have expired.
proof fn remembers_rest(gone: Seq<Instant>, sent: Seq<Instant>, now: Instant)
    requires
        forall|i: int| 0 <= i < gone.len() ==> #[trigger] pool::expired(gone[i], now),
    ensures
        remembers(sent, gone + sent, now),
{
    let h = gone + sent;
    assert(sent =~= h.skip(h.len() - sent.len()));
    assert forall|i: int| 0 <= i < h.len() - sent.len() implies #[trigger] pool::expired(
        h[i],
        now,
    ) by {
        assert(pool::expired(gone[i], now));
    }
}

/// Returning a slot keeps a lane in step with the spent slots.
proof fn remembers_released(sent: Seq<Instant>, h: Seq<Instant>, now: Instant, stamp: Instant)
    requires
        remembers(sent, h, now),
    ensures
        remembers(pool::released(sent, stamp), pool::released(h, stamp), now),
{
    let gone = h.take(h.len() - sent.len());
    assert(h =~= gone + sent);
    assert forall|i: int| 0 <= i < gone.len() implies #[trigger] pool::expired(gone[i], now) by {
        assert(pool::expired(h[i], now));
    }
    last_index_splits(gone, sent, stamp);
    last_index_bounds(sent, stamp);
    last_index_bounds(gone, stamp);
    let m = pool::last_index(sent, stamp);
    let k = pool::last_index(gone, stamp);
    if m >= 0 {
        assert(h.remove(gone.len() + m) =~= gone + sent.remove(m));
        remembers_rest(gone, sent.remove(m), now);
    } else if k >= 0 {
        let left = gone.remove(k);
        assert(h.remove(k) =~= left + sent);
        assert forall|i: int| 0 <= i < left.len() implies #[trigger] pool::expired(
            left[i],
            now,
        ) by {
            assert(pool::expired(
                gone[if i < k {
                    i
                } else {
                    i + 1
                }],
                now,
            ));
        }
        remembers_rest(left, sent, now);
    }
}

/// What one reservation does to lane `i`.
proof fn reserve_on_lane(
    p: PoolView,
    prefer: Option<usize>,
    t: Instant,
    answer: Reservation,
    q: PoolView,
    i: int,
)
    requires
        p.active <= p.lanes.len(),
        p.reserves(prefer, t, answer, q),
        0 <= i < p.lanes.len(),
    ensures
        q.lanes.len() == p.lanes.len(),
        q.active == p.active,
        q.lanes[i].key == p.lanes[i].key,
        q.lanes[i].rpm == p.lanes[i].rpm,
        q.lanes[i].cooldown_until == p.lanes[i].cooldown_until,
        answer matches Reservation::Ready { lane, .. } ==> lane < p.active && (lane == i
            ==> p.lanes[i].grantable(t) && q.lanes[i].sent == pool::pruned(
            p.lanes[i].sent,
            t,
        ).push(t)),
        !(answer matches Reservation::Ready { lane, .. } && lane == i) ==> q.lanes[i].sent
            == p.lanes[i].sent || q.lanes[i].sent == pool::pruned(p.lanes[i].sent, t),
{
    pool::pruned_again(p.lanes[i].sent, t);
}

proof fn remembers_later(sent: Seq<Instant>, h: Seq<Instant>, now: Instant, t: Instant)
    requires
        remembers(sent, h, now),
        now.nanos <= t.nanos,
    ensures
        remembers(sent, h, t),
{
    assert forall|i: int| 0 <= i < h.len() - sent.len() implies #[trigger] pool::expired(
        h[i],
        t,
    ) by {
        assert(pool::expired(h[i], now));
    }
}

/// A reservation keeps the record of every key.
proof fn reserve_keeps_balance(
    p: PoolView,
    prefer: Option<usize>,
    t: Instant,
    answer: Reservation,
    q: PoolView,
    key: Seq<char>,
    h: Seq<Instant>,
    cap: nat,
    now: Instant,
)
    requires
        balanced(p, key, h, cap, now),
        now.nanos <= t.nanos,
        p.reserves(prefer, t, answer, q),
    ensures
        balanced(q, key, spent_after(h, key, p, Step::Reserve { prefer, now: t, answer }), cap, t),
{
    let g = spent_after(h, key, p, Step::Reserve { prefer, now: t, answer });
    if p.lanes.len() > 0 {
        reserve_on_lane(p, prefer, t, answer, q, 0);
    }
    assert forall|i: int| 0 <= i < p.lanes.len() implies #[trigger] q.lanes[i].key
        == p.lanes[i].key by {
        reserve_on_lane(p, prefer, t, answer, q, i);
    }
    assert(q.lanes.len() == p.lanes.len());
    assert(distinct_keys(q)) by {
        assert forall|i: int, j: int| 0 <= i < j < q.lanes.len() implies #[trigger] q.lanes[i].key
            != #[trigger] q.lanes[j].key by {
            assert(p.lanes[i].key != p.lanes[j].key);
        }
    }
    let granted = answer matches Reservation::Ready { lane, .. } && p.lanes[lane as int].key == key;
    if granted {
        let lane = answer->lane as int;
        reserve_on_lane(p, prefer, t, answer, q, lane);
        remembers_pruned(p.lanes[lane].sent, h, now, t);
        assert(g == h.push(t));
        assert forall|n: int| 0 <= n < g.len() implies #[trigger] in_pace(g, n, cap) by {
            assert(g.take(n) =~= h.take(n));
            if n < h.len() {
                assert(in_pace(h, n, cap));
            } else {
                assert(h.take(n) =~= h);
            }
        }
        let s2 = pool::pruned(p.lanes[lane].sent, t).push(t);
        assert(s2 =~= g.skip(g.len() - s2.len()));
        assert forall|i: int| 0 <= i < g.len() - s2.len() implies #[trigger] pool::expired(
            g[i],
            t,
        ) by {
            assert(pool::expired(h[i], t));
        }
        assert(remembers(s2, g, t));
    } else {
        assert(g == h);
    }
    assert forall|i: int| 0 <= i < q.lanes.len() && #[trigger] q.lanes[i].key == key implies q.lanes[i].rpm
        <= cap && remembers(q.lanes[i].sent, g, t) by {
        reserve_on_lane(p, prefer, t, answer, q, i);
        assert(p.lanes[i].key == key);
        if granted {
            assert(i == answer->lane as int);
        } else {
            remembers_later(p.lanes[i].sent, h, now, t);
            remembers_pruned(p.lanes[i].sent, h, now, t);
        }
    }
    if forall|i: int| 0 <= i < q.lanes.len() ==> #[trigger] q.lanes[i].key != key {
        assert forall|i: int| 0 <= i < p.lanes.len() implies #[trigger] p.lanes[i].key != key by {
            assert(q.lanes[i].key != key);
        }
        if granted {
            let lane = answer->lane as int;
            reserve_on_lane(p, prefer, t, answer, q, lane);
            assert(p.lanes[lane].key != key);
        }
    }
}

/// The enabled (or disabled) specs are specs, all of them, none twice.
proof fn group_of(specs: Seq<LaneSpec>, e: bool)
    ensures
        forall|i: int|
            0 <= i < pool::with_enabled(specs, e).len() ==> (#[trigger] pool::with_enabled(
                specs,
                e,
            )[i]).enabled == e && specs.contains(pool::with_enabled(specs, e)[i]),
        forall|i: int|
            0 <= i < specs.len() && (#[trigger] specs[i]).enabled == e ==> pool::with_enabled(
                specs,
                e,
            ).contains(specs[i]),
        distinct_specs(specs) ==> distinct_specs(pool::with_enabled(specs, e)),
    decreases specs.len(),
{
    if specs.len() > 0 {
        let rest = specs.drop_last();
        group_of(rest, e);
        let g = pool::with_enabled(rest, e);
        let all = pool::with_enabled(specs, e);
        assert forall|i: int| 0 <= i < all.len() implies (#[trigger] all[i]).enabled == e
            && specs.contains(all[i]) by {
            if i < g.len() {
                assert(all[i] == g[i]);
                assert(rest.contains(g[i]));
                let k = choose|k: int| 0 <= k < rest.len() && rest[k] == g[i];
                assert(specs[k] == all[i]);
            } else {
                assert(specs[specs.len() - 1] == all[i]);
            }
        }
        assert forall|i: int| 0 <= i < specs.len() && (#[trigger] specs[i]).enabled
            == e implies all.contains(specs[i]) by {
            if i < rest.len() {
                assert(rest[i] == specs[i]);
                assert(g.contains(rest[i]));
                let k = choose|k: int| 0 <= k < g.len() && g[k] == rest[i];
                assert(all[k] == specs[i]);
            } else {
                assert(all[all.len() - 1] == specs[i]);
            }
        }
        if distinct_specs(specs) {
            assert(distinct_specs(rest)) by {
                assert forall|i: int, j: int| 0 <= i < j < rest.len() implies #[trigger] rest[i].key@
                    != #[trigger] rest[j].key@ by {
                    assert(specs[i].key@ != specs[j].key@);
                }
            }
            assert forall|i: int, j: int| 0 <= i < j < all.len() implies #[trigger] all[i].key@
                != #[trigger] all[j].key@ by {
                if j < g.len() {
                    assert(g[i].key@ != g[j].key@);
                } else {
                    assert(rest.contains(g[i]));
                    let k = choose|k: int| 0 <= k < rest.len() && rest[k] == g[i];
                    assert(specs[k].key@ != specs[specs.len() - 1].key@);
                }
            }
        }
    }
}

/// The kept lane is one of the lanes, and there is one if any lane has the key.
proof fn kept_is_a_lane(lanes: Seq<LaneView>, key: Seq<char>)
    ensures
        match pool::kept(lanes, key) {
            Some(l) => l.key == key && exists|i: int| 0 <= i < lanes.len() && #[trigger] lanes[i] == l,
            None => forall|i: int| 0 <= i < lanes.len() ==> #[trigger] lanes[i].key != key,
        },
    decreases lanes.len(),
{
    if lanes.len() > 0 {
        if lanes[0].key != key {
            let rest = lanes.drop_first();
            kept_is_a_lane(rest, key);
            match pool::kept(rest, key) {
                Some(l) => {
                    let k = choose|k: int| 0 <= k < rest.len() && #[trigger] rest[k] == l;
                    assert(lanes[k + 1] == l);
                },
                None => {
                    assert forall|i: int| 0 <= i < lanes.len() implies #[trigger] lanes[i].key
                        != key by {
                        if i > 0 {
                            assert(rest[i - 1].key != key);
                        }
                    }
                },
            }
        } else {
            assert(lanes[0] == lanes[0]);
        }
    }
}

/// The spec that lane `i` of a rebuilt pool comes from.
proof fn source_of(old_lanes: Seq<LaneView>, specs: Seq<LaneSpec>, i: int) -> (k: int)
    requires
        0 <= i < pool::assembled(old_lanes, specs).lanes.len(),
    ensures
        0 <= k < specs.len(),
        specs[k].enabled == (i < pool::assembled(old_lanes, specs).active),
        pool::assembled(old_lanes, specs).lanes[i] == pool::carried(old_lanes, specs[k]),
{
    let on = pool::with_enabled(specs, true);
    let off = pool::with_enabled(specs, false);
    group_of(specs, true);
    group_of(specs, false);
    let sp = if i < on.len() {
        on[i]
    } else {
        off[i - on.len()]
    };
    assert(specs.contains(sp));
    choose|k: int| 0 <= k < specs.len() && specs[k] == sp
}

/// The lane of a rebuilt pool that spec `k` becomes.
proof fn lane_for(old_lanes: Seq<LaneView>, specs: Seq<LaneSpec>, k: int) -> (i: int)
    requires
        0 <= k < specs.len(),
    ensures
        0 <= i < pool::assembled(old_lanes, specs).lanes.len(),
        specs[k].enabled == (i < pool::assembled(old_lanes, specs).active),
        pool::assembled(old_lanes, specs).lanes[i] == pool::carried(old_lanes, specs[k]),
{
    let on = pool::with_enabled(specs, true);
    let off = pool::with_enabled(specs, false);
    group_of(specs, true);
    group_of(specs, false);
    if specs[k].enabled {
        assert(on.contains(specs[k]));
        choose|j: int| 0 <= j < on.len() && on[j] == specs[k]
    } else {
        assert(off.contains(specs[k]));
        let j = choose|j: int| 0 <= j < off.len() && off[j] == specs[k];
        on.len() + j
    }
}

/// Specs that name no key twice become lanes that hold no key twice.
proof fn rebuilt_keys_are_distinct(old_lanes: Seq<LaneView>, specs: Seq<LaneSpec>)
    requires
        distinct_specs(specs),
    ensures
        distinct_keys(pool::assembled(old_lanes, specs)),
{
    let q = pool::assembled(old_lanes, specs);
    let on = pool::with_enabled(specs, true);
    let off = pool::with_enabled(specs, false);
    group_of(specs, true);
    group_of(specs, false);
    assert forall|i: int, j: int| 0 <= i < j < q.lanes.len() implies #[trigger] q.lanes[i].key
        != #[trigger] q.lanes[j].key by {
        if j < on.len() {
            assert(on[i].key@ != on[j].key@);
        } else if i >= on.len() {
            assert(off[i - on.len()].key@ != off[j - on.len()].key@);
        } else {
            let x = source_of(old_lanes, specs, i);
            let y = source_of(old_lanes, specs, j);
            if x < y {
                assert(specs[x].key@ != specs[y].key@);
            } else {
                assert(specs[y].key@ != specs[x].key@);
            }
        }
    }
}

/// A rebuild keeps the record of every key.
proof fn rebuild_keeps_balance(
    p: PoolView,
    specs: Seq<LaneSpec>,
    key: Seq<char>,
    h: Seq<Instant>,
    cap: nat,
    now: Instant,
)
    requires
        balanced(p, key, h, cap, now),
        distinct_specs(specs),
        within(specs, key, cap),
    ensures
        balanced(
            pool::assembled(p.lanes, specs),
            key,
            spent_after(h, key, p, Step::Rebuild { specs }),
            cap,
            now,
        ),
{
    let q = pool::assembled(p.lanes, specs);
    let g = spent_after(h, key, p, Step::Rebuild { specs });
    rebuilt_keys_are_distinct(p.lanes, specs);
    kept_is_a_lane(p.lanes, key);
    assert forall|i: int| 0 <= i < q.lanes.len() && #[trigger] q.lanes[i].key == key implies q.lanes[i].rpm
        <= cap && remembers(q.lanes[i].sent, g, now) by {
        let l = q.lanes[i];
        let k = source_of(p.lanes, specs, i);
        assert(specs[k].key@ == key);
        assert(named(specs, key));
        match pool::kept(p.lanes, key) {
            Some(prev) => {
                let j = choose|j: int| 0 <= j < p.lanes.len() && #[trigger] p.lanes[j] == prev;
                assert(p.lanes[j].key == key);
            },
            None => {
                assert(h.len() == 0);
                assert(l.sent =~= g.skip(0));
            },
        }
    }
    if named(specs, key) {
        let k = choose|k: int| 0 <= k < specs.len() && #[trigger] specs[k].key@ == key;
        let i = lane_for(p.lanes, specs, k);
        assert(q.lanes[i].key == key);
    }
}

/// Every operation keeps the pool's record of a key in step with the slots
/// that were spent on it, and spends no slot beyond the key's budget.
pub proof fn every_step_keeps_the_budget(
    p: PoolView,
    s: Step,
    q: PoolView,
    key: Seq<char>,
    h: Seq<Instant>,
    cap: nat,
    now: Instant,
)
    requires
        balanced(p, key, h, cap, now),
        steps(p, s, q),
        admissible(s, key, cap, now),
    ensures
        balanced(q, key, spent_after(h, key, p, s), cap, later(s, now)),
{
    let g = spent_after(h, key, p, s);
    let t = later(s, now);
    match s {
        Step::Reserve { prefer, now: at, answer } => {
            reserve_keeps_balance(p, prefer, at, answer, q, key, h, cap, now);
        },
        Step::Rebuild { specs } => {
            rebuild_keeps_balance(p, specs, key, h, cap, now);
        },
        Step::Release { lane, stamp } => {
            release_keeps_balance(p, lane, stamp, q, key, h, cap, now);
        },
        Step::Penalize { lane, backoff, now: at } => {
            assert forall|i: int| 0 <= i < q.lanes.len() implies #[trigger] q.lanes[i].key
                == p.lanes[i].key && q.lanes[i].rpm == p.lanes[i].rpm && q.lanes[i].sent
                == p.lanes[i].sent by {}
            assert forall|i: int|
                0 <= i < q.lanes.len() && #[trigger] q.lanes[i].key
                    == key implies q.lanes[i].rpm <= cap && remembers(q.lanes[i].sent, g, t) by {
                assert(p.lanes[i].key == key);
                remembers_later(p.lanes[i].sent, h, now, t);
            }
            if forall|i: int| 0 <= i < q.lanes.len() ==> #[trigger] q.lanes[i].key != key {
                assert forall|i: int| 0 <= i < p.lanes.len() implies #[trigger] p.lanes[i].key
                    != key by {
                    assert(q.lanes[i].key != key);
                }
            }
            assert(distinct_keys(q)) by {
                assert forall|i: int, j: int|
                    0 <= i < j < q.lanes.len() implies #[trigger] q.lanes[i].key
                    != #[trigger] q.lanes[j].key by {
                    assert(p.lanes[i].key != p.lanes[j].key);
                }
            }
        },
    }
}

/// Returning a slot keeps the record of every key.
proof fn release_keeps_balance(
    p: PoolView,
    lane: usize,
    stamp: Instant,
    q: PoolView,
    key: Seq<char>,
    h: Seq<Instant>,
    cap: nat,
    now: Instant,
)
    requires
        balanced(p, key, h, cap, now),
        steps(p, Step::Release { lane, stamp }, q),
    ensures
        balanced(q, key, spent_after(h, key, p, Step::Release { lane, stamp }), cap, now),
{
    let g = spent_after(h, key, p, Step::Release { lane, stamp });
    let mine = p.lanes[lane as int].key == key;
    assert forall|i: int| 0 <= i < q.lanes.len() implies #[trigger] q.lanes[i].key
        == p.lanes[i].key by {}
    assert(distinct_keys(q)) by {
        assert forall|i: int, j: int| 0 <= i < j < q.lanes.len() implies #[trigger] q.lanes[i].key
            != #[trigger] q.lanes[j].key by {
            assert(p.lanes[i].key != p.lanes[j].key);
        }
    }
    if mine {
        last_index_bounds(h, stamp);
        let k = pool::last_index(h, stamp);
        if k >= 0 {
            paced_without(h, k, cap);
            ordered_without(h, k, now);
        }
        remembers_released(p.lanes[lane as int].sent, h, now, stamp);
    }
    assert forall|i: int| 0 <= i < q.lanes.len() && #[trigger] q.lanes[i].key == key implies q.lanes[i].rpm
        <= cap && remembers(q.lanes[i].sent, g, now) by {
        assert(p.lanes[i].key == key);
        if mine {
            assert(i == lane);
        }
    }
    if forall|i: int| 0 <= i < q.lanes.len() ==> #[trigger] q.lanes[i].key != key {
        assert forall|i: int| 0 <= i < p.lanes.len() implies #[trigger] p.lanes[i].key != key by {
            assert(q.lanes[i].key != key);
        }
        assert(h =~= Seq::empty());
    }
}

proof fn ordered_without(h: Seq<Instant>, k: int, now: Instant)
    requires
        0 <= k < h.len(),
        ordered(h),
        past(h, now),
    ensures
        ordered(h.remove(k)),
        past(h.remove(k), now),
{
    let g = h.remove(k);
    assert forall|i: int, j: int| 0 <= i <= j < g.len() implies #[trigger] g[i].nanos
        <= #[trigger] g[j].nanos by {
        let x = if i < k {
            i
        } else {
            i + 1
        };
        let y = if j < k {
            j
        } else {
            j + 1
        };
        assert(h[x].nanos <= h[y].nanos);
    }
    assert forall|i: int| 0 <= i < g.len() implies #[trigger] g[i].nanos <= now.nanos by {
        let x = if i < k {
            i
        } else {
            i + 1
        };
        assert(h[x].nanos <= now.nanos);
    }
}

/// Well paced slots never crowd a window: no rolling window, wherever it
/// opens, holds more than `cap` of them.
pub proof fn paced_slots_fit_every_window(h: Seq<Instant>, cap: nat, t: int)
    requires
        paced(h, cap),
    ensures
        spent_within(h, t) <= cap,
    decreases h.len(),
{
    if h.len() > 0 {
        let rest = h.drop_last();
        assert forall|n: int| 0 <= n < rest.len() implies #[trigger] in_pace(rest, n, cap) by {
            assert(in_pace(h, n, cap));
            assert(rest.take(n) =~= h.take(n));
        }
        paced_slots_fit_every_window(rest, cap, t);
        if t <= h.last().nanos < t + WINDOW_NANOS {
            spent_within_counts(rest, t, h.last());
            assert(in_pace(h, h.len() - 1, cap));
            assert(h.take(h.len() - 1) =~= rest);
        }
    }
}

proof fn spent_within_counts(h: Seq<Instant>, t: int, last: Instant)
    requires
        t <= last.nanos < t + WINDOW_NANOS,
    ensures
        spent_within(h, t) <= pool::in_window(h, last),
    decreases h.len(),
{
    if h.len() > 0 {
        spent_within_counts(h.drop_last(), t, last);
    }
}

/// A run of operations from pool to pool.
pub open spec fn runs(pools: Seq<PoolView>, ss: Seq<Step>) -> bool {
    &&& pools.len() == ss.len() + 1
    &&& forall|k: int| 0 <= k < ss.len() ==> steps(pools[k], #[trigger] ss[k], pools[k + 1])
}

/// The time after the first `n` operations of a run.
pub open spec fn clock_after(ss: Seq<Step>, start: Instant, n: int) -> Instant
    decreases n,
{
    if n <= 0 {
        start
    } else {
        later(ss[n - 1], clock_after(ss, start, n - 1))
    }
}

/// The slots spent on `key` by the first `n` operations of a run.
pub open spec fn spent(pools: Seq<PoolView>, ss: Seq<Step>, key: Seq<char>, n: int) -> Seq<Instant>
    decreases n,
{
    if n <= 0 {
        Seq::empty()
    } else {
        spent_after(spent(pools, ss, key, n - 1), key, pools[n - 1], ss[n - 1])
    }
}

proof fn run_keeps_balance(
    specs: Seq<LaneSpec>,
    start: Instant,
    pools: Seq<PoolView>,
    ss: Seq<Step>,
    key: Seq<char>,
    cap: nat,
    n: int,
)
    requires
        runs(pools, ss),
        pools[0] == pool::assembled(Seq::empty(), specs),
        distinct_specs(specs),
        within(specs, key, cap),
        forall|k: int|
            0 <= k < ss.len() ==> admissible(#[trigger] ss[k], key, cap, clock_after(ss, start, k)),
        0 <= n <= ss.len(),
    ensures
        balanced(pools[n], key, spent(pools, ss, key, n), cap, clock_after(ss, start, n)),
    decreases n,
{
    if n == 0 {
        let p0 = PoolView { lanes: Seq::empty(), active: 0 };
        rebuild_keeps_balance(p0, specs, key, Seq::empty(), cap, start);
    } else {
        run_keeps_balance(specs, start, pools, ss, key, cap, n - 1);
        assert(steps(pools[n - 1], ss[n - 1], pools[n - 1 + 1]));
        every_step_keeps_the_budget(
            pools[n - 1],
            ss[n - 1],
            pools[n],
            key,
            spent(pools, ss, key, n - 1),
            cap,
            clock_after(ss, start, n - 1),
        );
    }
}

/// No rolling window ever holds more slots spent on a key than its budget,
/// whatever is reserved, returned, benched, disabled, enabled and rebuilt in
/// whatever order, as long as the clock does not run backwards and the key's
/// budget stays within `cap`.
pub proof fn no_window_is_overspent(
    specs: Seq<LaneSpec>,
    start: Instant,
    pools: Seq<PoolView>,
    ss: Seq<Step>,
    key: Seq<char>,
    cap: nat,
    n: int,
    t: int,
)
    requires
        runs(pools, ss),
        pools[0] == pool::assembled(Seq::empty(), specs),
        distinct_specs(specs),
        within(specs, key, cap),
        forall|k: int|
            0 <= k < ss.len() ==> admissible(#[trigger] ss[k], key, cap, clock_after(ss, start, k)),
        0 <= n <= ss.len(),
    ensures
        spent_within(spent(pools, ss, key, n), t) <= cap,
{
    run_keeps_balance(specs, start, pools, ss, key, cap, n);
    paced_slots_fit_every_window(spent(pools, ss, key, n), cap, t);
}

// ---------------------------------------------------------------------------
// The budget of one lane
// ---------------------------------------------------------------------------
/// The slots spent on lane `i` (granted and not returned) after the operation,
/// where `h` were spent before it.
pub open spec fn lane_spent_after(h: Seq<Instant>, i: int, s: Step) -> Seq<Instant> {
    match s {
        Step::Reserve { now, answer: Reservation::Ready { lane, .. }, .. } => if lane == i {
            h.push(now)
        } else {
            h
        },
        Step::Release { lane, stamp } => if lane == i {
            pool::released(h, stamp)
        } else {
            h
        },
        _ => h,
    }
}

/// The slots spent on lane `i` by the first `n` operations of a run.
pub open spec fn lane_spent(ss: Seq<Step>, i: int, n: int) -> Seq<Instant>
    decreases n,
{
    if n <= 0 {
        Seq::empty()
    } else {
        lane_spent_after(lane_spent(ss, i, n - 1), i, ss[n - 1])
    }
}

/// A lane's record agrees with the slots `h` that were spent on it.
pub open spec fn lane_balanced(l: LaneView, h: Seq<Instant>, now: Instant) -> bool {
    &&& ordered(h)
    &&& past(h, now)
    &&& paced(h, l.rpm as nat)
    &&& remembers(l.sent, h, now)
}

/// A grant that a lane's budget allows keeps its record.
proof fn grant_keeps_record(l: LaneView, h: Seq<Instant>, now: Instant, t: Instant)
    requires
        lane_balanced(l, h, now),
        now.nanos <= t.nanos,
        l.grantable(t),
    ensures
        lane_balanced(l.take(t), h.push(t), t),
{
    let g = h.push(t);
    remembers_pruned(l.sent, h, now, t);
    assert forall|n: int| 0 <= n < g.len() implies #[trigger] in_pace(g, n, l.rpm as nat) by {
        assert(g.take(n) =~= h.take(n));
        if n < h.len() {
            assert(in_pace(h, n, l.rpm as nat));
        } else {
            assert(h.take(n) =~= h);
        }
    }
    let s2 = l.take(t).sent;
    assert(s2 =~= g.skip(g.len() - s2.len()));
    assert forall|i: int| 0 <= i < g.len() - s2.len() implies #[trigger] pool::expired(g[i], t) by {
        assert(pool::expired(h[i], t));
    }
}

/// Every operation on a pool that is not replaced keeps a lane's record in step
/// with the slots that were spent on it, and spends none beyond its budget.
proof fn step_keeps_lane_balance(
    p: PoolView,
    s: Step,
    q: PoolView,
    i: int,
    h: Seq<Instant>,
    now: Instant,
)
    requires
        0 <= i < p.lanes.len(),
        p.active <= p.lanes.len(),
        lane_balanced(p.lanes[i], h, now),
        steps(p, s, q),
        !(s is Rebuild),
        time_of(s) matches Some(t) ==> now.nanos <= t.nanos,
    ensures
        q.lanes.len() == p.lanes.len(),
        q.active == p.active,
        q.lanes[i].rpm == p.lanes[i].rpm,
        lane_balanced(q.lanes[i], lane_spent_after(h, i, s), later(s, now)),
{
    let l = p.lanes[i];
    match s {
        Step::Reserve { prefer, now: t, answer } => {
            reserve_on_lane(p, prefer, t, answer, q, i);
            if answer matches Reservation::Ready { lane, .. } && lane == i {
                grant_keeps_record(l, h, now, t);
                assert(q.lanes[i].sent == l.take(t).sent);
            } else {
                remembers_later(l.sent, h, now, t);
                remembers_pruned(l.sent, h, now, t);
            }
        },
        Step::Release { lane, stamp } => {
            if lane == i {
                last_index_bounds(h, stamp);
                let k = pool::last_index(h, stamp);
                if k >= 0 {
                    paced_without(h, k, l.rpm as nat);
                    ordered_without(h, k, now);
                }
                remembers_released(l.sent, h, now, stamp);
            }
        },
        Step::Penalize { lane, backoff, now: t } => {
            remembers_later(l.sent, h, now, t);
        },
        Step::Rebuild { .. } => {},
    }
}

proof fn run_keeps_lane_balance(
    specs: Seq<LaneSpec>,
    start: Instant,
    pools: Seq<PoolView>,
    ss: Seq<Step>,
    i: int,
    n: int,
)
    requires
        runs(pools, ss),
        pools[0] == pool::assembled(Seq::empty(), specs),
        0 <= i < pools[0].lanes.len(),
        forall|k: int| 0 <= k < ss.len() ==> !((#[trigger] ss[k]) is Rebuild),
        forall|k: int|
            0 <= k < ss.len() ==> (time_of(#[trigger] ss[k]) matches Some(t) ==> clock_after(
                ss,
                start,
                k,
            ).nanos <= t.nanos),
        0 <= n <= ss.len(),
    ensures
        pools[n].lanes.len() == pools[0].lanes.len(),
        pools[n].active == pools[0].active,
        pools[n].lanes[i].rpm == pools[0].lanes[i].rpm,
        lane_balanced(pools[n].lanes[i], lane_spent(ss, i, n), clock_after(ss, start, n)),
    decreases n,
{
    if n == 0 {
        let _ = source_of(Seq::empty(), specs, i);
        assert(pools[0].lanes[i].sent =~= Seq::<Instant>::empty().skip(0));
    } else {
        run_keeps_lane_balance(specs, start, pools, ss, i, n - 1);
        assert(steps(pools[n - 1], ss[n - 1], pools[n - 1 + 1]));
        step_keeps_lane_balance(
            pools[n - 1],
            ss[n - 1],
            pools[n],
            i,
            lane_spent(ss, i, n - 1),
            clock_after(ss, start, n - 1),
        );
    }
}

/// Whatever the specs, and whatever is reserved, returned and benched in
/// whatever order: of the slots of a lane that were granted and not returned,
/// no rolling window, wherever it opens, holds more than the lane's budget. The
/// clock does not run backwards.
pub proof fn no_lane_is_overspent(
    specs: Seq<LaneSpec>,
    start: Instant,
    pools: Seq<PoolView>,
    ss: Seq<Step>,
    i: int,
    n: int,
    t: int,
)
    requires
        runs(pools, ss),
        pools[0] == pool::assembled(Seq::empty(), specs),
        0 <= i < pools[0].lanes.len(),
        forall|k: int| 0 <= k < ss.len() ==> !((#[trigger] ss[k]) is Rebuild),
        forall|k: int|
            0 <= k < ss.len() ==> (time_of(#[trigger] ss[k]) matches Some(at) ==> clock_after(
                ss,
                start,
                k,
            ).nanos <= at.nanos),
        0 <= n <= ss.len(),
    ensures
        spent_within(lane_spent(ss, i, n), t) <= pools[0].lanes[i].rpm,
{
    run_keeps_lane_balance(specs, start, pools, ss, i, n);
    paced_slots_fit_every_window(lane_spent(ss, i, n), pools[0].lanes[i].rpm as nat, t);
}

/// What pruning leaves begins with a timestamp that counts.
proof fn pruned_front_counts(sent: Seq<Instant>, now: Instant)
    ensures
        pool::pruned(sent, now).len() > 0 ==> !pool::expired(pool::pruned(sent, now)[0], now),
    decreases sent.len(),
{
    if sent.len() > 0 && pool::expired(sent[0], now) {
        pruned_front_counts(sent.drop_first(), now);
    }
}

/// A try at `now` takes a slot away where it is granted, and none where not.
proof fn a_try_counts(l: LaneView, now: Instant, granted: bool, m: LaneView)
    requires
        pool::tried(l, now, granted, m),
    ensures
        granted == (l.free_slots(now) > 0),
        m.free_slots(now) == if granted {
            l.free_slots(now) - 1
        } else {
            0
        },
{
    pool::pruned_again(l.sent, now);
    if granted {
        let left = pool::pruned(l.sent, now);
        pruned_front_counts(l.sent, now);
        assert(!pool::expired(left.push(now)[0], now));
        assert(pool::pruned(left.push(now), now) == left.push(now));
    }
}

/// Takers try for a slot of lane `i`, one after the other at one instant, and
/// are answered.
pub open spec fn tries(
    pools: Seq<PoolView>,
    i: int,
    now: Instant,
    sticky: Seq<bool>,
    answers: Seq<Option<Reservation>>,
) -> bool {
    &&& pools.len() == answers.len() + 1
    &&& sticky.len() == answers.len()
    &&& forall|k: int|
        0 <= k < answers.len() ==> pool::tried_on(
            pools[k],
            i,
            now,
            sticky[k],
            #[trigger] answers[k],
            pools[k + 1],
        )
}

/// How many takers got a slot.
pub open spec fn slots_got(answers: Seq<Option<Reservation>>) -> nat
    decreases answers.len(),
{
    if answers.len() == 0 {
        0
    } else {
        slots_got(answers.drop_last()) + if answers.last() is Some {
            1nat
        } else {
            0nat
        }
    }
}

/// The smaller of two numbers.
pub open spec fn fewer(a: nat, b: nat) -> nat {
    if a <= b {
        a
    } else {
        b
    }
}

proof fn tries_leave_the_rest(
    pools: Seq<PoolView>,
    i: int,
    now: Instant,
    sticky: Seq<bool>,
    answers: Seq<Option<Reservation>>,
    n: int,
)
    requires
        tries(pools, i, now, sticky, answers),
        0 <= i < pools[0].lanes.len(),
        0 <= n <= answers.len(),
    ensures
        pools[n].lanes.len() == pools[0].lanes.len(),
        pools[n].lanes[i].key == pools[0].lanes[i].key,
        pools[n].lanes[i].free_slots(now) == pools[0].lanes[i].free_slots(now) - fewer(
            n as nat,
            pools[0].lanes[i].free_slots(now),
        ),
        slots_got(answers.take(n)) == fewer(n as nat, pools[0].lanes[i].free_slots(now)),
    decreases n,
{
    if n > 0 {
        tries_leave_the_rest(pools, i, now, sticky, answers, n - 1);
        let r = answers[n - 1];
        assert(pool::tried_on(pools[n - 1], i, now, sticky[n - 1], r, pools[n - 1 + 1]));
        a_try_counts(pools[n - 1].lanes[i], now, r is Some, pools[n].lanes[i]);
        assert(answers.take(n).drop_last() =~= answers.take(n - 1));
    }
}

/// A lane is never oversubscribed. Of any number of takers that try a lane at
/// one instant exactly as many get a slot as it has free, or all of them where
/// there are fewer: the first ones get one, each with the lane's key and the
/// instant as its stamp, and the others get nothing. The free slots of a lane
/// that is not benched, its timestamps in order, are its budget less the sends
/// that still count; a lane without a budget has none.
pub proof fn takers_get_the_free_slots(
    pools: Seq<PoolView>,
    i: int,
    now: Instant,
    sticky: Seq<bool>,
    answers: Seq<Option<Reservation>>,
)
    requires
        tries(pools, i, now, sticky, answers),
        0 <= i < pools[0].lanes.len(),
    ensures
        slots_got(answers) == fewer(answers.len(), pools[0].lanes[i].free_slots(now)),
        forall|k: int|
            0 <= k < answers.len() ==> match #[trigger] answers[k] {
                Some(slot) => k < pools[0].lanes[i].free_slots(now) && pool::is_slot(
                    slot,
                    i,
                    pools[0].lanes[i].key,
                    now,
                    sticky[k],
                ),
                None => k >= pools[0].lanes[i].free_slots(now),
            },
        ordered(pools[0].lanes[i].sent) && pools[0].lanes[i].cooldown_until.nanos <= now.nanos
            ==> pools[0].lanes[i].free_slots(now) == if pool::in_window(
            pools[0].lanes[i].sent,
            now,
        ) < pools[0].lanes[i].rpm {
            pools[0].lanes[i].rpm - pool::in_window(pools[0].lanes[i].sent, now)
        } else {
            0
        },
        pools[0].lanes[i].rpm == 0 ==> pools[0].lanes[i].free_slots(now) == 0,
{
    let l = pools[0].lanes[i];
    tries_leave_the_rest(pools, i, now, sticky, answers, answers.len() as int);
    assert(answers.take(answers.len() as int) =~= answers);
    assert forall|k: int| 0 <= k < answers.len() implies match #[trigger] answers[k] {
        Some(slot) => k < l.free_slots(now) && pool::is_slot(slot, i, l.key, now, sticky[k]),
        None => k >= l.free_slots(now),
    } by {
        tries_leave_the_rest(pools, i, now, sticky, answers, k);
        assert(pool::tried_on(pools[k], i, now, sticky[k], answers[k], pools[k + 1]));
        a_try_counts(pools[k].lanes[i], now, answers[k] is Some, pools[k + 1].lanes[i]);
    }
    if ordered(l.sent) {
        pruned_counts(l.sent, now);
    }
}

// ---------------------------------------------------------------------------
// A pool in use
// ---------------------------------------------------------------------------
/// A pool and the latest instant that was read from its clock.
pub struct Used {
    pub pool: PoolView,
    pub latest: Instant,
}

/// A call of [`Pool`](crate::pool::Pool) that does the operation, by its own
/// clock, turns `p` into `q`: reserving and benching read the clock, returning
/// and rebuilding do not.
pub open spec fn called(p: Used, s: Step, q: Used) -> bool {
    &&& steps(p.pool, s, q.pool)
    &&& match time_of(s) {
        Some(now) => pool::read_after(p.latest, now) && q.latest == now,
        None => q.latest == p.latest,
    }
}

/// A run of calls, from a pool of fresh lanes on.
pub open spec fn in_use(specs: Seq<LaneSpec>, us: Seq<Used>, ss: Seq<Step>) -> bool {
    &&& us.len() == ss.len() + 1
    &&& us[0].pool == pool::assembled(Seq::empty(), specs)
    &&& forall|k: int| 0 <= k < ss.len() ==> called(us[k], #[trigger] ss[k], us[k + 1])
}

/// The pools of a run of calls.
pub open spec fn pools_of(us: Seq<Used>) -> Seq<PoolView> {
    Seq::new(us.len(), |k: int| us[k].pool)
}

proof fn use_is_a_run(specs: Seq<LaneSpec>, us: Seq<Used>, ss: Seq<Step>)
    requires
        in_use(specs, us, ss),
    ensures
        runs(pools_of(us), ss),
        forall|k: int|
            0 <= k < ss.len() ==> (time_of(#[trigger] ss[k]) matches Some(t) ==> clock_after(
                ss,
                us[0].latest,
                k,
            ).nanos <= t.nanos),
{
    assert forall|k: int| 0 <= k < ss.len() implies steps(
        pools_of(us)[k],
        #[trigger] ss[k],
        pools_of(us)[k + 1],
    ) by {
        assert(called(us[k], ss[k], us[k + 1]));
    }
    assert forall|k: int| 0 <= k < ss.len() implies (time_of(#[trigger] ss[k]) matches Some(t)
        ==> clock_after(ss, us[0].latest, k).nanos <= t.nanos) by {
        use_keeps_time(specs, us, ss, k);
        assert(called(us[k], ss[k], us[k + 1]));
    }
}

proof fn use_keeps_time(specs: Seq<LaneSpec>, us: Seq<Used>, ss: Seq<Step>, k: int)
    requires
        in_use(specs, us, ss),
        0 <= k <= ss.len(),
    ensures
        clock_after(ss, us[0].latest, k) == us[k].latest,
    decreases k,
{
    if k > 0 {
        use_keeps_time(specs, us, ss, k - 1);
        assert(called(us[k - 1], ss[k - 1], us[k - 1 + 1]));
    }
}

/// A pool in use never spends a key beyond its budget: however slots are
/// reserved and returned, lanes benched and the pool rebuilt, no rolling window,
/// wherever it opens, holds more slots spent on a key than the largest budget
/// `cap` that the key ever had. The specs name no key twice.
pub proof fn a_pool_in_use_overspends_no_key(
    specs: Seq<LaneSpec>,
    us: Seq<Used>,
    ss: Seq<Step>,
    key: Seq<char>,
    cap: nat,
    t: int,
)
    requires
        in_use(specs, us, ss),
        distinct_specs(specs),
        within(specs, key, cap),
        forall|k: int|
            0 <= k < ss.len() ==> ((#[trigger] ss[k]) matches Step::Rebuild { specs: next }
                ==> distinct_specs(next) && within(next, key, cap)),
    ensures
        spent_within(spent(pools_of(us), ss, key, ss.len() as int), t) <= cap,
{
    use_is_a_run(specs, us, ss);
    assert forall|k: int| 0 <= k < ss.len() implies admissible(
        #[trigger] ss[k],
        key,
        cap,
        clock_after(ss, us[0].latest, k),
    ) by {}
    no_window_is_overspent(
        specs,
        us[0].latest,
        pools_of(us),
        ss,
        key,
        cap,
        ss.len() as int,
        t,
    );
}

/// A pool in use never spends a lane beyond its budget, whatever its specs:
/// however slots are reserved and returned and lanes benched, of the slots of a
/// lane that were granted and not returned no rolling window, wherever it
/// opens, holds more than the lane's budget.
pub proof fn a_pool_in_use_overspends_no_lane(
    specs: Seq<LaneSpec>,
    us: Seq<Used>,
    ss: Seq<Step>,
    i: int,
    t: int,
)
    requires
        in_use(specs, us, ss),
        0 <= i < us[0].pool.lanes.len(),
        forall|k: int| 0 <= k < ss.len() ==> !((#[trigger] ss[k]) is Rebuild),
    ensures
        spent_within(lane_spent(ss, i, ss.len() as int), t) <= us[0].pool.lanes[i].rpm,
{
    use_is_a_run(specs, us, ss);
    no_lane_is_overspent(specs, us[0].latest, pools_of(us), ss, i, ss.len() as int, t);
}

/// Every lane, enabled or not, holds its timestamps in order, none of them
/// after `now`.
pub open spec fn all_orderly(p: PoolView, now: Instant) -> bool {
    &&& p.active <= p.lanes.len()
    &&& forall|i: int|
        0 <= i < p.lanes.len() ==> ordered((#[trigger] p.lanes[i]).sent) && past(
            p.lanes[i].sent,
            now,
        )
}

proof fn pruned_in_order(sent: Seq<Instant>, now: Instant, t: Instant)
    requires
        ordered(sent),
        past(sent, now),
        now.nanos <= t.nanos,
    ensures
        ordered(pool::pruned(sent, t)),
        past(pool::pruned(sent, t), t),
        ordered(pool::pruned(sent, t).push(t)),
        past(pool::pruned(sent, t).push(t), t),
{
    pruned_counts(sent, t);
    let p = pool::pruned(sent, t);
    let cut = sent.len() - p.len();
    assert forall|i: int, j: int| 0 <= i <= j < p.len() implies #[trigger] p[i].nanos
        <= #[trigger] p[j].nanos by {
        assert(p[i] == sent[cut + i] && p[j] == sent[cut + j]);
    }
    assert forall|i: int| 0 <= i < p.len() implies #[trigger] p[i].nanos <= t.nanos by {
        assert(p[i] == sent[cut + i]);
    }
}

proof fn call_keeps_order(p: Used, s: Step, q: Used)
    requires
        all_orderly(p.pool, p.latest),
        called(p, s, q),
    ensures
        all_orderly(q.pool, q.latest),
{
    match s {
        Step::Reserve { prefer, now, answer } => {
            if p.pool.lanes.len() > 0 {
                reserve_on_lane(p.pool, prefer, now, answer, q.pool, 0);
            }
            assert forall|i: int| 0 <= i < q.pool.lanes.len() implies ordered(
                (#[trigger] q.pool.lanes[i]).sent,
            ) && past(q.pool.lanes[i].sent, q.latest) by {
                reserve_on_lane(p.pool, prefer, now, answer, q.pool, i);
                pruned_in_order(p.pool.lanes[i].sent, p.latest, now);
            }
        },
        Step::Release { lane, stamp } => {
            let h = p.pool.lanes[lane as int].sent;
            last_index_bounds(h, stamp);
            if pool::last_index(h, stamp) >= 0 {
                ordered_without(h, pool::last_index(h, stamp), p.latest);
            }
        },
        Step::Penalize { .. } => {
            assert forall|i: int| 0 <= i < q.pool.lanes.len() implies ordered(
                (#[trigger] q.pool.lanes[i]).sent,
            ) && past(q.pool.lanes[i].sent, q.latest) by {
                assert(q.pool.lanes[i].sent == p.pool.lanes[i].sent);
            }
        },
        Step::Rebuild { specs } => {
            rebuilt_in_order(p.pool.lanes, specs, p.latest);
        },
    }
}

proof fn rebuilt_in_order(lanes: Seq<LaneView>, specs: Seq<LaneSpec>, now: Instant)
    requires
        forall|i: int|
            0 <= i < lanes.len() ==> ordered((#[trigger] lanes[i]).sent) && past(lanes[i].sent, now),
    ensures
        all_orderly(pool::assembled(lanes, specs), now),
{
    let q = pool::assembled(lanes, specs);
    assert forall|i: int| 0 <= i < q.lanes.len() implies ordered((#[trigger] q.lanes[i]).sent)
        && past(q.lanes[i].sent, now) by {
        let k = source_of(lanes, specs, i);
        kept_is_a_lane(lanes, specs[k].key@);
        if let Some(prev) = pool::kept(lanes, specs[k].key@) {
            let j = choose|j: int| 0 <= j < lanes.len() && #[trigger] lanes[j] == prev;
            assert(ordered(lanes[j].sent));
        }
    }
}

/// A pool in use keeps the timestamps of every lane in order, none of them after
/// the latest reading of its clock.
pub proof fn a_pool_in_use_is_orderly(specs: Seq<LaneSpec>, us: Seq<Used>, ss: Seq<Step>, n: int)
    requires
        in_use(specs, us, ss),
        0 <= n <= ss.len(),
    ensures
        all_orderly(us[n].pool, us[n].latest),
    decreases n,
{
    if n == 0 {
        rebuilt_in_order(Seq::empty(), specs, us[0].latest);
    } else {
        a_pool_in_use_is_orderly(specs, us, ss, n - 1);
        assert(called(us[n - 1], ss[n - 1], us[n - 1 + 1]));
        call_keeps_order(us[n - 1], ss[n - 1], us[n]);
    }
}

// ---------------------------------------------------------------------------
// Waiting
// ---------------------------------------------------------------------------
/// Every enabled lane holds its timestamps in order, none of them after `now`.
pub open spec fn orderly(p: PoolView, now: Instant) -> bool {
    &&& p.active <= p.lanes.len()
    &&& forall|i: int|
        0 <= i < p.active ==> ordered((#[trigger] p.lanes[i]).sent) && past(p.lanes[i].sent, now)
}

/// The soonest wait is one lane's, and no longer than any other's.
proof fn soonest_is_a_minimum(lanes: Seq<LaneView>, n: int, now: Instant)
    requires
        0 <= n <= lanes.len(),
    ensures
        match pool::soonest(lanes, n, now) {
            Some(wait) => {
                &&& wait > 0
                &&& forall|i: int|
                    0 <= i < n && (#[trigger] lanes[i]).ready_at(now) > now.nanos ==> wait
                        <= lanes[i].ready_at(now) - now.nanos
                &&& exists|i: int|
                    0 <= i < n && (#[trigger] lanes[i]).ready_at(now) == now.nanos + wait
            },
            None => forall|i: int|
                0 <= i < n ==> (#[trigger] lanes[i]).ready_at(now) <= now.nanos,
        },
    decreases n,
{
    if n > 0 {
        soonest_is_a_minimum(lanes, n - 1, now);
        let rest = pool::soonest(lanes, n - 1, now);
        let all = pool::soonest(lanes, n, now);
        if let Some(wait) = all {
            if rest == Some(wait) {
                let i = choose|i: int|
                    0 <= i < n - 1 && (#[trigger] lanes[i]).ready_at(now) == now.nanos + wait;
                assert(lanes[i].ready_at(now) == now.nanos + wait);
            } else {
                assert(lanes[n - 1].ready_at(now) == now.nanos + wait);
            }
        }
    }
}

/// In order, a lane that cannot be granted is ready only later, not before its
/// ready time, and (its budget not being zero) at its ready time.
proof fn ready_at_is_exact(l: LaneView, now: Instant, t: Instant)
    requires
        ordered(l.sent),
        past(l.sent, now),
        now.nanos <= t.nanos,
        !l.grantable(now),
    ensures
        l.ready_at(now) > now.nanos,
        t.nanos < l.ready_at(now) ==> !l.grantable(t),
        l.rpm > 0 && t.nanos >= l.ready_at(now) ==> l.grantable(t),
{
    let a = pool::pruned(l.sent, now);
    let b = pool::pruned(l.sent, t);
    pruned_counts(l.sent, now);
    pruned_counts(l.sent, t);
    let s = l.sent;
    let da = s.len() - a.len();
    let db = s.len() - b.len();
    if da < s.len() {
        assert(a[0] == s[da]);
    }
    assert(db >= da) by {
        if db < da {
            assert(pool::expired(s[db], now));
            assert(!pool::expired(s[db], t));
        }
    }
    if a.len() >= l.rpm && l.rpm > 0 {
        let k = a.len() - l.rpm;
        assert(a[k] == s[da + k]);
        assert(!pool::expired(s[da + k], now));
        if t.nanos < a[k].nanos + WINDOW_NANOS {
            assert(!pool::expired(s[da + k], t));
            assert(db <= da + k) by {
                if db > da + k {
                    assert(pool::expired(s[da + k], t));
                }
            }
        } else {
            assert(pool::expired(s[da + k], t));
            assert(db > da + k) by {
                if db <= da + k {
                    assert(!pool::expired(s[da + k], t));
                }
            }
        }
    }
}

/// A wait is as short as it can be, and as long as it has to be: no lane can be
/// granted before it is over; it ends when a lane is ready (which a lane with a
/// budget can then be granted), and no enabled lane is ready sooner. Without an
/// enabled lane it is the window.
pub proof fn a_wait_is_the_soonest(
    p: PoolView,
    prefer: Option<usize>,
    now: Instant,
    wait: Duration,
    q: PoolView,
    t: Instant,
)
    requires
        orderly(p, now),
        p.reserves(prefer, now, Reservation::Wait(wait), q),
        now.nanos <= t.nanos,
    ensures
        wait.nanos > 0,
        t.nanos < now.nanos + wait.nanos ==> !pool::some_grantable(p.lanes, p.active as int, t),
        forall|i: int|
            0 <= i < p.active ==> (#[trigger] p.lanes[i]).ready_at(now) >= now.nanos + wait.nanos,
        p.active > 0 ==> exists|i: int|
            0 <= i < p.active && (#[trigger] p.lanes[i]).ready_at(now) == now.nanos + wait.nanos,
        p.active == 0 ==> wait.nanos == WINDOW_NANOS,
        t.nanos == now.nanos + wait.nanos ==> forall|i: int|
            0 <= i < p.active && (#[trigger] p.lanes[i]).rpm > 0 && p.lanes[i].ready_at(now)
                == t.nanos ==> p.lanes[i].grantable(t),
{
    let n = p.active as int;
    soonest_is_a_minimum(p.lanes, n, now);
    assert forall|i: int| 0 <= i < n implies (#[trigger] p.lanes[i]).ready_at(now) > now.nanos && (
    t.nanos < p.lanes[i].ready_at(now) ==> !p.lanes[i].grantable(t)) && (p.lanes[i].rpm > 0
        && t.nanos >= p.lanes[i].ready_at(now) ==> p.lanes[i].grantable(t)) by {
        assert(!p.lanes[i].grantable(now));
        ready_at_is_exact(p.lanes[i], now, t);
    }
    if n > 0 {
        assert(p.lanes[0].ready_at(now) > now.nanos);
    }
    if t.nanos < now.nanos + wait.nanos {
        assert forall|i: int| 0 <= i < n implies !#[trigger] p.lanes[i].grantable(t) by {
            assert(p.lanes[i].ready_at(now) > now.nanos);
        }
    }
}

/// Waiting it out is enough: where every enabled lane has a budget, some lane
/// can be granted at the end of a wait.
pub proof fn a_wait_is_worth_it(
    p: PoolView,
    prefer: Option<usize>,
    now: Instant,
    wait: Duration,
    q: PoolView,
    t: Instant,
)
    requires
        orderly(p, now),
        p.reserves(prefer, now, Reservation::Wait(wait), q),
        t.nanos == now.nanos + wait.nanos,
        p.active > 0,
        forall|i: int| 0 <= i < p.active ==> (#[trigger] p.lanes[i]).rpm > 0,
    ensures
        pool::some_grantable(p.lanes, p.active as int, t),
{
    a_wait_is_the_soonest(p, prefer, now, wait, q, t);
    let i = choose|i: int|
        0 <= i < p.active && (#[trigger] p.lanes[i]).ready_at(now) == now.nanos + wait.nanos;
    assert(p.lanes[i].grantable(t));
}

/// A slot is granted exactly when some enabled lane has one, and only on an
/// enabled lane that has one.
pub proof fn a_slot_is_granted_when_there_is_one(
    p: PoolView,
    prefer: Option<usize>,
    now: Instant,
    answer: Reservation,
    q: PoolView,
)
    requires
        p.active <= p.lanes.len(),
        p.reserves(prefer, now, answer, q),
    ensures
        (answer is Ready) == pool::some_grantable(p.lanes, p.active as int, now),
        answer is Ready ==> answer->lane < p.active && p.lanes[answer->lane as int].grantable(now),
{
    if p.sticky_hit(prefer, now) {
        assert(p.lanes[answer->lane as int].grantable(now));
    }
}

// ---------------------------------------------------------------------------
// Returning, benching and rebuilding
// ---------------------------------------------------------------------------
/// Returning a slot right after it was reserved leaves the lane as if it had
/// never been taken, but for timestamps that had expired anyway.
pub proof fn a_returned_slot_was_never_taken(
    p: PoolView,
    prefer: Option<usize>,
    now: Instant,
    answer: Reservation,
    q: PoolView,
    after: PoolView,
)
    requires
        p.active <= p.lanes.len(),
        p.reserves(prefer, now, answer, q),
        answer is Ready,
        steps(q, Step::Release { lane: answer->lane, stamp: answer->stamp }, after),
    ensures
        after.lanes[answer->lane as int] == p.lanes[answer->lane as int].prune(now),
        after.lanes[answer->lane as int].grantable(now),
{
    let i = answer->lane as int;
    reserve_on_lane(p, prefer, now, answer, q, i);
    let left = pool::pruned(p.lanes[i].sent, now);
    pool::pruned_again(p.lanes[i].sent, now);
    assert(q.lanes[i].sent == left.push(now));
    assert(left.push(now).last() == now);
    assert(left.push(now).remove(left.len() as int) =~= left);
}

/// A bench ends at the later of the end of the one that was running and the end
/// that was asked for: no sooner, and no later. Until then the lane is not
/// granted, and from then on it is whenever it has budget left.
pub proof fn a_bench_is_served(p: PoolView, lane: usize, backoff: Duration, now: Instant, q: PoolView)
    requires
        steps(p, Step::Penalize { lane, backoff, now }, q),
        now.nanos + backoff.nanos <= u128::MAX,
    ensures
        q.lanes[lane as int].cooldown_until.nanos >= p.lanes[lane as int].cooldown_until.nanos,
        q.lanes[lane as int].cooldown_until.nanos >= now.nanos + backoff.nanos,
        q.lanes[lane as int].cooldown_until.nanos == p.lanes[lane as int].cooldown_until.nanos
            || q.lanes[lane as int].cooldown_until.nanos == now.nanos + backoff.nanos,
        q.lanes[lane as int].sent == p.lanes[lane as int].sent,
        q.lanes[lane as int].rpm == p.lanes[lane as int].rpm,
        q.lanes[lane as int].key == p.lanes[lane as int].key,
        forall|t: Instant|
            t.nanos < now.nanos + backoff.nanos || t.nanos
                < p.lanes[lane as int].cooldown_until.nanos
                ==> !#[trigger] q.lanes[lane as int].grantable(t),
        forall|t: Instant|
            t.nanos >= now.nanos + backoff.nanos && t.nanos
                >= p.lanes[lane as int].cooldown_until.nanos && p.lanes[lane as int].load(t)
                < p.lanes[lane as int].rpm ==> #[trigger] q.lanes[lane as int].grantable(t),
        forall|i: int| 0 <= i < p.lanes.len() && i != lane ==> #[trigger] q.lanes[i] == p.lanes[i],
{
}

/// A lane benched for at least the window comes back with an empty window: by
/// then every earlier send has expired.
pub proof fn a_long_bench_empties_the_window(l: LaneView, benched: Instant, t: Instant)
    requires
        ordered(l.sent),
        past(l.sent, benched),
        t.nanos >= benched.nanos + WINDOW_NANOS,
    ensures
        l.load(t) == 0,
{
    pruned_counts(l.sent, t);
    assert forall|i: int| 0 <= i < l.sent.len() implies #[trigger] pool::expired(l.sent[i], t) by {}
    in_window_of_expired(l.sent, t);
}

/// A rebuild keeps the window and the bench of every key that it names and
/// takes the budget from the new spec; a key it does not name is gone, and a
/// key the pool did not hold starts fresh.
pub proof fn a_rebuild_carries_kept_keys(p: PoolView, specs: Seq<LaneSpec>, i: int)
    requires
        0 <= i < pool::assembled(p.lanes, specs).lanes.len(),
    ensures
        ({
            let l = pool::assembled(p.lanes, specs).lanes[i];
            &&& named(specs, l.key)
            &&& match pool::kept(p.lanes, l.key) {
                Some(prev) => l.sent == prev.sent && l.cooldown_until == prev.cooldown_until,
                None => l.sent.len() == 0 && l.cooldown_until.nanos == 0,
            }
        }),
{
    let k = source_of(p.lanes, specs, i);
    assert(specs[k].key@ == pool::assembled(p.lanes, specs).lanes[i].key);
}

/// Every spec of a rebuild has its lane (`i`), with the spec's budget: among
/// the enabled lanes exactly when the spec is enabled.
pub proof fn a_rebuild_has_a_lane_for_every_spec(
    p: PoolView,
    specs: Seq<LaneSpec>,
    k: int,
) -> (i: int)
    requires
        0 <= k < specs.len(),
    ensures
        0 <= i < pool::assembled(p.lanes, specs).lanes.len(),
        (i < pool::assembled(p.lanes, specs).active) == specs[k].enabled,
        pool::assembled(p.lanes, specs).lanes[i].key == specs[k].key@,
        pool::assembled(p.lanes, specs).lanes[i].rpm == specs[k].rpm,
{
    lane_for(p.lanes, specs, k)
}

/// The lane that a pool of distinct keys keeps for a key is the lane that
/// holds it.
proof fn kept_of_distinct(p: PoolView, i: int)
    requires
        distinct_keys(p),
        0 <= i < p.lanes.len(),
    ensures
        pool::kept(p.lanes, p.lanes[i].key) == Some(p.lanes[i]),
{
    kept_is_a_lane(p.lanes, p.lanes[i].key);
    assert(p.lanes[i].key == p.lanes[i].key);
    let l = pool::kept(p.lanes, p.lanes[i].key)->0;
    let j = choose|j: int| 0 <= j < p.lanes.len() && #[trigger] p.lanes[j] == l;
    assert(p.lanes[j].key == p.lanes[i].key);
}

/// Disabling a key and enabling it again does not refresh it: over any two
/// rebuilds that both name a key, its window and its bench are those it had.
pub proof fn a_disabled_key_comes_back_warm(
    p: PoolView,
    first: Seq<LaneSpec>,
    second: Seq<LaneSpec>,
    a: int,
    b: int,
)
    requires
        distinct_keys(p),
        distinct_specs(first),
        0 <= a < p.lanes.len(),
        named(first, p.lanes[a].key),
        0 <= b < pool::assembled(
            pool::assembled(p.lanes, first).lanes,
            second,
        ).lanes.len(),
        pool::assembled(pool::assembled(p.lanes, first).lanes, second).lanes[b].key
            == p.lanes[a].key,
    ensures
        pool::assembled(pool::assembled(p.lanes, first).lanes, second).lanes[b].sent
            == p.lanes[a].sent,
        pool::assembled(
            pool::assembled(p.lanes, first).lanes,
            second,
        ).lanes[b].cooldown_until == p.lanes[a].cooldown_until,
{
    let key = p.lanes[a].key;
    let q = pool::assembled(p.lanes, first);
    let r = pool::assembled(q.lanes, second);
    kept_of_distinct(p, a);
    rebuilt_keys_are_distinct(p.lanes, first);
    let k = choose|k: int| 0 <= k < first.len() && #[trigger] first[k].key@ == key;
    let i = lane_for(p.lanes, first, k);
    kept_of_distinct(q, i);
    let _ = source_of(q.lanes, second, b);
}

// ---------------------------------------------------------------------------
// What a caller can rely on
// ---------------------------------------------------------------------------
/// The requests sent in the 61 seconds up to `t`.
pub open spec fn recent(sent: Seq<Instant>, t: Instant) -> nat {
    sent.filter(|s: Instant| t.nanos - s.nanos < 61_000_000_000).len()
}

/// The lane is not benched at `t`, and fewer requests than its budget were sent
/// on it in the 61 seconds before.
pub open spec fn free(l: LaneView, t: Instant) -> bool {
    l.cooldown_until.nanos <= t.nanos && recent(l.sent, t) < l.rpm
}

proof fn recent_counts(sent: Seq<Instant>, t: Instant)
    ensures
        recent(sent, t) == pool::in_window(sent, t),
    decreases sent.len(),
{
    reveal(Seq::filter);
    if sent.len() > 0 {
        recent_counts(sent.drop_last(), t);
    }
}

proof fn free_is_grantable(l: LaneView, t: Instant)
    requires
        ordered(l.sent),
    ensures
        free(l, t) == l.grantable(t),
        recent(l.sent, t) == l.load(t),
{
    recent_counts(l.sent, t);
    pruned_counts(l.sent, t);
}

/// The lane afterwards is the lane before, but for old timestamps, which count
/// no more, and for `now` where a slot was taken.
pub open spec fn sends_on(before: LaneView, now: Instant, taken: bool, after: LaneView) -> bool {
    &&& after.key == before.key
    &&& after.rpm == before.rpm
    &&& after.cooldown_until == before.cooldown_until
    &&& exists|d: int| #[trigger] drops(before.sent, d, now) && after.sent == if taken {
        before.sent.skip(d).push(now)
    } else {
        before.sent.skip(d)
    }
}

/// The first `d` timestamps are at least 61 seconds old.
pub open spec fn drops(sent: Seq<Instant>, d: int, now: Instant) -> bool {
    &&& 0 <= d <= sent.len()
    &&& forall|k: int| 0 <= k < d ==> now.nanos - (#[trigger] sent[k]).nanos >= 61_000_000_000
}

proof fn sends_on_pruned(l: LaneView, now: Instant)
    requires
        ordered(l.sent),
    ensures
        sends_on(l, now, false, l),
        sends_on(l, now, false, l.prune(now)),
        sends_on(l, now, true, l.take(now)),
        sends_on(l, now, true, l.prune(now).take(now)),
{
    pruned_counts(l.sent, now);
    pool::pruned_again(l.sent, now);
    let d = l.sent.len() - pool::pruned(l.sent, now).len();
    assert forall|k: int| 0 <= k < d implies now.nanos - (#[trigger] l.sent[k]).nanos
        >= 61_000_000_000 by {
        assert(pool::expired(l.sent[k], now));
    }
    assert(drops(l.sent, d, now));
    assert(drops(l.sent, 0, now));
    assert(l.sent.skip(0) =~= l.sent);
}

/// A slot of a lane is given exactly when the lane is free, and is spent at once;
/// no other lane changes.
pub proof fn a_lane_gives_what_it_has(
    pool: &mut Pool,
    i: usize,
    now: Instant,
    sticky: bool,
    r: Option<Reservation>,
    j: int,
)
    requires
        call_ensures(Pool::try_take, (pool, i, now, sticky), r),
        i < old(pool)@.lanes.len(),
        0 <= j < old(pool)@.lanes.len(),
        ordered(old(pool)@.lanes[i as int].sent),
    ensures
        r is Some <==> free(old(pool)@.lanes[i as int], now),
        r is Some ==> (r matches Some(Reservation::Ready { lane, key, stamp, sticky: s }) && lane
            == i && key@ == old(pool)@.lanes[i as int].key && stamp == now && s == sticky),
        sends_on(
            old(pool)@.lanes[i as int],
            now,
            r is Some,
            final(pool)@.lanes[i as int],
        ),
        j != i ==> final(pool)@.lanes[j] == old(pool)@.lanes[j],
        final(pool)@.lanes.len() == old(pool)@.lanes.len(),
        final(pool)@.active == old(pool)@.active,
        final(pool).latest() == old(pool).latest(),
        final(pool).clock() == old(pool).clock(),
{
    free_is_grantable(old(pool)@.lanes[i as int], now);
    sends_on_pruned(old(pool)@.lanes[i as int], now);
}

/// Who gets a slot: the preferred lane while it is free; else, of the free lanes,
/// the one on which the fewest requests were sent lately, the first of several.
/// The slot carries that lane's key and the moment, and is spent on that lane and
/// on no other. Where no enabled lane is free there is a wait.
pub proof fn a_reservation_is_fair(
    pool: &mut Pool,
    prefer: Option<usize>,
    now: Instant,
    r: Reservation,
    j: int,
)
    requires
        call_ensures(Pool::reserve_at, (pool, prefer, now), r),
        orderly(old(pool)@, now),
        0 <= j < old(pool)@.lanes.len(),
    ensures
        final(pool)@.lanes.len() == old(pool)@.lanes.len(),
        final(pool)@.active == old(pool)@.active,
        match r {
            Reservation::Ready { lane, key, stamp, sticky } => {
                &&& lane < old(pool)@.active
                &&& free(old(pool)@.lanes[lane as int], now)
                &&& key@ == old(pool)@.lanes[lane as int].key
                &&& stamp == now
                &&& sticky <==> (prefer matches Some(p) && p < old(pool)@.active && free(
                    old(pool)@.lanes[p as int],
                    now,
                ))
                &&& sticky ==> prefer == Some(lane)
                &&& !sticky && j < old(pool)@.active && free(old(pool)@.lanes[j], now) ==> {
                    ||| recent(old(pool)@.lanes[lane as int].sent, now) < recent(
                        old(pool)@.lanes[j].sent,
                        now,
                    )
                    ||| recent(old(pool)@.lanes[lane as int].sent, now) == recent(
                        old(pool)@.lanes[j].sent,
                        now,
                    ) && lane <= j
                }
                &&& j < old(pool)@.active ==> sends_on(
                    old(pool)@.lanes[j],
                    now,
                    j == lane,
                    final(pool)@.lanes[j],
                )
            },
            Reservation::Wait(wait) => {
                &&& j < old(pool)@.active ==> !free(old(pool)@.lanes[j], now) && sends_on(
                    old(pool)@.lanes[j],
                    now,
                    false,
                    final(pool)@.lanes[j],
                )
                &&& wait.nanos > 0
            },
        },
        j >= old(pool)@.active ==> final(pool)@.lanes[j] == old(pool)@.lanes[j],
        final(pool).latest() == old(pool).latest(),
        final(pool).clock() == old(pool).clock(),
{
    let p = old(pool)@;
    let q = final(pool)@;
    assert forall|k: int| 0 <= k < p.active implies #[trigger] p.lanes[k].grantable(now) == free(
        p.lanes[k],
        now,
    ) && recent(p.lanes[k].sent, now) == p.lanes[k].load(now) by {
        free_is_grantable(p.lanes[k], now);
    }
    a_slot_is_granted_when_there_is_one(p, prefer, now, r, q);
    if j < p.active {
        sends_on_pruned(p.lanes[j], now);
        assert(p.lanes[j].grantable(now) == free(p.lanes[j], now));
    }
    if let Reservation::Wait(wait) = r {
        soonest_is_a_minimum(p.lanes, p.active as int, now);
    }
    if let Some(k) = prefer {
        if k < p.active {
            assert(p.lanes[k as int].grantable(now) == free(p.lanes[k as int], now));
        }
    }
}

/// A wait is as long as it has to be and no longer: until it is over no enabled
/// lane is free, whatever happens to be asked; and where every enabled lane has a
/// budget, one is free when it is over. Without an enabled lane it takes 61
/// seconds.
pub proof fn a_wait_ends_when_a_lane_is_free(
    pool: &mut Pool,
    prefer: Option<usize>,
    now: Instant,
    wait: Duration,
    t: Instant,
    j: int,
)
    requires
        call_ensures(Pool::reserve_at, (pool, prefer, now), Reservation::Wait(wait)),
        orderly(old(pool)@, now),
        now.nanos <= t.nanos,
    ensures
        0 <= j < old(pool)@.active && t.nanos < now.nanos + wait.nanos ==> !free(
            old(pool)@.lanes[j],
            t,
        ),
        t.nanos == now.nanos + wait.nanos && old(pool)@.active > 0 && (forall|i: int|
            0 <= i < old(pool)@.active ==> (#[trigger] old(pool)@.lanes[i]).rpm > 0) ==> exists|
            i: int,
        |
            0 <= i < old(pool)@.active && #[trigger] free(old(pool)@.lanes[i], t),
        old(pool)@.active == 0 ==> wait.nanos == 61_000_000_000,
{
    let p = old(pool)@;
    let q = final(pool)@;
    a_wait_is_the_soonest(p, prefer, now, wait, q, t);
    if 0 <= j < p.active {
        free_is_grantable(p.lanes[j], t);
        assert(p.lanes[j].grantable(t) == free(p.lanes[j], t));
    }
    if t.nanos == now.nanos + wait.nanos && p.active > 0 && (forall|i: int|
        0 <= i < p.active ==> (#[trigger] p.lanes[i]).rpm > 0) {
        a_wait_is_worth_it(p, prefer, now, wait, q, t);
        let i = choose|i: int| 0 <= i < p.active && #[trigger] p.lanes[i].grantable(t);
        free_is_grantable(p.lanes[i], t);
        assert(free(p.lanes[i], t));
    }
}

/// A lane that is benched comes back at the later of the end of the bench that it
/// was serving and the end of the new one: two benches are never added up. Before
/// that it gives no slot, and from then on it does whenever it has budget left.
/// Nothing else of the pool changes.
pub proof fn a_bench_ends_at_the_later_end(
    pool: &mut Pool,
    lane: usize,
    backoff: Duration,
    now: Instant,
    then: &mut Pool,
    t: Instant,
    sticky: bool,
    r: Option<Reservation>,
    j: int,
)
    requires
        call_ensures(Pool::penalize_at, (pool, lane, backoff, now), ()),
        call_ensures(Pool::try_take, (then, lane, t, sticky), r),
        *final(pool) == *old(then),
        lane < old(pool)@.lanes.len(),
        ordered(old(pool)@.lanes[lane as int].sent),
        0 <= j < old(pool)@.lanes.len(),
    ensures
        ({
            let before = old(pool)@.lanes[lane as int];
            let after = final(pool)@.lanes[lane as int];
            let asked = now.nanos + backoff.nanos;
            let running = before.cooldown_until.nanos;
            &&& asked >= running ==> after.cooldown_until.nanos == asked
            &&& asked <= running ==> after.cooldown_until.nanos == running
            &&& r is Some <==> t.nanos >= asked && t.nanos >= running && recent(before.sent, t)
                < before.rpm
            &&& after.key == before.key && after.rpm == before.rpm && after.sent == before.sent
        }),
        j != lane ==> final(pool)@.lanes[j] == old(pool)@.lanes[j],
        final(pool)@.lanes.len() == old(pool)@.lanes.len(),
        final(pool)@.active == old(pool)@.active,
        final(pool).latest() == old(pool).latest(),
        final(pool).clock() == old(pool).clock(),
{
    free_is_grantable(final(pool)@.lanes[lane as int], t);
}

/// A lane that is benched now is benched from the moment that the pool's clock is
/// read, which is never before a moment that it was read at already.
pub proof fn a_bench_starts_now(pool: &mut Pool, lane: usize, backoff: Duration, j: int)
    requires
        call_ensures(Pool::penalize, (pool, lane, backoff), ()),
        lane < old(pool)@.lanes.len(),
        backoff.nanos <= MAX_SPAN_NANOS,
        0 <= j < old(pool)@.lanes.len(),
    ensures
        ({
            let before = old(pool)@.lanes[lane as int];
            let after = final(pool)@.lanes[lane as int];
            let asked = final(pool).latest().nanos + backoff.nanos;
            let running = before.cooldown_until.nanos;
            &&& asked >= running ==> after.cooldown_until.nanos == asked
            &&& asked <= running ==> after.cooldown_until.nanos == running
            &&& after.key == before.key && after.rpm == before.rpm && after.sent == before.sent
        }),
        j != lane ==> final(pool)@.lanes[j] == old(pool)@.lanes[j],
        final(pool)@.active == old(pool)@.active,
        final(pool).latest().nanos >= old(pool).latest().nanos,
        final(pool).clock() == old(pool).clock(),
{
}

/// A slot that is reserved now is one that is reserved at the moment the pool's
/// clock is read: the stamp is that moment.
pub proof fn a_slot_is_stamped_now(
    pool: &mut Pool,
    prefer: Option<usize>,
    r: Reservation,
    twin: &mut Pool,
    s: Reservation,
)
    requires
        call_ensures(Pool::reserve, (pool, prefer), r),
        call_ensures(Pool::reserve_at, (twin, prefer, final(pool).latest()), s),
        old(twin)@ == old(pool)@,
    ensures
        r is Ready <==> s is Ready,
        r is Ready ==> r->stamp == final(pool).latest() && r->sticky == s->sticky && r->lane
            == s->lane && r->key@ == s->key@,
        r is Wait ==> r == s,
        final(pool)@ == final(twin)@,
        final(pool).latest().nanos >= old(pool).latest().nanos,
        final(pool).clock() == old(pool).clock(),
{
}

proof fn last_of(sent: Seq<Instant>, stamp: Instant)
    ensures
        -1 <= pool::last_index(sent, stamp) < sent.len(),
        pool::last_index(sent, stamp) >= 0 ==> sent[pool::last_index(sent, stamp)] == stamp,
        forall|k: int|
            pool::last_index(sent, stamp) < k < sent.len() ==> #[trigger] sent[k] != stamp,
    decreases sent.len(),
{
    if sent.len() > 0 && sent.last() != stamp {
        last_of(sent.drop_last(), stamp);
        assert forall|k: int|
            pool::last_index(sent, stamp) < k < sent.len() implies #[trigger] sent[k] != stamp by {
            if k < sent.len() - 1 {
                assert(sent.drop_last()[k] == sent[k]);
            }
        }
    }
}

/// A slot that is returned is taken back exactly once: of the sends with its
/// stamp the latest is forgotten and every other one stays, in order; a stamp that
/// the lane does not hold changes nothing. No other lane changes.
pub proof fn one_slot_is_returned(pool: &mut Pool, lane: usize, stamp: Instant, j: int) -> (k: int)
    requires
        call_ensures(Pool::release, (pool, lane, stamp), ()),
        lane < old(pool)@.lanes.len(),
        0 <= j < old(pool)@.lanes.len(),
    ensures
        ({
            let before = old(pool)@.lanes[lane as int];
            let after = final(pool)@.lanes[lane as int];
            &&& before.sent.contains(stamp) ==> 0 <= k < before.sent.len() && before.sent[k] == stamp
                && after.sent == before.sent.remove(k) && !before.sent.skip(k + 1).contains(stamp)
            &&& !before.sent.contains(stamp) ==> after.sent == before.sent
            &&& after.key == before.key && after.rpm == before.rpm && after.cooldown_until
                == before.cooldown_until
        }),
        j != lane ==> final(pool)@.lanes[j] == old(pool)@.lanes[j],
        final(pool)@.lanes.len() == old(pool)@.lanes.len(),
        final(pool)@.active == old(pool)@.active,
        final(pool).latest() == old(pool).latest(),
        final(pool).clock() == old(pool).clock(),
{
    let sent = old(pool)@.lanes[lane as int].sent;
    last_of(sent, stamp);
    let k = pool::last_index(sent, stamp);
    if sent.contains(stamp) {
        let c = choose|c: int| 0 <= c < sent.len() && sent[c] == stamp;
        assert(k >= c);
        assert(!sent.skip(k + 1).contains(stamp)) by {
            assert forall|x: int| 0 <= x < sent.skip(k + 1).len() implies #[trigger] sent.skip(
                k + 1,
            )[x] != stamp by {
                assert(sent[k + 1 + x] != stamp);
            }
        }
    }
    k
}

/// How many of some specs are enabled (or not).
pub open spec fn how_many(specs: Seq<LaneSpec>, enabled: bool) -> nat {
    specs.filter(|s: LaneSpec| s.enabled == enabled).len()
}

proof fn group_is_in_order(specs: Seq<LaneSpec>, e: bool)
    ensures
        pool::with_enabled(specs, e) == specs.filter(|s: LaneSpec| s.enabled == e),
        forall|k: int|
            0 <= k < specs.len() && (#[trigger] specs[k]).enabled == e ==> how_many(
                specs.take(k),
                e,
            ) < pool::with_enabled(specs, e).len() && pool::with_enabled(specs, e)[how_many(
                specs.take(k),
                e,
            ) as int] == specs[k],
    decreases specs.len(),
{
    reveal(Seq::filter);
    if specs.len() > 0 {
        let rest = specs.drop_last();
        group_is_in_order(rest, e);
        let all = pool::with_enabled(specs, e);
        let part = pool::with_enabled(rest, e);
        assert forall|k: int|
            0 <= k < specs.len() && (#[trigger] specs[k]).enabled == e implies how_many(
            specs.take(k),
            e,
        ) < all.len() && all[how_many(specs.take(k), e) as int] == specs[k] by {
            if k < rest.len() {
                assert(rest.take(k) =~= specs.take(k));
                assert(rest[k] == specs[k]);
                assert(part[how_many(rest.take(k), e) as int] == rest[k]);
            } else {
                assert(specs.take(k) =~= rest);
            }
        }
    }
}

/// The first lane with a key is the one whose rate state is kept.
proof fn kept_is_the_first(lanes: Seq<LaneView>, key: Seq<char>, i: int)
    requires
        0 <= i < lanes.len(),
        lanes[i].key == key,
        forall|j: int| 0 <= j < i ==> (#[trigger] lanes[j]).key != key,
    ensures
        pool::kept(lanes, key) == Some(lanes[i]),
    decreases lanes.len(),
{
    if i > 0 {
        assert(lanes[0].key != key);
        let rest = lanes.drop_first();
        assert forall|j: int| 0 <= j < i - 1 implies (#[trigger] rest[j]).key != key by {
            assert(lanes[j + 1].key != key);
        }
        kept_is_the_first(rest, key, i - 1);
    }
}

/// Where the spec with index `k` finds its lane: the enabled ones come first, and
/// in each group the order is that of the specs.
pub open spec fn place_of(specs: Seq<LaneSpec>, k: int) -> int {
    if specs[k].enabled {
        how_many(specs.take(k), true) as int
    } else {
        how_many(specs, true) as int + how_many(specs.take(k), false)
    }
}

/// A rebuilt pool has one lane for each spec, enabled ones first and in order,
/// with the key and the budget of the spec. A key that the pool held before goes
/// on with what was sent and with its bench (those of the first lane that held
/// it); one that it did not hold starts with nothing sent and no bench. The clock
/// goes on.
pub proof fn a_rebuild_is_laid_out(
    pool: &Pool,
    specs: Vec<LaneSpec>,
    r: Pool,
    k: int,
    i: int,
)
    requires
        call_ensures(Pool::rebuild, (pool, specs), r),
        0 <= k < specs@.len(),
    ensures
        r@.lanes.len() == specs@.len(),
        r@.active == how_many(specs@, true),
        0 <= place_of(specs@, k) < r@.lanes.len(),
        r@.lanes[place_of(specs@, k)].key == specs@[k].key@,
        r@.lanes[place_of(specs@, k)].rpm == specs@[k].rpm,
        0 <= i < pool@.lanes.len() && pool@.lanes[i].key == specs@[k].key@ && (forall|j: int|
            0 <= j < i ==> (#[trigger] pool@.lanes[j]).key != specs@[k].key@)
            ==> r@.lanes[place_of(specs@, k)].sent == pool@.lanes[i].sent && r@.lanes[place_of(
            specs@,
            k,
        )].cooldown_until == pool@.lanes[i].cooldown_until,
        (forall|j: int|
            0 <= j < pool@.lanes.len() ==> (#[trigger] pool@.lanes[j]).key != specs@[k].key@)
            ==> r@.lanes[place_of(specs@, k)].sent.len() == 0 && r@.lanes[place_of(
            specs@,
            k,
        )].cooldown_until.nanos == 0,
        r.latest() == pool.latest(),
        r.clock() == pool.clock(),
{
    laid_out(pool@.lanes, specs@, k);
    if 0 <= i < pool@.lanes.len() && pool@.lanes[i].key == specs@[k].key@ && (forall|j: int|
        0 <= j < i ==> (#[trigger] pool@.lanes[j]).key != specs@[k].key@) {
        kept_is_the_first(pool@.lanes, specs@[k].key@, i);
    }
    kept_is_a_lane(pool@.lanes, specs@[k].key@);
}

proof fn halves(specs: Seq<LaneSpec>)
    ensures
        how_many(specs, true) + how_many(specs, false) == specs.len(),
    decreases specs.len(),
{
    reveal(Seq::filter);
    if specs.len() > 0 {
        halves(specs.drop_last());
    }
}

proof fn laid_out(old_lanes: Seq<LaneView>, specs: Seq<LaneSpec>, k: int)
    requires
        0 <= k < specs.len(),
    ensures
        pool::assembled(old_lanes, specs).lanes.len() == specs.len(),
        pool::assembled(old_lanes, specs).active == how_many(specs, true),
        0 <= place_of(specs, k) < specs.len(),
        pool::assembled(old_lanes, specs).lanes[place_of(specs, k)] == pool::carried(
            old_lanes,
            specs[k],
        ),
{
    group_is_in_order(specs, true);
    group_is_in_order(specs, false);
    halves(specs);
    assert(specs[k] == specs[k]);
    let on = pool::with_enabled(specs, true);
    let off = pool::with_enabled(specs, false);
    assert((on + off)[place_of(specs, k)] == specs[k]);
}

/// A new pool has one lane for each spec, enabled ones first and in order, each
/// with its key and its budget, nothing sent and no bench.
pub proof fn a_new_pool_is_laid_out(specs: Vec<LaneSpec>, r: Pool, k: int)
    requires
        call_ensures(Pool::new, (specs,), r),
        0 <= k < specs@.len(),
    ensures
        r@.lanes.len() == specs@.len(),
        r@.active == how_many(specs@, true),
        0 <= place_of(specs@, k) < r@.lanes.len(),
        r@.lanes[place_of(specs@, k)].key == specs@[k].key@,
        r@.lanes[place_of(specs@, k)].rpm == specs@[k].rpm,
        r@.lanes[place_of(specs@, k)].sent.len() == 0,
        r@.lanes[place_of(specs@, k)].cooldown_until.nanos == 0,
{
    laid_out(Seq::empty(), specs@, k);
}

proof fn total_is_the_sum(lanes: Seq<LaneView>, n: int)
    requires
        0 <= n <= lanes.len(),
    ensures
        pool::rpm_total(lanes, n) == lanes.take(n).map_values(|l: LaneView| l.rpm as int).fold_left(
            0int,
            |a: int, b: int| a + b,
        ),
    decreases n,
{
    if n > 0 {
        total_is_the_sum(lanes, n - 1);
        let s = lanes.take(n).map_values(|l: LaneView| l.rpm as int);
        assert(s.drop_last() =~= lanes.take(n - 1).map_values(|l: LaneView| l.rpm as int));
    }
}

/// What is said of a pool as a whole counts the enabled lanes and no carrier: how
/// many they are, their budgets in order, and the sum of these.
pub proof fn only_enabled_lanes_are_counted(
    pool: &Pool,
    n: usize,
    total: usize,
    budgets: Vec<usize>,
    i: int,
)
    requires
        call_ensures(Pool::len, (pool,), n),
        call_ensures(Pool::capacity_rpm, (pool,), total),
        call_ensures(Pool::rpms, (pool,), budgets),
        pool@.active <= pool@.lanes.len(),
    ensures
        n == pool@.active,
        budgets@.len() == n,
        0 <= i < n ==> budgets@[i] == pool@.lanes[i].rpm,
        total == pool@.lanes.take(n as int).map_values(|l: LaneView| l.rpm as int).fold_left(
            0int,
            |a: int, b: int| a + b,
        ),
{
    total_is_the_sum(pool@.lanes, pool@.active as int);
}

/// What is said of each enabled lane: its key and its budget, how many requests
/// were sent on it in the last 61 seconds, and for how many whole milliseconds it
/// is still benched (none where it is not).
pub proof fn a_lane_is_told_as_it_stands(pool: &Pool, now: Instant, stats: Vec<LaneStat>, i: int)
    requires
        call_ensures(Pool::lane_stats_at, (pool, now), stats),
        0 <= i < pool@.active,
    ensures
        stats@.len() == pool@.active,
        stats@[i].key@ == pool@.lanes[i].key,
        stats@[i].rpm == pool@.lanes[i].rpm,
        stats@[i].in_window == recent(pool@.lanes[i].sent, now),
        pool@.lanes[i].cooldown_until.nanos <= now.nanos ==> stats@[i].cooldown_ms == 0,
        now.nanos < pool@.lanes[i].cooldown_until.nanos && pool@.lanes[i].cooldown_until.nanos
            - now.nanos < 18_446_744_073_709_551_616_000_000 ==> stats@[i].cooldown_ms * 1_000_000
            <= pool@.lanes[i].cooldown_until.nanos - now.nanos && pool@.lanes[i].cooldown_until.nanos
            - now.nanos < (stats@[i].cooldown_ms + 1) * 1_000_000,
{
    recent_counts(pool@.lanes[i].sent, now);
    assert(pool::stat_of(pool@.lanes[i], now, stats@[i]));
}

/// A rebuilt pool has as many lanes as there are specs, and as many enabled ones as
/// there are enabled specs.
pub proof fn a_rebuilt_pool_has_every_lane(old_lanes: Seq<LaneView>, specs: Seq<LaneSpec>)
    ensures
        pool::assembled(old_lanes, specs).lanes.len() == specs.len(),
        pool::assembled(old_lanes, specs).active == how_many(specs, true),
{
    group_is_in_order(specs, true);
    group_is_in_order(specs, false);
    halves(specs);
}

/// When a lane without a budget counts as ready, though it never gives a slot: the
/// window from now, or when its bench ends if that is later.
pub open spec fn empty_ready(l: LaneView, now: Instant) -> int {
    if l.cooldown_until.nanos > now.nanos + 61_000_000_000 {
        l.cooldown_until.nanos as int
    } else {
        now.nanos + 61_000_000_000
    }
}

/// A wait ends with the first lane to be ready: no enabled lane with a budget is free
/// before it is over, and it is not longer than the window (or a longer bench) for an
/// enabled lane without one; and when it is over, one lane is ready that made it so.
pub proof fn a_wait_is_for_the_first_lane(
    pool: &mut Pool,
    prefer: Option<usize>,
    now: Instant,
    wait: Duration,
    end: Instant,
    j: int,
) -> (i: int)
    requires
        call_ensures(Pool::reserve_at, (pool, prefer, now), Reservation::Wait(wait)),
        orderly(old(pool)@, now),
        old(pool)@.active > 0,
        end.nanos == now.nanos + wait.nanos,
        0 <= j < old(pool)@.active,
    ensures
        0 <= i < old(pool)@.active,
        old(pool)@.lanes[i].rpm > 0 ==> free(old(pool)@.lanes[i], end),
        old(pool)@.lanes[i].rpm == 0 ==> end.nanos == empty_ready(old(pool)@.lanes[i], now),
        old(pool)@.lanes[j].rpm == 0 ==> end.nanos <= empty_ready(old(pool)@.lanes[j], now),
{
    let p = old(pool)@;
    a_wait_is_the_soonest(p, prefer, now, wait, final(pool)@, end);
    let i = choose|i: int|
        0 <= i < p.active && (#[trigger] p.lanes[i]).ready_at(now) == now.nanos + wait.nanos;
    free_is_grantable(p.lanes[i], end);
    assert(p.lanes[j].ready_at(now) >= now.nanos + wait.nanos);
    i
}

/// What is told of the lanes now is what they are at some moment from the pool's
/// latest reading on: one entry for each enabled lane, in order, with its key and its
/// budget, and no more sends than it remembers.
pub proof fn lanes_are_told_as_they_stand_now(
    pool: &Pool,
    stats: Vec<LaneStat>,
    i: int,
) -> (now: Instant)
    requires
        call_ensures(Pool::lane_stats, (pool,), stats),
        0 <= i < pool@.active,
    ensures
        now.nanos >= pool.latest().nanos,
        stats@.len() == pool@.active,
        stats@[i].key@ == pool@.lanes[i].key,
        stats@[i].rpm == pool@.lanes[i].rpm,
        stats@[i].in_window == recent(pool@.lanes[i].sent, now),
        pool@.lanes[i].cooldown_until.nanos <= pool.latest().nanos ==> stats@[i].cooldown_ms == 0,
{
    let now = choose|now: Instant| #[trigger]
        pool::stats_of(pool@, now, stats@) && pool::read_after(pool.latest(), now);
    recent_counts(pool@.lanes[i].sent, now);
    assert(pool::stat_of(pool@.lanes[i], now, stats@[i]));
    now
}

} // verus!
