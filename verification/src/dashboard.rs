//! What the dashboard asks for: a window of time, and how the pool stands.
use vstd::prelude::*;

use crate::answers::{Refusal, RefusalView};
use crate::pool::Pool;
use crate::store::{Mode, StoredConfig};

verus! {

/// Seconds in a day.
pub const DAY_SECS: u128 = 86_400;

/// How many points a window is shown with unless asked otherwise.
pub const DEFAULT_POINTS: usize = 288;

/// The fewest points.
pub const MIN_POINTS: usize = 2;

/// The most points.
pub const MAX_POINTS: usize = 1000;

/// The window that is asked for, in seconds of Unix time.
#[derive(Clone, Copy)]
pub struct DashboardQuery {
    pub from: Option<u64>,
    pub to: Option<u64>,
    pub points: Option<usize>,
}

/// A window.
#[derive(Clone, Copy)]
pub struct Window {
    pub requested_from: u64,
    pub requested_to: u64,
    /// The window ends now, whenever that is.
    pub following_now: bool,
    pub points: usize,
}

/// Where a window opens: where asked, or the default number of days ago, but
/// never before the start of time.
pub open spec fn window_from(q: DashboardQuery, now: u64, days: u64) -> int {
    match q.from {
        Some(from) => from as int,
        None => if now >= days * DAY_SECS {
            now - days * DAY_SECS
        } else {
            0
        },
    }
}

/// Where a window ends: where asked, or now.
pub open spec fn window_to(q: DashboardQuery, now: u64) -> int {
    match q.to {
        Some(to) => to as int,
        None => now as int,
    }
}

/// With how many points a window is shown.
pub open spec fn window_points(q: DashboardQuery) -> usize {
    match q.points {
        Some(n) => if n < MIN_POINTS {
            MIN_POINTS
        } else if n > MAX_POINTS {
            MAX_POINTS
        } else {
            n
        },
        None => DEFAULT_POINTS,
    }
}

/// The window that is shown, or a refusal of one that ends before it opens.
pub fn api_dashboard(query: DashboardQuery, now: u64, default_window_days: u64) -> (r: Result<
    Window,
    Refusal,
>)
    ensures
        ({
            let from = window_from(query, now, default_window_days);
            let to = window_to(query, now);
            if from >= to {
                r matches Err(y) && y@ == (RefusalView {
                    status: 400,
                    code: "invalid_time_window"@,
                    message: "from must be less than to"@,
                }) && y.header is None
            } else {
                r matches Ok(w) && w.requested_from == from && w.requested_to == to
                    && w.following_now == (query.to is None) && w.points == window_points(query)
            }
        }),
{
    let requested_from: u64 = match query.from {
        Some(from) => from,
        None => {
            let back: u128 = default_window_days as u128 * DAY_SECS;
            if now as u128 >= back {
                (now as u128 - back) as u64
            } else {
                0
            }
        },
    };
    let requested_to: u64 = match query.to {
        Some(to) => to,
        None => now,
    };
    if requested_from >= requested_to {
        return Err(Refusal::new(400, "invalid_time_window", "from must be less than to"));
    }
    let asked: usize = match query.points {
        Some(n) => n,
        None => DEFAULT_POINTS,
    };
    let points: usize = if asked < MIN_POINTS {
        MIN_POINTS
    } else if asked > MAX_POINTS {
        MAX_POINTS
    } else {
        asked
    };
    Ok(Window { requested_from, requested_to, following_now: query.to.is_none(), points })
}

/// How the pool stands, for the record.
pub struct CapacitySnapshot {
    pub enabled_lanes: usize,
    pub rpms: Vec<usize>,
    pub capacity_rpm: usize,
}

/// How the pool stands: its enabled lanes, their budgets, and the sum of them.
pub fn capacity_snapshot(pool: &Pool) -> (r: CapacitySnapshot)
    requires
        pool.wf(),
        pool@.capacity() <= usize::MAX,
    ensures
        r.enabled_lanes == pool@.active,
        r.rpms@ == Seq::new(pool@.active, |i: int| pool@.lanes[i].rpm),
        r.capacity_rpm == pool@.capacity(),
{
    CapacitySnapshot {
        enabled_lanes: pool.len(),
        rpms: pool.rpms(),
        capacity_rpm: pool.capacity_rpm(),
    }
}

/// What the dashboard shows of the configuration at any moment.
pub struct NowPage {
    /// Clients need a key.
    pub auth: bool,
    pub capacity: CapacitySnapshot,
    pub default_window_days: u64,
    pub retention_days: u64,
    pub config_revision: u64,
}

/// What the dashboard shows of the configuration now.
pub fn api_dashboard_now(sc: &StoredConfig, pool: &Pool, config_revision: u64) -> (r: NowPage)
    requires
        pool.wf(),
        pool@.capacity() <= usize::MAX,
    ensures
        r.auth == (sc@.mode == Mode::Keyed),
        r.capacity.enabled_lanes == pool@.active,
        r.capacity.rpms@ == Seq::new(pool@.active, |i: int| pool@.lanes[i].rpm),
        r.capacity.capacity_rpm == pool@.capacity(),
        r.default_window_days == sc@.default_window_days,
        r.retention_days == sc@.history_days,
        r.config_revision == config_revision,
{
    NowPage {
        auth: sc.client_auth.mode == Mode::Keyed,
        capacity: capacity_snapshot(pool),
        default_window_days: sc.default_window_days,
        retention_days: sc.history_days,
        config_revision,
    }
}

/// A window that is shown opens before it ends and has a sane number of points;
/// and one that is not asked to end anywhere ends now.
pub proof fn a_window_is_sane(q: DashboardQuery, now: u64, days: u64)
    ensures
        MIN_POINTS <= window_points(q) <= MAX_POINTS,
        q.to is None ==> window_to(q, now) == now,
        q.from is None ==> 0 <= window_from(q, now, days) <= now,
        q.from is None && q.to is None && days > 0 && now > 0 ==> window_from(q, now, days)
            < window_to(q, now),
{
    assert(days > 0 ==> days * DAY_SECS > 0) by (nonlinear_arith);
    assert(days * DAY_SECS >= 0) by (nonlinear_arith);
}

/// The window that is shown: it opens where asked, or else the default number of
/// days before now, and not before the start of time; it ends where asked, or else
/// now, which it then follows; and it is shown with as many points as asked, at least
/// 2 and at most 1000, or else with 288. A window that ends before it opens, or as
/// it does, is refused.
pub proof fn a_window_is_the_one_asked_for(
    query: DashboardQuery,
    now: u64,
    days: u64,
    r: Result<Window, Refusal>,
)
    requires
        call_ensures(api_dashboard, (query, now, days), r),
    ensures
        r matches Ok(w) ==> {
            &&& w.requested_from < w.requested_to
            &&& query.from matches Some(from) ==> w.requested_from == from
            &&& query.from is None ==> {
                &&& days * 86_400 <= now ==> w.requested_from == now - days * 86_400
                &&& days * 86_400 > now ==> w.requested_from == 0
            }
            &&& query.to matches Some(to) ==> w.requested_to == to && !w.following_now
            &&& query.to is None ==> w.requested_to == now && w.following_now
            &&& query.points is None ==> w.points == 288
            &&& query.points matches Some(n) ==> (2 <= n <= 1000 ==> w.points == n) && (n < 2
                ==> w.points == 2) && (n > 1000 ==> w.points == 1000)
        },
        r matches Err(x) ==> x.status == 400 && x.code@ == "invalid_time_window"@ && x.message@
            == "from must be less than to"@ && x.header is None,
        query.from matches Some(from) ==> (query.to matches Some(to) ==> (r is Ok <==> from < to)),
        query.from matches Some(from) ==> (query.to is None ==> (r is Ok <==> from < now)),
        query.from is None ==> (query.to matches Some(to) ==> (r is Ok <==> to > 0 && now - days
            * 86_400 < to)),
        query.from is None && query.to is None ==> (r is Ok <==> days > 0 && now > 0),
{
    assert(days > 0 ==> days * 86_400 > 0) by (nonlinear_arith);
    assert(days * DAY_SECS == days * 86_400);
}

/// What the dashboard shows of the pool and of the configuration is what they are:
/// the enabled lanes and their budgets, whether clients need a key, the days that are
/// shown and kept, and the revision.
pub proof fn the_dashboard_shows_what_is(
    sc: &StoredConfig,
    pool: &Pool,
    revision: u64,
    page: NowPage,
    snapshot: CapacitySnapshot,
    n: usize,
    total: usize,
    budgets: Vec<usize>,
)
    requires
        call_ensures(api_dashboard_now, (sc, pool, revision), page),
        call_ensures(capacity_snapshot, (pool,), snapshot),
        call_ensures(Pool::len, (pool,), n),
        call_ensures(Pool::capacity_rpm, (pool,), total),
        call_ensures(Pool::rpms, (pool,), budgets),
    ensures
        snapshot.enabled_lanes == n,
        snapshot.capacity_rpm == total,
        snapshot.rpms@ == budgets@,
        page.capacity.enabled_lanes == n,
        page.capacity.capacity_rpm == total,
        page.capacity.rpms@ == budgets@,
        page.auth <==> sc.client_auth.mode == Mode::Keyed,
        page.default_window_days == sc.default_window_days,
        page.retention_days == sc.history_days,
        page.config_revision == revision,
{
}

} // verus!
