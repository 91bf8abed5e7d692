use nim_proxy::pool::{LaneSpec, Pool, Reservation, WINDOW_NANOS};
use nim_proxy::time::{Duration, Instant};

fn spec(key: &str, rpm: usize, enabled: bool) -> LaneSpec {
    LaneSpec {
        key: key.into(),
        rpm,
        enabled,
    }
}

fn keys(n: usize, rpm: usize) -> Vec<LaneSpec> {
    (0..n)
        .map(|i| spec(&format!("key{i}"), rpm, true))
        .collect()
}

fn take(pool: &mut Pool, prefer: Option<usize>) -> usize {
    match pool.reserve(prefer) {
        Reservation::Ready { lane, .. } => lane,
        Reservation::Wait(_) => panic!("expected Ready"),
    }
}

#[test]
fn spreads_load_across_lanes_then_waits() {
    let mut pool = Pool::new(keys(2, 1));
    assert_eq!(take(&mut pool, None), 0);
    assert_eq!(take(&mut pool, None), 1);
    match pool.reserve(None) {
        Reservation::Wait(w) => {
            assert!(w > Duration::from_secs(55) && w <= Duration::from_nanos(WINDOW_NANOS))
        }
        _ => panic!("expected Wait"),
    }
}

#[test]
fn burst_lands_on_least_loaded_lane() {
    let mut pool = Pool::new(keys(3, 10));
    let mut per_lane = [0usize; 3];
    for _ in 0..9 {
        per_lane[take(&mut pool, None)] += 1;
    }
    assert_eq!(per_lane, [3, 3, 3]);
}

#[test]
fn per_lane_rpm_budgets_are_honored() {
    let mut pool = Pool::new(vec![spec("small", 1, true), spec("big", 3, true)]);
    let mut per_lane = [0usize; 2];
    for _ in 0..4 {
        per_lane[take(&mut pool, None)] += 1;
    }
    assert_eq!(per_lane, [1, 3]);
    assert!(matches!(pool.reserve(None), Reservation::Wait(_)));
    assert_eq!(pool.capacity_rpm(), 4);
    assert_eq!(pool.rpms(), vec![1, 3]);
}

#[test]
fn sticky_lane_wins_until_full_then_spills_over() {
    let mut pool = Pool::new(keys(2, 2));
    assert_eq!(take(&mut pool, Some(1)), 1);
    assert_eq!(take(&mut pool, Some(1)), 1);
    assert_eq!(take(&mut pool, Some(1)), 0);
}

#[test]
fn sticky_flag_reports_affinity_outcome() {
    let mut pool = Pool::new(keys(2, 1));
    match pool.reserve(Some(0)) {
        Reservation::Ready {
            lane: 0,
            sticky: true,
            ..
        } => {}
        _ => panic!("expected sticky hit on lane 0"),
    }
    match pool.reserve(Some(0)) {
        Reservation::Ready {
            lane: 1,
            sticky: false,
            ..
        } => {}
        _ => panic!("expected spill to lane 1"),
    }
}

#[test]
fn out_of_range_prefer_is_ignored() {
    let mut pool = Pool::new(keys(1, 2));
    assert_eq!(take(&mut pool, Some(7)), 0);
}

#[test]
fn released_slot_becomes_available_again() {
    let mut pool = Pool::new(keys(1, 1));
    let Reservation::Ready { lane, stamp, .. } = pool.reserve(None) else {
        panic!("expected Ready");
    };
    assert!(matches!(pool.reserve(None), Reservation::Wait(_)));
    pool.release(lane, stamp);
    assert!(matches!(pool.reserve(None), Reservation::Ready { .. }));
}

#[test]
fn penalized_lane_is_skipped() {
    let mut pool = Pool::new(keys(2, 10));
    pool.penalize(0, Duration::from_secs(30));
    match pool.reserve(None) {
        Reservation::Ready { lane, key, .. } => {
            assert_eq!(lane, 1);
            assert_eq!(key, "key1");
        }
        _ => panic!("expected Ready on lane 1"),
    }
}

#[test]
fn all_lanes_penalized_reports_soonest_recovery() {
    let mut pool = Pool::new(keys(2, 10));
    pool.penalize(0, Duration::from_secs(30));
    pool.penalize(1, Duration::from_secs(5));
    match pool.reserve(None) {
        Reservation::Wait(w) => assert!(w <= Duration::from_secs(5)),
        _ => panic!("expected Wait"),
    }
}

#[test]
fn rebuild_carries_window_state_for_kept_keys() {
    let mut pool = Pool::new(keys(1, 1));
    take(&mut pool, None);
    let mut rebuilt = pool.rebuild(keys(1, 1));
    assert!(matches!(rebuilt.reserve(None), Reservation::Wait(_)));
}

#[test]
fn rebuild_carries_cooldown_for_kept_keys() {
    let mut pool = Pool::new(keys(2, 10));
    pool.penalize(0, Duration::from_secs(30));
    let mut rebuilt = pool.rebuild(keys(2, 10));
    assert_eq!(take(&mut rebuilt, Some(0)), 1, "benched lane stays benched");
}

#[test]
fn rebuild_new_key_starts_fresh_and_removed_key_is_gone() {
    let mut pool = Pool::new(vec![spec("old", 1, true)]);
    take(&mut pool, None);
    let mut rebuilt = pool.rebuild(vec![spec("new", 1, true)]);
    assert_eq!(rebuilt.len(), 1);
    match rebuilt.reserve(None) {
        Reservation::Ready { key, .. } => assert_eq!(key, "new"),
        _ => panic!("fresh key should be ready"),
    }
}

#[test]
fn disabled_lanes_are_carriers_never_granted_never_counted() {
    let mut pool = Pool::new(vec![spec("on", 2, true), spec("off", 40, false)]);
    assert_eq!(pool.len(), 1);
    assert_eq!(pool.capacity_rpm(), 2);
    assert_eq!(pool.rpms(), vec![2]);
    assert_eq!(pool.lane_stats().len(), 1);
    for _ in 0..2 {
        match pool.reserve(None) {
            Reservation::Ready { key, .. } => assert_eq!(key, "on"),
            _ => panic!("enabled lane should grant"),
        }
    }
    assert!(matches!(pool.reserve(None), Reservation::Wait(_)));
}

#[test]
fn disable_enable_cycle_cannot_double_spend_the_window() {
    let mut pool = Pool::new(vec![spec("k", 1, true)]);
    take(&mut pool, None);
    let mut disabled = pool.rebuild(vec![spec("k", 1, false)]);
    assert!(matches!(disabled.reserve(None), Reservation::Wait(_)));
    let mut re_enabled = disabled.rebuild(vec![spec("k", 1, true)]);
    assert!(
        matches!(re_enabled.reserve(None), Reservation::Wait(_)),
        "the pre-disable send must still count against the window"
    );
}

#[test]
fn rebuild_honors_lowered_and_raised_rpm() {
    let mut pool = Pool::new(keys(1, 2));
    take(&mut pool, None);
    take(&mut pool, None);
    let mut lowered = pool.rebuild(keys(1, 1));
    assert!(matches!(lowered.reserve(None), Reservation::Wait(_)));
    let mut raised = pool.rebuild(keys(1, 3));
    assert!(matches!(raised.reserve(None), Reservation::Ready { .. }));
}

// ---------------------------------------------------------------------------
// On a clock of the test's own
// ---------------------------------------------------------------------------

fn at(secs: u64) -> Instant {
    Instant {
        nanos: secs as u128 * 1_000_000_000,
    }
}

#[test]
fn no_window_holds_more_than_the_budget() {
    let mut pool = Pool::new(keys(1, 3));
    let mut granted: Vec<u64> = Vec::new();
    for t in 0..400 {
        if let Reservation::Ready { stamp, .. } = pool.reserve_at(None, at(t)) {
            assert_eq!(stamp, at(t));
            granted.push(t);
        }
    }
    assert_eq!(granted[..6], [0, 1, 2, 61, 62, 63]);
    for open in 0..400u64 {
        let held = granted.iter().filter(|t| **t >= open && **t < open + 61).count();
        assert!(held <= 3, "window at {open} holds {held}");
    }
}

#[test]
fn a_wait_is_exact_and_ends_in_a_grant() {
    let mut pool = Pool::new(keys(2, 1));
    assert!(matches!(pool.reserve_at(None, at(100)), Reservation::Ready { lane: 0, .. }));
    assert!(matches!(pool.reserve_at(None, at(110)), Reservation::Ready { lane: 1, .. }));
    match pool.reserve_at(None, at(120)) {
        Reservation::Wait(w) => assert_eq!(w, Duration::from_secs(41)),
        _ => panic!("both lanes are spent"),
    }
    assert!(matches!(pool.reserve_at(None, at(160)), Reservation::Wait(_)));
    assert!(matches!(pool.reserve_at(None, at(161)), Reservation::Ready { lane: 0, .. }));
}

#[test]
fn a_lane_without_budget_waits_the_whole_window() {
    let mut pool = Pool::new(keys(1, 0));
    match pool.reserve_at(Some(0), at(5)) {
        Reservation::Wait(w) => assert_eq!(w, Duration::from_nanos(WINDOW_NANOS)),
        _ => panic!("no budget, no grant"),
    }
}

#[test]
fn an_empty_pool_waits_the_whole_window() {
    let mut pool = Pool::new(Vec::new());
    assert_eq!(pool.len(), 0);
    assert_eq!(pool.capacity_rpm(), 0);
    match pool.reserve_at(Some(0), at(1)) {
        Reservation::Wait(w) => assert_eq!(w, Duration::from_secs(61)),
        _ => panic!("nothing to grant"),
    }
}

#[test]
fn the_preferred_lane_wins_over_a_less_loaded_one() {
    let mut pool = Pool::new(keys(2, 5));
    for _ in 0..3 {
        assert!(matches!(
            pool.reserve_at(Some(1), at(1)),
            Reservation::Ready { lane: 1, sticky: true, .. }
        ));
    }
    assert!(matches!(
        pool.reserve_at(None, at(1)),
        Reservation::Ready { lane: 0, sticky: false, .. }
    ));
}

#[test]
fn a_bench_is_never_shortened() {
    let mut pool = Pool::new(keys(1, 5));
    pool.penalize_at(0, Duration::from_secs(30), at(0));
    pool.penalize_at(0, Duration::from_secs(5), at(1));
    match pool.reserve_at(None, at(10)) {
        Reservation::Wait(w) => assert_eq!(w, Duration::from_secs(20)),
        _ => panic!("still benched"),
    }
    assert!(matches!(pool.reserve_at(None, at(30)), Reservation::Ready { .. }));
}

#[test]
fn lane_stats_show_load_and_bench() {
    let mut pool = Pool::new(keys(2, 5));
    let _ = pool.reserve_at(Some(0), at(0));
    let _ = pool.reserve_at(Some(0), at(50));
    pool.penalize_at(1, Duration::from_millis(2500), at(50));
    let stats = pool.lane_stats_at(at(51));
    assert_eq!(stats.len(), 2);
    assert_eq!((stats[0].key.as_str(), stats[0].rpm), ("key0", 5));
    assert_eq!((stats[0].in_window, stats[0].cooldown_ms), (2, 0));
    assert_eq!((stats[1].in_window, stats[1].cooldown_ms), (0, 1500));
    assert_eq!(pool.lane_stats_at(at(61))[0].in_window, 1);
}

#[test]
fn releasing_takes_back_the_latest_equal_stamp_only() {
    let mut pool = Pool::new(keys(1, 2));
    let _ = pool.reserve_at(None, at(7));
    let _ = pool.reserve_at(None, at(7));
    pool.release(0, at(7));
    assert_eq!(pool.lane_stats_at(at(8))[0].in_window, 1);
    pool.release(0, at(6));
    assert_eq!(pool.lane_stats_at(at(8))[0].in_window, 1);
}

#[test]
fn rebuilding_puts_enabled_lanes_first_in_their_order() {
    let pool = Pool::new(vec![
        spec("a", 1, false),
        spec("b", 2, true),
        spec("c", 3, false),
        spec("d", 4, true),
    ]);
    assert_eq!(pool.rpms(), vec![2, 4]);
    let again = pool.rebuild(vec![spec("d", 9, true), spec("b", 8, true)]);
    assert_eq!(again.rpms(), vec![9, 8]);
}
