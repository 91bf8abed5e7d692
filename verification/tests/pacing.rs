use nim_proxy::backoff::{
    backoff_for, connect_backoff, exponential_backoff, lane_backoff, retry_hint, retryable,
    RateLimitCounts,
};
use nim_proxy::pool::{LaneSpec, Pool, Reservation, WINDOW_NANOS};
use nim_proxy::retry::{bench, connect_failed, penalty, Penalty};
use nim_proxy::time::{Clock, Duration, Instant};
use nim_proxy::waiting::{
    is_gated, parse_request_deadline, wait_deadline, GateAsk, GateEvent, GateWait, QueueAsk,
    QueueWait,
};

fn secs(n: u64) -> Duration {
    Duration::from_secs(n)
}

fn at(secs: u64) -> Instant {
    Instant {
        nanos: secs as u128 * 1_000_000_000,
    }
}

#[test]
fn durations_count_whole_units() {
    assert_eq!(Duration::from_millis(1999).as_secs(), 1);
    assert_eq!(Duration::from_millis(1999).as_millis(), 1999);
    assert_eq!(at(5).saturating_duration_since(at(2)), secs(3));
    assert_eq!(at(2).saturating_duration_since(at(5)), secs(0));
    assert_eq!(secs(4).longer(secs(9)), secs(9));
    assert!(Instant { nanos: u128::MAX }.checked_add(Duration::from_nanos(1)).is_none());
    assert_eq!(at(1).checked_add(secs(2)), Some(at(3)));
}

#[test]
fn a_clock_runs_forward() {
    let clock = Clock::start();
    let a = clock.now();
    let b = clock.now();
    assert!(a <= b);
    assert!(b < at(3600));
}

#[test]
fn doubling_starts_at_a_minute_and_stops_at_ten() {
    let got: Vec<Duration> = (0..7).map(exponential_backoff).collect();
    let want: Vec<Duration> = [60, 120, 240, 480, 600, 600, 600].map(secs).to_vec();
    assert_eq!(got, want);
    assert_eq!(exponential_backoff(u32::MAX), secs(600));
}

#[test]
fn a_rate_limit_bench_covers_the_window() {
    assert_eq!(lane_backoff(0, None), secs(63));
    assert_eq!(lane_backoff(1, None), secs(120));
    assert_eq!(lane_backoff(0, Some(secs(90))), secs(90));
    assert_eq!(lane_backoff(4, Some(secs(90))), secs(600));
    assert!(lane_backoff(0, Some(secs(0))) > Duration::from_nanos(WINDOW_NANOS));
}

#[test]
fn retry_after_is_read_as_seconds() {
    assert_eq!(backoff_for(Some("7")), secs(7));
    assert_eq!(backoff_for(Some("+7")), secs(7));
    assert_eq!(backoff_for(Some("soon")), secs(60));
    assert_eq!(backoff_for(Some("")), secs(60));
    assert_eq!(backoff_for(Some("18446744073709551616")), secs(60));
    assert_eq!(backoff_for(None), secs(60));
    assert_eq!(retry_hint(secs(60)), None);
    assert_eq!(retry_hint(secs(61)), Some(secs(61)));
}

#[test]
fn transient_statuses_are_worth_waiting_out() {
    for s in [429, 500, 502, 503, 504] {
        assert!(retryable(s));
    }
    for s in [200, 400, 401, 404, 428, 501, 505] {
        assert!(!retryable(s));
    }
    assert_eq!(connect_backoff(), secs(5));
}

#[test]
fn counts_grow_per_key_and_start_over_on_success() {
    let mut counts = RateLimitCounts::new();
    assert_eq!(counts.bench_on_429("a", None), secs(63));
    assert_eq!(counts.bench_on_429("a", None), secs(120));
    assert_eq!(counts.bench_on_429("b", None), secs(63));
    assert_eq!((counts.count("a"), counts.count("b"), counts.count("c")), (2, 1, 0));
    counts.reset_429_count("a");
    assert_eq!(counts.bench_on_429("a", None), secs(63));
    assert_eq!(counts.count("b"), 1);
}

fn lane_penalty(p: Penalty) -> (usize, String, Duration) {
    match p {
        Penalty::Lane { lane, label, backoff } => (lane, label, backoff),
        Penalty::Model => panic!("the model was to be spared"),
    }
}

#[test]
fn the_right_party_pays() {
    let mut counts = RateLimitCounts::new();
    assert!(matches!(
        penalty(&mut counts, 3, "k", 429, &None, true),
        Penalty::Model
    ));
    assert_eq!(counts.count("k"), 0);
    let p = lane_penalty(penalty(&mut counts, 3, "k", 429, &Some("200".into()), false));
    assert_eq!(p, (3, "429".to_owned(), secs(200)));
    assert_eq!(counts.count("k"), 1);
    let p = lane_penalty(penalty(&mut counts, 3, "k", 503, &Some("200".into()), false));
    assert_eq!(p, (3, "503".to_owned(), secs(5)));
    assert_eq!(counts.count("k"), 1);
    assert_eq!(lane_penalty(connect_failed(1)), (1, "connect".to_owned(), secs(5)));
}

#[test]
fn a_penalty_benches_its_lane_only() {
    let spec = |key: &str| LaneSpec {
        key: key.into(),
        rpm: 5,
        enabled: true,
    };
    let mut pool = Pool::new(vec![spec("a"), spec("b")]);
    bench(&mut pool, &connect_failed(0));
    bench(&mut pool, &Penalty::Model);
    let stats = pool.lane_stats();
    assert!(stats[0].cooldown_ms > 4000 && stats[0].cooldown_ms <= 5000);
    assert_eq!(stats[1].cooldown_ms, 0);
    assert!(matches!(pool.reserve(Some(0)), Reservation::Ready { lane: 1, .. }));
}

#[test]
fn a_rate_limited_lane_is_back_with_an_empty_window() {
    let mut pool = Pool::new(vec![LaneSpec {
        key: "k".into(),
        rpm: 2,
        enabled: true,
    }]);
    let _ = pool.reserve_at(None, at(9));
    let _ = pool.reserve_at(None, at(10));
    pool.penalize_at(0, lane_backoff(0, None), at(10));
    assert!(matches!(pool.reserve_at(None, at(72)), Reservation::Wait(_)));
    assert_eq!(pool.lane_stats_at(at(73))[0].in_window, 0);
    assert!(matches!(pool.reserve_at(None, at(73)), Reservation::Ready { .. }));
}

#[test]
fn a_deadline_header_is_one_plain_number() {
    let header = |v: &[Option<&str>]| -> Vec<Option<String>> {
        v.iter().map(|x| x.map(str::to_owned)).collect()
    };
    let read = |v: &[Option<&str>]| parse_request_deadline(&header(v), at(10));
    assert_eq!(read(&[]), Ok(None));
    assert_eq!(read(&[Some("1500")]), Ok(Some(Instant { nanos: 11_500_000_000 })));
    assert_eq!(read(&[Some("0")]), Ok(Some(at(10))));
    assert_eq!(read(&[Some("007")]), Ok(Some(Instant { nanos: 10_007_000_000 })));
    assert_eq!(read(&[Some("")]), Err(()));
    assert_eq!(read(&[Some("+5")]), Err(()));
    assert_eq!(read(&[Some("-5")]), Err(()));
    assert_eq!(read(&[Some("5ms")]), Err(()));
    assert_eq!(read(&[Some("18446744073709551616")]), Err(()));
    assert_eq!(read(&[None]), Err(()));
    assert_eq!(read(&[Some("1"), Some("1")]), Err(()));
    assert!(read(&[Some("18446744073709551615")]).unwrap().is_some());
    let late = Instant { nanos: u128::MAX };
    assert_eq!(parse_request_deadline(&header(&[Some("1")]), late), Err(()));
    assert_eq!(wait_deadline(at(3), secs(4)), at(7));
}

#[test]
fn only_generations_with_a_model_are_gated() {
    assert!(is_gated(true, "m", "/v1/chat/completions"));
    assert!(is_gated(true, "m", "/v1/completions"));
    assert!(!is_gated(false, "m", "/v1/completions"));
    assert!(!is_gated(true, "none", "/v1/completions"));
    assert!(!is_gated(true, "m", "/v1/embeddings"));
}

#[test]
fn a_wait_for_the_model_beats_and_ends() {
    let mut w = GateWait::new(at(0), secs(1), secs(10), at(20));
    assert_eq!(w.step(GateEvent::Refused { now: at(5) }), GateAsk::Pause);
    assert_eq!(w.step(GateEvent::Woke { now: at(6) }), GateAsk::Try);
    assert_eq!(w.step(GateEvent::Woke { now: at(10) }), GateAsk::Beat);
    assert_eq!(w.step(GateEvent::Beat { alive: true, now: at(11) }), GateAsk::Try);
    assert_eq!(w.next_heartbeat, at(21));
    assert_eq!(w.step(GateEvent::Refused { now: at(19) }), GateAsk::Pause);
    assert_eq!(w.step(GateEvent::Refused { now: at(20) }), GateAsk::GiveUp);
    assert_eq!(w.step(GateEvent::Beat { alive: false, now: at(20) }), GateAsk::GiveUp);
    assert_eq!(w.step(GateEvent::Admitted), GateAsk::Enter);
}

#[test]
fn a_wait_in_the_queue_is_logged_every_third_beat() {
    let mut q = QueueWait::new();
    let said: Vec<QueueAsk> = (0..4).map(|_| q.beat(true)).collect();
    let want = [false, false, true, false].map(|report| QueueAsk::Wait { report });
    assert_eq!(said, want);
    assert_eq!(q.beat(false), QueueAsk::GiveUp);
    assert_eq!(q.beats, 4);
}

#[test]
fn a_span_of_the_machine_counts_to_the_nanosecond() {
    let span = std::time::Duration::new(3, 7);
    assert_eq!(Instant::after_start(span).nanos, 3_000_000_007);
    assert_eq!(
        Instant::after_start(std::time::Duration::MAX).nanos,
        nim_proxy::time::MAX_SPAN_NANOS
    );
}

fn specs(rpms: &[usize]) -> Vec<LaneSpec> {
    let spec = |(i, rpm): (usize, &usize)| LaneSpec {
        key: format!("key{i}"),
        rpm: *rpm,
        enabled: true,
    };
    rpms.iter().enumerate().map(spec).collect()
}

#[test]
fn a_wait_lasts_until_the_soonest_lane_is_ready() {
    let wait = |p: &mut Pool, now| match p.reserve_at(None, at(now)) {
        Reservation::Wait(w) => w,
        Reservation::Ready { .. } => panic!("expected a wait"),
    };
    let mut p = Pool::new(specs(&[10]));
    p.penalize_at(0, secs(600), at(0));
    assert_eq!(wait(&mut p, 1), secs(599), "longer than the window");
    assert!(matches!(p.reserve_at(None, at(600)), Reservation::Ready { .. }));

    let mut p = Pool::new(specs(&[10, 10]));
    p.penalize_at(0, secs(600), at(0));
    p.penalize_at(1, secs(300), at(0));
    assert_eq!(wait(&mut p, 0), secs(300));

    let mut p = Pool::new(specs(&[0]));
    assert_eq!(wait(&mut p, 0), secs(61), "a lane without a budget");
    let mut p = Pool::new(specs(&[]));
    assert_eq!(wait(&mut p, 0), secs(61), "no lane at all");

    let mut p = Pool::new(specs(&[10]));
    p.penalize(0, secs(600));
    match p.reserve(None) {
        Reservation::Wait(w) => assert!(w > secs(590) && w <= secs(600)),
        Reservation::Ready { .. } => panic!("expected a wait"),
    }
}

#[test]
fn takers_at_one_instant_get_the_free_slots_and_no_more() {
    let mut p = Pool::new(specs(&[3]));
    let granted: Vec<bool> = (0..5)
        .map(|_| matches!(p.reserve_at(Some(0), at(7)), Reservation::Ready { .. }))
        .collect();
    assert_eq!(granted, [true, true, true, false, false]);
}

#[test]
fn lanes_with_one_key_are_paced_each_for_itself() {
    let mut twins = specs(&[2, 1]);
    twins[1].key = "key0".into();
    let mut p = Pool::new(twins);
    let mut by_lane = [0, 0];
    for now in [0, 1, 2, 3, 60] {
        if let Reservation::Ready { lane, .. } = p.reserve_at(None, at(now)) {
            by_lane[lane] += 1;
        }
    }
    assert_eq!(by_lane, [2, 1]);
    assert!(matches!(p.reserve_at(None, at(61)), Reservation::Ready { .. }));
}

#[test]
fn takers_of_a_lane_get_its_key_and_stamp_or_nothing() {
    let mut p = Pool::new(specs(&[2, 0]));
    for k in 0..4 {
        match p.try_take(0, at(9), k == 1) {
            Some(Reservation::Ready { lane, key, stamp, sticky }) => {
                assert!(k < 2);
                assert_eq!((lane, key.as_str(), stamp, sticky), (0, "key0", at(9), k == 1));
            }
            Some(Reservation::Wait(_)) => panic!("a slot or nothing"),
            None => assert!(k >= 2),
        }
    }
    assert!(p.try_take(1, at(9), false).is_none(), "a lane without a budget");
    assert!(p.try_take(0, at(70), false).is_some(), "the window has moved on");
    p.penalize_at(0, secs(5), at(70));
    assert!(p.try_take(0, at(74), false).is_none(), "a benched lane");
}

#[test]
fn a_pool_goes_on_with_its_clock() {
    let mut p = Pool::new(specs(&[1, 1]));
    let taken = |r: Reservation| match r {
        Reservation::Ready { lane, stamp, .. } => (lane, stamp),
        Reservation::Wait(_) => panic!("expected a slot"),
    };
    let (first, a) = taken(p.reserve(Some(0)));
    p.penalize(1, secs(600));
    let stats = p.lane_stats();
    assert_eq!((first, stats[0].in_window, stats[1].in_window), (0, 1, 0));
    assert!(stats[1].cooldown_ms > 590_000 && stats[1].cooldown_ms <= 600_000);
    let mut more = specs(&[1, 1]);
    more.push(LaneSpec {
        key: "new".into(),
        rpm: 1,
        enabled: true,
    });
    let mut q = p.rebuild(more);
    let (lane, b) = taken(q.reserve(Some(0)));
    assert!(lane == 2 && a <= b, "a new lane is ready at once, the kept ones are not");
    let stats = q.lane_stats();
    assert!(stats[1].cooldown_ms > 590_000 && stats[1].cooldown_ms <= 600_000);
    assert!(matches!(q.reserve(None), Reservation::Wait(w) if w > secs(55) && w <= secs(61)));
}
