use nim_proxy::answers::{
    bad_gateway, deadline_exceeded, gateway_timeout, invalid_deadline, overloaded,
    security_headers, unauthorized, Refusal,
};
use nim_proxy::backoff::RateLimitCounts;
use nim_proxy::buffered;
use nim_proxy::buffered::Buffered;
use nim_proxy::relay::{
    catalog_is_fresh, count_models, models, probe_key, relay, Probe, Refresh,
};
use nim_proxy::retry::Penalty;
use nim_proxy::streaming;
use nim_proxy::streaming::{Ask, Event, Stream, Turn};
use nim_proxy::time::{Duration, Instant};

fn at(secs: u64) -> Instant {
    Instant {
        nanos: secs as u128 * 1_000_000_000,
    }
}

fn secs(n: u64) -> Duration {
    Duration::from_secs(n)
}

fn says(r: &Refusal, status: u16, code: &str, message: &str) {
    assert_eq!((r.status, r.code.as_str(), r.message.as_str()), (status, code, message));
}

fn answered(status: u16, now: u64) -> Event {
    Event::Answered {
        status,
        line: format!("{status} Reason"),
        retry_after: None,
        now: at(now),
    }
}

fn slot(lane: usize) -> Event {
    Event::Slot(Some((lane, format!("key{lane}"))))
}

/// Takes a fresh stream to the point where the request is with the upstream.
fn sent(fallback: bool, counts: &mut RateLimitCounts) -> Stream {
    let mut s = Stream::new(fallback, at(100));
    assert_eq!(s.step(Event::Delivered(true), counts).ask, Ask::AcquirePermit);
    resend(&mut s, counts);
    s
}

fn resend(s: &mut Stream, counts: &mut RateLimitCounts) {
    assert_eq!(s.step(Event::Gate(true), counts).ask, Ask::ReserveSlot);
    assert_eq!(s.step(slot(2), counts).ask, Ask::SendUpstream);
}

fn ended(t: &Turn, record: &str) {
    let last = t.last_words.is_some() && record != "deadline";
    assert_eq!(t.ask, if last { Ask::SendLast } else { Ask::Stop });
    assert_eq!(t.record.as_deref(), Some(record));
}

#[test]
fn a_stream_is_passed_through_and_counted() {
    let mut counts = RateLimitCounts::new();
    counts.bench_on_429("key2", None);
    let mut s = sent(false, &mut counts);
    assert_eq!(s.step(answered(200, 1), &mut counts).ask, Ask::ReadChunk);
    let t = s.step(Event::Chunk(b"data: 1\n\n".to_vec()), &mut counts);
    assert!(t.first_chunk && t.ask == Ask::Forward);
    assert_eq!(s.step(Event::Delivered(true), &mut counts).ask, Ask::ReadChunk);
    let usage = b"data: {\"usage\":{\"prompt_tokens\":5,\"completion_tokens\":6}}\n\n";
    assert!(s.has_room(usage.len()));
    let t = s.step(Event::Chunk(usage.to_vec()), &mut counts);
    assert!(!t.first_chunk);
    s.step(Event::Delivered(true), &mut counts);
    let t = s.step(Event::Ended, &mut counts);
    ended(&t, "200");
    let (tokens, _) = t.totals.unwrap();
    assert_eq!((tokens.prompt, tokens.completion, tokens.source), (Some(5), Some(6), "usage"));
    assert!(t.last_words.is_none());
    assert_eq!(counts.count("key2"), 0, "a success starts the count over");
    let t = s.step(Event::DeadlinePassed, &mut counts);
    assert!(t.record.is_none() && t.ask == Ask::Stop, "recorded once only");
}

#[test]
fn a_stream_gives_up_the_usage_option_once() {
    let mut counts = RateLimitCounts::new();
    let mut s = sent(true, &mut counts);
    let t = s.step(answered(400, 1), &mut counts);
    assert!(t.drop_injection && t.ask == Ask::AcquirePermit && t.penalty.is_none());
    resend(&mut s, &mut counts);
    let t = s.step(answered(400, 2), &mut counts);
    assert!(!t.drop_injection && t.ask == Ask::ReadError);
    let t = s.step(
        Event::ErrorBody {
            exhausted: false,
            text: "bad".into(),
        },
        &mut counts,
    );
    ended(&t, "400");
    assert!(t.last_words.unwrap().contains("upstream error 400 Reason: bad"));
}

#[test]
fn a_stream_rides_out_trouble() {
    let mut counts = RateLimitCounts::new();
    let mut s = sent(false, &mut counts);
    let t = s.step(Event::ConnectFailed, &mut counts);
    assert!(matches!(&t.penalty, Some(Penalty::Lane { lane: 2, label, backoff }) if label == "connect" && *backoff == secs(5)));
    assert_eq!(t.ask, Ask::AcquirePermit);
    resend(&mut s, &mut counts);

    assert_eq!(s.step(answered(503, 1), &mut counts).ask, Ask::ReadError);
    let body = |exhausted| Event::ErrorBody {
        exhausted,
        text: String::new(),
    };
    let t = s.step(body(true), &mut counts);
    assert!(matches!(t.penalty, Some(Penalty::Model)) && t.ask == Ask::SendRetrying);
    assert_eq!(s.step(Event::Delivered(true), &mut counts).ask, Ask::AcquirePermit);
    resend(&mut s, &mut counts);

    let limited = Event::Answered {
        status: 429,
        line: "429 Too Many Requests".into(),
        retry_after: Some("300".into()),
        now: at(2),
    };
    assert_eq!(s.step(limited, &mut counts).ask, Ask::ReadError);
    let t = s.step(body(false), &mut counts);
    assert!(matches!(&t.penalty, Some(Penalty::Lane { lane: 2, label, backoff }) if label == "429" && *backoff == secs(300)));
    assert_eq!(counts.count("key2"), 1);
    ended(&s.step(Event::Delivered(false), &mut counts), "disconnect");
}

#[test]
fn a_stream_ends_in_many_ways() {
    let mut counts = RateLimitCounts::new();
    let mut s = Stream::new(false, at(100));
    ended(&s.step(Event::Delivered(false), &mut counts), "disconnect");

    let mut s = Stream::new(false, at(100));
    s.step(Event::Delivered(true), &mut counts);
    let t = s.step(Event::Gate(false), &mut counts);
    ended(&t, "504");
    assert!(t.last_words.unwrap().contains("proxy timed out waiting for an upstream slot"));

    let mut s = Stream::new(false, at(100));
    s.step(Event::Delivered(true), &mut counts);
    s.step(Event::Gate(true), &mut counts);
    ended(&s.step(Event::Slot(None), &mut counts), "504");

    let mut s = sent(false, &mut counts);
    let t = s.step(answered(500, 100), &mut counts);
    ended(&t, "504");
    assert!(t.last_words.unwrap().contains("upstream unavailable, retries exhausted"));

    for (event, record, words) in [
        (Event::Stalled, "stall", Some("upstream stream stalled")),
        (Event::Broken, "stream_error", Some("upstream stream interrupted")),
        (Event::ClientGone, "disconnect", None),
        (Event::DeadlinePassed, "deadline", Some("\"deadline_exceeded\"")),
    ] {
        let mut s = sent(false, &mut counts);
        s.step(answered(200, 1), &mut counts);
        let t = s.step(event, &mut counts);
        ended(&t, record);
        match words {
            Some(w) => assert!(t.last_words.unwrap().contains(w)),
            None => assert!(t.last_words.is_none()),
        }
    }

    let mut s = sent(false, &mut counts);
    s.step(answered(200, 1), &mut counts);
    s.step(Event::Chunk(b"x".to_vec()), &mut counts);
    ended(&s.step(Event::Delivered(false), &mut counts), "disconnect");

    let mut s = sent(false, &mut counts);
    let t = s.step(Event::Gate(true), &mut counts);
    assert!(t.ask == streaming::Ask::SendUpstream && t.record.is_none(), "not asked for");
}

#[test]
fn the_last_frame_is_sent_or_overtaken_by_the_deadline() {
    let mut counts = RateLimitCounts::new();
    let mut s = sent(false, &mut counts);
    s.step(answered(200, 1), &mut counts);
    ended(&s.step(Event::Stalled, &mut counts), "stall");
    let t = s.step(Event::Delivered(false), &mut counts);
    assert!(t.ask == Ask::Stop && t.record.is_none() && t.last_words.is_none());

    let mut s = sent(false, &mut counts);
    s.step(answered(200, 1), &mut counts);
    ended(&s.step(Event::Broken, &mut counts), "stream_error");
    let t = s.step(Event::DeadlinePassed, &mut counts);
    ended(&t, "deadline");
    assert!(t.last_words.unwrap().contains("\"deadline_exceeded\""));
    let t = s.step(Event::DeadlinePassed, &mut counts);
    assert!(t.ask == Ask::Stop && t.record.is_none());
}

#[test]
fn a_whole_answer_is_paced_and_returned() {
    let mut counts = RateLimitCounts::new();
    counts.bench_on_429("k", None);
    let grant = || buffered::Event::Slot(Some((4, "k".to_owned())));
    let reply = |status, now| buffered::Event::Answered {
        status,
        retry_after: None,
        now: at(now),
    };
    let mut b = Buffered::new(secs(60), at(100));
    assert_eq!(b.step(buffered::Event::Gate(true), 3, &mut counts).ask, buffered::Ask::ReserveSlot);
    assert_eq!(b.step(grant(), 3, &mut counts).ask, buffered::Ask::SendUpstream);
    let t = b.step(buffered::Event::ConnectFailed, 3, &mut counts);
    assert!(t.penalty.is_some() && t.ask == buffered::Ask::AcquirePermit);
    b.step(buffered::Event::Gate(true), 3, &mut counts);
    b.step(grant(), 3, &mut counts);
    assert_eq!(b.step(reply(429, 99), 3, &mut counts).ask, buffered::Ask::ReadError);
    let t = b.step(buffered::Event::ErrorBody { exhausted: false }, 3, &mut counts);
    assert!(matches!(&t.penalty, Some(Penalty::Lane { lane: 4, label, backoff }) if label == "429" && *backoff == secs(120)));
    assert_eq!(counts.count("k"), 2);
    b.step(buffered::Event::Gate(true), 3, &mut counts);
    b.step(grant(), 3, &mut counts);
    let t = b.step(reply(429, 100), 3, &mut counts);
    assert_eq!((t.ask, t.record.as_deref()), (buffered::Ask::Relay, Some("429")));
    assert_eq!(counts.count("k"), 2, "a late rate limit is no success");
    let t = b.step(buffered::Event::Relayed, 3, &mut counts);
    assert!(t.ask == buffered::Ask::Stop && t.record.is_none());
    assert_eq!(b.step(buffered::Event::DeadlinePassed, 3, &mut counts).ask, buffered::Ask::Stop);

    let mut b = Buffered::new(secs(60), at(100));
    b.step(buffered::Event::Gate(true), 3, &mut counts);
    b.step(grant(), 3, &mut counts);
    assert_eq!(b.step(reply(200, 1), 3, &mut counts).record.as_deref(), Some("200"));
    assert_eq!(counts.count("k"), 0, "a success starts the count over");
    let t = b.step(buffered::Event::DeadlinePassed, 3, &mut counts);
    assert_eq!((t.ask, t.record.as_deref()), (buffered::Ask::Refuse, Some("deadline")));
    says(&t.refusal.unwrap(), 504, "deadline_exceeded", "proxy request deadline exceeded");

    let mut b = Buffered::new(secs(60), at(100));
    let t = b.step(buffered::Event::Gate(false), 3, &mut counts);
    assert_eq!((t.ask, t.record.as_deref()), (buffered::Ask::Refuse, Some("504")));
    says(
        &t.refusal.unwrap(),
        504,
        "rate_limited",
        "no upstream slot became available within 60s (all 3 keys saturated)",
    );

    let mut b = Buffered::new(secs(60), at(100));
    b.step(buffered::Event::Gate(true), 3, &mut counts);
    let t = b.step(buffered::Event::DeadlinePassed, 3, &mut counts);
    assert_eq!(t.record.as_deref(), Some("deadline"));
    says(&t.refusal.unwrap(), 504, "deadline_exceeded", "proxy request deadline exceeded");

    let mut b = Buffered::new(secs(60), at(100));
    b.step(buffered::Event::Gate(true), 3, &mut counts);
    assert_eq!(b.step(buffered::Event::Slot(None), 1, &mut counts).record.as_deref(), Some("504"));
}

#[test]
fn the_catalog_is_cached_and_its_lane_pays() {
    assert!(catalog_is_fresh(secs(9), secs(10)) && !catalog_is_fresh(secs(10), secs(10)));
    let mut counts = RateLimitCounts::new();
    let reply = |status| Refresh::Answered {
        lane: 1,
        key: "k".into(),
        status,
        retry_after: None,
    };
    let c = models(reply(204), secs(60), 2, &mut counts);
    assert!(c.keep && c.status == Some(200) && c.penalty.is_none() && c.refusal.is_none());
    let c = models(reply(404), secs(60), 2, &mut counts);
    assert!(!c.keep && c.status == Some(404) && c.penalty.is_none());
    let c = models(reply(429), secs(60), 2, &mut counts);
    assert!(!c.keep && c.status == Some(429));
    assert!(matches!(c.penalty, Some(Penalty::Lane { lane: 1, backoff, .. }) if backoff == secs(63)));
    assert_eq!(counts.count("k"), 1);
    for lost in [Refresh::NoSlot, Refresh::Failed] {
        let c = models(lost, secs(60), 2, &mut counts);
        assert!(!c.keep && c.status.is_none() && c.penalty.is_none());
        assert_eq!(c.refusal.unwrap().status, 504);
    }
}

#[test]
fn a_key_is_probed_by_its_catalog() {
    let reply = |status, body: &[u8]| Probe::Answered {
        status,
        line: "401 Unauthorized".into(),
        body: body.to_vec(),
    };
    assert_eq!(probe_key(reply(200, b"{\"data\":[{},{},{}]}")), Ok(3));
    assert_eq!(probe_key(reply(200, b"[]")), Ok(0));
    let said = serde_json::from_slice::<serde_json::Value>(b"<html>").unwrap_err();
    assert_eq!(
        probe_key(reply(200, b"<html>")),
        Err(format!("upstream sent an unreadable model list: {said}"))
    );
    assert_eq!(
        probe_key(reply(401, b"")),
        Err("upstream rejected the key (401 Unauthorized)".to_owned())
    );
    assert_eq!(
        probe_key(Probe::Unreachable("no route".into())),
        Err("cannot reach upstream: no route".to_owned())
    );
    assert_eq!(
        probe_key(Probe::Unreadable("reset".into())),
        Err("upstream sent an unreadable model list: reset".to_owned())
    );
    let v = nim_proxy::json::parse(b"{\"data\":5}").unwrap();
    assert_eq!(count_models(&v), 0);
}

#[test]
fn answers_are_relayed_as_they_came() {
    let body = br#"{"usage":{"prompt_tokens":2}}"#.to_vec();
    let r = relay(200, Some("text/plain".into()), Some(body.clone())).ok().unwrap();
    assert_eq!((r.status, r.content_type.as_str()), (200, "text/plain"));
    assert_eq!(r.body, body);
    assert_eq!(r.harvest.unwrap().tokens.unwrap().prompt, Some(2));
    let r = relay(418, None, Some(body)).ok().unwrap();
    assert_eq!((r.status, r.content_type.as_str()), (418, "application/json"));
    assert!(r.harvest.is_none());
    let refusal = relay(200, None, None).err().unwrap();
    says(&refusal, 502, "bad_gateway", "upstream response failed or timed out");
}

#[test]
fn refusals_say_what_they_say() {
    let r = unauthorized();
    says(&r, 401, "unauthorized", "missing or invalid proxy API key (Authorization: Bearer ...)");
    assert_eq!(r.header, Some(("www-authenticate", "Bearer")));
    let r = overloaded(512);
    says(&r, 503, "overloaded", "proxy at capacity (512 concurrent requests); retry shortly");
    assert_eq!(r.header, Some(("retry-after", "5")));
    assert_eq!(invalid_deadline().status, 400);
    assert_eq!(deadline_exceeded().status, 504);
    assert_eq!(bad_gateway().status, 502);
    let r = gateway_timeout(Duration::from_millis(2900), 1);
    assert!(r.message.contains("within 2s (all 1 keys"));
    let v: serde_json::Value = serde_json::from_str(&r.body()).unwrap();
    assert_eq!(v["error"]["code"], "rate_limited");
    assert_eq!(v["error"]["message"], r.message.as_str());
    let headers = security_headers();
    assert_eq!(headers.len(), 4);
    assert!(headers[0].1.contains("connect-src 'self'"));
}

#[test]
fn a_rejected_request_keeps_the_count() {
    let mut counts = RateLimitCounts::new();
    counts.bench_on_429("k", None);
    let mut b = Buffered::new(secs(60), at(100));
    b.step(buffered::Event::Gate(true), 3, &mut counts);
    b.step(buffered::Event::Slot(Some((0, "k".to_owned()))), 3, &mut counts);
    let refusal = buffered::Event::Answered {
        status: 400,
        retry_after: None,
        now: at(1),
    };
    assert_eq!(b.step(refusal, 3, &mut counts).ask, buffered::Ask::Relay);
    assert_eq!(counts.count("k"), 1);
}

#[test]
fn a_stream_opens_with_a_comment() {
    assert_eq!(streaming::frame(Ask::SendConnected), Some(": connected\n\n"));
    assert_eq!(streaming::frame(Ask::SendRetrying), Some(": retrying\n\n"));
    assert_eq!(streaming::frame(Ask::AcquirePermit), Some(": heartbeat\n\n"));
    assert_eq!(streaming::frame(Ask::ReserveSlot), Some(": heartbeat\n\n"));
    assert_eq!(streaming::frame(Ask::Forward), None);
    assert_eq!(streaming::frame(Ask::Stop), None);
    let head = streaming::head();
    assert_eq!(
        (head.status, head.content_type, head.cache_control),
        (200, "text/event-stream", "no-cache")
    );
}
