use std::hash::{DefaultHasher, Hash, Hasher};

use nim_proxy::affinity::{affinity, conversation_lane};
use nim_proxy::answers::{proxy_error_json, sse_error, sse_error_with_code};
use nim_proxy::fuzz;
use nim_proxy::json::{parse, read, Document, Json};
use nim_proxy::labels::{label_model, LabelSet};
use nim_proxy::scan::SseScan;
use nim_proxy::shape::{harvest, harvest_of, record_quality, record_shape, stream_totals};
use nim_proxy::text;

#[test]
fn text_helpers_agree_with_std() {
    for s in ["", " ", " a b ", "\u{a0}x\u{3000}", "\u{200b}x", "\u{85}\n\tz\r", "https://h//"] {
        assert_eq!(text::trim(s), s.trim());
        assert_eq!(text::trim_start(s), s.trim_start());
        assert_eq!(text::trim_url(s), s.trim().trim_end_matches('/'));
        assert_eq!(text::contains("xa by", s), "xa by".contains(s));
        assert_eq!(text::byte_len(s), s.len());
        assert_eq!(text::strip_prefix(s, " ").as_deref(), s.strip_prefix(" "));
    }
    for c in (0..=0x10ffff).filter_map(char::from_u32) {
        assert_eq!(text::is_white_space(c), c.is_whitespace(), "{c:?}");
    }
    for s in ["0", "+1", "-1", "", "+", "18446744073709551615", "18446744073709551616", "1 "] {
        assert_eq!(text::parse_u64(s), s.parse::<u64>().ok(), "{s:?}");
    }
    assert_eq!(text::parse_plain_u64("+1"), None);
    for n in [0u128, 7, 10, 429, u128::MAX] {
        assert_eq!(text::to_decimal(n), n.to_string());
    }
    assert!(text::str_eq("aé", "aé") && !text::str_eq("a", "b") && !text::str_eq("a", "ab"));
}

#[test]
fn documents_are_read_into_plain_values() {
    let v = parse(b"{\"n\":7,\"f\":1.5,\"neg\":-2,\"s\":\"x\",\"b\":true,\"z\":null,\"a\":[1,[]]}")
        .unwrap();
    assert_eq!(v.get("n").unwrap().as_u64(), Some(7));
    assert_eq!(v.get("f").unwrap().as_u64(), None);
    assert_eq!(v.get("neg").unwrap().as_u64(), None);
    assert!(matches!(v.get("f"), Some(Json::Number { text, .. }) if text == "1.5"));
    assert_eq!(v.get("s").unwrap().as_str(), Some("x"));
    assert_eq!(v.get("b").unwrap().as_bool(), Some(true));
    assert!(v.get("z").unwrap().is_null());
    assert_eq!(v.get("a").unwrap().as_array().unwrap().len(), 2);
    assert!(v.get("missing").is_none());
    assert!(v.is_object() && !v.get("a").unwrap().is_object());
    assert!(v.get("a").unwrap().get("n").is_none());
    assert_eq!(parse(b"{\"k\":1,\"k\":2}").unwrap().get("k").unwrap().as_u64(), Some(2));
    assert!(parse(b"{").is_none());
    assert!(parse(b"1 2").is_none());
    let said = serde_json::from_slice::<serde_json::Value>(b"{").unwrap_err().to_string();
    assert_eq!(read(b"{").err(), Some(said));
}

fn hashed_lane(model: &str, texts: &[String], lanes: u64) -> usize {
    let mut h = DefaultHasher::new();
    model.hash(&mut h);
    for t in texts {
        t.hash(&mut h);
    }
    (h.finish() % lanes) as usize
}

#[test]
fn a_conversation_keeps_to_its_lane() {
    let first = br#"{"model":"m","messages":[{"role":"system","content":"s"},{"b":1,"a":[2]}]}"#;
    let later = br#"{"messages":[{"content":"s","role":"system"},{"a":[2],"b":1},{"x":0}],"model":"m","stream":true}"#;
    let a = affinity(&Document::read(first).unwrap(), 7).unwrap();
    let b = affinity(&Document::read(later).unwrap(), 7).unwrap();
    assert_eq!(a, b);
    let texts = [
        r#"{"content":"s","role":"system"}"#.to_owned(),
        r#"{"a":[2],"b":1}"#.to_owned(),
    ];
    assert_eq!(a, hashed_lane("m", &texts, 7));
    assert_eq!(conversation_lane("m", &texts.to_vec(), 7), a);
    for lanes in 1..40 {
        let got = conversation_lane("other", &texts.to_vec(), lanes);
        assert_eq!(got, hashed_lane("other", &texts, lanes as u64));
    }
    let bare = Document::read(b"{\"messages\":[]}").unwrap();
    assert_eq!(affinity(&bare, 5), Some(hashed_lane("", &[], 5)));
    assert_eq!(affinity(&Document::read(b"{\"messages\":3}").unwrap(), 0), None);
    assert_eq!(affinity(&Document::read(b"[]").unwrap(), 4), None);
}

#[test]
fn cutting_a_stream_makes_no_difference() {
    let stream = "data: {\"choices\":[{\"delta\":{\"content\":\"héllo\"}}]}\n\ndata: {\"usage\":{\"prompt_tokens\":1,\"completion_tokens\":2}}\n\ndata: [DONE]\n\ndata: tail";
    let mut whole = SseScan::default();
    whole.feed(stream.as_bytes());
    for cut in (0..=stream.len()).filter(|i| stream.is_char_boundary(*i)) {
        let mut parts = SseScan::default();
        parts.feed(&stream.as_bytes()[..cut]);
        parts.feed(&stream.as_bytes()[cut..]);
        assert_eq!(parts.buf, whole.buf);
        assert_eq!((parts.events, parts.prompt, parts.completion), (2, Some(1), Some(2)));
    }
    assert_eq!(whole.buf, "data: tail");
}

#[test]
fn scanning_skips_what_is_no_data() {
    let mut scan = SseScan::default();
    scan.feed(b"event: x\n: data: y\n  data:   [DONE]  \r\ndata:\ndata: {\"usage\":null}\n");
    assert_eq!(scan.events, 2);
    assert_eq!(scan.prompt, None);
    scan.feed(b"data: {\"usage\":{\"prompt_tokens\":4}}\ndata: {\"usage\":{\"completion_tokens\":9}}\n");
    assert_eq!((scan.prompt, scan.completion), (Some(4), Some(9)));
    scan.feed(b"data: {\"usage\" broken\n");
    assert_eq!((scan.events, scan.prompt), (5, Some(4)));
    scan.feed(b"data: {\"choices\":[{\"finish_reason\":\"stop\"},{\"finish_reason\":\"length\"}]}\n");
    assert_eq!(scan.finish_reason.as_deref(), Some("length"));
    scan.feed(b"data: {\"choices\":[{\"delta\":{\"tool_calls\":[{\"index\":4},{\"index\":2},{}]}}]}\n");
    assert_eq!(scan.tool_call_max, Some(4));
}

#[test]
fn invalid_bytes_become_replacement_characters() {
    let mut scan = SseScan::default();
    scan.feed(b"a\xff\xfeb");
    assert_eq!(scan.buf, "a\u{fffd}\u{fffd}b");
}

#[test]
fn a_line_at_the_cap_is_kept() {
    let mut scan = SseScan::default();
    scan.feed(&vec![b'x'; 1_048_576]);
    assert_eq!(scan.buf.len(), 1_048_576);
    scan.feed(b"y");
    assert!(scan.buf.is_empty());
}

#[test]
fn stream_totals_take_usage_or_estimate() {
    let mut scan = SseScan::default();
    scan.feed(b"data: 1\ndata: 2\n");
    let (tokens, quality) = stream_totals(&scan);
    assert_eq!((tokens.prompt, tokens.completion, tokens.source), (None, Some(2), "estimate"));
    assert!(quality.finish.is_none() && quality.reasoning.is_none() && quality.tool_calls.is_none());
    scan.feed(b"data: {\"choices\":[{\"finish_reason\":\"odd\",\"delta\":{\"tool_calls\":[{\"index\":18446744073709551615}]}}],\"usage\":{\"prompt_tokens\":3,\"completion_tokens\":0,\"completion_tokens_details\":{\"reasoning_tokens\":6}}}\n");
    let (tokens, quality) = stream_totals(&scan);
    assert_eq!((tokens.prompt, tokens.completion, tokens.source), (Some(3), Some(0), "usage"));
    assert_eq!(quality.finish.as_deref(), Some("other"));
    assert_eq!(quality.reasoning, Some(6));
    assert_eq!(quality.tool_calls, Some(18446744073709551616));
}

#[test]
fn nothing_is_counted_of_zeros() {
    let q = record_quality(Some("stop"), Some(0), Some(0));
    assert_eq!(q.finish.as_deref(), Some("stop"));
    assert!(q.reasoning.is_none() && q.tool_calls.is_none());
}

#[test]
fn a_request_is_measured_by_shape() {
    let v = parse(br#"{"messages":[{},{}],"tools":[{}],"tool_choice":"required","max_completion_tokens":99,"response_format":{"type":"json_schema"}}"#).unwrap();
    let s = record_shape(Some(&v), true);
    assert_eq!((s.stream, s.messages, s.max_tokens, s.json_mode), ("true", Some(2), Some(99), true));
    assert_eq!(s.tools, Some((1, "required")));
    let v = parse(br#"{"max_tokens":5,"max_completion_tokens":99,"messages":"no","tool_choice":"none"}"#).unwrap();
    let s = record_shape(Some(&v), false);
    assert_eq!((s.stream, s.messages, s.max_tokens, s.json_mode), ("false", None, Some(5), false));
    assert_eq!(s.tools, None);
    let s = record_shape(None, false);
    assert!(s.messages.is_none() && s.tools.is_none() && s.max_tokens.is_none() && !s.json_mode);
}

#[test]
fn a_whole_answer_is_harvested_when_it_succeeded() {
    let body = br#"{"choices":[{"finish_reason":"stop","message":{"tool_calls":[1,2]}},{"message":{"tool_calls":[3]}},{"message":{}}],"usage":{"prompt_tokens":11,"completion_tokens":12,"completion_tokens_details":{"reasoning_tokens":13}}}"#;
    let h = harvest(true, body).unwrap();
    let t = h.tokens.unwrap();
    assert_eq!((t.prompt, t.completion, t.source), (Some(11), Some(12), "usage"));
    assert_eq!(h.quality.finish.as_deref(), Some("stop"));
    assert_eq!((h.quality.reasoning, h.quality.tool_calls), (Some(13), Some(3)));
    assert!(harvest(false, body).is_none());
    assert!(harvest(true, b"not json").is_none());
    let v = parse(br#"{"usage":null,"choices":[]}"#).unwrap();
    let h = harvest_of(true, Some(&v)).unwrap();
    assert!(h.tokens.is_none() && h.quality.finish.is_none() && h.quality.tool_calls.is_none());
    assert!(harvest_of(true, None).is_none());
}

#[test]
fn errors_travel_in_an_envelope() {
    let v = proxy_error_json("code", "say \"what\"\n");
    assert_eq!(v["error"]["message"], "say \"what\"\n");
    assert_eq!(v["error"]["type"], "proxy_error");
    assert_eq!(v["error"]["code"], "code");
    assert_eq!(
        sse_error_with_code("c", "m"),
        "data: {\"error\":{\"code\":\"c\",\"message\":\"m\",\"type\":\"proxy_error\"}}\n\ndata: [DONE]\n\n"
    );
    assert!(sse_error("m").contains("\"code\":\"upstream_unavailable\""));
}

#[test]
fn model_labels_are_safe_and_few() {
    let mut seen = LabelSet::new();
    for i in 0..256 {
        assert_eq!(label_model(&mut seen, &format!("m {i}")), format!("m{i}"));
    }
    assert_eq!(label_model(&mut seen, "one-more"), "other");
    assert_eq!(label_model(&mut seen, "m 7!"), "m7");
    assert_eq!(seen.len(), 256);
    assert!(seen.contains("m255") && !seen.contains("one-more"));
}

#[test]
fn fuzzing_finds_what_is_promised() {
    for data in [&b""[..], b"data: {\"usage\":{\"prompt_tokens\":1}}\n\n", b"\xff\xfe\n\x80", b"x"] {
        let (whole, parts) = fuzz::sse_scan(data);
        assert!(whole.buf.len() <= 1_048_576 && parts.buf.len() <= 1_048_576);
        let label = fuzz::sanitize_label(data);
        assert!(!label.is_empty() && label.len() <= 64);
    }
    let (whole, parts) = fuzz::sse_scan(b"data: {\"usage\":{\"prompt_tokens\":1}}\n\n");
    assert_eq!((whole.prompt, parts.prompt), (Some(1), Some(1)));
    assert_eq!(fuzz::sanitize_label(b"a\xffb c"), "abc");
    assert_eq!(fuzz::sanitize_label(b"\xff"), "none");
}

#[test]
fn a_label_that_was_made_safe_stays_as_it_is() {
    for raw in ["meta/llama-3.3-70b", "a\"} fake 1", "", "\u{1b}[31mred"] {
        let once = nim_proxy::labels::sanitize_label(raw);
        assert_eq!(nim_proxy::labels::sanitize_label(&once), once);
    }
}

#[test]
fn a_finish_reason_is_read_whatever_the_white_space() {
    let mut s = nim_proxy::scan::SseScan::default();
    s.feed(b"data: {\"choices\": [{\"finish_reason\": null}]}\n");
    assert_eq!((s.finish_reason.as_deref(), s.events), (None, 1));
    s.feed(b"data: {\"choices\": [{\"finish_reason\" : \"stop\"}]}\n");
    assert_eq!((s.finish_reason.as_deref(), s.events), (Some("stop"), 2));
    s.feed(b"data: {\"choices\": [{\"finish_reason\": null}]}\n");
    assert_eq!((s.finish_reason.as_deref(), s.events), (Some("stop"), 3));
}

#[test]
fn short_conversations_keep_to_their_lane_too() {
    let lane = |body: &[u8]| affinity(&Document::read(body).unwrap(), 1009).unwrap();
    let one = lane(b"{\"messages\":[{\"role\":\"user\"}]}");
    assert_eq!(lane(b"{\"model\":7,\"messages\":[{\"role\":\"user\"}],\"n\":1}"), one);
    assert_eq!(lane(b"{\"model\":\"\",\"messages\":[{\"role\":\"user\"}]}"), one);
    assert_eq!(one, hashed_lane("", &["{\"role\":\"user\"}".to_owned()], 1009));
    let none = lane(b"{\"messages\":[]}");
    assert_eq!(lane(b"{\"model\":null,\"messages\":[],\"stream\":true}"), none);
}
