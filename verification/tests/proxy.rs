use nim_proxy::json::parse;
use nim_proxy::labels::{bounded_label, finish_label, label_path, sanitize_label, LabelSet};
use nim_proxy::scan::SseScan;
use nim_proxy::shape::{count_tools, is_json_mode, tool_choice_mode};

#[test]
fn sanitize_strips_injection_chars() {
    assert_eq!(sanitize_label("meta/llama-3.3-70b"), "meta/llama-3.3-70b");
    assert_eq!(sanitize_label("a\"} fake_metric 1"), "afake_metric1");
    assert_eq!(
        sanitize_label("<img src=x onerror=alert(1)>"),
        "imgsrcxonerroralert1"
    );
    assert_eq!(sanitize_label("line1\nline2"), "line1line2");
    assert_eq!(sanitize_label("\x1b[31mred"), "31mred");
    assert_eq!(sanitize_label(""), "none");
    assert_eq!(sanitize_label("!!!"), "none");
}

#[test]
fn sanitize_caps_length() {
    let long = "a".repeat(200);
    assert_eq!(sanitize_label(&long).len(), 64);
}

#[test]
fn bounded_label_caps_cardinality() {
    let mut seen = LabelSet::new();
    assert_eq!(bounded_label(&mut seen, "m1".into(), 2), "m1");
    assert_eq!(bounded_label(&mut seen, "m2".into(), 2), "m2");
    assert_eq!(bounded_label(&mut seen, "m3".into(), 2), "other");
    assert_eq!(bounded_label(&mut seen, "m1".into(), 2), "m1");
    assert_eq!(seen.len(), 2);
}

#[test]
fn path_label_is_allowlisted() {
    assert_eq!(label_path("/v1/chat/completions"), "/v1/chat/completions");
    assert_eq!(label_path("/v1/embeddings"), "/v1/embeddings");
    assert_eq!(label_path("/v1/anything-else"), "other");
    assert_eq!(label_path("/v1/../etc"), "other");
}

#[test]
fn tool_choice_mode_maps_unknown_strings_to_other() {
    let v = parse(b"{\"tool_choice\": \"banana\"}").unwrap();
    assert_eq!(tool_choice_mode(&v), "other");
}

#[test]
fn sse_scan_clears_a_pathological_unterminated_line() {
    let mut scan = SseScan::default();
    scan.feed(&vec![b'x'; 1_048_577]);
    assert!(scan.buf.is_empty(), "oversized line buffer must be dropped");
    assert_eq!(scan.events, 0);
    scan.feed(b"data: {\"choices\":[],\"usage\":{\"completion_tokens\":3}}\n\n");
    assert_eq!(scan.events, 1);
    assert_eq!(scan.completion, Some(3));
}

#[test]
fn scan_counts_events_and_finds_usage() {
    let mut scan = SseScan::default();
    scan.feed(b": heartbeat\n\ndata: {\"choices\":[{\"delta\":{\"content\":\"hi\"}}]}\n\ndata: {\"cho");
    scan.feed(b"ices\":[],\"usage\":{\"prompt_tokens\":120,\"completion_tokens\":45}}\n\ndata: [DONE]\n\n");
    assert_eq!(scan.events, 2);
    assert_eq!(scan.prompt, Some(120));
    assert_eq!(scan.completion, Some(45));
}

#[test]
fn scan_without_usage_estimates_by_events() {
    let mut scan = SseScan::default();
    scan.feed(b"data: {\"a\":1}\n\ndata: {\"b\":2}\n\ndata: {\"c\":3}\n\ndata: [DONE]\n\n");
    assert_eq!(scan.events, 3);
    assert_eq!(scan.completion, None);
}

#[test]
fn scan_captures_finish_reason_tool_calls_and_reasoning() {
    let mut scan = SseScan::default();
    scan.feed(
        b"data: {\"choices\":[{\"delta\":{\"content\":\"x\"},\"finish_reason\":null}]}\n\n",
    );
    scan.feed(b"data: {\"choices\":[{\"delta\":{\"tool_calls\":[{\"index\":0,\"function\":{\"name\":\"a\"}}]}}]}\n\n");
    scan.feed(b"data: {\"choices\":[{\"delta\":{\"tool_calls\":[{\"index\":1,\"function\":{\"name\":\"b\"}}]}}]}\n\n");
    scan.feed(b"data: {\"choices\":[{\"delta\":{},\"finish_reason\":\"tool_calls\"}]}\n\n");
    scan.feed(b"data: {\"choices\":[],\"usage\":{\"prompt_tokens\":10,\"completion_tokens\":8,\"completion_tokens_details\":{\"reasoning_tokens\":5}}}\n\ndata: [DONE]\n\n");
    assert_eq!(scan.finish_reason.as_deref(), Some("tool_calls"));
    assert_eq!(scan.tool_call_max, Some(1));
    assert_eq!(scan.reasoning, Some(5));
    assert_eq!(scan.completion, Some(8));
}

#[test]
fn finish_label_bounds_unknown_values() {
    assert_eq!(finish_label("stop"), "stop");
    assert_eq!(finish_label("length"), "length");
    assert_eq!(finish_label("tool_calls"), "tool_calls");
    assert_eq!(finish_label("weird\"injection"), "other");
}

#[test]
fn tool_choice_and_shape_readers() {
    let auto = parse(b"{\"tools\": [{}], \"tool_choice\": \"auto\"}").unwrap();
    assert_eq!(tool_choice_mode(&auto), "auto");
    let named = parse(b"{\"tool_choice\": {\"type\": \"function\"}}").unwrap();
    assert_eq!(tool_choice_mode(&named), "named");
    let unsaid = parse(b"{\"tools\": [{}]}").unwrap();
    assert_eq!(tool_choice_mode(&unsaid), "auto");

    let three = parse(b"{\"tools\": [{}, {}, {}]}").unwrap();
    assert_eq!(count_tools(&three), Some(3));
    let legacy = parse(b"{\"functions\": [{}]}").unwrap();
    assert_eq!(count_tools(&legacy), Some(1));
    let none = parse(b"{\"model\": \"x\"}").unwrap();
    assert_eq!(count_tools(&none), None);

    let object = parse(b"{\"response_format\": {\"type\": \"json_object\"}}").unwrap();
    assert!(is_json_mode(&object));
    let plain = parse(b"{\"response_format\": {\"type\": \"text\"}}").unwrap();
    assert!(!is_json_mode(&plain));
    assert!(!is_json_mode(&none));
}
