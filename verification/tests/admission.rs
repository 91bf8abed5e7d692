use nim_proxy::answers::Refusal;
use nim_proxy::labels::LabelSet;
use nim_proxy::request::{
    identify_client, let_in, match_client, plan, upstream_request, upstream_url, Admitted, Denied,
    Route,
};
use nim_proxy::secrets::{
    client_secret, ct_eq, fingerprint, hex, last4, mint_client_secret, sha256_hex,
};
use nim_proxy::time::Instant;

const NOW: Instant = Instant { nanos: 5 };

fn clients() -> Vec<(String, String)> {
    vec![
        (sha256_hex("alpha"), "a".to_owned()),
        (sha256_hex("beta"), "b".to_owned()),
    ]
}

fn enter(
    setup: bool,
    inflight: usize,
    auth: Option<&str>,
    deadlines: Vec<Option<String>>,
) -> Result<Admitted, Denied> {
    let list = clients();
    let_in(setup, inflight, 2, Some(&list), auth, &deadlines, NOW)
}

fn code(r: &Refusal) -> (u16, &str) {
    (r.status, r.code.as_str())
}

#[test]
fn digests_are_sha_256_in_hex() {
    assert_eq!(
        sha256_hex("abc"),
        "ba7816bf8f01cfea414140de5dae2223b00361a396177a9cb410ff61f20015ad"
    );
    assert_eq!(fingerprint("abc"), "ba7816bf");
    assert_eq!(hex(&[0, 9, 10, 15, 16, 255]), "00090a0f10ff");
    assert_eq!((last4("abcdef").as_str(), last4("ab").as_str(), last4("é€😀xy").as_str()), ("cdef", "ab", "€😀xy"));
    assert!(ct_eq("same", "same") && !ct_eq("same", "sane") && !ct_eq("a", "ab") && ct_eq("", ""));
}

#[test]
fn minted_secrets_are_fresh() {
    let a = mint_client_secret().unwrap();
    let b = mint_client_secret().unwrap();
    assert!(a.starts_with("npk_") && a.len() == 36);
    assert_ne!(a, b);
    assert_eq!(client_secret(&[1, 2]), "npk_0102");
}

#[test]
fn a_client_is_known_by_the_digest_of_its_token() {
    let list = clients();
    assert_eq!(identify_client(Some(&list), Some("Bearer beta")).as_deref(), Some("b"));
    assert_eq!(identify_client(Some(&list), Some("bearer beta")), None);
    assert_eq!(identify_client(Some(&list), Some("beta")), None);
    assert_eq!(identify_client(Some(&list), None), None);
    assert_eq!(identify_client(None, None).as_deref(), Some("local"));
    assert_eq!(identify_client(Some(&Vec::new()), Some("Bearer beta")), None);
    let twice = vec![
        ("d".to_owned(), "first".to_owned()),
        ("d".to_owned(), "second".to_owned()),
    ];
    assert_eq!(match_client(&twice, "d").as_deref(), Some("second"));
    assert_eq!(match_client(&twice, "e"), None);
}

#[test]
fn requests_are_let_in_or_denied_in_order() {
    let bad = || vec![Some("x".to_owned())];
    assert!(matches!(enter(true, 9, None, bad()), Err(Denied::SetupRequired)));
    assert!(matches!(enter(false, 3, None, bad()), Err(Denied::Overloaded(r)) if code(&r) == (503, "overloaded")));
    assert!(matches!(enter(false, 2, None, bad()), Err(Denied::Unauthorized(r)) if code(&r) == (401, "unauthorized")));
    assert!(matches!(enter(false, 2, Some("Bearer alpha"), bad()), Err(Denied::BadDeadline(r)) if code(&r) == (400, "invalid_deadline")));
    let a = enter(false, 2, Some("Bearer alpha"), Vec::new()).ok().unwrap();
    assert_eq!((a.client.as_str(), a.deadline), ("a", None));
    let a = enter(false, 1, Some("Bearer alpha"), vec![Some("2".to_owned())]).ok().unwrap();
    assert_eq!(a.deadline, Some(Instant { nanos: 2_000_005 }));
}

#[test]
fn requests_are_planned() {
    let mut seen = LabelSet::new();
    let none = LabelSet::new();
    let chat = "/v1/chat/completions";
    let body = br#"{"model":"m 1","stream":true,"messages":[{"x":1}]}"#;
    let p = plan(false, chat, body, 3, false, &none, &mut seen).unwrap();
    assert_eq!((p.model.as_str(), p.path.as_str(), p.route), ("m1", chat, Route::Stream));
    assert!(p.prefer.unwrap() < 3);
    assert_eq!(p.shape.unwrap().messages, Some(1));
    let injected: serde_json::Value = serde_json::from_str(&p.injected.unwrap()).unwrap();
    assert_eq!(injected["stream_options"]["include_usage"], true);
    assert_eq!(injected["messages"][0]["x"], 1);
    assert_eq!(injected["model"], "m 1");
    assert!(seen.contains("m1"));

    let p = plan(false, chat, body, 3, true, &none, &mut seen).unwrap();
    assert!(p.injected.is_none(), "strict");
    let mut rejected = LabelSet::new();
    rejected.insert("m1".to_owned());
    let p = plan(false, chat, body, 3, false, &rejected, &mut seen).unwrap();
    assert!(p.injected.is_none(), "rejected before");
    let p = plan(false, "/v1/completions", body, 3, false, &none, &mut seen).unwrap();
    assert!(p.injected.is_none() && p.shape.is_some());
    let own = br#"{"stream":true,"stream_options":null}"#;
    let p = plan(false, chat, own, 3, false, &none, &mut seen).unwrap();
    assert!(p.injected.is_none(), "the client has its own");
    assert_eq!((p.model.as_str(), p.prefer), ("none", None));

    let p = plan(false, "/v1/embeddings", b"not json", 0, false, &none, &mut seen).unwrap();
    assert_eq!((p.route, p.path.as_str()), (Route::Whole, "/v1/embeddings"));
    assert!(p.shape.is_none() && p.prefer.is_none());
    let p = plan(false, "/v1/odd", b"{\"stream\":\"yes\"}", 1, false, &none, &mut seen).unwrap();
    assert_eq!((p.route, p.path.as_str()), (Route::Whole, "other"));

    let p = plan(true, "/v1/models", body, 0, false, &none, &mut seen).unwrap();
    assert!(p.route == Route::Models && p.prefer.is_none() && p.shape.is_none());
    let p = plan(false, "/v1/models", b"", 1, false, &none, &mut seen).unwrap();
    assert_eq!(p.route, Route::Whole);
    assert!(plan(false, chat, body, 0, false, &none, &mut seen).is_none(), "no lane to prefer");
}

#[test]
fn only_the_upstream_key_goes_out() {
    assert_eq!(upstream_url("https://h", "/v1/x?y=1"), "https://h/v1/x?y=1");
    let head = upstream_request("k", Some(b"application/json".to_vec()), Some(b"*/*".to_vec()));
    let shown: Vec<(&str, &[u8])> = head.iter().map(|h| (h.name, h.value.as_slice())).collect();
    assert_eq!(
        shown,
        vec![
            ("authorization", &b"Bearer k"[..]),
            ("content-type", b"application/json"),
            ("accept", b"*/*"),
        ]
    );
    let head = upstream_request("k", None, Some(b"x".to_vec()));
    assert_eq!((head.len(), head[1].name), (2, "accept"));
    assert_eq!(upstream_request("k", None, None).len(), 1);
}
