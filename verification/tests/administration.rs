use nim_proxy::accounts::{account, account_hash, users, users_password};
use nim_proxy::answers::Refusal;
use nim_proxy::boot;
use nim_proxy::config_view::api_config;
use nim_proxy::dashboard::{api_dashboard, api_dashboard_now, capacity_snapshot, DashboardQuery};
use nim_proxy::live::{Live, Persisted};
use nim_proxy::pool::Reservation;
use nim_proxy::request::identify_client;
use nim_proxy::rulebook::{broken, Rule};
use nim_proxy::secrets::{fingerprint, sha256_hex};
use nim_proxy::settings::{
    clients, clients_with, governor_cfg, history, limits, nim_keys, require_admin, role_of,
    upstream, AccountReq, AddClient, AddNimKey, AddUser, ClientsReq, CreateClientKey,
    GovernorOverride, GovernorReq, HistoryReq, LimitsReq, NimKeysReq, ResetPassword, SetNimKey,
    SetRole, SetupKey, SetupReq, UpstreamReq, UsersReq, ValidateKeyReq,
};
use nim_proxy::setup::{
    invalid_base_url, setup_check, setup_submit, setup_validate_key, setup_with, validate_key,
    SetupDenied,
};
use nim_proxy::store::{
    ClientAuth, ClientKey, GovernorSettings, Limits, Mode, NimKey, Overrides, Role, StoredConfig,
    Upstream, User,
};
use nim_proxy::time::Duration;

fn user(name: &str, role: Role) -> User {
    User {
        username: name.into(),
        password_hash: format!("hash-{name}"),
        role,
    }
}

fn key(key: &str, owner: &str, enabled: bool) -> NimKey {
    NimKey {
        key: key.into(),
        owner: owner.into(),
        enabled,
        rpm: 10,
    }
}

fn client(name: &str, owner: &str) -> ClientKey {
    ClientKey {
        name: name.into(),
        secret_sha256: sha256_hex(name),
        last4: "last".into(),
        owner: owner.into(),
    }
}

fn store() -> StoredConfig {
    StoredConfig {
        users: vec![
            user("root", Role::Superuser),
            user("ann", Role::Admin),
            user("bob", Role::User),
        ],
        upstream: Upstream {
            base_url: "https://up/".into(),
            nim_keys: vec![key("k-root", "root", true), key("k-bob", "bob", false)],
        },
        client_auth: ClientAuth {
            mode: Mode::Keyed,
            keys: vec![client("c-ann", "ann"), client("c-bob", "bob")],
        },
        limits: Limits {
            max_wait_secs: 60,
            heartbeat_secs: 5,
            models_ttl_secs: 600,
            stream_idle_secs: 300,
            request_timeout_secs: 300,
            max_inflight: 512,
            strict_passthrough: false,
        },
        history_days: 30,
        default_window_days: 7,
        governor: GovernorSettings::default(),
    }
}

fn refused<T>(r: Result<T, Refusal>, status: u16, message: &str) {
    match r {
        Ok(_) => panic!("expected a refusal"),
        Err(x) => assert_eq!((x.status, x.message.as_str()), (status, message)),
    }
}

fn names(sc: &StoredConfig) -> Vec<&str> {
    sc.users.iter().map(|u| u.username.as_str()).collect()
}

fn key_names(sc: &StoredConfig) -> Vec<&str> {
    sc.upstream.nim_keys.iter().map(|k| k.key.as_str()).collect()
}

#[test]
fn roles_are_looked_up_in_the_store() {
    let sc = store();
    assert_eq!(role_of(&sc, "root"), Some(Role::Superuser));
    assert_eq!(role_of(&sc, "gone"), None);
    assert!(require_admin(&sc, "ann", "why").is_ok());
    refused(require_admin(&sc, "bob", "why"), 403, "why");
    refused(require_admin(&sc, "gone", "why"), 401, "your user no longer exists");
    assert_eq!(sc.superuser().unwrap().username, "root");
    assert!(Role::Superuser.is_admin() && Role::Admin.is_admin() && !Role::User.is_admin());
}

fn keys_req() -> NimKeysReq {
    NimKeysReq {
        add: None,
        remove: None,
        set: None,
    }
}

#[test]
fn upstream_keys_are_managed_by_their_owners() {
    let sc = store();
    let add = || NimKeysReq {
        add: Some(AddNimKey {
            key: " new \n".into(),
            rpm: None,
        }),
        ..keys_req()
    };
    let c = nim_keys(&sc, "bob", add()).ok().unwrap();
    let k = &c.upstream.nim_keys[2];
    assert_eq!((k.key.as_str(), k.owner.as_str(), k.enabled, k.rpm), ("new", "bob", true, 40));
    refused(nim_keys(&sc, "gone", add()), 401, "your user no longer exists");

    let remove = |k: &str| NimKeysReq {
        remove: Some(fingerprint(k)),
        ..keys_req()
    };
    assert_eq!(key_names(&nim_keys(&sc, "bob", remove("k-bob")).ok().unwrap()), ["k-root"]);
    assert_eq!(key_names(&nim_keys(&sc, "ann", remove("k-root")).ok().unwrap()), ["k-bob"]);
    refused(nim_keys(&sc, "bob", remove("k-root")), 403, "you can only remove your own keys");
    refused(nim_keys(&sc, "bob", remove("nope")), 400, "no such key");

    let set = |k: &str, enabled, rpm| NimKeysReq {
        set: Some(SetNimKey {
            fingerprint: fingerprint(k),
            enabled,
            rpm,
        }),
        ..keys_req()
    };
    let c = nim_keys(&sc, "bob", set("k-bob", Some(true), None)).ok().unwrap();
    assert!(c.upstream.nim_keys[1].enabled && c.upstream.nim_keys[1].rpm == 10);
    let c = nim_keys(&sc, "ann", set("k-root", None, Some(3))).ok().unwrap();
    assert!(c.upstream.nim_keys[0].enabled && c.upstream.nim_keys[0].rpm == 3);
    refused(nim_keys(&sc, "bob", set("k-root", None, None)), 403, "you can only change your own keys");
    refused(nim_keys(&sc, "bob", set("nope", None, None)), 400, "no such key");
    refused(nim_keys(&sc, "bob", keys_req()), 400, "send exactly one of add / remove / set");
    let mut both = add();
    both.remove = Some("x".into());
    refused(nim_keys(&sc, "bob", both), 400, "send exactly one of add / remove / set");
}

fn clients_req() -> ClientsReq {
    ClientsReq {
        add: None,
        remove: None,
        mode: None,
    }
}

#[test]
fn a_client_key_works_from_when_it_is_minted_until_it_is_revoked() {
    let sc = store();
    let add = ClientsReq {
        add: Some(AddClient {
            name: " harness ".into(),
        }),
        ..clients_req()
    };
    let change = clients(&sc, "bob", add).unwrap();
    let secret = change.secret.unwrap();
    let c = change.candidate.ok().unwrap();
    let kept = c.client_auth.keys.last().unwrap();
    assert_eq!((kept.name.as_str(), kept.owner.as_str()), ("harness", "bob"));
    assert_eq!(kept.secret_sha256, sha256_hex(&secret));
    assert!(secret.ends_with(&kept.last4) && kept.last4.len() == 4);
    let bearer = format!("Bearer {secret}");
    let known = c.runtime().clients;
    assert_eq!(identify_client(known.as_ref(), Some(&bearer)).as_deref(), Some("harness"));

    let revoke = ClientsReq {
        remove: Some("harness".into()),
        ..clients_req()
    };
    let c = clients(&c, "ann", revoke).unwrap().candidate.ok().unwrap();
    assert_eq!(identify_client(c.runtime().clients.as_ref(), Some(&bearer)), None);
}

#[test]
fn client_keys_are_managed_by_their_owners() {
    let sc = store();
    let remove = |name: &str| ClientsReq {
        remove: Some(name.into()),
        ..clients_req()
    };
    refused(clients_with(&sc, "bob", remove("c-ann"), ""), 403, "you can only revoke your own client keys");
    refused(clients_with(&sc, "bob", remove("x"), ""), 400, "no such client key");
    assert_eq!(clients_with(&sc, "bob", remove("c-bob"), "").ok().unwrap().client_auth.keys.len(), 1);
    let mode = |m: &str| ClientsReq {
        mode: Some(m.into()),
        ..clients_req()
    };
    let c = clients(&sc, "ann", mode("open")).unwrap();
    assert!(c.secret.is_none());
    let c = c.candidate.ok().unwrap();
    assert_eq!(c.client_auth.mode, Mode::Open);
    assert!(c.runtime().clients.is_none());
    assert_eq!(clients_with(&c, "ann", mode("keyed"), "").ok().unwrap().client_auth.mode, Mode::Keyed);
    refused(clients_with(&sc, "ann", mode("half"), ""), 400, "mode must be \"open\" or \"keyed\"");
    refused(clients_with(&sc, "bob", mode("half"), ""), 403, "changing the API access mode requires an admin");
    refused(clients_with(&sc, "ann", clients_req(), ""), 400, "send exactly one of add / remove / mode");
    let add = ClientsReq {
        add: Some(AddClient { name: "x".into() }),
        ..clients_req()
    };
    let gone = clients(&sc, "gone", add).unwrap();
    assert!(gone.secret.is_none());
    refused(gone.candidate, 401, "your user no longer exists");
}

#[test]
fn server_settings_are_changed_by_admins() {
    let sc = store();
    let c = upstream(&sc, "root", UpstreamReq { base_url: " https://n// ".into() }).ok().unwrap();
    assert_eq!(c.upstream.base_url, "https://n");
    refused(
        upstream(&sc, "bob", UpstreamReq { base_url: "x".into() }),
        403,
        "server settings require an admin",
    );
    let req = || LimitsReq {
        max_wait_secs: 1,
        heartbeat_secs: 2,
        models_ttl_secs: 3,
        stream_idle_secs: 4,
        request_timeout_secs: 5,
        max_inflight: 6,
        strict_passthrough: true,
    };
    let c = limits(&sc, "ann", req()).ok().unwrap();
    let run = c.runtime();
    assert_eq!((run.max_wait, run.heartbeat), (Duration::from_secs(1), Duration::from_secs(2)));
    assert_eq!((run.models_ttl, run.stream_idle), (Duration::from_secs(3), Duration::from_secs(4)));
    assert_eq!((run.request_timeout, run.max_inflight), (Duration::from_secs(5), 6));
    assert!(run.strict_passthrough);
    refused(limits(&sc, "gone", req()), 401, "your user no longer exists");
    let c = history(&sc, "ann", HistoryReq { days: 0, default_window_days: 2 }).ok().unwrap();
    assert_eq!((c.history_days, c.default_window_days), (0, 2));
    refused(
        history(&sc, "bob", HistoryReq { days: 0, default_window_days: 2 }),
        403,
        "server settings require an admin",
    );
}

#[test]
fn the_governor_is_changed_piece_by_piece() {
    let sc = store();
    let set = |model: &str, cap| Some(GovernorOverride { model: model.into(), cap });
    let req = GovernorReq {
        enabled: Some(false),
        set_override: set("m", 3),
        remove_override: None,
    };
    let c = governor_cfg(&sc, "ann", req).ok().unwrap();
    assert!(!c.governor.enabled);
    assert_eq!(c.governor.overrides.get("m"), Some(3));
    let req = GovernorReq {
        enabled: None,
        set_override: set("m", 4),
        remove_override: Some("n".into()),
    };
    let c = governor_cfg(&c, "ann", req).ok().unwrap();
    assert!(!c.governor.enabled);
    assert_eq!((c.governor.overrides.get("m"), c.governor.overrides.listed().len()), (Some(4), 1));
    let req = GovernorReq {
        enabled: None,
        set_override: set("m", 5),
        remove_override: Some("m".into()),
    };
    let c = governor_cfg(&c, "ann", req).ok().unwrap();
    assert_eq!(c.governor.overrides.get("m"), None);
    let req = GovernorReq {
        enabled: None,
        set_override: None,
        remove_override: None,
    };
    refused(governor_cfg(&sc, "bob", req), 403, "server settings require an admin");
    let mut o = Overrides::new();
    o.insert("a".into(), 1);
    o.insert("b".into(), 2);
    o.insert("a".into(), 3);
    assert_eq!((o.get("a"), o.get("b"), o.get("c")), (Some(3), Some(2), None));
    assert_eq!(o.clone().listed().len(), 2);
}

fn users_req() -> UsersReq {
    UsersReq {
        add: None,
        remove: None,
        reset_password: None,
        set_role: None,
    }
}

fn adding(password: &str, role: &str) -> UsersReq {
    UsersReq {
        add: Some(AddUser {
            username: " cat ".into(),
            password: password.into(),
            role: role.into(),
        }),
        ..users_req()
    }
}

#[test]
fn passwords_are_checked_before_they_are_hashed() {
    assert!(matches!(users_password(&adding("0123456789", "user")), Ok(Some(p)) if p == "0123456789"));
    refused(users_password(&adding("012345678", "user")), 400, "password must be at least 10 characters");
    refused(users_password(&adding("ééééé", "user")), 400, "password must be at least 10 characters");
    assert!(users_password(&adding("éééééééééé", "user")).is_ok(), "characters count, not bytes");
    let reset = |p: &str| UsersReq {
        reset_password: Some(ResetPassword {
            username: "bob".into(),
            new_password: p.into(),
        }),
        ..users_req()
    };
    assert!(matches!(users_password(&reset("long enough")), Ok(Some(_))));
    refused(users_password(&reset("short")), 400, "password must be at least 10 characters");
    assert!(matches!(users_password(&users_req()), Ok(None)));
    let mut both = adding("short", "user");
    both.reset_password = reset("short").reset_password;
    assert!(matches!(users_password(&both), Ok(None)));
}

#[test]
fn users_are_managed_by_admins_and_the_superuser_is_inviolable() {
    let sc = store();
    let h = || "h".to_owned();
    let c = users(&sc, "ann", adding("p", "admin"), h()).ok().unwrap();
    let u = c.users.last().unwrap();
    assert_eq!((u.username.as_str(), u.password_hash.as_str(), u.role), ("cat", "h", Role::Admin));
    refused(users(&sc, "ann", adding("p", "superuser"), h()), 400, "role must be \"admin\" or \"user\"");
    refused(users(&sc, "bob", adding("p", "user"), h()), 403, "user management requires an admin");

    let remove = |name: &str| UsersReq {
        remove: Some(name.into()),
        ..users_req()
    };
    let c = users(&sc, "ann", remove("bob"), h()).ok().unwrap();
    assert_eq!(names(&c), ["root", "ann"]);
    assert_eq!(key_names(&c), ["k-root"]);
    assert_eq!(c.client_auth.keys.len(), 1);
    refused(users(&sc, "ann", remove("root"), h()), 403, "the superuser can never be deleted");
    refused(users(&sc, "ann", remove("x"), h()), 400, "no such user");

    let reset = |name: &str| UsersReq {
        reset_password: Some(ResetPassword {
            username: name.into(),
            new_password: "p".into(),
        }),
        ..users_req()
    };
    let c = users(&sc, "ann", reset("bob"), h()).ok().unwrap();
    assert_eq!(c.user("bob").unwrap().password_hash, "h");
    refused(
        users(&sc, "ann", reset("root"), h()),
        403,
        "the superuser's password can only be changed by the superuser (Account settings)",
    );
    refused(users(&sc, "ann", reset("x"), h()), 400, "no such user");

    let set = |name: &str, role: &str| UsersReq {
        set_role: Some(SetRole {
            username: name.into(),
            role: role.into(),
        }),
        ..users_req()
    };
    let c = users(&sc, "root", set("bob", "admin"), h()).ok().unwrap();
    assert_eq!(c.user("bob").unwrap().role, Role::Admin);
    refused(users(&sc, "ann", set("root", "user"), h()), 403, "the superuser's role is immutable");
    refused(users(&sc, "ann", set("x", "user"), h()), 400, "no such user");
    refused(users(&sc, "ann", set("x", "king"), h()), 400, "role must be \"admin\" or \"user\"");
    refused(
        users(&sc, "ann", users_req(), h()),
        400,
        "send exactly one of add / remove / reset_password / set_role",
    );
}

#[test]
fn ones_own_password_changes_only_when_verified() {
    let sc = store();
    let req = |p: &str| AccountReq {
        current_password: "c".into(),
        new_password: p.into(),
    };
    refused(account_hash(&sc, "bob", &req("short")), 400, "password must be at least 10 characters");
    refused(account_hash(&sc, "gone", &req("long enough")), 401, "your user no longer exists");
    assert!(matches!(account_hash(&sc, "bob", &req("long enough")), Ok(h) if h == "hash-bob"));
    refused(account(&sc, "bob", "hash-bob", false, "n"), 403, "current password is incorrect");
    refused(account(&sc, "gone", "hash-bob", true, "n"), 401, "your user no longer exists");
    refused(
        account(&sc, "bob", "older", true, "n"),
        409,
        "your password was changed while this request was in flight; log in again",
    );
    let c = account(&sc, "bob", "hash-bob", true, "n").ok().unwrap();
    assert_eq!(c.user("bob").unwrap().password_hash, "n");
}

fn setup_req() -> SetupReq {
    SetupReq {
        username: "boss".into(),
        password: "0123456789".into(),
        base_url: Some(" https://new/ ".into()),
        nim_keys: vec![SetupKey {
            key: " fresh ".into(),
            rpm: Some(7),
        }],
        create_client_key: Some(CreateClientKey {
            name: " first ".into(),
        }),
    }
}

fn unclaimed() -> StoredConfig {
    let mut sc = store();
    sc.users.clear();
    sc
}

#[test]
fn setup_claims_the_proxy_once() {
    let sc = unclaimed();
    assert!(boot::setup_required(&sc));
    let claim = match setup_submit(&sc, true, &setup_req(), "hash") {
        Some(Ok(claim)) => claim,
        _ => panic!("expected a claim"),
    };
    let c = claim.candidate;
    assert_eq!(names(&c), ["boss"]);
    assert_eq!(c.users[0].role, Role::Superuser);
    assert_eq!(c.upstream.base_url, "https://new");
    assert_eq!(key_names(&c), ["k-root", "k-bob", "fresh"]);
    assert!(c.upstream.nim_keys.iter().all(|k| k.owner == "boss"));
    assert!(c.client_auth.keys.iter().all(|k| k.owner == "boss"));
    assert_eq!(c.upstream.nim_keys[2].rpm, 7);
    let minted = claim.minted.unwrap();
    assert_eq!(minted.name, "first");
    assert_eq!(c.client_auth.keys[2].secret_sha256, sha256_hex(&minted.secret));
    assert!(!boot::setup_required(&c));

    match setup_with(&c, true, &setup_req(), "hash", "s") {
        Err(SetupDenied::Refused(r)) => assert_eq!((r.status, r.code.as_str()), (409, "already_configured")),
        _ => panic!("the second claim must lose"),
    }
    assert!(matches!(setup_submit(&c, false, &setup_req(), "hash"), Some(Err(SetupDenied::NotFound))));
    let mut weak = setup_req();
    weak.password = "short".into();
    assert!(matches!(setup_check(true, &weak), Err(SetupDenied::Refused(r)) if r.code == "weak_password"));
    assert!(matches!(setup_check(false, &weak), Err(SetupDenied::NotFound)));
    let mut plain = setup_req();
    plain.create_client_key = None;
    plain.base_url = None;
    let c = setup_with(&unclaimed(), true, &plain, "hash", "").ok().unwrap();
    assert_eq!((c.upstream.base_url.as_str(), c.client_auth.keys.len()), ("https://up/", 2));
}

#[test]
fn keys_are_tried_against_the_right_upstream() {
    let sc = store();
    let req = |base: Option<&str>| ValidateKeyReq {
        key: " k ".into(),
        base_url: base.map(str::to_owned),
    };
    let t = setup_validate_key(&sc, true, false, &req(Some("http://a/"))).ok().unwrap();
    assert_eq!((t.base_url.as_str(), t.key.as_str()), ("http://a", "k"));
    let t = setup_validate_key(&sc, true, false, &req(None)).ok().unwrap();
    assert_eq!(t.base_url, "https://up");
    assert!(matches!(setup_validate_key(&sc, false, true, &req(None)), Err(SetupDenied::NotFound)));
    assert!(matches!(setup_validate_key(&sc, true, true, &req(None)), Err(SetupDenied::Refused(r)) if r.status == 429));
    let t = validate_key(&sc, &req(Some("http://elsewhere")));
    assert_eq!(t.base_url, "https://up", "never the one that the request names");
    assert_eq!(invalid_base_url("no").code, "invalid_base_url");
}

#[test]
fn a_candidate_is_committed_whole_or_not_at_all() {
    let mut live = Live::new(store());
    assert_eq!((live.revision, live.pool.len()), (1, 1));
    assert!(matches!(live.pool.reserve(None), Reservation::Ready { .. }));
    let mut cand = store();
    cand.upstream.nim_keys[1].enabled = true;
    cand.history_days = 10;
    let r = live.commit(cand.clone(), Persisted::Rejected("bad".into()));
    assert_eq!(r, Err("bad".to_owned()));
    let r = live.commit(cand.clone(), Persisted::Unwritten("disk".into()));
    assert_eq!(r, Err("cannot write the config store: disk".to_owned()));
    assert_eq!((live.revision, live.pool.len(), live.store.history_days), (1, 1, 30));
    assert_eq!(live.commit(cand.clone(), Persisted::Saved), Ok(true));
    assert_eq!((live.revision, live.pool.len(), live.store.history_days), (2, 2, 10));
    assert_eq!(live.pool.lane_stats()[0].in_window, 1, "the spent slot still counts");
    assert_eq!(live.commit(cand, Persisted::Saved), Ok(false));
    live.revision = u64::MAX;
    assert_eq!(live.commit(store(), Persisted::Saved), Ok(true));
    assert_eq!(live.revision, 0);
}

#[test]
fn a_page_is_cut_to_the_role() {
    let live = Live::new(store());
    let page = api_config(&live.store, "bob", &live.pool).ok().unwrap();
    assert_eq!((page.username.as_str(), page.role, page.mode), ("bob", "user", "keyed"));
    assert!(page.server.is_none() && page.users.is_none());
    assert_eq!(page.nim_keys.len(), 1);
    let row = &page.nim_keys[0];
    assert_eq!((row.owner.as_str(), row.fingerprint.as_str()), ("bob", fingerprint("k-bob").as_str()));
    assert_eq!((row.last4.as_str(), row.lane, row.guarded), ("-bob", None, false));
    assert_eq!((page.client_keys.len(), page.client_keys[0].name.as_str()), (1, "c-bob"));

    let page = api_config(&live.store, "ann", &live.pool).ok().unwrap();
    assert_eq!((page.role, page.enabled, page.capacity_rpm), ("admin", 1, 10));
    assert_eq!((page.nim_keys.len(), page.client_keys.len()), (2, 2));
    let row = &page.nim_keys[0];
    assert_eq!((row.lane, row.in_window, row.cooldown_ms), (Some(0), Some(0), Some(0)));
    assert!(row.guarded && row.enabled, "the superuser's only enabled key");
    assert_eq!(page.server.unwrap().base_url, "https://up/");
    let rows = page.users.unwrap();
    assert_eq!((rows[0].role, rows[2].nim_keys, rows[2].client_keys), ("superuser", 1, 1));
    refused(api_config(&live.store, "gone", &live.pool), 401, "your user no longer exists");
}

#[test]
fn a_key_is_guarded_only_while_it_is_the_only_one() {
    let mut sc = store();
    sc.upstream.nim_keys.push(key("k2", "root", true));
    let live = Live::new(sc);
    let page = api_config(&live.store, "root", &live.pool).ok().unwrap();
    assert!(page.nim_keys.iter().all(|k| !k.guarded));
    assert_eq!(page.role, "superuser");
}

#[test]
fn dashboard_windows_are_resolved() {
    let ask = |from, to, points| api_dashboard(DashboardQuery { from, to, points }, 1_000_000, 7);
    let w = ask(None, None, None).ok().unwrap();
    assert_eq!((w.requested_from, w.requested_to), (395_200, 1_000_000));
    assert!(w.following_now && w.points == 288);
    let w = ask(Some(5), Some(6), Some(1)).ok().unwrap();
    assert_eq!((w.requested_from, w.requested_to, w.following_now, w.points), (5, 6, false, 2));
    assert_eq!(ask(Some(5), Some(6), Some(5000)).ok().unwrap().points, 1000);
    refused(ask(Some(6), Some(6), None), 400, "from must be less than to");
    let w = api_dashboard(DashboardQuery { from: None, to: None, points: None }, 10, u64::MAX);
    assert_eq!(w.ok().unwrap().requested_from, 0);
}

#[test]
fn the_dashboard_shows_how_the_pool_stands() {
    let live = Live::new(store());
    let c = capacity_snapshot(&live.pool);
    assert_eq!((c.enabled_lanes, c.capacity_rpm, c.rpms), (1, 10, vec![10]));
    let now = api_dashboard_now(&live.store, &live.pool, live.revision);
    assert!(now.auth);
    assert_eq!((now.default_window_days, now.retention_days, now.config_revision), (7, 30, 1));
}

#[test]
fn the_environment_is_read_as_told() {
    assert_eq!(boot::env_or(None, "d"), "d");
    assert_eq!(boot::env_or(Some("v".into()), "d"), "v");
    assert!(boot::trust_proxy(Some("true")) && !boot::trust_proxy(Some("1")) && !boot::trust_proxy(None));
    assert_eq!(boot::warn_legacy_env(&Vec::new()), None);
    assert_eq!(
        boot::warn_legacy_env(&vec!["A".into(), "B".into(), "C".into()]).unwrap(),
        "ignoring legacy env vars (A, B, C) — these settings live in the dashboard now"
    );
    let vars = boot::legacy_vars();
    assert_eq!((vars.len(), vars[0], vars[15]), (16, "NIM_API_KEYS", "MAX_INFLIGHT"));
    let args = |a: &[&str]| -> Vec<String> { a.iter().map(|s| s.to_string()).collect() };
    assert!(boot::wants_health(&args(&["nim-proxy", "--health"])));
    assert!(!boot::wants_health(&args(&["nim-proxy", "--healthy"])));
    assert_eq!((boot::probe_port("9000"), boot::probe_port("x"), boot::probe_port("70000")), (9000, 8000, 8000));
    assert_eq!(boot::parse_port("+80"), Some(80));
    assert!(boot::health_probe(b"HTTP/1.1 200 OK") && !boot::health_probe(b"HTTP/1.1 503 No"));
    assert_eq!((boot::sample_interval(0), boot::sample_interval(300)), (1, 300));
    assert!(boot::unix_now() > 1_600_000_000);
    assert_eq!((boot::secs_or_zero(Some(4)), boot::secs_or_zero(None)), (4, 0));
    let epoch = std::time::UNIX_EPOCH;
    let span = std::time::Duration::new(5, 999_999_999);
    assert_eq!((boot::unix_secs(epoch + span), boot::unix_secs(epoch - span)), (5, 0));
    assert_eq!(boot::unix_secs(epoch), 0);
}

#[test]
fn the_posture_is_told() {
    let mut sc = store();
    assert_eq!(boot::lanes_line(&sc), "1 enabled key(s), 10 rpm aggregate");
    assert_eq!(boot::api_auth_line(&sc.runtime()), "keyed (2 client key(s))");
    assert_eq!(boot::dashboard_auth_line(&sc), "session (3 user(s))");
    assert_eq!(
        boot::patience_line(&sc.runtime()),
        "waits up to 60s per request, heartbeat every 5s"
    );
    sc.client_auth.mode = Mode::Open;
    assert_eq!(
        boot::api_auth_line(&sc.runtime()),
        "open (no client keys required — keep this on a trusted network)"
    );
    sc.users.clear();
    assert_eq!(boot::dashboard_auth_line(&sc), "setup wizard (no users yet)");
}

#[test]
fn a_candidate_obeys_the_rules_or_changes_nothing() {
    type Change = fn(&mut StoredConfig);
    let cases: [(Change, Rule); 12] = [
        (|c| c.upstream.nim_keys[0].enabled = false, Rule::PoolFloor),
        (|c| drop(c.upstream.nim_keys.remove(0)), Rule::PoolFloor),
        (|c| c.upstream.nim_keys[0].owner = "bob".into(), Rule::PoolFloor),
        (|c| c.upstream.nim_keys[1].rpm = 0, Rule::KeyBudget),
        (|c| c.users[2].username.clear(), Rule::Username),
        (|c| c.client_auth.keys[1].name.clear(), Rule::ClientName),
        (|c| c.limits.max_wait_secs = 5, Rule::Heartbeat),
        (|c| c.limits.max_wait_secs = 4, Rule::Heartbeat),
        (|c| c.default_window_days = 0, Rule::Window),
        (|c| c.history_days = 6, Rule::Retention),
        (|c| c.governor.overrides.insert("m".into(), 0), Rule::ModelCap),
        (
            |c| {
                c.governor.overrides.insert("a".into(), 3);
                c.governor.overrides.insert("b".into(), 0);
            },
            Rule::ModelCap,
        ),
    ];
    let mut live = Live::new(store());
    for (change, rule) in cases {
        let mut cand = store();
        change(&mut cand);
        assert_eq!(broken(&cand), Some(rule));
        assert_eq!(live.commit(cand, Persisted::Saved), Err(rule.message().to_owned()));
        assert_eq!((live.revision, live.pool.len(), live.store.history_days), (1, 1, 30));
    }
    let fine: [Change; 5] = [
        |c| c.history_days = 7,
        |c| c.history_days = 0,
        |c| c.default_window_days = 1,
        |c| c.governor.overrides.insert("m".into(), 1),
        |c| c.upstream.nim_keys[1].enabled = true,
    ];
    for change in fine {
        let mut cand = store();
        change(&mut cand);
        assert_eq!(broken(&cand), None);
    }
    assert!(Rule::Heartbeat.message().contains("max_wait_secs"));
}

#[test]
fn a_start_needs_a_directory_and_a_store_that_can_be_read() {
    let fresh = || {
        let mut sc = store();
        sc.history_days = 0;
        sc
    };
    let days = |r: Result<StoredConfig, String>| r.map(|sc| sc.history_days);
    let bad = || Err::<(), String>("denied".to_owned());
    assert_eq!(days(boot::start("data", Ok(()), Ok(Some(store())), fresh())), Ok(30));
    assert_eq!(days(boot::start("data", Ok(()), Ok(None), fresh())), Ok(0));
    assert_eq!(
        days(boot::start("data", Ok(()), Err("corrupt".into()), fresh())),
        Err("\nnim-proxy cannot start: corrupt\n".to_owned())
    );
    assert_eq!(
        days(boot::start("data", bad(), Ok(Some(store())), fresh())),
        Err("\nnim-proxy cannot start: DATA_DIR data is not writable (denied).\n\
             The config store (settings, users, keys) persists there.\n"
            .to_owned())
    );
    assert_eq!(
        days(boot::start("", Ok(()), Ok(Some(store())), fresh())),
        Err("DATA_DIR must point at a writable directory (the config store lives there)".to_owned())
    );
    assert!(boot::check_data_dir("data", &Ok(())).is_ok());
    assert!(boot::check_data_dir("data", &bad()).is_err());
}

#[test]
fn a_digest_is_listed_once_under_its_later_name() {
    let mut sc = store();
    let digest = sha256_hex("twice");
    for k in &mut sc.client_auth.keys {
        k.secret_sha256 = digest.clone();
    }
    let cfg = sc.runtime();
    assert_eq!(cfg.clients, Some(vec![(digest, "c-bob".to_owned())]));
    assert_eq!(boot::api_auth_line(&cfg), "keyed (1 client key(s))");
    assert_eq!(identify_client(cfg.clients.as_ref(), Some("Bearer twice")), Some("c-bob".to_owned()));
}
