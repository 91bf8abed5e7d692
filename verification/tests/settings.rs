use nim_proxy::accounts::{apply_password_change, PasswordChangeErr};
use nim_proxy::settings::parse_role;
use nim_proxy::store::{
    ClientAuth, GovernorSettings, Limits, Mode, Role, StoredConfig, Upstream, User,
};

fn empty_store() -> StoredConfig {
    StoredConfig {
        users: Vec::new(),
        upstream: Upstream {
            base_url: "https://upstream.example".into(),
            nim_keys: Vec::new(),
        },
        client_auth: ClientAuth {
            mode: Mode::Keyed,
            keys: Vec::new(),
        },
        limits: Limits {
            max_wait_secs: 60,
            heartbeat_secs: 5,
            models_ttl_secs: 600,
            stream_idle_secs: 300,
            request_timeout_secs: 300,
            max_inflight: 512,
            strict_passthrough: false,
        },
        history_days: 30,
        default_window_days: 30,
        governor: GovernorSettings::default(),
    }
}

fn store_with_user(username: &str, hash: &str) -> StoredConfig {
    let mut sc = empty_store();
    sc.users.push(User {
        username: username.into(),
        password_hash: hash.into(),
        role: Role::User,
    });
    sc
}

#[test]
fn parse_role_maps_admin_and_user_but_never_superuser() {
    assert_eq!(parse_role("admin"), Some(Role::Admin));
    assert_eq!(parse_role("user"), Some(Role::User));
    assert_eq!(parse_role("superuser"), None);
    assert_eq!(parse_role("root"), None);
    assert_eq!(parse_role(""), None);
}

#[test]
fn password_change_applies_when_the_verified_hash_is_current() {
    let mut sc = store_with_user("alice", "old-hash");
    assert_eq!(
        apply_password_change(&mut sc, "alice", "old-hash", "new-hash"),
        Ok(())
    );
    assert_eq!(sc.users[0].password_hash, "new-hash");
}

#[test]
fn password_change_refuses_when_the_hash_rotated_since_verify() {
    let mut sc = store_with_user("alice", "reset-by-admin");
    assert_eq!(
        apply_password_change(&mut sc, "alice", "old-hash", "new-hash"),
        Err(PasswordChangeErr::HashRotated)
    );
    assert_eq!(sc.users[0].password_hash, "reset-by-admin", "unchanged");
}

#[test]
fn password_change_refuses_when_the_user_was_deleted() {
    let mut sc = empty_store();
    assert_eq!(
        apply_password_change(&mut sc, "ghost", "h", "n"),
        Err(PasswordChangeErr::UserGone)
    );
}
