//! Changes to the stored configuration. Every change goes the same way: who
//! asks is looked up in the store, a changed candidate is built, and the
//! candidate is committed, whole or not at all.
use vstd::prelude::*;

use crate::answers::{Refusal, RefusalView};
use crate::request;
use crate::secrets;
use crate::secrets::{fingerprint, last4, mint_client_secret, sha256_hex};
use crate::store;
use crate::store::{
    ClientKey, ClientKeyView, Config, Limits, Mode, NimKey, NimKeyView, Role, StoreView,
    StoredConfig,
};
use crate::text;
use crate::text::{str_eq, trim, trim_url};

verus! {

/// The budget of a key that is added without one.
pub const DEFAULT_RPM: usize = 40;

/// The shortest password, in characters.
pub const MIN_PASSWORD_LEN: usize = 10;

// ---------------------------------------------------------------------------
// Requests
// ---------------------------------------------------------------------------
/// An upstream key given at setup.
pub struct SetupKey {
    pub key: String,
    pub rpm: Option<usize>,
}

/// A client key asked for at setup.
pub struct CreateClientKey {
    pub name: String,
}

/// First-time setup.
pub struct SetupReq {
    pub username: String,
    pub password: String,
    pub base_url: Option<String>,
    pub nim_keys: Vec<SetupKey>,
    /// A first client key, so that the API can be used at once.
    pub create_client_key: Option<CreateClientKey>,
}

/// A key to be tried against the upstream.
pub struct ValidateKeyReq {
    pub key: String,
    pub base_url: Option<String>,
}

pub struct AddNimKey {
    pub key: String,
    pub rpm: Option<usize>,
}

pub struct SetNimKey {
    pub fingerprint: String,
    pub enabled: Option<bool>,
    pub rpm: Option<usize>,
}

/// A change of the upstream keys: exactly one of these.
pub struct NimKeysReq {
    pub add: Option<AddNimKey>,
    /// The fingerprint of a key.
    pub remove: Option<String>,
    pub set: Option<SetNimKey>,
}

pub struct AddClient {
    pub name: String,
}

/// A change of the client keys or of who may use the API: exactly one of these.
pub struct ClientsReq {
    pub add: Option<AddClient>,
    /// The name of a client key.
    pub remove: Option<String>,
    pub mode: Option<String>,
}

/// A change of the upstream.
pub struct UpstreamReq {
    pub base_url: String,
}

/// A change of the limits: all of them.
pub struct LimitsReq {
    pub max_wait_secs: u64,
    pub heartbeat_secs: u64,
    pub models_ttl_secs: u64,
    pub stream_idle_secs: u64,
    pub request_timeout_secs: u64,
    pub max_inflight: usize,
    pub strict_passthrough: bool,
}

/// A change of how much history is kept and shown.
pub struct HistoryReq {
    pub days: u64,
    pub default_window_days: u64,
}

pub struct GovernorOverride {
    pub model: String,
    pub cap: usize,
}

/// A change of the governor: any of these, in this order.
pub struct GovernorReq {
    pub enabled: Option<bool>,
    pub set_override: Option<GovernorOverride>,
    pub remove_override: Option<String>,
}

pub struct AddUser {
    pub username: String,
    pub password: String,
    pub role: String,
}

pub struct ResetPassword {
    pub username: String,
    pub new_password: String,
}

pub struct SetRole {
    pub username: String,
    pub role: String,
}

/// A change of the users: exactly one of these.
pub struct UsersReq {
    pub add: Option<AddUser>,
    /// The name of a user.
    pub remove: Option<String>,
    pub reset_password: Option<ResetPassword>,
    pub set_role: Option<SetRole>,
}

/// A change of one's own password.
pub struct AccountReq {
    pub current_password: String,
    pub new_password: String,
}

// ---------------------------------------------------------------------------
// Refusals
// ---------------------------------------------------------------------------
pub open spec fn stale() -> RefusalView {
    RefusalView {
        status: 401,
        code: "unauthorized"@,
        message: "your user no longer exists"@,
    }
}

pub open spec fn forbid(message: Seq<char>) -> RefusalView {
    RefusalView { status: 403, code: "forbidden"@, message }
}

pub open spec fn invalid(message: Seq<char>) -> RefusalView {
    RefusalView { status: 400, code: "invalid_config"@, message }
}

pub open spec fn weak() -> RefusalView {
    RefusalView {
        status: 400,
        code: "weak_password"@,
        message: "password must be at least 10 characters"@,
    }
}

/// The user who asks was deleted in the meantime.
pub fn stale_session() -> (r: Refusal)
    ensures
        r@ == stale(),
        r.header is None,
{
    Refusal::new(401, "unauthorized", "your user no longer exists")
}

/// The user may not do that.
pub fn forbidden(message: &str) -> (r: Refusal)
    ensures
        r@ == forbid(message@),
        r.header is None,
{
    Refusal::new(403, "forbidden", message)
}

/// The request cannot be carried out.
pub fn bad_request(message: &str) -> (r: Refusal)
    ensures
        r@ == invalid(message@),
        r.header is None,
{
    Refusal::new(400, "invalid_config", message)
}

pub(crate) fn weak_password() -> (r: Refusal)
    ensures
        r@ == weak(),
        r.header is None,
{
    Refusal::new(400, "weak_password", "password must be at least 10 characters")
}

/// The password has too few characters.
pub open spec fn is_weak(password: Seq<char>) -> bool {
    password.len() < MIN_PASSWORD_LEN
}

pub(crate) fn check_password(password: &str) -> (r: bool)
    ensures
        r == is_weak(password@),
{
    password.unicode_len() < MIN_PASSWORD_LEN
}

/// What a change comes to: this candidate, or this refusal.
pub open spec fn comes_to(
    r: Result<StoredConfig, Refusal>,
    v: Result<StoreView, RefusalView>,
) -> bool {
    match v {
        Ok(cand) => r matches Ok(c) && c@ == cand,
        Err(x) => r matches Err(y) && y@ == x && y.header is None,
    }
}

// ---------------------------------------------------------------------------
// Who asks
// ---------------------------------------------------------------------------
/// The role of a user.
pub open spec fn role_in(s: StoreView, username: Seq<char>) -> Option<Role> {
    match store::user_named(s.users, username) {
        Some(u) => Some(u.role),
        None => None,
    }
}

/// The role of who asks, if there still is such a user.
pub fn role_of(sc: &StoredConfig, username: &str) -> (r: Option<Role>)
    ensures
        r == role_in(sc@, username@),
{
    match sc.user(username) {
        Some(u) => Some(u.role),
        None => None,
    }
}

/// Why a user may not manage the server, if they may not.
pub open spec fn not_admin(s: StoreView, username: Seq<char>, why: Seq<char>) -> Option<
    RefusalView,
> {
    match role_in(s, username) {
        Some(role) => if store::manages(role) {
            None
        } else {
            Some(forbid(why))
        },
        None => Some(stale()),
    }
}

/// Turns away who may not manage the server.
pub fn require_admin(sc: &StoredConfig, username: &str, why: &str) -> (r: Result<(), Refusal>)
    ensures
        match not_admin(sc@, username@, why@) {
            Some(x) => r matches Err(y) && y@ == x && y.header is None,
            None => r is Ok,
        },
{
    match role_of(sc, username) {
        Some(role) => if role.is_admin() {
            Ok(())
        } else {
            Err(forbidden(why))
        },
        None => Err(stale_session()),
    }
}

/// The role that a name stands for; there is no name for the superuser's.
pub open spec fn role_named(s: Seq<char>) -> Option<Role> {
    if s == "admin"@ {
        Some(Role::Admin)
    } else if s == "user"@ {
        Some(Role::User)
    } else {
        None
    }
}

/// The role that a name stands for.
pub fn parse_role(s: &str) -> (r: Option<Role>)
    ensures
        r == role_named(s@),
{
    if str_eq(s, "admin") {
        Some(Role::Admin)
    } else if str_eq(s, "user") {
        Some(Role::User)
    } else {
        None
    }
}

// ---------------------------------------------------------------------------
// Upstream keys
// ---------------------------------------------------------------------------
/// The fingerprints of upstream keys.
pub open spec fn fingerprints(keys: Seq<NimKeyView>) -> Seq<Seq<char>> {
    Seq::new(keys.len(), |i: int| secrets::fingerprint_of(keys[i].key))
}

/// A budget, or the default one.
pub open spec fn rpm_or_default(rpm: Option<usize>) -> usize {
    match rpm {
        Some(n) => n,
        None => DEFAULT_RPM,
    }
}

/// A key with some of its settings changed.
pub open spec fn key_set(k: NimKeyView, enabled: Option<bool>, rpm: Option<usize>) -> NimKeyView {
    NimKeyView {
        enabled: match enabled {
            Some(e) => e,
            None => k.enabled,
        },
        rpm: match rpm {
            Some(n) => n,
            None => k.rpm,
        },
        ..k
    }
}

/// What a change of the upstream keys comes to. Any user may add keys and
/// manage their own; admins manage any.
pub open spec fn nim_keys_change(s: StoreView, username: Seq<char>, req: NimKeysReq) -> Result<
    StoreView,
    RefusalView,
> {
    match role_in(s, username) {
        None => Err(stale()),
        Some(role) => match (req.add, req.remove, req.set) {
            (Some(add), None, None) => Ok(
                StoreView {
                    nim_keys: s.nim_keys.push(
                        NimKeyView {
                            key: text::trimmed(add.key@),
                            owner: username,
                            enabled: true,
                            rpm: rpm_or_default(add.rpm),
                        },
                    ),
                    ..s
                },
            ),
            (None, Some(fp), None) => {
                let i = store::position(fingerprints(s.nim_keys), fp@);
                if i >= s.nim_keys.len() {
                    Err(invalid("no such key"@))
                } else if !store::manages(role) && s.nim_keys[i].owner != username {
                    Err(forbid("you can only remove your own keys"@))
                } else {
                    Ok(StoreView { nim_keys: s.nim_keys.remove(i), ..s })
                }
            },
            (None, None, Some(set)) => {
                let i = store::position(fingerprints(s.nim_keys), set.fingerprint@);
                if i >= s.nim_keys.len() {
                    Err(invalid("no such key"@))
                } else if !store::manages(role) && s.nim_keys[i].owner != username {
                    Err(forbid("you can only change your own keys"@))
                } else {
                    Ok(
                        StoreView {
                            nim_keys: s.nim_keys.update(
                                i,
                                key_set(s.nim_keys[i], set.enabled, set.rpm),
                            ),
                            ..s
                        },
                    )
                }
            },
            _ => Err(invalid("send exactly one of add / remove / set"@)),
        },
    }
}

/// The index of the first upstream key with a fingerprint.
fn find_key(keys: &Vec<NimKey>, fp: &str) -> (r: Option<usize>)
    ensures
        match r {
            Some(i) => i < keys@.len() && i == store::position(
                fingerprints(store::nim_keys_view(keys@)),
                fp@,
            ),
            None => store::position(fingerprints(store::nim_keys_view(keys@)), fp@)
                == keys@.len(),
        },
{
    let ghost names = fingerprints(store::nim_keys_view(keys@));
    let mut i: usize = 0;
    assert(names.skip(0) =~= names);
    while i < keys.len()
        invariant
            i <= keys@.len(),
            names == fingerprints(store::nim_keys_view(keys@)),
            store::position(names, fp@) == i + store::position(names.skip(i as int), fp@),
        decreases keys.len() - i,
    {
        let name = fingerprint(keys[i].key.as_str());
        if str_eq(name.as_str(), fp) {
            return Some(i);
        }
        assert(names.skip(i as int).drop_first() =~= names.skip(i + 1));
        i += 1;
    }
    None
}

/// A changed candidate for a change of the upstream keys.
pub fn nim_keys(sc: &StoredConfig, username: &str, req: NimKeysReq) -> (r: Result<
    StoredConfig,
    Refusal,
>)
    ensures
        comes_to(r, nim_keys_change(sc@, username@, req)),
{
    let role = match role_of(sc, username) {
        Some(role) => role,
        None => return Err(stale_session()),
    };
    let mut cand = sc.clone();
    match (req.add, req.remove, req.set) {
        (Some(add), None, None) => {
            let ghost before = cand.upstream.nim_keys@;
            let rpm: usize = match add.rpm {
                Some(n) => n,
                None => DEFAULT_RPM,
            };
            let key = NimKey {
                key: trim(add.key.as_str()),
                owner: username.to_owned(),
                enabled: true,
                rpm,
            };
            cand.upstream.nim_keys.push(key);
            assert(store::nim_keys_view(cand.upstream.nim_keys@) =~= store::nim_keys_view(
                before,
            ).push(key@));
        },
        (None, Some(fp), None) => match find_key(&cand.upstream.nim_keys, fp.as_str()) {
            Some(i) => {
                if !role.is_admin() && !str_eq(cand.upstream.nim_keys[i].owner.as_str(), username) {
                    return Err(forbidden("you can only remove your own keys"));
                }
                let ghost before = cand.upstream.nim_keys@;
                let _ = cand.upstream.nim_keys.remove(i);
                assert(store::nim_keys_view(cand.upstream.nim_keys@) =~= store::nim_keys_view(
                    before,
                ).remove(i as int));
            },
            None => return Err(bad_request("no such key")),
        },
        (None, None, Some(set)) => match find_key(
            &cand.upstream.nim_keys,
            set.fingerprint.as_str(),
        ) {
            Some(i) => {
                if !role.is_admin() && !str_eq(cand.upstream.nim_keys[i].owner.as_str(), username) {
                    return Err(forbidden("you can only change your own keys"));
                }
                let ghost before = cand.upstream.nim_keys@;
                if let Some(e) = set.enabled {
                    cand.upstream.nim_keys[i].enabled = e;
                }
                if let Some(n) = set.rpm {
                    cand.upstream.nim_keys[i].rpm = n;
                }
                assert(store::nim_keys_view(cand.upstream.nim_keys@) =~= store::nim_keys_view(
                    before,
                ).update(i as int, key_set(before[i as int]@, set.enabled, set.rpm)));
            },
            None => return Err(bad_request("no such key")),
        },
        _ => return Err(bad_request("send exactly one of add / remove / set")),
    }
    Ok(cand)
}

// ---------------------------------------------------------------------------
// Client keys
// ---------------------------------------------------------------------------
/// The names of client keys.
pub open spec fn client_names(keys: Seq<ClientKeyView>) -> Seq<Seq<char>> {
    Seq::new(keys.len(), |i: int| keys[i].name)
}

/// The client key with a name and a secret: of the secret only the digest and
/// the last four characters are kept.
pub open spec fn client_key(name: Seq<char>, secret: Seq<char>, owner: Seq<char>) -> ClientKeyView {
    ClientKeyView {
        name: text::trimmed(name),
        secret_sha256: secrets::digest_of(secret),
        last4: secrets::tail4(secret),
        owner,
    }
}

/// Who may use the API, by name.
pub open spec fn mode_named(s: Seq<char>) -> Option<Mode> {
    if s == "open"@ {
        Some(Mode::Open)
    } else if s == "keyed"@ {
        Some(Mode::Keyed)
    } else {
        None
    }
}

/// A request that mints a secret.
pub open spec fn mints(req: ClientsReq) -> bool {
    req.add is Some && req.remove is None && req.mode is None
}

/// What a change of the client keys comes to, where `secret` is the secret of
/// an added one. Any user may add keys and revoke their own; admins revoke any,
/// and they alone say who may use the API.
pub open spec fn clients_change(
    s: StoreView,
    username: Seq<char>,
    req: ClientsReq,
    secret: Seq<char>,
) -> Result<StoreView, RefusalView> {
    match role_in(s, username) {
        None => Err(stale()),
        Some(role) => match (req.add, req.remove, req.mode) {
            (Some(add), None, None) => Ok(
                StoreView {
                    client_keys: s.client_keys.push(client_key(add.name@, secret, username)),
                    ..s
                },
            ),
            (None, Some(name), None) => {
                let i = store::position(client_names(s.client_keys), name@);
                if i >= s.client_keys.len() {
                    Err(invalid("no such client key"@))
                } else if !store::manages(role) && s.client_keys[i].owner != username {
                    Err(forbid("you can only revoke your own client keys"@))
                } else {
                    Ok(StoreView { client_keys: s.client_keys.remove(i), ..s })
                }
            },
            (None, None, Some(mode)) => if !store::manages(role) {
                Err(forbid("changing the API access mode requires an admin"@))
            } else {
                match mode_named(mode@) {
                    Some(m) => Ok(StoreView { mode: m, ..s }),
                    None => Err(invalid("mode must be \"open\" or \"keyed\""@)),
                }
            },
            _ => Err(invalid("send exactly one of add / remove / mode"@)),
        },
    }
}

/// The index of the first client key with a name.
fn find_client(keys: &Vec<ClientKey>, name: &str) -> (r: Option<usize>)
    ensures
        match r {
            Some(i) => i < keys@.len() && i == store::position(
                client_names(store::client_keys_view(keys@)),
                name@,
            ),
            None => store::position(client_names(store::client_keys_view(keys@)), name@)
                == keys@.len(),
        },
{
    let ghost names = client_names(store::client_keys_view(keys@));
    let mut i: usize = 0;
    assert(names.skip(0) =~= names);
    while i < keys.len()
        invariant
            i <= keys@.len(),
            names == client_names(store::client_keys_view(keys@)),
            store::position(names, name@) == i + store::position(names.skip(i as int), name@),
        decreases keys.len() - i,
    {
        if str_eq(keys[i].name.as_str(), name) {
            return Some(i);
        }
        assert(names.skip(i as int).drop_first() =~= names.skip(i + 1));
        i += 1;
    }
    None
}

/// The client key with a name and a secret.
pub fn keyed_client(name: &str, secret: &str, owner: &str) -> (r: ClientKey)
    ensures
        r@ == client_key(name@, secret@, owner@),
{
    ClientKey {
        name: trim(name),
        secret_sha256: sha256_hex(secret),
        last4: last4(secret),
        owner: owner.to_owned(),
    }
}

/// A changed candidate for a change of the client keys, where `secret` is the
/// secret of an added one.
pub fn clients_with(sc: &StoredConfig, username: &str, req: ClientsReq, secret: &str) -> (r: Result<
    StoredConfig,
    Refusal,
>)
    ensures
        comes_to(r, clients_change(sc@, username@, req, secret@)),
{
    let role = match role_of(sc, username) {
        Some(role) => role,
        None => return Err(stale_session()),
    };
    let mut cand = sc.clone();
    match (req.add, req.remove, req.mode) {
        (Some(add), None, None) => {
            let ghost before = cand.client_auth.keys@;
            let key = keyed_client(add.name.as_str(), secret, username);
            cand.client_auth.keys.push(key);
            assert(store::client_keys_view(cand.client_auth.keys@) =~= store::client_keys_view(
                before,
            ).push(key@));
        },
        (None, Some(name), None) => match find_client(&cand.client_auth.keys, name.as_str()) {
            Some(i) => {
                if !role.is_admin() && !str_eq(cand.client_auth.keys[i].owner.as_str(), username) {
                    return Err(forbidden("you can only revoke your own client keys"));
                }
                let ghost before = cand.client_auth.keys@;
                let _ = cand.client_auth.keys.remove(i);
                assert(store::client_keys_view(cand.client_auth.keys@) =~= store::client_keys_view(
                    before,
                ).remove(i as int));
            },
            None => return Err(bad_request("no such client key")),
        },
        (None, None, Some(mode)) => {
            if !role.is_admin() {
                return Err(forbidden("changing the API access mode requires an admin"));
            }
            if str_eq(mode.as_str(), "open") {
                cand.client_auth.mode = Mode::Open;
            } else if str_eq(mode.as_str(), "keyed") {
                cand.client_auth.mode = Mode::Keyed;
            } else {
                return Err(bad_request("mode must be \"open\" or \"keyed\""));
            }
        },
        _ => return Err(bad_request("send exactly one of add / remove / mode")),
    }
    Ok(cand)
}

/// What a change of the client keys comes to.
pub struct ClientsChange {
    pub candidate: Result<StoredConfig, Refusal>,
    /// The secret of an added client key; it is shown this once and not kept.
    pub secret: Option<String>,
}

/// A changed candidate for a change of the client keys, with a fresh secret for
/// an added one; nothing when there is no randomness to make a secret of.
pub fn clients(sc: &StoredConfig, username: &str, req: ClientsReq) -> (r: Option<ClientsChange>)
    ensures
        match r {
            Some(c) => {
                &&& c.secret is Some <==> mints(req) && role_in(sc@, username@) is Some
                &&& exists|bytes: Seq<u8>|
                    bytes.len() == secrets::SECRET_BYTES && comes_to(
                        c.candidate,
                        clients_change(sc@, username@, req, #[trigger] secrets::secret_of(bytes)),
                    ) && (c.secret matches Some(s) ==> s@ == secrets::secret_of(bytes))
            },
            None => mints(req) && role_in(sc@, username@) is Some,
        },
{
    let minting: bool = req.add.is_some() && req.remove.is_none() && req.mode.is_none();
    if minting && role_of(sc, username).is_some() {
        match mint_client_secret() {
            Some(secret) => {
                let candidate = clients_with(sc, username, req, secret.as_str());
                Some(ClientsChange { candidate, secret: Some(secret) })
            },
            None => None,
        }
    } else {
        let candidate = clients_with(sc, username, req, "");
        proof {
            let bytes = Seq::new(secrets::SECRET_BYTES as nat, |i: int| 0u8);
            assert(clients_change(sc@, username@, req, ""@) == clients_change(
                sc@,
                username@,
                req,
                secrets::secret_of(bytes),
            ));
        }
        Some(ClientsChange { candidate, secret: None })
    }
}

// ---------------------------------------------------------------------------
// Server settings
// ---------------------------------------------------------------------------
/// What an admin's change of server settings comes to.
pub open spec fn server_change(s: StoreView, username: Seq<char>, changed: StoreView) -> Result<
    StoreView,
    RefusalView,
> {
    match not_admin(s, username, "server settings require an admin"@) {
        Some(x) => Err(x),
        None => Ok(changed),
    }
}

/// A changed candidate for another upstream. What was learned of the old one
/// (its model catalog, and which models reject the usage option) does not hold
/// of the new one.
pub fn upstream(sc: &StoredConfig, username: &str, req: UpstreamReq) -> (r: Result<
    StoredConfig,
    Refusal,
>)
    ensures
        comes_to(
            r,
            server_change(
                sc@,
                username@,
                (StoreView { base_url: text::trimmed_url(req.base_url@), ..sc@ }),
            ),
        ),
{
    match require_admin(sc, username, "server settings require an admin") {
        Ok(_) => {
            let mut cand = sc.clone();
            cand.upstream.base_url = trim_url(req.base_url.as_str());
            Ok(cand)
        },
        Err(x) => Err(x),
    }
}

/// A changed candidate for other limits.
pub fn limits(sc: &StoredConfig, username: &str, req: LimitsReq) -> (r: Result<
    StoredConfig,
    Refusal,
>)
    ensures
        comes_to(
            r,
            server_change(
                sc@,
                username@,
                (StoreView {
                    limits: Limits {
                        max_wait_secs: req.max_wait_secs,
                        heartbeat_secs: req.heartbeat_secs,
                        models_ttl_secs: req.models_ttl_secs,
                        stream_idle_secs: req.stream_idle_secs,
                        request_timeout_secs: req.request_timeout_secs,
                        max_inflight: req.max_inflight,
                        strict_passthrough: req.strict_passthrough,
                    },
                    ..sc@
                }),
            ),
        ),
{
    match require_admin(sc, username, "server settings require an admin") {
        Ok(_) => {
            let mut cand = sc.clone();
            cand.limits = Limits {
                max_wait_secs: req.max_wait_secs,
                heartbeat_secs: req.heartbeat_secs,
                models_ttl_secs: req.models_ttl_secs,
                stream_idle_secs: req.stream_idle_secs,
                request_timeout_secs: req.request_timeout_secs,
                max_inflight: req.max_inflight,
                strict_passthrough: req.strict_passthrough,
            };
            Ok(cand)
        },
        Err(x) => Err(x),
    }
}

/// A changed candidate for how much history is kept and shown.
pub fn history(sc: &StoredConfig, username: &str, req: HistoryReq) -> (r: Result<
    StoredConfig,
    Refusal,
>)
    ensures
        comes_to(
            r,
            server_change(
                sc@,
                username@,
                (StoreView {
                    history_days: req.days,
                    default_window_days: req.default_window_days,
                    ..sc@
                }),
            ),
        ),
{
    match require_admin(sc, username, "server settings require an admin") {
        Ok(_) => {
            let mut cand = sc.clone();
            cand.history_days = req.days;
            cand.default_window_days = req.default_window_days;
            Ok(cand)
        },
        Err(x) => Err(x),
    }
}

/// The caps after a change of the governor.
pub open spec fn overrides_after(m: Map<Seq<char>, usize>, req: GovernorReq) -> Map<
    Seq<char>,
    usize,
> {
    let set = match req.set_override {
        Some(o) => m.insert(o.model@, o.cap),
        None => m,
    };
    match req.remove_override {
        Some(model) => set.remove(model@),
        None => set,
    }
}

/// A changed candidate for other settings of the governor.
pub fn governor_cfg(sc: &StoredConfig, username: &str, req: GovernorReq) -> (r: Result<
    StoredConfig,
    Refusal,
>)
    ensures
        comes_to(
            r,
            server_change(
                sc@,
                username@,
                (StoreView {
                    governor_enabled: match req.enabled {
                        Some(e) => e,
                        None => sc@.governor_enabled,
                    },
                    overrides: overrides_after(sc@.overrides, req),
                    ..sc@
                }),
            ),
        ),
{
    match require_admin(sc, username, "server settings require an admin") {
        Ok(_) => {
            let mut cand = sc.clone();
            if let Some(e) = req.enabled {
                cand.governor.enabled = e;
            }
            if let Some(o) = req.set_override {
                cand.governor.overrides.insert(o.model, o.cap);
            }
            if let Some(model) = req.remove_override {
                cand.governor.overrides.remove(model.as_str());
            }
            Ok(cand)
        },
        Err(x) => Err(x),
    }
}

// ---------------------------------------------------------------------------
// Laws
// ---------------------------------------------------------------------------
/// The upstream keys of one owner, in order.
pub open spec fn owned_keys(keys: Seq<NimKeyView>, owner: Seq<char>) -> Seq<NimKeyView>
    decreases keys.len(),
{
    if keys.len() == 0 {
        Seq::empty()
    } else {
        let rest = owned_keys(keys.drop_last(), owner);
        if keys.last().owner == owner {
            rest.push(keys.last())
        } else {
            rest
        }
    }
}

/// The client keys of one owner, in order.
pub open spec fn owned_clients(keys: Seq<ClientKeyView>, owner: Seq<char>) -> Seq<ClientKeyView>
    decreases keys.len(),
{
    if keys.len() == 0 {
        Seq::empty()
    } else {
        let rest = owned_clients(keys.drop_last(), owner);
        if keys.last().owner == owner {
            rest.push(keys.last())
        } else {
            rest
        }
    }
}

proof fn owned_keys_split(a: Seq<NimKeyView>, b: Seq<NimKeyView>, owner: Seq<char>)
    ensures
        owned_keys(a + b, owner) == owned_keys(a, owner) + owned_keys(b, owner),
    decreases b.len(),
{
    if b.len() > 0 {
        assert((a + b).drop_last() =~= a + b.drop_last());
        owned_keys_split(a, b.drop_last(), owner);
        assert(owned_keys(a + b, owner) =~= owned_keys(a, owner) + owned_keys(b, owner));
    } else {
        assert(a + b =~= a);
        assert(owned_keys(a, owner) + owned_keys(b, owner) =~= owned_keys(a, owner));
    }
}

proof fn owned_clients_split(a: Seq<ClientKeyView>, b: Seq<ClientKeyView>, owner: Seq<char>)
    ensures
        owned_clients(a + b, owner) == owned_clients(a, owner) + owned_clients(b, owner),
    decreases b.len(),
{
    if b.len() > 0 {
        assert((a + b).drop_last() =~= a + b.drop_last());
        owned_clients_split(a, b.drop_last(), owner);
        assert(owned_clients(a + b, owner) =~= owned_clients(a, owner) + owned_clients(b, owner));
    } else {
        assert(a + b =~= a);
        assert(owned_clients(a, owner) + owned_clients(b, owner) =~= owned_clients(a, owner));
    }
}

proof fn one_key(k: NimKeyView, owner: Seq<char>)
    requires
        k.owner != owner,
    ensures
        owned_keys(seq![k], owner) == Seq::<NimKeyView>::empty(),
{
    reveal_with_fuel(owned_keys, 2);
}

proof fn one_client(k: ClientKeyView, owner: Seq<char>)
    requires
        k.owner != owner,
    ensures
        owned_clients(seq![k], owner) == Seq::<ClientKeyView>::empty(),
{
    reveal_with_fuel(owned_clients, 2);
}

/// Without admin rights a user can change no key but their own, and nothing
/// else of the store: the keys of everyone else stay as they are.
pub proof fn a_user_manages_only_own_keys(
    s: StoreView,
    username: Seq<char>,
    req: NimKeysReq,
    owner: Seq<char>,
)
    requires
        role_in(s, username) == Some(Role::User),
        nim_keys_change(s, username, req) is Ok,
        owner != username,
    ensures
        owned_keys(nim_keys_change(s, username, req)->Ok_0.nim_keys, owner) == owned_keys(
            s.nim_keys,
            owner,
        ),
        nim_keys_change(s, username, req)->Ok_0 == (StoreView {
            nim_keys: nim_keys_change(s, username, req)->Ok_0.nim_keys,
            ..s
        }),
{
    let c = nim_keys_change(s, username, req)->Ok_0;
    let keys = s.nim_keys;
    match (req.add, req.remove, req.set) {
        (Some(add), None, None) => {
            assert(c.nim_keys.drop_last() =~= keys);
        },
        (None, Some(fp), None) => {
            let i = store::position(fingerprints(keys), fp@);
            store::position_is_first(fingerprints(keys), fp@);
            let a = keys.take(i);
            let b = keys.skip(i + 1);
            assert(keys =~= a + seq![keys[i]] + b);
            assert(c.nim_keys =~= a + b);
            owned_keys_split(a + seq![keys[i]], b, owner);
            owned_keys_split(a, seq![keys[i]], owner);
            owned_keys_split(a, b, owner);
            one_key(keys[i], owner);
            assert(owned_keys(a, owner) + Seq::<NimKeyView>::empty() =~= owned_keys(a, owner));
        },
        (None, None, Some(set)) => {
            let i = store::position(fingerprints(keys), set.fingerprint@);
            store::position_is_first(fingerprints(keys), set.fingerprint@);
            let a = keys.take(i);
            let b = keys.skip(i + 1);
            assert(keys =~= a + seq![keys[i]] + b);
            assert(c.nim_keys =~= a + seq![c.nim_keys[i]] + b);
            owned_keys_split(a + seq![keys[i]], b, owner);
            owned_keys_split(a, seq![keys[i]], owner);
            owned_keys_split(a + seq![c.nim_keys[i]], b, owner);
            owned_keys_split(a, seq![c.nim_keys[i]], owner);
            one_key(keys[i], owner);
            one_key(c.nim_keys[i], owner);
        },
        _ => {},
    }
}

/// Without admin rights a user can revoke no client key but their own, and
/// change nothing else of the store: the client keys of everyone else stay.
pub proof fn a_user_manages_only_own_clients(
    s: StoreView,
    username: Seq<char>,
    req: ClientsReq,
    secret: Seq<char>,
    owner: Seq<char>,
)
    requires
        role_in(s, username) == Some(Role::User),
        clients_change(s, username, req, secret) is Ok,
        owner != username,
    ensures
        owned_clients(clients_change(s, username, req, secret)->Ok_0.client_keys, owner)
            == owned_clients(s.client_keys, owner),
        clients_change(s, username, req, secret)->Ok_0 == (StoreView {
            client_keys: clients_change(s, username, req, secret)->Ok_0.client_keys,
            ..s
        }),
{
    let c = clients_change(s, username, req, secret)->Ok_0;
    let keys = s.client_keys;
    match (req.add, req.remove, req.mode) {
        (Some(add), None, None) => {
            assert(c.client_keys.drop_last() =~= keys);
        },
        (None, Some(name), None) => {
            let i = store::position(client_names(keys), name@);
            store::position_is_first(client_names(keys), name@);
            let a = keys.take(i);
            let b = keys.skip(i + 1);
            assert(keys =~= a + seq![keys[i]] + b);
            assert(c.client_keys =~= a + b);
            owned_clients_split(a + seq![keys[i]], b, owner);
            owned_clients_split(a, seq![keys[i]], owner);
            owned_clients_split(a, b, owner);
            one_client(keys[i], owner);
            assert(owned_clients(a, owner) + Seq::<ClientKeyView>::empty() =~= owned_clients(
                a,
                owner,
            ));
        },
        _ => {},
    }
}

/// Server settings change only for admins.
pub proof fn server_settings_are_for_admins(s: StoreView, username: Seq<char>, changed: StoreView)
    ensures
        server_change(s, username, changed) is Ok <==> (role_in(s, username) matches Some(role)
            && store::manages(role)),
        role_in(s, username) is None ==> server_change(s, username, changed)
            == Err::<StoreView, RefusalView>(stale()),
{
}

/// A minted secret opens the door: once a client key is added, a request that
/// presents its secret is taken for that client.
pub proof fn a_minted_secret_is_recognised(
    s: StoreView,
    username: Seq<char>,
    req: ClientsReq,
    secret: Seq<char>,
    config: Config,
)
    requires
        mints(req),
        clients_change(s, username, req, secret) is Ok,
        s.mode == Mode::Keyed,
        store::is_runtime(config, clients_change(s, username, req, secret)->Ok_0),
    ensures
        request::client_of(
            Some(config.clients->0@),
            Some("Bearer "@ + secret),
        ) == Some(text::trimmed(req.add->0.name@)),
{
    let c = clients_change(s, username, req, secret)->Ok_0;
    let header = "Bearer "@ + secret;
    assert(header.subrange(0, "Bearer "@.len() as int) =~= "Bearer "@);
    assert(header.skip("Bearer "@.len() as int) =~= secret);
    assert(c.client_keys.last().secret_sha256 == secrets::digest_of(secret));
    request::a_name_is_looked_up(config.clients->0@, secrets::digest_of(secret));
}

/// A secret that no kept client key has is refused, whoever presents it; with
/// no client keys at all, every secret is.
pub proof fn an_unknown_secret_is_refused(s: StoreView, secret: Seq<char>, config: Config)
    requires
        s.mode == Mode::Keyed,
        store::is_runtime(config, s),
        forall|i: int|
            0 <= i < s.client_keys.len() ==> (#[trigger] s.client_keys[i]).secret_sha256
                != secrets::digest_of(secret),
    ensures
        request::client_of(Some(config.clients->0@), Some("Bearer "@ + secret)) is None,
{
    let digest = secrets::digest_of(secret);
    let header = "Bearer "@ + secret;
    assert(header.subrange(0, "Bearer "@.len() as int) =~= "Bearer "@);
    assert(header.skip("Bearer "@.len() as int) =~= secret);
    store::named_clients(s.client_keys, digest);
    request::a_name_is_looked_up(config.clients->0@, digest);
}

/// Everything of a store but its upstream keys is the same.
pub open spec fn same_but_keys(a: StoredConfig, b: StoredConfig) -> bool {
    &&& b@.users == a@.users
    &&& b@.base_url == a@.base_url
    &&& b@.mode == a@.mode
    &&& b@.client_keys == a@.client_keys
    &&& b@.limits == a@.limits
    &&& b@.history_days == a@.history_days
    &&& b@.default_window_days == a@.default_window_days
    &&& b@.governor_enabled == a@.governor_enabled
    &&& b@.overrides == a@.overrides
}

/// Everything of a store but its client keys and who may use the API is the same.
pub open spec fn same_but_clients(a: StoredConfig, b: StoredConfig) -> bool {
    &&& b@.users == a@.users
    &&& b@.base_url == a@.base_url
    &&& b@.nim_keys == a@.nim_keys
    &&& b@.limits == a@.limits
    &&& b@.history_days == a@.history_days
    &&& b@.default_window_days == a@.default_window_days
    &&& b@.governor_enabled == a@.governor_enabled
    &&& b@.overrides == a@.overrides
}

/// The refusal is this one.
pub open spec fn refused(
    r: Result<StoredConfig, Refusal>,
    status: u16,
    code: Seq<char>,
    message: Seq<char>,
) -> bool {
    r matches Err(x) && x.status == status && x.code@ == code && x.message@ == message
        && x.header is None
}

/// Whoever asks is a user of the store, the first one with that name, with this
/// role.
pub open spec fn asks_as(sc: StoredConfig, username: Seq<char>, role: Role) -> bool {
    exists|i: int|
        0 <= i < sc.users@.len() && (#[trigger] sc.users@[i]).username@ == username
            && sc.users@[i].role == role && (forall|j: int|
            0 <= j < i ==> (#[trigger] sc.users@[j]).username@ != username)
}

/// No user of the store has this name.
pub open spec fn nobody(sc: StoredConfig, username: Seq<char>) -> bool {
    forall|i: int| 0 <= i < sc.users@.len() ==> (#[trigger] sc.users@[i]).username@ != username
}

/// Who asks is looked up in the store.
pub proof fn whoever_asks_is_looked_up(
    sc: &StoredConfig,
    username: &str,
    role: Option<Role>,
)
    requires
        call_ensures(role_of, (sc, username), role),
    ensures
        role matches Some(x) ==> asks_as(*sc, username@, x),
        role is None ==> nobody(*sc, username@),
        forall|x: Role| #[trigger] asks_as(*sc, username@, x) ==> role == Some(x),
        nobody(*sc, username@) ==> role is None,
{
    looked_up(*sc, username@);
}

proof fn looked_up(sc: StoredConfig, username: Seq<char>)
    ensures
        role_in(sc@, username) matches Some(x) ==> asks_as(sc, username, x),
        role_in(sc@, username) is None ==> nobody(sc, username),
        forall|x: Role| #[trigger] asks_as(sc, username, x) ==> role_in(sc@, username) == Some(x),
        nobody(sc, username) ==> role_in(sc@, username) is None,
{
    let names = store::usernames(sc@.users);
    let p = store::position(names, username);
    store::position_is_first(names, username);
    assert forall|j: int| 0 <= j < sc.users@.len() implies names[j] == (
    #[trigger] sc.users@[j]).username@ by {}
    assert forall|j: int| 0 <= j < p implies (#[trigger] sc.users@[j]).username@ != username by {
        assert(names[j] != username);
    }
    if p < names.len() {
        assert(names[p] == username);
        assert(sc.users@[p].username@ == username);
    }
    assert forall|x: Role| #[trigger] asks_as(sc, username, x) implies role_in(sc@, username)
        == Some(x) by {
        let i = choose|i: int|
            0 <= i < sc.users@.len() && (#[trigger] sc.users@[i]).username@ == username
                && sc.users@[i].role == x && (forall|j: int|
                0 <= j < i ==> (#[trigger] sc.users@[j]).username@ != username);
        if i < p {
            assert(sc.users@[i].username@ != username);
        }
        if p < i {
            assert(sc.users@[p].username@ != username);
        }
    }
}

/// A key that is added comes last: enabled, owned by whoever asks, with its text
/// trimmed, and with the budget that the request names, whatever that is. Only
/// where the request names none is the budget forty. Every key that was there
/// stays, in its place, and nothing else changes.
pub proof fn an_added_key_has_the_budget_it_was_given(
    sc: &StoredConfig,
    username: &str,
    req: NimKeysReq,
    r: Result<StoredConfig, Refusal>,
    bare: String,
    key: &str,
    i: int,
)
    requires
        call_ensures(nim_keys, (sc, username, req), r),
        req.add is Some && req.remove is None && req.set is None,
        key@ == req.add->0.key@,
        call_ensures(trim, (key,), bare),
    ensures
        r is Ok <==> !nobody(*sc, username@),
        r is Err ==> refused(r, 401, "unauthorized"@, "your user no longer exists"@),
        r matches Ok(c) ==> {
            let keys = c.upstream.nim_keys@;
            let before = sc.upstream.nim_keys@;
            &&& keys.len() == before.len() + 1
            &&& keys.last().key@ == bare@
            &&& keys.last().owner@ == username@
            &&& keys.last().enabled
            &&& req.add->0.rpm matches Some(n) ==> keys.last().rpm == n
            &&& req.add->0.rpm is None ==> keys.last().rpm == 40
            &&& 0 <= i < before.len() ==> keys[i]@ == before[i]@
            &&& same_but_keys(*sc, c)
        },
{
    looked_up(*sc, username@);
    if let Ok(c) = r {
        assert(c@.nim_keys.len() == sc@.nim_keys.len() + 1);
        assert(c@.nim_keys.last() == c.upstream.nim_keys@.last()@);
        if 0 <= i < sc.upstream.nim_keys@.len() {
            assert(c@.nim_keys[i] == c.upstream.nim_keys@[i]@);
            assert(sc@.nim_keys[i] == sc.upstream.nim_keys@[i]@);
        }
    }
}

/// The key with index `i` is the first one with this fingerprint.
pub open spec fn first_with(keys: Seq<NimKey>, fp: Seq<char>, i: int) -> bool {
    &&& 0 <= i < keys.len()
    &&& secrets::fingerprint_of(keys[i].key@) == fp
    &&& forall|j: int|
        0 <= j < i ==> secrets::fingerprint_of((#[trigger] keys[j]).key@) != fp
}

proof fn first_with_is_found(sc: StoredConfig, fp: Seq<char>)
    ensures
        ({
            let keys = sc.upstream.nim_keys@;
            let p = store::position(fingerprints(sc@.nim_keys), fp);
            &&& 0 <= p <= keys.len()
            &&& p < keys.len() ==> first_with(keys, fp, p)
            &&& forall|i: int| #[trigger] first_with(keys, fp, i) ==> i == p
            &&& p == keys.len() ==> forall|i: int|
                0 <= i < keys.len() ==> secrets::fingerprint_of((#[trigger] keys[i]).key@) != fp
        }),
{
    let keys = sc.upstream.nim_keys@;
    let names = fingerprints(sc@.nim_keys);
    let p = store::position(names, fp);
    store::position_is_first(names, fp);
    assert forall|j: int| 0 <= j < keys.len() implies names[j] == secrets::fingerprint_of(
        (#[trigger] keys[j]).key@,
    ) by {}
    assert forall|j: int| 0 <= j < p implies secrets::fingerprint_of((#[trigger] keys[j]).key@)
        != fp by {
        assert(names[j] != fp);
    }
    if p < keys.len() {
        assert(names[p] == fp);
        assert(secrets::fingerprint_of(keys[p].key@) == fp);
    }
    assert forall|i: int| #[trigger] first_with(keys, fp, i) implies i == p by {
        if i < p {
            assert(names[i] != fp);
        }
        if p < i {
            assert(secrets::fingerprint_of(keys[p].key@) != fp);
        }
    }
}

/// A key is removed or changed by its fingerprint, by its owner or by whoever
/// manages the server. Removing takes that key out and keeps the others in order;
/// changing sets what the request names, the budget or whether the key is enabled,
/// and leaves the rest of the key, and every other key, alone.
pub proof fn a_key_is_managed_by_its_fingerprint(
    sc: &StoredConfig,
    username: &str,
    req: NimKeysReq,
    r: Result<StoredConfig, Refusal>,
    i: int,
    j: int,
)
    requires
        call_ensures(nim_keys, (sc, username, req), r),
        req.add is None && (req.remove is Some != req.set is Some),
        first_with(
            sc.upstream.nim_keys@,
            if req.remove is Some {
                req.remove->0@
            } else {
                req.set->0.fingerprint@
            },
            i,
        ),
        0 <= j < sc.upstream.nim_keys@.len(),
    ensures
        ({
            let before = sc.upstream.nim_keys@;
            let may = asks_as(*sc, username@, Role::Superuser) || asks_as(
                *sc,
                username@,
                Role::Admin,
            ) || (asks_as(*sc, username@, Role::User) && before[i].owner@ == username@);
            &&& r is Ok <==> may
            &&& nobody(*sc, username@) ==> refused(
                r,
                401,
                "unauthorized"@,
                "your user no longer exists"@,
            )
            &&& !may && !nobody(*sc, username@) ==> refused(
                r,
                403,
                "forbidden"@,
                if req.remove is Some {
                    "you can only remove your own keys"@
                } else {
                    "you can only change your own keys"@
                },
            )
            &&& r matches Ok(c) ==> {
                let after = c.upstream.nim_keys@;
                &&& same_but_keys(*sc, c)
                &&& req.remove is Some ==> after.len() == before.len() - 1 && (j < i ==> after[j]@
                    == before[j]@) && (j > i ==> after[j - 1]@ == before[j]@)
                &&& req.set is Some ==> {
                    &&& after.len() == before.len()
                    &&& j != i ==> after[j]@ == before[j]@
                    &&& after[i].key@ == before[i].key@ && after[i].owner@ == before[i].owner@
                    &&& req.set->0.enabled matches Some(e) ==> after[i].enabled == e
                    &&& req.set->0.enabled is None ==> after[i].enabled == before[i].enabled
                    &&& req.set->0.rpm matches Some(n) ==> after[i].rpm == n
                    &&& req.set->0.rpm is None ==> after[i].rpm == before[i].rpm
                }
            }
        }),
{
    looked_up(*sc, username@);
    let fp = if req.remove is Some {
        req.remove->0@
    } else {
        req.set->0.fingerprint@
    };
    first_with_is_found(*sc, fp);
    let before = sc.upstream.nim_keys@;
    assert(sc@.nim_keys[i] == before[i]@);
    assert(sc@.nim_keys[j] == before[j]@);
    if let Ok(c) = r {
        let after = c.upstream.nim_keys@;
        assert(c@.nim_keys.len() == after.len());
        if req.remove is Some {
            if j < i {
                assert(c@.nim_keys[j] == after[j]@);
            } else if j > i {
                assert(c@.nim_keys[j - 1] == after[j - 1]@);
            }
        } else {
            assert(c@.nim_keys[i] == after[i]@);
            assert(c@.nim_keys[j] == after[j]@);
        }
    }
}

/// A change of the upstream keys that names no known key, or that is not exactly
/// one change, is turned away, and the refusal says which; so is one by a user who
/// is no more.
pub proof fn an_unclear_change_of_keys_is_turned_away(
    sc: &StoredConfig,
    username: &str,
    req: NimKeysReq,
    r: Result<StoredConfig, Refusal>,
)
    requires
        call_ensures(nim_keys, (sc, username, req), r),
    ensures
        nobody(*sc, username@) ==> refused(
            r,
            401,
            "unauthorized"@,
            "your user no longer exists"@,
        ),
        !nobody(*sc, username@) && req.add is None && req.set is None ==> (
        req.remove matches Some(fp) ==> ((forall|i: int|
            0 <= i < sc.upstream.nim_keys@.len() ==> secrets::fingerprint_of(
                (#[trigger] sc.upstream.nim_keys@[i]).key@,
            ) != fp@) ==> refused(r, 400, "invalid_config"@, "no such key"@))),
        !nobody(*sc, username@) && req.add is None && req.remove is None ==> (
        req.set matches Some(set) ==> ((forall|i: int|
            0 <= i < sc.upstream.nim_keys@.len() ==> secrets::fingerprint_of(
                (#[trigger] sc.upstream.nim_keys@[i]).key@,
            ) != set.fingerprint@) ==> refused(r, 400, "invalid_config"@, "no such key"@))),
        ({
            let one = (req.add is Some && req.remove is None && req.set is None) || (req.add is None
                && req.remove is Some && req.set is None) || (req.add is None && req.remove is None
                && req.set is Some);
            !nobody(*sc, username@) && !one ==> refused(
                r,
                400,
                "invalid_config"@,
                "send exactly one of add / remove / set"@,
            )
        }),
{
    looked_up(*sc, username@);
    if let Some(fp) = req.remove {
        first_with_is_found(*sc, fp@);
    }
    if let Some(set) = req.set {
        first_with_is_found(*sc, set.fingerprint@);
    }
}

/// A client key that is added comes last: owned by whoever asks, under its trimmed
/// name, with the digest of the secret and the four characters that are shown of
/// it; the secret itself is kept nowhere. Every client key that was there stays, in
/// its place, and nothing else changes.
pub proof fn an_added_client_is_kept_by_its_digest(
    sc: &StoredConfig,
    username: &str,
    req: ClientsReq,
    secret: &str,
    r: Result<StoredConfig, Refusal>,
    name: &str,
    bare: String,
    digest: String,
    shown: String,
    i: int,
)
    requires
        call_ensures(clients_with, (sc, username, req, secret), r),
        req.add is Some && req.remove is None && req.mode is None,
        name@ == req.add->0.name@,
        call_ensures(trim, (name,), bare),
        call_ensures(sha256_hex, (secret,), digest),
        call_ensures(last4, (secret,), shown),
    ensures
        r is Ok <==> !nobody(*sc, username@),
        r is Err ==> refused(r, 401, "unauthorized"@, "your user no longer exists"@),
        r matches Ok(c) ==> {
            let keys = c.client_auth.keys@;
            let before = sc.client_auth.keys@;
            &&& keys.len() == before.len() + 1
            &&& keys.last().name@ == bare@
            &&& keys.last().secret_sha256@ == digest@
            &&& keys.last().last4@ == shown@
            &&& keys.last().owner@ == username@
            &&& 0 <= i < before.len() ==> keys[i]@ == before[i]@
            &&& c@.mode == sc@.mode
            &&& same_but_clients(*sc, c)
        },
{
    looked_up(*sc, username@);
    if let Ok(c) = r {
        assert(c@.client_keys.len() == sc@.client_keys.len() + 1);
        assert(c@.client_keys.last() == c.client_auth.keys@.last()@);
        if 0 <= i < sc.client_auth.keys@.len() {
            assert(c@.client_keys[i] == c.client_auth.keys@[i]@);
            assert(sc@.client_keys[i] == sc.client_auth.keys@[i]@);
        }
    }
}

proof fn first_named_is_found(sc: StoredConfig, name: Seq<char>)
    ensures
        ({
            let keys = sc.client_auth.keys@;
            let p = store::position(client_names(sc@.client_keys), name);
            &&& 0 <= p <= keys.len()
            &&& p < keys.len() ==> keys[p].name@ == name
            &&& forall|j: int| 0 <= j < p ==> (#[trigger] keys[j]).name@ != name
        }),
{
    let keys = sc.client_auth.keys@;
    let names = client_names(sc@.client_keys);
    let p = store::position(names, name);
    store::position_is_first(names, name);
    assert forall|j: int| 0 <= j < p implies (#[trigger] keys[j]).name@ != name by {
        assert(names[j] != name);
    }
    if p < keys.len() {
        assert(names[p] == name);
    }
}

/// A client key is revoked by its name, by its owner or by whoever manages the
/// server: the first one with that name goes, the others stay in order, and nothing
/// else changes. A name that no client key has is turned away.
pub proof fn a_client_is_revoked_by_its_name(
    sc: &StoredConfig,
    username: &str,
    req: ClientsReq,
    secret: &str,
    r: Result<StoredConfig, Refusal>,
    i: int,
    j: int,
)
    requires
        call_ensures(clients_with, (sc, username, req, secret), r),
        req.add is None && req.remove is Some && req.mode is None,
        0 <= j < sc.client_auth.keys@.len(),
    ensures
        nobody(*sc, username@) ==> refused(r, 401, "unauthorized"@, "your user no longer exists"@),
        (forall|k: int|
            0 <= k < sc.client_auth.keys@.len() ==> (#[trigger] sc.client_auth.keys@[k]).name@
                != req.remove->0@) && !nobody(*sc, username@) ==> refused(
            r,
            400,
            "invalid_config"@,
            "no such client key"@,
        ),
        0 <= i < sc.client_auth.keys@.len() && sc.client_auth.keys@[i].name@ == req.remove->0@ && (
        forall|k: int|
            0 <= k < i ==> (#[trigger] sc.client_auth.keys@[k]).name@ != req.remove->0@) ==> {
            let before = sc.client_auth.keys@;
            let may = asks_as(*sc, username@, Role::Superuser) || asks_as(
                *sc,
                username@,
                Role::Admin,
            ) || (asks_as(*sc, username@, Role::User) && before[i].owner@ == username@);
            &&& r is Ok <==> may
            &&& !may && !nobody(*sc, username@) ==> refused(
                r,
                403,
                "forbidden"@,
                "you can only revoke your own client keys"@,
            )
            &&& r matches Ok(c) ==> {
                let after = c.client_auth.keys@;
                &&& after.len() == before.len() - 1
                &&& j < i ==> after[j]@ == before[j]@
                &&& j > i ==> after[j - 1]@ == before[j]@
                &&& c@.mode == sc@.mode
                &&& same_but_clients(*sc, c)
            }
        },
{
    looked_up(*sc, username@);
    first_named_is_found(*sc, req.remove->0@);
    let before = sc.client_auth.keys@;
    let p = store::position(client_names(sc@.client_keys), req.remove->0@);
    assert(sc@.client_keys[j] == before[j]@);
    if 0 <= i < before.len() && before[i].name@ == req.remove->0@ && (forall|k: int|
        0 <= k < i ==> (#[trigger] before[k]).name@ != req.remove->0@) {
        assert(p == i) by {
            if p < i {
                assert(before[p].name@ != req.remove->0@);
            }
            if i < p {
                assert(before[i].name@ != req.remove->0@);
            }
        }
        assert(sc@.client_keys[i] == before[i]@);
        if let Ok(c) = r {
            let after = c.client_auth.keys@;
            assert(c@.client_keys.len() == after.len());
            if j < i {
                assert(c@.client_keys[j] == after[j]@);
            } else if j > i {
                assert(c@.client_keys[j - 1] == after[j - 1]@);
            }
        }
    }
}

/// Who may use the API is for whoever manages the server to say: anyone, or clients
/// with a key. Nothing else changes, and the client keys stay for when they are
/// asked for again. Another word, or a request that is not exactly one change, is
/// turned away.
pub proof fn the_door_is_opened_by_admins(
    sc: &StoredConfig,
    username: &str,
    req: ClientsReq,
    secret: &str,
    r: Result<StoredConfig, Refusal>,
)
    requires
        call_ensures(clients_with, (sc, username, req, secret), r),
        !nobody(*sc, username@),
    ensures
        req.add is None && req.remove is None ==> (req.mode matches Some(mode) ==> {
            let may = asks_as(*sc, username@, Role::Superuser) || asks_as(
                *sc,
                username@,
                Role::Admin,
            );
            &&& r is Ok <==> may && (mode@ == "open"@ || mode@ == "keyed"@)
            &&& !may ==> refused(
                r,
                403,
                "forbidden"@,
                "changing the API access mode requires an admin"@,
            )
            &&& may && mode@ != "open"@ && mode@ != "keyed"@ ==> refused(
                r,
                400,
                "invalid_config"@,
                "mode must be \"open\" or \"keyed\""@,
            )
            &&& r matches Ok(c) ==> {
                &&& mode@ == "open"@ ==> c.client_auth.mode == Mode::Open
                &&& mode@ == "keyed"@ ==> c.client_auth.mode == Mode::Keyed
                &&& c@.client_keys == sc@.client_keys
                &&& same_but_clients(*sc, c)
            }
        }),
        !((req.add is Some && req.remove is None && req.mode is None) || (req.add is None
            && req.remove is Some && req.mode is None) || (req.add is None && req.remove is None
            && req.mode is Some)) ==> refused(
            r,
            400,
            "invalid_config"@,
            "send exactly one of add / remove / mode"@,
        ),
{
    looked_up(*sc, username@);
    reveal_strlit("open");
    reveal_strlit("keyed");
    assert("open"@.len() != "keyed"@.len());
}

/// Whoever does not manage the server changes none of its settings, and is told
/// why; a user who is no more is told that.
pub open spec fn only_for_admins(
    sc: StoredConfig,
    username: Seq<char>,
    r: Result<StoredConfig, Refusal>,
) -> bool {
    &&& r is Ok <==> asks_as(sc, username, Role::Superuser) || asks_as(sc, username, Role::Admin)
    &&& asks_as(sc, username, Role::User) ==> refused(
        r,
        403,
        "forbidden"@,
        "server settings require an admin"@,
    )
    &&& nobody(sc, username) ==> refused(
        r,
        401,
        "unauthorized"@,
        "your user no longer exists"@,
    )
}

/// Another upstream is stored trimmed and without its last slashes; limits are all
/// taken as they are asked for; and so are the days of history that are kept and
/// shown. Nothing else changes.
pub proof fn server_settings_are_taken_as_asked(
    sc: &StoredConfig,
    username: &str,
    upstream_req: UpstreamReq,
    limits_req: LimitsReq,
    history_req: HistoryReq,
    url: &str,
    bare: String,
    up: Result<StoredConfig, Refusal>,
    lim: Result<StoredConfig, Refusal>,
    hist: Result<StoredConfig, Refusal>,
)
    requires
        call_ensures(upstream, (sc, username, upstream_req), up),
        call_ensures(limits, (sc, username, limits_req), lim),
        call_ensures(history, (sc, username, history_req), hist),
        url@ == upstream_req.base_url@,
        call_ensures(trim_url, (url,), bare),
    ensures
        only_for_admins(*sc, username@, up),
        only_for_admins(*sc, username@, lim),
        only_for_admins(*sc, username@, hist),
        up matches Ok(c) ==> c.upstream.base_url@ == bare@ && c@ == (StoreView {
            base_url: bare@,
            ..sc@
        }),
        lim matches Ok(c) ==> {
            &&& c.limits.max_wait_secs == limits_req.max_wait_secs
            &&& c.limits.heartbeat_secs == limits_req.heartbeat_secs
            &&& c.limits.models_ttl_secs == limits_req.models_ttl_secs
            &&& c.limits.stream_idle_secs == limits_req.stream_idle_secs
            &&& c.limits.request_timeout_secs == limits_req.request_timeout_secs
            &&& c.limits.max_inflight == limits_req.max_inflight
            &&& c.limits.strict_passthrough == limits_req.strict_passthrough
            &&& c@ == (StoreView { limits: c.limits, ..sc@ })
        },
        hist matches Ok(c) ==> {
            &&& c.history_days == history_req.days
            &&& c.default_window_days == history_req.default_window_days
            &&& c@ == (StoreView {
                history_days: history_req.days,
                default_window_days: history_req.default_window_days,
                ..sc@
            })
        },
{
    looked_up(*sc, username@);
    one_role(*sc, username@);
}

/// A user has one role.
proof fn one_role(sc: StoredConfig, username: Seq<char>)
    ensures
        forall|a: Role, b: Role|
            #[trigger] asks_as(sc, username, a) && #[trigger] asks_as(sc, username, b) ==> a == b,
        forall|a: Role| #[trigger] asks_as(sc, username, a) ==> !nobody(sc, username),
{
    looked_up(sc, username);
}

/// The governor is switched as asked, and keeps as it is where nothing is asked of
/// it. A cap is pinned on the model that is named, under its very name, in place of
/// an earlier one; a cap that is taken off is gone, even where it was pinned by the
/// same request. Caps of other models stay, and so does everything else.
pub proof fn the_governor_is_set_as_asked(
    sc: &StoredConfig,
    username: &str,
    req: GovernorReq,
    r: Result<StoredConfig, Refusal>,
    model: &str,
    cap: Option<usize>,
    before: Option<usize>,
)
    requires
        call_ensures(governor_cfg, (sc, username, req), r),
        r matches Ok(c) ==> call_ensures(
            store::Overrides::get,
            (&c.governor.overrides, model),
            cap,
        ),
        call_ensures(store::Overrides::get, (&sc.governor.overrides, model), before),
    ensures
        only_for_admins(*sc, username@, r),
        r matches Ok(c) ==> {
            &&& req.enabled matches Some(e) ==> c.governor.enabled == e
            &&& req.enabled is None ==> c.governor.enabled == sc.governor.enabled
            &&& (req.remove_override matches Some(m) && m@ == model@) ==> cap is None
            &&& !(req.remove_override matches Some(m) && m@ == model@) ==> {
                &&& req.set_override matches Some(o) ==> (o.model@ == model@ ==> cap == Some(o.cap))
                &&& !(req.set_override matches Some(o) && o.model@ == model@) ==> cap == before
            }
            &&& c@ == (StoreView {
                governor_enabled: c.governor.enabled,
                overrides: c.governor.overrides@,
                ..sc@
            })
        },
{
    looked_up(*sc, username@);
    one_role(*sc, username@);
}

/// Two roles can be given by name, and the superuser's is not one of them.
pub proof fn two_roles_have_names(s: &str, r: Option<Role>)
    requires
        call_ensures(parse_role, (s,), r),
    ensures
        r == Some(Role::Admin) <==> s@ == "admin"@,
        r == Some(Role::User) <==> s@ == "user"@,
        r != Some(Role::Superuser),
{
    reveal_strlit("admin");
    reveal_strlit("user");
    assert("admin"@.len() != "user"@.len());
}

/// What a user who may not do something, who is no more, or who asks for something
/// that cannot be done is told.
pub proof fn refusals_have_their_statuses(
    message: &str,
    stale_user: Refusal,
    forbidden_one: Refusal,
    bad: Refusal,
)
    requires
        call_ensures(stale_session, (), stale_user),
        call_ensures(forbidden, (message,), forbidden_one),
        call_ensures(bad_request, (message,), bad),
    ensures
        stale_user.status == 401 && stale_user.code@ == "unauthorized"@ && stale_user.message@
            == "your user no longer exists"@,
        forbidden_one.status == 403 && forbidden_one.code@ == "forbidden"@ && forbidden_one.message@
            == message@,
        bad.status == 400 && bad.code@ == "invalid_config"@ && bad.message@ == message@,
        stale_user.header is None && forbidden_one.header is None && bad.header is None,
{
}

/// A secret is minted exactly for a client key that is added by a user who still
/// is; it is the one that the candidate keeps the digest of, and it is shown this
/// once.
pub proof fn a_fresh_secret_is_shown_once(
    sc: &StoredConfig,
    username: &str,
    req: ClientsReq,
    r: Option<ClientsChange>,
)
    requires
        call_ensures(clients, (sc, username, req), r),
    ensures
        r matches Some(c) ==> (c.secret is Some <==> req.add is Some && req.remove is None
            && req.mode is None && !nobody(*sc, username@)),
        r is None ==> req.add is Some && req.remove is None && req.mode is None && !nobody(
            *sc,
            username@,
        ),
        r matches Some(c) ==> (c.secret matches Some(s) ==> (c.candidate matches Ok(cand)
            && cand.client_auth.keys@.len() == sc.client_auth.keys@.len() + 1
            && cand.client_auth.keys@.last().secret_sha256@ == secrets::digest_of(s@)
            && cand.client_auth.keys@.last().last4@ == s@.skip(s@.len() - 4)
            && cand.client_auth.keys@.last().owner@ == username@ && s@.len() == 36)),
{
    looked_up(*sc, username@);
    if let Some(c) = r {
        if let Some(s) = c.secret {
            let bytes = choose|bytes: Seq<u8>|
                bytes.len() == secrets::SECRET_BYTES && comes_to(
                    c.candidate,
                    clients_change(sc@, username@, req, #[trigger] secrets::secret_of(bytes)),
                ) && s@ == secrets::secret_of(bytes);
            reveal_strlit("npk_");
            let cand = c.candidate->Ok_0;
            assert(cand@.client_keys.len() == sc@.client_keys.len() + 1);
            assert(cand@.client_keys.last() == cand.client_auth.keys@.last()@);
        }
    }
}

/// Whoever manages the server is let through, and whoever does not is turned away
/// with the reason that is given; a user who is no more is told that.
pub proof fn only_admins_are_let_through(
    sc: &StoredConfig,
    username: &str,
    why: &str,
    r: Result<(), Refusal>,
)
    requires
        call_ensures(require_admin, (sc, username, why), r),
    ensures
        r is Ok <==> asks_as(*sc, username@, Role::Superuser) || asks_as(
            *sc,
            username@,
            Role::Admin,
        ),
        asks_as(*sc, username@, Role::User) ==> (r matches Err(x) && x.status == 403 && x.code@
            == "forbidden"@ && x.message@ == why@ && x.header is None),
        nobody(*sc, username@) ==> (r matches Err(x) && x.status == 401 && x.code@
            == "unauthorized"@ && x.message@ == "your user no longer exists"@ && x.header is None),
{
    looked_up(*sc, username@);
    one_role(*sc, username@);
}

/// Of a secret only what names it is kept: its digest and its last four characters,
/// under the trimmed name and for the owner that are given.
pub proof fn a_client_key_keeps_no_secret(
    name: &str,
    secret: &str,
    owner: &str,
    r: ClientKey,
    bare: String,
    digest: String,
    shown: String,
)
    requires
        call_ensures(keyed_client, (name, secret, owner), r),
        call_ensures(trim, (name,), bare),
        call_ensures(sha256_hex, (secret,), digest),
        call_ensures(last4, (secret,), shown),
    ensures
        r.name@ == bare@,
        r.secret_sha256@ == digest@,
        r.last4@ == shown@,
        r.owner@ == owner@,
{
}

} // verus!
