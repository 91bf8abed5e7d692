//! First-time setup: one atomic claim that creates the superuser and records
//! the first keys. An abandoned setup leaves nothing behind.
use vstd::prelude::*;

use crate::answers::{Refusal, RefusalView};
use crate::secrets;
use crate::secrets::mint_client_secret;
use crate::settings;
use crate::settings::{
    check_password, keyed_client, weak_password, SetupKey, SetupReq, ValidateKeyReq, DEFAULT_RPM,
};
use crate::store;
use crate::store::{
    ClientKey, ClientKeyView, NimKey, NimKeyView, Role, StoreView, StoredConfig, User, UserView,
};
use crate::text;
use crate::text::{trim, trim_url};

verus! {

// ---------------------------------------------------------------------------
// Model
// ---------------------------------------------------------------------------
/// The upstream keys given to one owner.
pub open spec fn adopted_keys(keys: Seq<NimKeyView>, owner: Seq<char>) -> Seq<NimKeyView> {
    Seq::new(keys.len(), |i: int| NimKeyView { owner, ..keys[i] })
}

/// The client keys given to one owner.
pub open spec fn adopted_clients(keys: Seq<ClientKeyView>, owner: Seq<char>) -> Seq<ClientKeyView> {
    Seq::new(keys.len(), |i: int| ClientKeyView { owner, ..keys[i] })
}

/// The keys given at setup.
pub open spec fn given_keys(keys: Seq<SetupKey>, owner: Seq<char>) -> Seq<NimKeyView> {
    Seq::new(
        keys.len(),
        |i: int|
            NimKeyView {
                key: text::trimmed(keys[i].key@),
                owner,
                enabled: true,
                rpm: settings::rpm_or_default(keys[i].rpm),
            },
    )
}

/// The store as a setup leaves it, where `secret` is the secret of the first
/// client key if one is asked for. Keys that are already there belonged to
/// users who were deleted by hand; the new superuser adopts them.
pub open spec fn claimed(
    s: StoreView,
    req: SetupReq,
    hash: Seq<char>,
    secret: Seq<char>,
) -> StoreView {
    let owner = req.username@;
    let clients = adopted_clients(s.client_keys, owner);
    StoreView {
        users: seq![UserView { username: owner, password_hash: hash, role: Role::Superuser }],
        base_url: match req.base_url {
            Some(b) => text::trimmed_url(b@),
            None => s.base_url,
        },
        nim_keys: adopted_keys(s.nim_keys, owner) + given_keys(req.nim_keys@, owner),
        client_keys: match req.create_client_key {
            Some(ck) => clients.push(settings::client_key(ck.name@, secret, owner)),
            None => clients,
        },
        ..s
    }
}

/// Why a setup is turned away.
pub enum SetupDenied {
    /// Setup was completed before: there is no such page any more.
    NotFound,
    Refused(Refusal),
}

pub open spec fn already_configured() -> RefusalView {
    RefusalView {
        status: 409,
        code: "already_configured"@,
        message: "setup was just completed by someone else"@,
    }
}

/// What is said of a setup before the password is hashed.
pub open spec fn early_denial(setup_required: bool, req: SetupReq) -> Option<Option<RefusalView>> {
    if !setup_required {
        Some(None)
    } else if settings::is_weak(req.password@) {
        Some(Some(settings::weak()))
    } else {
        None
    }
}

/// The denial is this one.
pub open spec fn is_denial(d: SetupDenied, v: Option<RefusalView>) -> bool {
    match v {
        None => d is NotFound,
        Some(x) => d matches SetupDenied::Refused(y) && y@ == x && y.header is None,
    }
}

// ---------------------------------------------------------------------------
// Setup
// ---------------------------------------------------------------------------
/// What can be said of a setup before the password is hashed, which is slow on
/// purpose.
pub fn setup_check(setup_required: bool, req: &SetupReq) -> (r: Result<(), SetupDenied>)
    ensures
        match early_denial(setup_required, *req) {
            Some(v) => r matches Err(d) && is_denial(d, v),
            None => r is Ok,
        },
{
    if !setup_required {
        return Err(SetupDenied::NotFound);
    }
    if check_password(req.password.as_str()) {
        return Err(SetupDenied::Refused(weak_password()));
    }
    Ok(())
}

fn adopt_keys(keys: &Vec<NimKey>, owner: &str) -> (r: Vec<NimKey>)
    ensures
        store::nim_keys_view(r@) == adopted_keys(store::nim_keys_view(keys@), owner@),
{
    let ghost all = store::nim_keys_view(keys@);
    let mut out: Vec<NimKey> = Vec::new();
    let mut i: usize = 0;
    while i < keys.len()
        invariant
            i <= keys@.len(),
            all == store::nim_keys_view(keys@),
            store::nim_keys_view(out@) =~= adopted_keys(all, owner@).take(i as int),
        decreases keys.len() - i,
    {
        let k = &keys[i];
        let ghost before = out@;
        let key = NimKey {
            key: k.key.clone(),
            owner: owner.to_owned(),
            enabled: k.enabled,
            rpm: k.rpm,
        };
        out.push(key);
        assert(store::nim_keys_view(out@) =~= store::nim_keys_view(before).push(key@));
        i += 1;
    }
    assert(adopted_keys(all, owner@).take(i as int) =~= adopted_keys(all, owner@));
    out
}

fn adopt_clients(keys: &Vec<ClientKey>, owner: &str) -> (r: Vec<ClientKey>)
    ensures
        store::client_keys_view(r@) == adopted_clients(store::client_keys_view(keys@), owner@),
{
    let ghost all = store::client_keys_view(keys@);
    let mut out: Vec<ClientKey> = Vec::new();
    let mut i: usize = 0;
    while i < keys.len()
        invariant
            i <= keys@.len(),
            all == store::client_keys_view(keys@),
            store::client_keys_view(out@) =~= adopted_clients(all, owner@).take(i as int),
        decreases keys.len() - i,
    {
        let k = &keys[i];
        let ghost before = out@;
        let key = ClientKey {
            name: k.name.clone(),
            secret_sha256: k.secret_sha256.clone(),
            last4: k.last4.clone(),
            owner: owner.to_owned(),
        };
        out.push(key);
        assert(store::client_keys_view(out@) =~= store::client_keys_view(before).push(key@));
        i += 1;
    }
    assert(adopted_clients(all, owner@).take(i as int) =~= adopted_clients(all, owner@));
    out
}

/// Appends the keys given at setup.
fn add_given(keys: &mut Vec<NimKey>, given: &Vec<SetupKey>, owner: &str)
    ensures
        store::nim_keys_view(final(keys)@) == store::nim_keys_view(old(keys)@) + given_keys(
            given@,
            owner@,
        ),
{
    let ghost start = store::nim_keys_view(keys@);
    let ghost all = given_keys(given@, owner@);
    let mut i: usize = 0;
    while i < given.len()
        invariant
            i <= given@.len(),
            all == given_keys(given@, owner@),
            store::nim_keys_view(keys@) =~= start + all.take(i as int),
        decreases given.len() - i,
    {
        let rpm: usize = match given[i].rpm {
            Some(n) => n,
            None => DEFAULT_RPM,
        };
        let ghost before = keys@;
        let key = NimKey {
            key: trim(given[i].key.as_str()),
            owner: owner.to_owned(),
            enabled: true,
            rpm,
        };
        keys.push(key);
        assert(store::nim_keys_view(keys@) =~= store::nim_keys_view(before).push(key@));
        assert(key@ == all[i as int]);
        i += 1;
    }
    assert(all.take(i as int) =~= all);
}

/// The candidate of a setup, where `hash` is the hash of the password and
/// `secret` the secret of the first client key if one is asked for.
pub fn setup_with(
    sc: &StoredConfig,
    setup_required: bool,
    req: &SetupReq,
    hash: &str,
    secret: &str,
) -> (r: Result<StoredConfig, SetupDenied>)
    ensures
        match early_denial(setup_required, *req) {
            Some(v) => r matches Err(d) && is_denial(d, v),
            None => if store::first_superuser(sc@.users) is Some {
                r matches Err(d) && is_denial(d, Some(already_configured()))
            } else {
                r matches Ok(c) && c@ == claimed(sc@, *req, hash@, secret@)
            },
        },
{
    match setup_check(setup_required, req) {
        Ok(_) => {},
        Err(d) => return Err(d),
    }
    if sc.superuser().is_some() {
        return Err(
            SetupDenied::Refused(
                Refusal::new(
                    409,
                    "already_configured",
                    "setup was just completed by someone else",
                ),
            ),
        );
    }
    let owner = req.username.as_str();
    let mut cand = sc.clone();
    let mut users: Vec<User> = Vec::new();
    users.push(
        User {
            username: req.username.clone(),
            password_hash: hash.to_owned(),
            role: Role::Superuser,
        },
    );
    cand.users = users;
    let mut keys = adopt_keys(&cand.upstream.nim_keys, owner);
    add_given(&mut keys, &req.nim_keys, owner);
    cand.upstream.nim_keys = keys;
    let mut clients = adopt_clients(&cand.client_auth.keys, owner);
    if let Some(ck) = &req.create_client_key {
        let ghost before = clients@;
        let key = keyed_client(ck.name.as_str(), secret, owner);
        clients.push(key);
        assert(store::client_keys_view(clients@) =~= store::client_keys_view(before).push(key@));
    }
    cand.client_auth.keys = clients;
    if let Some(b) = &req.base_url {
        cand.upstream.base_url = trim_url(b.as_str());
    }
    assert(cand@ =~= claimed(sc@, *req, hash@, secret@));
    Ok(cand)
}

/// The name and the secret of a minted client key.
pub struct Minted {
    pub name: String,
    /// Shown this once and not kept.
    pub secret: String,
}

/// The candidate of a setup, and the first client key if one was asked for.
pub struct Claim {
    pub candidate: StoredConfig,
    pub minted: Option<Minted>,
}

/// The candidate of a setup, with a fresh secret where a first client key is
/// asked for; nothing when there is no randomness to make a secret of.
pub fn setup_submit(sc: &StoredConfig, setup_required: bool, req: &SetupReq, hash: &str) -> (r:
    Option<Result<Claim, SetupDenied>>)
    ensures
        match r {
            Some(Ok(claim)) => {
                &&& early_denial(setup_required, *req) is None
                &&& store::first_superuser(sc@.users) is None
                &&& exists|bytes: Seq<u8>|
                    {
                        &&& bytes.len() == secrets::SECRET_BYTES
                        &&& claim.candidate@ == claimed(
                            sc@,
                            *req,
                            hash@,
                            #[trigger] secrets::secret_of(bytes),
                        )
                        &&& match (req.create_client_key, claim.minted) {
                            (Some(ck), Some(m)) => m.name@ == text::trimmed(ck.name@) && m.secret@
                                == secrets::secret_of(bytes),
                            (None, None) => true,
                            _ => false,
                        }
                    }
            },
            Some(Err(d)) => match early_denial(setup_required, *req) {
                Some(v) => is_denial(d, v),
                None => store::first_superuser(sc@.users) is Some && is_denial(
                    d,
                    Some(already_configured()),
                ),
            },
            None => req.create_client_key is Some && early_denial(setup_required, *req) is None
                && store::first_superuser(sc@.users) is None,
        },
{
    match setup_with(sc, setup_required, req, hash, "") {
        Err(d) => Some(Err(d)),
        Ok(candidate) => match &req.create_client_key {
            Some(ck) => match mint_client_secret() {
                Some(secret) => match setup_with(sc, setup_required, req, hash, secret.as_str()) {
                    Ok(candidate) => {
                        let minted = Some(Minted { name: trim(ck.name.as_str()), secret });
                        Some(Ok(Claim { candidate, minted }))
                    },
                    Err(d) => Some(Err(d)),
                },
                None => None,
            },
            None => {
                proof {
                    let bytes = Seq::new(secrets::SECRET_BYTES as nat, |i: int| 0u8);
                    assert(claimed(sc@, *req, hash@, ""@) == claimed(
                        sc@,
                        *req,
                        hash@,
                        secrets::secret_of(bytes),
                    ));
                }
                Some(Ok(Claim { candidate, minted: None }))
            },
        },
    }
}

// ---------------------------------------------------------------------------
// Trying a key
// ---------------------------------------------------------------------------
/// The upstream that a key is tried against at setup: the one given, or else
/// the stored one.
pub open spec fn setup_target(s: StoreView, req: ValidateKeyReq) -> Seq<char> {
    match req.base_url {
        Some(b) => text::trimmed_url(b@),
        None => text::trimmed_url(s.base_url),
    }
}

/// What a key is tried with.
pub struct Trial {
    pub base_url: String,
    pub key: String,
}

/// Decides whether a key may be tried at setup, by whoever asks, and against
/// what. Every such trial counts against the same limit as failed logins.
pub fn setup_validate_key(
    sc: &StoredConfig,
    setup_required: bool,
    throttled: bool,
    req: &ValidateKeyReq,
) -> (r: Result<Trial, SetupDenied>)
    ensures
        if !setup_required {
            r matches Err(d) && is_denial(d, None)
        } else if throttled {
            r matches Err(d) && is_denial(
                d,
                Some(
                    (RefusalView {
                        status: 429,
                        code: "throttled"@,
                        message: "too many validation attempts, try again shortly"@,
                    }),
                ),
            )
        } else {
            r matches Ok(t) && t.base_url@ == setup_target(sc@, *req) && t.key@ == text::trimmed(
                req.key@,
            )
        },
{
    if !setup_required {
        return Err(SetupDenied::NotFound);
    }
    if throttled {
        return Err(
            SetupDenied::Refused(
                Refusal::new(429, "throttled", "too many validation attempts, try again shortly"),
            ),
        );
    }
    let base_url = match &req.base_url {
        Some(b) => trim_url(b.as_str()),
        None => trim_url(sc.upstream.base_url.as_str()),
    };
    Ok(Trial { base_url, key: trim(req.key.as_str()) })
}

/// The upstream that is asked for is not one to send requests to, and why.
pub fn invalid_base_url(why: &str) -> (r: Refusal)
    ensures
        r@ == (RefusalView { status: 400, code: "invalid_base_url"@, message: why@ }),
        r.header is None,
{
    Refusal::new(400, "invalid_base_url", why)
}

/// What a key is tried with once setup is complete: always the stored upstream,
/// never one that the request names.
pub fn validate_key(sc: &StoredConfig, req: &ValidateKeyReq) -> (r: Trial)
    ensures
        r.base_url@ == text::trimmed_url(sc@.base_url),
        r.key@ == text::trimmed(req.key@),
{
    Trial {
        base_url: trim_url(sc.upstream.base_url.as_str()),
        key: trim(req.key.as_str()),
    }
}

// ---------------------------------------------------------------------------
// Laws
// ---------------------------------------------------------------------------
/// A setup leaves exactly one user, the superuser, who owns every key; and no
/// second setup can follow.
pub proof fn a_claim_leaves_one_owner(
    s: StoreView,
    req: SetupReq,
    hash: Seq<char>,
    secret: Seq<char>,
)
    ensures
        claimed(s, req, hash, secret).users.len() == 1,
        store::first_superuser(claimed(s, req, hash, secret).users) is Some,
        forall|i: int|
            0 <= i < claimed(s, req, hash, secret).nim_keys.len() ==> (#[trigger] claimed(
                s,
                req,
                hash,
                secret,
            ).nim_keys[i]).owner == req.username@,
        forall|i: int|
            0 <= i < claimed(s, req, hash, secret).client_keys.len() ==> (#[trigger] claimed(
                s,
                req,
                hash,
                secret,
            ).client_keys[i]).owner == req.username@,
{
}

/// A setup loses no key: the keys that were there come first, as they were but
/// for their owner, and the given ones follow.
pub proof fn a_claim_loses_no_key(
    s: StoreView,
    req: SetupReq,
    hash: Seq<char>,
    secret: Seq<char>,
    i: int,
)
    requires
        0 <= i < s.nim_keys.len(),
    ensures
        ({
            let k = claimed(s, req, hash, secret).nim_keys[i];
            k.key == s.nim_keys[i].key && k.rpm == s.nim_keys[i].rpm && k.enabled
                == s.nim_keys[i].enabled
        }),
        claimed(s, req, hash, secret).nim_keys.len() == s.nim_keys.len() + req.nim_keys@.len(),
{
}

/// A setup is turned away before anything else where setup was completed before
/// (there is no such page any more), and then where the password has fewer than ten
/// characters.
pub proof fn a_setup_is_checked_first(
    setup_required: bool,
    req: SetupReq,
    r: Result<(), SetupDenied>,
)
    requires
        call_ensures(setup_check, (setup_required, &req), r),
    ensures
        !setup_required ==> (r matches Err(SetupDenied::NotFound)),
        setup_required && req.password@.len() < 10 ==> (r matches Err(SetupDenied::Refused(x))
            && x.status == 400 && x.code@ == "weak_password"@ && x.message@
            == "password must be at least 10 characters"@ && x.header is None),
        setup_required && req.password@.len() >= 10 ==> r is Ok,
{
}

/// A setup succeeds exactly where it passes these checks and no one was faster. It
/// leaves one user, the superuser, under the very name and with the hash that were
/// given, who owns every key: those that were there, as they were, and then those
/// that are given, trimmed and enabled, each with the budget that is named for it
/// and with forty where none is.
pub proof fn a_setup_keeps_what_it_is_given(
    sc: &StoredConfig,
    setup_required: bool,
    req: SetupReq,
    hash: &str,
    secret: &str,
    r: Result<StoredConfig, SetupDenied>,
    root: Option<&User>,
    i: int,
    given: &str,
    bare: String,
)
    requires
        call_ensures(setup_with, (sc, setup_required, &req, hash, secret), r),
        call_ensures(StoredConfig::superuser, (sc,), root),
        0 <= i < req.nim_keys@.len() ==> given@ == req.nim_keys@[i].key@,
        call_ensures(trim, (given,), bare),
    ensures
        r is Ok <==> setup_required && req.password@.len() >= 10 && root is None,
        !setup_required ==> (r matches Err(SetupDenied::NotFound)),
        setup_required && req.password@.len() < 10 ==> (r matches Err(SetupDenied::Refused(x))
            && x.status == 400 && x.code@ == "weak_password"@),
        setup_required && req.password@.len() >= 10 && root is Some ==> (
        r matches Err(SetupDenied::Refused(x)) && x.status == 409 && x.code@
            == "already_configured"@ && x.message@ == "setup was just completed by someone else"@
            && x.header is None),
        r matches Ok(c) ==> {
            let before = sc.upstream.nim_keys@;
            let after = c.upstream.nim_keys@;
            &&& c.users@.len() == 1
            &&& c.users@[0].username@ == req.username@
            &&& c.users@[0].password_hash@ == hash@
            &&& c.users@[0].role == Role::Superuser
            &&& after.len() == before.len() + req.nim_keys@.len()
            &&& 0 <= i < before.len() ==> after[i].key@ == before[i].key@ && after[i].rpm
                == before[i].rpm && after[i].enabled == before[i].enabled && after[i].owner@
                == req.username@
            &&& 0 <= i < req.nim_keys@.len() ==> {
                let k = after[before.len() + i];
                &&& k.key@ == bare@
                &&& k.owner@ == req.username@
                &&& k.enabled
                &&& req.nim_keys@[i].rpm matches Some(n) ==> k.rpm == n
                &&& req.nim_keys@[i].rpm is None ==> k.rpm == 40
            }
        },
{
    if let Ok(c) = r {
        let before = sc.upstream.nim_keys@;
        let after = c.upstream.nim_keys@;
        assert(c@.users.len() == c.users@.len());
        assert(c@.users[0] == c.users@[0]@);
        assert(c@.nim_keys.len() == after.len());
        if 0 <= i < before.len() {
            assert(c@.nim_keys[i] == after[i]@);
            assert(sc@.nim_keys[i] == before[i]@);
        }
        if 0 <= i < req.nim_keys@.len() {
            assert(c@.nim_keys[before.len() + i] == after[before.len() + i]@);
        }
    }
}

/// A setup takes over the client keys that were there, as they were but for their
/// owner; adds a first one, by its trimmed name, where one is asked for, of whose
/// secret only the digest and the last four characters are kept; and takes the
/// upstream that is given, trimmed and without its last slashes, or else leaves the
/// stored one. Nothing else of the store changes.
pub proof fn a_setup_changes_nothing_else(
    sc: &StoredConfig,
    setup_required: bool,
    req: SetupReq,
    hash: &str,
    secret: &str,
    r: Result<StoredConfig, SetupDenied>,
    i: int,
    url: &str,
    bare_url: String,
    name: &str,
    bare_name: String,
    digest: String,
    shown: String,
)
    requires
        call_ensures(setup_with, (sc, setup_required, &req, hash, secret), r),
        req.base_url matches Some(b) ==> b@ == url@,
        call_ensures(trim_url, (url,), bare_url),
        req.create_client_key matches Some(ck) ==> ck.name@ == name@,
        call_ensures(trim, (name,), bare_name),
        call_ensures(secrets::sha256_hex, (secret,), digest),
        call_ensures(secrets::last4, (secret,), shown),
    ensures
        r matches Ok(c) ==> {
            let before = sc.client_auth.keys@;
            let after = c.client_auth.keys@;
            &&& req.base_url is Some ==> c.upstream.base_url@ == bare_url@
            &&& req.base_url is None ==> c.upstream.base_url@ == sc.upstream.base_url@
            &&& req.create_client_key is None ==> after.len() == before.len()
            &&& req.create_client_key is Some ==> {
                &&& after.len() == before.len() + 1
                &&& after.last().name@ == bare_name@
                &&& after.last().secret_sha256@ == digest@
                &&& after.last().last4@ == shown@
                &&& after.last().owner@ == req.username@
            }
            &&& 0 <= i < before.len() ==> after[i].name@ == before[i].name@
                && after[i].secret_sha256@ == before[i].secret_sha256@ && after[i].last4@
                == before[i].last4@ && after[i].owner@ == req.username@
            &&& c.client_auth.mode == sc.client_auth.mode
            &&& c.limits == sc.limits
            &&& c.history_days == sc.history_days
            &&& c.default_window_days == sc.default_window_days
            &&& c.governor.enabled == sc.governor.enabled
            &&& c.governor.overrides@ == sc.governor.overrides@
        },
{
    if let Ok(c) = r {
        let before = sc.client_auth.keys@;
        let after = c.client_auth.keys@;
        assert(c@.client_keys.len() == after.len());
        if req.create_client_key is Some {
            assert(c@.client_keys.last() == after.last()@);
        }
        if 0 <= i < before.len() {
            assert(c@.client_keys[i] == after[i]@);
            assert(sc@.client_keys[i] == before[i]@);
        }
        assert(c@.mode == c.client_auth.mode);
    }
}

/// A first client key is shown exactly where one is asked for, under the name that
/// it is kept by, with the secret whose digest is kept.
pub proof fn a_first_client_key_is_shown_once(
    sc: &StoredConfig,
    setup_required: bool,
    req: SetupReq,
    hash: &str,
    r: Option<Result<Claim, SetupDenied>>,
    root: Option<&User>,
)
    requires
        call_ensures(setup_submit, (sc, setup_required, &req, hash), r),
        call_ensures(StoredConfig::superuser, (sc,), root),
    ensures
        r is None ==> req.create_client_key is Some && setup_required && req.password@.len() >= 10
            && root is None,
        r matches Some(x) ==> (x is Ok <==> setup_required && req.password@.len() >= 10
            && root is None),
        r matches Some(Ok(claim)) ==> {
            let after = claim.candidate.client_auth.keys@;
            &&& claim.minted is Some <==> req.create_client_key is Some
            &&& claim.minted matches Some(m) ==> {
                &&& after.len() == sc.client_auth.keys@.len() + 1
                &&& after.last().name@ == m.name@
                &&& after.last().secret_sha256@ == secrets::digest_of(m.secret@)
                &&& after.last().last4@ == m.secret@.skip(m.secret@.len() - 4)
                &&& m.secret@.len() == 36
            }
            &&& claim.candidate.users@.len() == 1
            &&& claim.candidate.users@[0].username@ == req.username@
            &&& claim.candidate.users@[0].password_hash@ == hash@
        },
{
    if let Some(Ok(claim)) = r {
        let bytes = choose|bytes: Seq<u8>|
            {
                &&& bytes.len() == secrets::SECRET_BYTES
                &&& claim.candidate@ == claimed(
                    sc@,
                    req,
                    hash@,
                    #[trigger] secrets::secret_of(bytes),
                )
                &&& match (req.create_client_key, claim.minted) {
                    (Some(ck), Some(m)) => m.name@ == text::trimmed(ck.name@) && m.secret@
                        == secrets::secret_of(bytes),
                    (None, None) => true,
                    _ => false,
                }
            };
        reveal_strlit("npk_");
        let c = claim.candidate;
        assert(c@.users.len() == c.users@.len());
        assert(c@.users[0] == c.users@[0]@);
        assert(c@.client_keys.len() == c.client_auth.keys@.len());
        if claim.minted is Some {
            assert(c@.client_keys.last() == c.client_auth.keys@.last()@);
        }
    }
}

/// A key is tried at setup only while setup is still to come and not too often,
/// against the upstream that is given (or else the stored one); once setup is
/// complete it is tried against the stored upstream whatever the request names. The
/// key is tried trimmed.
pub proof fn a_key_is_tried_where_it_may_be(
    sc: &StoredConfig,
    setup_required: bool,
    throttled: bool,
    req: ValidateKeyReq,
    early: Result<Trial, SetupDenied>,
    later: Trial,
    given: &str,
    bare_given: String,
    stored: &str,
    bare_stored: String,
    key: &str,
    bare_key: String,
)
    requires
        call_ensures(setup_validate_key, (sc, setup_required, throttled, &req), early),
        call_ensures(validate_key, (sc, &req), later),
        req.base_url matches Some(b) ==> b@ == given@,
        call_ensures(trim_url, (given,), bare_given),
        stored@ == sc.upstream.base_url@,
        call_ensures(trim_url, (stored,), bare_stored),
        key@ == req.key@,
        call_ensures(trim, (key,), bare_key),
    ensures
        !setup_required ==> (early matches Err(SetupDenied::NotFound)),
        setup_required && throttled ==> (early matches Err(SetupDenied::Refused(x)) && x.status
            == 429 && x.code@ == "throttled"@ && x.message@
            == "too many validation attempts, try again shortly"@ && x.header is None),
        setup_required && !throttled ==> (early matches Ok(t) && t.key@ == bare_key@ && (
        req.base_url is Some ==> t.base_url@ == bare_given@) && (req.base_url is None ==> t.base_url@
            == bare_stored@)),
        later.base_url@ == bare_stored@,
        later.key@ == bare_key@,
{
}

/// An upstream that is not one to send requests to is refused as such, and why.
pub proof fn a_bad_upstream_is_refused(why: &str, r: Refusal)
    requires
        call_ensures(invalid_base_url, (why,), r),
    ensures
        r.status == 400,
        r.code@ == "invalid_base_url"@,
        r.message@ == why@,
        r.header is None,
{
}

} // verus!
