//! What a user gets to see of the configuration. It is cut to the user's role
//! before anything leaves: a plain user's view holds no server settings and no
//! rows of anyone else.
use vstd::prelude::*;

use crate::answers::Refusal;
use crate::pool;
use crate::pool::{LaneStat, Pool};
use crate::retry;
use crate::secrets;
use crate::secrets::{fingerprint, last4};
use crate::settings;
use crate::settings::{role_of, stale_session};
use crate::store;
use crate::store::{
    ClientKey, ClientKeyView, GovernorSettings, Limits, Mode, NimKey, NimKeyView, Role, StoreView,
    StoredConfig, User,
};
use crate::text::str_eq;
use crate::time::Instant;

verus! {

/// An upstream key. The key itself is never shown.
pub struct KeyRow {
    pub fingerprint: String,
    pub last4: String,
    pub owner: String,
    pub enabled: bool,
    pub rpm: usize,
    /// The lane of an enabled key, and how it stands.
    pub lane: Option<usize>,
    pub in_window: Option<usize>,
    pub cooldown_ms: Option<u64>,
    /// The key may be neither disabled nor removed: it is the only enabled one
    /// of the superuser.
    pub guarded: bool,
}

/// A client key.
pub struct ClientRow {
    pub name: String,
    pub last4: String,
    pub owner: String,
}

/// A user, with the number of keys that they own.
pub struct UserRow {
    pub username: String,
    pub role: &'static str,
    pub nim_keys: usize,
    pub client_keys: usize,
}

/// Server settings.
pub struct ServerRow {
    pub base_url: String,
    pub limits: Limits,
    pub history_days: u64,
    pub default_window_days: u64,
    pub governor: GovernorSettings,
}

/// What a user gets to see.
pub struct ConfigPage {
    pub username: String,
    pub role: &'static str,
    pub mode: &'static str,
    /// How many lanes are enabled, and their budget together.
    pub enabled: usize,
    pub capacity_rpm: usize,
    pub nim_keys: Vec<KeyRow>,
    pub client_keys: Vec<ClientRow>,
    /// For admins.
    pub server: Option<ServerRow>,
    /// For admins.
    pub users: Option<Vec<UserRow>>,
}

// ---------------------------------------------------------------------------
// Model
// ---------------------------------------------------------------------------
pub open spec fn role_name(role: Role) -> Seq<char> {
    match role {
        Role::Superuser => "superuser"@,
        Role::Admin => "admin"@,
        Role::User => "user"@,
    }
}

pub open spec fn mode_name(mode: Mode) -> Seq<char> {
    match mode {
        Mode::Open => "open"@,
        Mode::Keyed => "keyed"@,
    }
}

/// The last lane that holds a key, or -1.
pub open spec fn lane_holding(stats: Seq<LaneStat>, key: Seq<char>) -> int
    decreases stats.len(),
{
    if stats.len() == 0 {
        -1
    } else if stats.last().key@ == key {
        stats.len() - 1
    } else {
        lane_holding(stats.drop_last(), key)
    }
}

/// The enabled keys of an owner, in order.
pub open spec fn enabled_keys(keys: Seq<NimKeyView>, owner: Seq<char>) -> Seq<Seq<char>>
    decreases keys.len(),
{
    if keys.len() == 0 {
        Seq::empty()
    } else {
        let rest = enabled_keys(keys.drop_last(), owner);
        if keys.last().enabled && keys.last().owner == owner {
            rest.push(keys.last().key)
        } else {
            rest
        }
    }
}

/// The name of the superuser, or nothing.
pub open spec fn superuser_name(s: StoreView) -> Seq<char> {
    match store::first_superuser(s.users) {
        Some(u) => u.username,
        None => ""@,
    }
}

/// The key that keeps the pool from running empty: the only enabled key of the
/// superuser.
pub open spec fn guarded_key(s: StoreView) -> Option<Seq<char>> {
    let keys = enabled_keys(s.nim_keys, superuser_name(s));
    if keys.len() == 1 {
        Some(keys[0])
    } else {
        None
    }
}

/// The upstream keys that a user sees: all of them as an admin, else their own.
pub open spec fn visible_keys(keys: Seq<NimKeyView>, admin: bool, username: Seq<char>) -> Seq<
    NimKeyView,
>
    decreases keys.len(),
{
    if keys.len() == 0 {
        Seq::empty()
    } else {
        let rest = visible_keys(keys.drop_last(), admin, username);
        if admin || keys.last().owner == username {
            rest.push(keys.last())
        } else {
            rest
        }
    }
}

/// The client keys that a user sees.
pub open spec fn visible_clients(
    keys: Seq<ClientKeyView>,
    admin: bool,
    username: Seq<char>,
) -> Seq<ClientKeyView>
    decreases keys.len(),
{
    if keys.len() == 0 {
        Seq::empty()
    } else {
        let rest = visible_clients(keys.drop_last(), admin, username);
        if admin || keys.last().owner == username {
            rest.push(keys.last())
        } else {
            rest
        }
    }
}

/// The row shows a key.
pub open spec fn is_key_row(
    row: KeyRow,
    k: NimKeyView,
    stats: Seq<LaneStat>,
    guarded: Option<Seq<char>>,
) -> bool {
    let lane = lane_holding(stats, k.key);
    &&& row.fingerprint@ == secrets::fingerprint_of(k.key)
    &&& row.last4@ == secrets::tail4(k.key)
    &&& row.owner@ == k.owner
    &&& row.enabled == k.enabled
    &&& row.rpm == k.rpm
    &&& if lane >= 0 {
        &&& row.lane == Some(lane as usize)
        &&& row.in_window == Some(stats[lane].in_window)
        &&& row.cooldown_ms == Some(stats[lane].cooldown_ms)
    } else {
        row.lane is None && row.in_window is None && row.cooldown_ms is None
    }
    &&& row.guarded == (guarded == Some(k.key))
}

pub open spec fn are_key_rows(
    rows: Seq<KeyRow>,
    keys: Seq<NimKeyView>,
    stats: Seq<LaneStat>,
    guarded: Option<Seq<char>>,
) -> bool {
    &&& rows.len() == keys.len()
    &&& forall|i: int|
        0 <= i < rows.len() ==> is_key_row(#[trigger] rows[i], keys[i], stats, guarded)
}

pub open spec fn are_client_rows(rows: Seq<ClientRow>, keys: Seq<ClientKeyView>) -> bool {
    &&& rows.len() == keys.len()
    &&& forall|i: int|
        0 <= i < rows.len() ==> (#[trigger] rows[i]).name@ == keys[i].name && rows[i].last4@
            == keys[i].last4 && rows[i].owner@ == keys[i].owner
}

pub open spec fn are_user_rows(rows: Seq<UserRow>, s: StoreView) -> bool {
    &&& rows.len() == s.users.len()
    &&& forall|i: int|
        0 <= i < rows.len() ==> {
            &&& (#[trigger] rows[i]).username@ == s.users[i].username
            &&& rows[i].role@ == role_name(s.users[i].role)
            &&& rows[i].nim_keys == settings::owned_keys(s.nim_keys, s.users[i].username).len()
            &&& rows[i].client_keys == settings::owned_clients(
                s.client_keys,
                s.users[i].username,
            ).len()
        }
}

pub open spec fn is_server_row(row: ServerRow, s: StoreView) -> bool {
    &&& row.base_url@ == s.base_url
    &&& row.limits == s.limits
    &&& row.history_days == s.history_days
    &&& row.default_window_days == s.default_window_days
    &&& row.governor.enabled == s.governor_enabled
    &&& row.governor.overrides@ == s.overrides
}

/// The page is what a user with this role gets to see of a store.
pub open spec fn is_page(
    p: ConfigPage,
    s: StoreView,
    username: Seq<char>,
    role: Role,
    stats: Seq<LaneStat>,
    enabled: usize,
    capacity: usize,
) -> bool {
    let admin = store::manages(role);
    &&& p.username@ == username
    &&& p.role@ == role_name(role)
    &&& p.mode@ == mode_name(s.mode)
    &&& p.enabled == enabled
    &&& p.capacity_rpm == capacity
    &&& are_key_rows(
        p.nim_keys@,
        visible_keys(s.nim_keys, admin, username),
        stats,
        guarded_key(s),
    )
    &&& are_client_rows(p.client_keys@, visible_clients(s.client_keys, admin, username))
    &&& if admin {
        &&& p.server matches Some(row) && is_server_row(row, s)
        &&& p.users matches Some(rows) && are_user_rows(rows@, s)
    } else {
        p.server is None && p.users is None
    }
}

// ---------------------------------------------------------------------------
// Making the page
// ---------------------------------------------------------------------------
fn name_of_role(role: Role) -> (r: &'static str)
    ensures
        r@ == role_name(role),
{
    match role {
        Role::Superuser => "superuser",
        Role::Admin => "admin",
        Role::User => "user",
    }
}

fn name_of_mode(mode: Mode) -> (r: &'static str)
    ensures
        r@ == mode_name(mode),
{
    match mode {
        Mode::Open => "open",
        Mode::Keyed => "keyed",
    }
}

fn find_lane(stats: &Vec<LaneStat>, key: &str) -> (r: Option<usize>)
    ensures
        match r {
            Some(i) => i < stats@.len() && lane_holding(stats@, key@) == i,
            None => lane_holding(stats@, key@) < 0,
        },
{
    let mut i: usize = stats.len();
    assert(stats@.take(i as int) =~= stats@);
    while i > 0
        invariant
            i <= stats@.len(),
            lane_holding(stats@, key@) == lane_holding(stats@.take(i as int), key@),
        decreases i,
    {
        assert(stats@.take(i as int).drop_last() =~= stats@.take(i - 1));
        i -= 1;
        if str_eq(stats[i].key.as_str(), key) {
            return Some(i);
        }
    }
    None
}

/// The key that keeps the pool from running empty.
fn find_guarded(sc: &StoredConfig) -> (r: Option<String>)
    ensures
        match r {
            Some(k) => guarded_key(sc@) == Some(k@),
            None => guarded_key(sc@) is None,
        },
{
    let owner: &str = match sc.superuser() {
        Some(u) => u.username.as_str(),
        None => "",
    };
    let keys = &sc.upstream.nim_keys;
    let ghost all = sc@.nim_keys;
    let ghost name = owner@;
    let mut first: Option<usize> = None;
    let mut n: usize = 0;
    let mut i: usize = 0;
    assert(enabled_keys(all.take(0), name) =~= Seq::empty());
    while i < keys.len()
        invariant
            i <= keys.len(),
            all == store::nim_keys_view(keys@),
            name == owner@,
            n <= i,
            n == enabled_keys(all.take(i as int), name).len(),
            match first {
                Some(k) => k < i && n > 0 && enabled_keys(all.take(i as int), name)[0]
                    == all[k as int].key,
                None => n == 0,
            },
        decreases keys.len() - i,
    {
        assert(all.take(i + 1).drop_last() =~= all.take(i as int));
        if keys[i].enabled && str_eq(keys[i].owner.as_str(), owner) {
            if n == 0 {
                first = Some(i);
            }
            n += 1;
        }
        i += 1;
    }
    assert(all.take(i as int) =~= all);
    match first {
        Some(k) => if n == 1 {
            Some(keys[k].key.clone())
        } else {
            None
        },
        None => None,
    }
}

fn key_row(k: &NimKey, stats: &Vec<LaneStat>, guarded: &Option<String>) -> (r: KeyRow)
    ensures
        is_key_row(
            r,
            k@,
            stats@,
            retry::opt_text(*guarded),
        ),
{
    let lane = find_lane(stats, k.key.as_str());
    let is_guarded: bool = match guarded {
        Some(g) => str_eq(g.as_str(), k.key.as_str()),
        None => false,
    };
    KeyRow {
        fingerprint: fingerprint(k.key.as_str()),
        last4: last4(k.key.as_str()),
        owner: k.owner.clone(),
        enabled: k.enabled,
        rpm: k.rpm,
        lane,
        in_window: match lane {
            Some(i) => Some(stats[i].in_window),
            None => None,
        },
        cooldown_ms: match lane {
            Some(i) => Some(stats[i].cooldown_ms),
            None => None,
        },
        guarded: is_guarded,
    }
}

fn key_rows(
    keys: &Vec<NimKey>,
    admin: bool,
    username: &str,
    stats: &Vec<LaneStat>,
    guarded: &Option<String>,
) -> (r: Vec<KeyRow>)
    ensures
        are_key_rows(
            r@,
            visible_keys(store::nim_keys_view(keys@), admin, username@),
            stats@,
            retry::opt_text(*guarded),
        ),
{
    let ghost all = store::nim_keys_view(keys@);
    let ghost g = retry::opt_text(*guarded);
    let mut rows: Vec<KeyRow> = Vec::new();
    let mut i: usize = 0;
    while i < keys.len()
        invariant
            i <= keys@.len(),
            all == store::nim_keys_view(keys@),
            g == retry::opt_text(*guarded),
            are_key_rows(rows@, visible_keys(all.take(i as int), admin, username@), stats@, g),
        decreases keys.len() - i,
    {
        assert(all.take(i + 1).drop_last() =~= all.take(i as int));
        if admin || str_eq(keys[i].owner.as_str(), username) {
            rows.push(key_row(&keys[i], stats, guarded));
        }
        i += 1;
    }
    assert(all.take(i as int) =~= all);
    rows
}

fn client_rows(keys: &Vec<ClientKey>, admin: bool, username: &str) -> (r: Vec<ClientRow>)
    ensures
        are_client_rows(
            r@,
            visible_clients(store::client_keys_view(keys@), admin, username@),
        ),
{
    let ghost all = store::client_keys_view(keys@);
    let mut rows: Vec<ClientRow> = Vec::new();
    let mut i: usize = 0;
    while i < keys.len()
        invariant
            i <= keys@.len(),
            all == store::client_keys_view(keys@),
            are_client_rows(rows@, visible_clients(all.take(i as int), admin, username@)),
        decreases keys.len() - i,
    {
        assert(all.take(i + 1).drop_last() =~= all.take(i as int));
        if admin || str_eq(keys[i].owner.as_str(), username) {
            rows.push(
                ClientRow {
                    name: keys[i].name.clone(),
                    last4: keys[i].last4.clone(),
                    owner: keys[i].owner.clone(),
                },
            );
        }
        i += 1;
    }
    assert(all.take(i as int) =~= all);
    rows
}

fn count_keys(keys: &Vec<NimKey>, owner: &str) -> (r: usize)
    ensures
        r == settings::owned_keys(store::nim_keys_view(keys@), owner@).len(),
{
    let ghost all = store::nim_keys_view(keys@);
    let mut n: usize = 0;
    let mut i: usize = 0;
    while i < keys.len()
        invariant
            i <= keys.len(),
            all == store::nim_keys_view(keys@),
            n <= i,
            n == settings::owned_keys(all.take(i as int), owner@).len(),
        decreases keys.len() - i,
    {
        assert(all.take(i + 1).drop_last() =~= all.take(i as int));
        if str_eq(keys[i].owner.as_str(), owner) {
            n += 1;
        }
        i += 1;
    }
    assert(all.take(i as int) =~= all);
    n
}

fn count_clients(keys: &Vec<ClientKey>, owner: &str) -> (r: usize)
    ensures
        r == settings::owned_clients(store::client_keys_view(keys@), owner@).len(),
{
    let ghost all = store::client_keys_view(keys@);
    let mut n: usize = 0;
    let mut i: usize = 0;
    while i < keys.len()
        invariant
            i <= keys.len(),
            all == store::client_keys_view(keys@),
            n <= i,
            n == settings::owned_clients(all.take(i as int), owner@).len(),
        decreases keys.len() - i,
    {
        assert(all.take(i + 1).drop_last() =~= all.take(i as int));
        if str_eq(keys[i].owner.as_str(), owner) {
            n += 1;
        }
        i += 1;
    }
    assert(all.take(i as int) =~= all);
    n
}

fn user_rows(sc: &StoredConfig) -> (r: Vec<UserRow>)
    ensures
        are_user_rows(r@, sc@),
{
    let mut rows: Vec<UserRow> = Vec::new();
    let mut i: usize = 0;
    while i < sc.users.len()
        invariant
            i <= sc.users@.len(),
            rows@.len() == i,
            forall|k: int|
                0 <= k < i ==> {
                    &&& (#[trigger] rows@[k]).username@ == sc@.users[k].username
                    &&& rows@[k].role@ == role_name(sc@.users[k].role)
                    &&& rows@[k].nim_keys == settings::owned_keys(
                        sc@.nim_keys,
                        sc@.users[k].username,
                    ).len()
                    &&& rows@[k].client_keys == settings::owned_clients(
                        sc@.client_keys,
                        sc@.users[k].username,
                    ).len()
                },
        decreases sc.users.len() - i,
    {
        let u = &sc.users[i];
        rows.push(
            UserRow {
                username: u.username.clone(),
                role: name_of_role(u.role),
                nim_keys: count_keys(&sc.upstream.nim_keys, u.username.as_str()),
                client_keys: count_clients(&sc.client_auth.keys, u.username.as_str()),
            },
        );
        i += 1;
    }
    rows
}

/// What a user gets to see, where the pool stands as given.
pub fn config_page(
    sc: &StoredConfig,
    username: &str,
    stats: &Vec<LaneStat>,
    enabled: usize,
    capacity_rpm: usize,
) -> (r: Result<ConfigPage, Refusal>)
    ensures
        match settings::role_in(sc@, username@) {
            Some(role) => r matches Ok(p) && is_page(
                p,
                sc@,
                username@,
                role,
                stats@,
                enabled,
                capacity_rpm,
            ),
            None => r matches Err(y) && y@ == settings::stale() && y.header is None,
        },
{
    let role = match role_of(sc, username) {
        Some(role) => role,
        None => return Err(stale_session()),
    };
    let admin: bool = role.is_admin();
    let guarded = find_guarded(sc);
    let server = if admin {
        Some(
            ServerRow {
                base_url: sc.upstream.base_url.clone(),
                limits: sc.limits,
                history_days: sc.history_days,
                default_window_days: sc.default_window_days,
                governor: sc.governor.clone(),
            },
        )
    } else {
        None
    };
    let users = if admin {
        Some(user_rows(sc))
    } else {
        None
    };
    Ok(
        ConfigPage {
            username: username.to_owned(),
            role: name_of_role(role),
            mode: name_of_mode(sc.client_auth.mode),
            enabled,
            capacity_rpm,
            nim_keys: key_rows(&sc.upstream.nim_keys, admin, username, stats, &guarded),
            client_keys: client_rows(&sc.client_auth.keys, admin, username),
            server,
            users,
        },
    )
}

/// What a user gets to see now.
pub fn api_config(sc: &StoredConfig, username: &str, pool: &Pool) -> (r: Result<
    ConfigPage,
    Refusal,
>)
    requires
        pool.wf(),
        pool@.capacity() <= usize::MAX,
    ensures
        match settings::role_in(sc@, username@) {
            Some(role) => r matches Ok(p) && exists|stats: Seq<LaneStat>|
                #[trigger] is_page(
                    p,
                    sc@,
                    username@,
                    role,
                    stats,
                    pool@.active as usize,
                    pool@.capacity() as usize,
                ) && exists|now: Instant| #[trigger]
                    pool::stats_of(pool@, now, stats) && pool::read_after(pool.latest(), now),
            None => r matches Err(y) && y@ == settings::stale() && y.header is None,
        },
{
    let stats = pool.lane_stats();
    let enabled: usize = pool.len();
    let capacity: usize = pool.capacity_rpm();
    let page = config_page(sc, username, &stats, enabled, capacity);
    assert(enabled == pool@.active as usize && capacity == pool@.capacity() as usize);
    page
}

// ---------------------------------------------------------------------------
// Laws
// ---------------------------------------------------------------------------
proof fn only_own_keys(keys: Seq<NimKeyView>, username: Seq<char>)
    ensures
        forall|i: int|
            0 <= i < visible_keys(keys, false, username).len() ==> (#[trigger] visible_keys(
                keys,
                false,
                username,
            )[i]).owner == username,
        visible_keys(keys, false, username) == settings::owned_keys(keys, username),
    decreases keys.len(),
{
    if keys.len() > 0 {
        only_own_keys(keys.drop_last(), username);
    }
}

proof fn only_own_clients(keys: Seq<ClientKeyView>, username: Seq<char>)
    ensures
        visible_clients(keys, false, username) == settings::owned_clients(keys, username),
        forall|i: int|
            0 <= i < visible_clients(keys, false, username).len() ==> (#[trigger] visible_clients(
                keys,
                false,
                username,
            )[i]).owner == username,
    decreases keys.len(),
{
    if keys.len() > 0 {
        only_own_clients(keys.drop_last(), username);
    }
}

/// A plain user's page holds no server settings, no users, and no row of anyone
/// else, but a row for every key of their own.
pub proof fn a_plain_user_sees_only_their_own(
    p: ConfigPage,
    s: StoreView,
    username: Seq<char>,
    stats: Seq<LaneStat>,
    enabled: usize,
    capacity: usize,
)
    requires
        is_page(p, s, username, Role::User, stats, enabled, capacity),
    ensures
        p.server is None,
        p.users is None,
        forall|i: int| 0 <= i < p.nim_keys@.len() ==> (#[trigger] p.nim_keys@[i]).owner@ == username,
        forall|i: int|
            0 <= i < p.client_keys@.len() ==> (#[trigger] p.client_keys@[i]).owner@ == username,
        p.nim_keys@.len() == settings::owned_keys(s.nim_keys, username).len(),
        p.client_keys@.len() == settings::owned_clients(s.client_keys, username).len(),
{
    only_own_keys(s.nim_keys, username);
    only_own_clients(s.client_keys, username);
}

proof fn all_keys(keys: Seq<NimKeyView>, username: Seq<char>)
    ensures
        visible_keys(keys, true, username) == keys,
    decreases keys.len(),
{
    if keys.len() > 0 {
        all_keys(keys.drop_last(), username);
        assert(keys.drop_last().push(keys.last()) =~= keys);
    } else {
        assert(keys =~= Seq::empty());
    }
}

/// An admin's page shows every upstream key.
pub proof fn an_admin_sees_every_key(
    p: ConfigPage,
    s: StoreView,
    username: Seq<char>,
    role: Role,
    stats: Seq<LaneStat>,
    enabled: usize,
    capacity: usize,
)
    requires
        is_page(p, s, username, role, stats, enabled, capacity),
        store::manages(role),
    ensures
        p.nim_keys@.len() == s.nim_keys.len(),
        forall|i: int|
            0 <= i < p.nim_keys@.len() ==> (#[trigger] p.nim_keys@[i]).fingerprint@
                == secrets::fingerprint_of(s.nim_keys[i].key),
{
    all_keys(s.nim_keys, username);
}

proof fn visible_keys_are_filtered(keys: Seq<NimKeyView>, admin: bool, username: Seq<char>)
    ensures
        visible_keys(keys, admin, username) == keys.filter(
            |k: NimKeyView| admin || k.owner == username,
        ),
    decreases keys.len(),
{
    reveal(Seq::filter);
    if keys.len() > 0 {
        visible_keys_are_filtered(keys.drop_last(), admin, username);
    }
}

proof fn visible_clients_are_filtered(keys: Seq<ClientKeyView>, admin: bool, username: Seq<char>)
    ensures
        visible_clients(keys, admin, username) == keys.filter(
            |k: ClientKeyView| admin || k.owner == username,
        ),
    decreases keys.len(),
{
    reveal(Seq::filter);
    if keys.len() > 0 {
        visible_clients_are_filtered(keys.drop_last(), admin, username);
    }
}

proof fn owned_are_filtered(keys: Seq<NimKeyView>, clients: Seq<ClientKeyView>, owner: Seq<char>)
    ensures
        settings::owned_keys(keys, owner) == keys.filter(|k: NimKeyView| k.owner == owner),
        settings::owned_clients(clients, owner) == clients.filter(
            |k: ClientKeyView| k.owner == owner,
        ),
    decreases keys.len() + clients.len(),
{
    reveal(Seq::filter);
    if keys.len() > 0 {
        owned_are_filtered(keys.drop_last(), clients, owner);
    }
    if clients.len() > 0 {
        owned_are_filtered(keys, clients.drop_last(), owner);
    }
}

proof fn enabled_keys_are_filtered(keys: Seq<NimKeyView>, owner: Seq<char>)
    ensures
        enabled_keys(keys, owner) == keys.filter(
            |k: NimKeyView| k.enabled && k.owner == owner,
        ).map_values(|k: NimKeyView| k.key),
    decreases keys.len(),
{
    reveal(Seq::filter);
    let p = |k: NimKeyView| k.enabled && k.owner == owner;
    let f = |k: NimKeyView| k.key;
    if keys.len() > 0 {
        let rest = keys.drop_last();
        enabled_keys_are_filtered(rest, owner);
        if p(keys.last()) {
            assert(keys.filter(p) =~= rest.filter(p).push(keys.last()));
            assert(keys.filter(p).map_values(f) =~= rest.filter(p).map_values(f).push(
                keys.last().key,
            ));
        }
    } else {
        assert(keys.filter(p).map_values(f) =~= Seq::empty());
    }
}

proof fn no_enabled_keys(keys: Seq<NimKeyView>, owner: Seq<char>)
    requires
        forall|j: int| 0 <= j < keys.len() ==> (#[trigger] keys[j]).owner != owner,
    ensures
        enabled_keys(keys, owner).len() == 0,
    decreases keys.len(),
{
    if keys.len() > 0 {
        let rest = keys.drop_last();
        assert(keys[keys.len() - 1].owner != owner);
        assert forall|j: int| 0 <= j < rest.len() implies (#[trigger] rest[j]).owner != owner by {
            assert(keys[j].owner != owner);
        }
        no_enabled_keys(rest, owner);
    }
}

proof fn lane_holding_is_last(stats: Seq<LaneStat>, key: Seq<char>)
    ensures
        -1 <= lane_holding(stats, key) < stats.len(),
        lane_holding(stats, key) >= 0 ==> stats[lane_holding(stats, key)].key@ == key,
        forall|j: int|
            lane_holding(stats, key) < j < stats.len() ==> (#[trigger] stats[j]).key@ != key,
    decreases stats.len(),
{
    if stats.len() > 0 && stats.last().key@ != key {
        let rest = stats.drop_last();
        lane_holding_is_last(rest, key);
        assert forall|j: int| lane_holding(stats, key) < j < stats.len() implies (
        #[trigger] stats[j]).key@ != key by {
            if j < rest.len() {
                assert(rest[j].key@ != key);
            }
        }
    }
}

/// The upstream keys that are shown: all of them to whoever manages the server, and
/// to a plain user their own, in order.
pub open spec fn shown_keys(sc: StoredConfig, username: Seq<char>, admin: bool) -> Seq<NimKeyView> {
    sc@.nim_keys.filter(|k: NimKeyView| admin || k.owner == username)
}

/// A page shows each key that its user gets to see, in order, and never the key
/// itself: its fingerprint and its last four characters, its owner, its budget and
/// whether it is enabled; the lane that holds it and how that lane stands, where one
/// does; and whether it is the only enabled key of the superuser, which may not go.
pub proof fn a_page_shows_each_key_as_it_stands(
    sc: &StoredConfig,
    username: &str,
    stats: &Vec<LaneStat>,
    enabled: usize,
    capacity: usize,
    r: Result<ConfigPage, Refusal>,
    role: Option<Role>,
    root: Option<&User>,
    i: int,
    lane: int,
)
    requires
        call_ensures(config_page, (sc, username, stats, enabled, capacity), r),
        call_ensures(role_of, (sc, username), role),
        call_ensures(StoredConfig::superuser, (sc,), root),
    ensures
        r is Ok <==> role is Some,
        r matches Err(x) ==> x.status == 401 && x.code@ == "unauthorized"@ && x.message@
            == "your user no longer exists"@,
        r matches Ok(p) ==> {
            let keys = shown_keys(*sc, username@, role != Some(Role::User));
            let guard = sc@.nim_keys.filter(
                |k: NimKeyView| k.enabled && root is Some && k.owner == root->0.username@,
            );
            &&& p.nim_keys@.len() == keys.len()
            &&& 0 <= i < keys.len() ==> {
                let row = p.nim_keys@[i];
                let k = keys[i];
                &&& row.fingerprint@ == secrets::fingerprint_of(k.key)
                &&& k.key.len() > 4 ==> row.last4@ == k.key.skip(k.key.len() - 4)
                &&& k.key.len() <= 4 ==> row.last4@ == k.key
                &&& row.owner@ == k.owner
                &&& row.enabled == k.enabled
                &&& row.rpm == k.rpm
                &&& 0 <= lane < stats@.len() && stats@[lane].key@ == k.key && (forall|j: int|
                    lane < j < stats@.len() ==> (#[trigger] stats@[j]).key@ != k.key)
                    ==> row.lane == Some(lane as usize) && row.in_window == Some(
                    stats@[lane].in_window,
                ) && row.cooldown_ms == Some(stats@[lane].cooldown_ms)
                &&& (forall|j: int| 0 <= j < stats@.len() ==> (#[trigger] stats@[j]).key@ != k.key)
                    ==> row.lane is None && row.in_window is None && row.cooldown_ms is None
                &&& root is Some ==> (row.guarded <==> guard.len() == 1 && guard[0].key == k.key)
                &&& root is None && (forall|j: int|
                    0 <= j < sc@.nim_keys.len() ==> (#[trigger] sc@.nim_keys[j]).owner.len() > 0)
                    ==> !row.guarded
            }
        },
{
    let admin = role != Some(Role::User);
    visible_keys_are_filtered(sc@.nim_keys, admin, username@);
    if let Ok(p) = r {
        let keys = shown_keys(*sc, username@, admin);
        if 0 <= i < keys.len() {
            let k = keys[i];
            assert(is_key_row(p.nim_keys@[i], k, stats@, guarded_key(sc@)));
            lane_holding_is_last(stats@, k.key);
            let at = lane_holding(stats@, k.key);
            if 0 <= lane < stats@.len() && stats@[lane].key@ == k.key && (forall|j: int|
                lane < j < stats@.len() ==> (#[trigger] stats@[j]).key@ != k.key) {
                if at < lane {
                    assert(stats@[lane].key@ != k.key);
                }
                if lane < at {
                    assert(stats@[at].key@ != k.key);
                }
            }
            if at >= 0 {
                assert(stats@[at].key@ == k.key);
            }
            if root is None && (forall|j: int|
                0 <= j < sc@.nim_keys.len() ==> (#[trigger] sc@.nim_keys[j]).owner.len() > 0) {
                reveal_strlit("");
                no_enabled_keys(sc@.nim_keys, ""@);
            }
            if let Some(u) = root {
                let owner = u.username@;
                enabled_keys_are_filtered(sc@.nim_keys, owner);
                assert(superuser_name(sc@) == owner);
                assert(sc@.nim_keys.filter(
                    |k: NimKeyView| k.enabled && root is Some && k.owner == root->0.username@,
                ) =~= sc@.nim_keys.filter(|k: NimKeyView| k.enabled && k.owner == owner)) by {
                    assert((|k: NimKeyView|
                        k.enabled && root is Some && k.owner == root->0.username@) =~= (
                    |k: NimKeyView| k.enabled && k.owner == owner));
                }
            }
        }
    }
}

/// The rest of a page: who looks, as what, who may use the API, and how many lanes
/// with what budget there are; the client keys that its user gets to see; and, for
/// whoever manages the server and for no one else, the server settings as they are
/// and every user, with their role and the number of keys of each sort that they own.
pub proof fn a_page_shows_what_its_user_may_see(
    sc: &StoredConfig,
    username: &str,
    stats: &Vec<LaneStat>,
    enabled: usize,
    capacity: usize,
    r: Result<ConfigPage, Refusal>,
    role: Option<Role>,
    i: int,
)
    requires
        call_ensures(config_page, (sc, username, stats, enabled, capacity), r),
        call_ensures(role_of, (sc, username), role),
    ensures
        r matches Ok(p) ==> {
            let admin = role != Some(Role::User);
            let clients = sc@.client_keys.filter(
                |k: ClientKeyView| admin || k.owner == username@,
            );
            &&& p.username@ == username@
            &&& role == Some(Role::Superuser) ==> p.role@ == "superuser"@
            &&& role == Some(Role::Admin) ==> p.role@ == "admin"@
            &&& role == Some(Role::User) ==> p.role@ == "user"@
            &&& sc.client_auth.mode == Mode::Open ==> p.mode@ == "open"@
            &&& sc.client_auth.mode == Mode::Keyed ==> p.mode@ == "keyed"@
            &&& p.enabled == enabled
            &&& p.capacity_rpm == capacity
            &&& p.client_keys@.len() == clients.len()
            &&& 0 <= i < clients.len() ==> p.client_keys@[i].name@ == clients[i].name
                && p.client_keys@[i].last4@ == clients[i].last4 && p.client_keys@[i].owner@
                == clients[i].owner
            &&& p.server is Some <==> admin
            &&& p.users is Some <==> admin
            &&& p.server matches Some(row) ==> row.base_url@ == sc.upstream.base_url@ && row.limits
                == sc.limits && row.history_days == sc.history_days && row.default_window_days
                == sc.default_window_days && row.governor.enabled == sc.governor.enabled
                && row.governor.overrides@ == sc.governor.overrides@
            &&& p.users matches Some(rows) ==> {
                &&& rows@.len() == sc.users@.len()
                &&& 0 <= i < rows@.len() ==> {
                    let u = sc.users@[i];
                    &&& rows@[i].username@ == u.username@
                    &&& u.role == Role::Superuser ==> rows@[i].role@ == "superuser"@
                    &&& u.role == Role::Admin ==> rows@[i].role@ == "admin"@
                    &&& u.role == Role::User ==> rows@[i].role@ == "user"@
                    &&& rows@[i].nim_keys == sc@.nim_keys.filter(
                        |k: NimKeyView| k.owner == u.username@,
                    ).len()
                    &&& rows@[i].client_keys == sc@.client_keys.filter(
                        |k: ClientKeyView| k.owner == u.username@,
                    ).len()
                }
            }
        },
{
    let admin = role != Some(Role::User);
    visible_clients_are_filtered(sc@.client_keys, admin, username@);
    if let Ok(p) = r {
        if let Some(rows) = p.users {
            assert(sc@.users.len() == sc.users@.len());
            if 0 <= i < rows@.len() {
                assert(sc@.users[i] == sc.users@[i]@);
                owned_are_filtered(sc@.nim_keys, sc@.client_keys, sc.users@[i].username@);
                assert(rows@[i].username@ == sc@.users[i].username);
            }
        }
    }
}

/// What a user gets to see now is the page for the lanes as they stand now: as many
/// as are enabled, with their budget together.
pub proof fn a_page_is_of_the_pool_now(
    sc: &StoredConfig,
    username: &str,
    pool: &Pool,
    r: Result<ConfigPage, Refusal>,
    role: Option<Role>,
    n: usize,
    total: usize,
    i: int,
    lane: int,
)
    requires
        call_ensures(api_config, (sc, username, pool), r),
        call_ensures(role_of, (sc, username), role),
        call_ensures(Pool::len, (pool,), n),
        call_ensures(Pool::capacity_rpm, (pool,), total),
        pool@.active <= usize::MAX,
    ensures
        r is Ok <==> role is Some,
        r matches Err(x) ==> x.status == 401 && x.code@ == "unauthorized"@,
        r matches Ok(p) ==> p.username@ == username@ && p.enabled == n && p.capacity_rpm == total && (
        p.server is Some <==> role != Some(Role::User)) && (p.users is Some <==> role != Some(
            Role::User,
        )) && p.nim_keys@.len() == shown_keys(*sc, username@, role != Some(Role::User)).len(),
        r matches Ok(p) ==> {
            let keys = shown_keys(*sc, username@, role != Some(Role::User));
            0 <= i < keys.len() ==> {
                let row = p.nim_keys@[i];
                &&& row.fingerprint@ == secrets::fingerprint_of(keys[i].key)
                &&& row.rpm == keys[i].rpm && row.enabled == keys[i].enabled
                &&& 0 <= lane < pool@.active && pool@.lanes[lane].key == keys[i].key && (forall|
                    j: int,
                |
                    lane < j < pool@.active ==> (#[trigger] pool@.lanes[j]).key != keys[i].key)
                    ==> row.lane == Some(lane as usize) && row.in_window is Some
                    && row.cooldown_ms is Some
                &&& (forall|j: int|
                    0 <= j < pool@.active ==> (#[trigger] pool@.lanes[j]).key != keys[i].key)
                    ==> row.lane is None && row.in_window is None && row.cooldown_ms is None
            }
        },
{
    let admin = role != Some(Role::User);
    visible_keys_are_filtered(sc@.nim_keys, admin, username@);
    if let Ok(p) = r {
        let keys = shown_keys(*sc, username@, admin);
        let stats = choose|stats: Seq<LaneStat>|
            #[trigger] is_page(
                p,
                sc@,
                username@,
                role->0,
                stats,
                pool@.active as usize,
                pool@.capacity() as usize,
            ) && exists|now: Instant| #[trigger]
                pool::stats_of(pool@, now, stats) && pool::read_after(pool.latest(), now);
        let now = choose|now: Instant| #[trigger]
            pool::stats_of(pool@, now, stats) && pool::read_after(pool.latest(), now);
        if 0 <= i < keys.len() {
            let key = keys[i].key;
            assert(is_key_row(p.nim_keys@[i], keys[i], stats, guarded_key(sc@)));
            lane_holding_is_last(stats, key);
            let at = lane_holding(stats, key);
            assert forall|j: int| 0 <= j < stats.len() implies (#[trigger] stats[j]).key@
                == pool@.lanes[j].key by {
                assert(pool::stat_of(pool@.lanes[j], now, stats[j]));
            }
            if at >= 0 {
                assert(stats[at].key@ == pool@.lanes[at].key);
            }
            if 0 <= lane < pool@.active && pool@.lanes[lane].key == key && (forall|j: int|
                lane < j < pool@.active ==> (#[trigger] pool@.lanes[j]).key != key) {
                assert(stats[lane].key@ == key);
                if at > lane {
                    assert(pool@.lanes[at].key != key);
                }
            }
        }
    }
}

} // verus!
