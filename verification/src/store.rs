//! The stored configuration: who may do what, with which keys, under which
//! limits. (Prices and the service level target, which are fractions, are kept
//! beside it.)
use vstd::prelude::*;

use crate::pool::LaneSpec;
use crate::text::str_eq;
use crate::time::{Duration, NANOS_PER_SEC};

verus! {

/// What a user may do.
#[derive(Clone, Copy, Debug, PartialEq, Eq, Structural)]
pub enum Role {
    /// The first user, who can never be deleted or demoted.
    Superuser,
    Admin,
    User,
}

/// Who may use the API.
#[derive(Clone, Copy, Debug, PartialEq, Eq, Structural)]
pub enum Mode {
    /// Anyone.
    Open,
    /// Clients with a key.
    Keyed,
}

/// A user of the dashboard.
pub struct User {
    pub username: String,
    pub password_hash: String,
    pub role: Role,
}

/// An upstream key.
pub struct NimKey {
    pub key: String,
    pub owner: String,
    pub enabled: bool,
    pub rpm: usize,
}

/// A client key, of which only the digest is kept.
pub struct ClientKey {
    pub name: String,
    pub secret_sha256: String,
    pub last4: String,
    pub owner: String,
}

/// The upstream and the keys to it.
pub struct Upstream {
    pub base_url: String,
    pub nim_keys: Vec<NimKey>,
}

/// Who may use the API, and with which keys.
pub struct ClientAuth {
    pub mode: Mode,
    pub keys: Vec<ClientKey>,
}

/// How long things may take, and how many at a time.
#[derive(Clone, Copy, Debug, PartialEq, Eq, Structural)]
pub struct Limits {
    pub max_wait_secs: u64,
    pub heartbeat_secs: u64,
    pub models_ttl_secs: u64,
    pub stream_idle_secs: u64,
    pub request_timeout_secs: u64,
    pub max_inflight: usize,
    pub strict_passthrough: bool,
}

/// Per-model concurrency caps that an operator has pinned, one for a model.
pub struct Overrides {
    entries: Vec<(String, usize)>,
}

/// Settings of the governor, which turns a model's concurrency down when the
/// upstream runs out of workers for it.
pub struct GovernorSettings {
    /// Off only when switched off; it stays dormant until the upstream really
    /// runs out.
    pub enabled: bool,
    pub overrides: Overrides,
}

/// The stored configuration.
pub struct StoredConfig {
    pub users: Vec<User>,
    pub upstream: Upstream,
    pub client_auth: ClientAuth,
    pub limits: Limits,
    /// How many days of history are kept; zero keeps all.
    pub history_days: u64,
    /// How many days the dashboard shows unless asked otherwise.
    pub default_window_days: u64,
    pub governor: GovernorSettings,
}

// ---------------------------------------------------------------------------
// Model
// ---------------------------------------------------------------------------
/// A user of the dashboard.
pub struct UserView {
    pub username: Seq<char>,
    pub password_hash: Seq<char>,
    pub role: Role,
}

/// An upstream key.
pub struct NimKeyView {
    pub key: Seq<char>,
    pub owner: Seq<char>,
    pub enabled: bool,
    pub rpm: usize,
}

/// A client key.
pub struct ClientKeyView {
    pub name: Seq<char>,
    pub secret_sha256: Seq<char>,
    pub last4: Seq<char>,
    pub owner: Seq<char>,
}

/// The stored configuration.
#[verifier::ext_equal]
pub struct StoreView {
    pub users: Seq<UserView>,
    pub base_url: Seq<char>,
    pub nim_keys: Seq<NimKeyView>,
    pub mode: Mode,
    pub client_keys: Seq<ClientKeyView>,
    pub limits: Limits,
    pub history_days: u64,
    pub default_window_days: u64,
    pub governor_enabled: bool,
    pub overrides: Map<Seq<char>, usize>,
}

impl View for User {
    type V = UserView;

    open spec fn view(&self) -> UserView {
        UserView {
            username: self.username@,
            password_hash: self.password_hash@,
            role: self.role,
        }
    }
}

impl View for NimKey {
    type V = NimKeyView;

    open spec fn view(&self) -> NimKeyView {
        NimKeyView {
            key: self.key@,
            owner: self.owner@,
            enabled: self.enabled,
            rpm: self.rpm,
        }
    }
}

impl View for ClientKey {
    type V = ClientKeyView;

    open spec fn view(&self) -> ClientKeyView {
        ClientKeyView {
            name: self.name@,
            secret_sha256: self.secret_sha256@,
            last4: self.last4@,
            owner: self.owner@,
        }
    }
}

/// What the entries of a list of caps say; a later entry counts over an
/// earlier one for the same model.
pub open spec fn caps(entries: Seq<(String, usize)>) -> Map<Seq<char>, usize>
    decreases entries.len(),
{
    if entries.len() == 0 {
        Map::empty()
    } else {
        caps(entries.drop_last()).insert(entries.last().0@, entries.last().1)
    }
}

/// No model is listed twice.
pub open spec fn listed_once(entries: Seq<(String, usize)>) -> bool {
    forall|i: int, j: int|
        0 <= i < j < entries.len() ==> (#[trigger] entries[i]).0@ != (#[trigger] entries[j]).0@
}

impl Overrides {
    #[verifier::type_invariant]
    spec fn inv(self) -> bool {
        listed_once(self.entries@)
    }
}

impl View for Overrides {
    type V = Map<Seq<char>, usize>;

    closed spec fn view(&self) -> Map<Seq<char>, usize> {
        caps(self.entries@)
    }
}

pub open spec fn users_view(users: Seq<User>) -> Seq<UserView> {
    Seq::new(users.len(), |i: int| users[i]@)
}

pub open spec fn nim_keys_view(keys: Seq<NimKey>) -> Seq<NimKeyView> {
    Seq::new(keys.len(), |i: int| keys[i]@)
}

pub open spec fn client_keys_view(keys: Seq<ClientKey>) -> Seq<ClientKeyView> {
    Seq::new(keys.len(), |i: int| keys[i]@)
}

impl View for StoredConfig {
    type V = StoreView;

    open spec fn view(&self) -> StoreView {
        StoreView {
            users: users_view(self.users@),
            base_url: self.upstream.base_url@,
            nim_keys: nim_keys_view(self.upstream.nim_keys@),
            mode: self.client_auth.mode,
            client_keys: client_keys_view(self.client_auth.keys@),
            limits: self.limits,
            history_days: self.history_days,
            default_window_days: self.default_window_days,
            governor_enabled: self.governor.enabled,
            overrides: self.governor.overrides@,
        }
    }
}

/// The index of the first of some names that is `name`; how many there are
/// where none is.
pub open spec fn position(names: Seq<Seq<char>>, name: Seq<char>) -> int
    decreases names.len(),
{
    if names.len() == 0 {
        0
    } else if names[0] == name {
        0
    } else {
        1 + position(names.drop_first(), name)
    }
}

/// The names of users.
pub open spec fn usernames(users: Seq<UserView>) -> Seq<Seq<char>> {
    Seq::new(users.len(), |i: int| users[i].username)
}

/// The user with a name.
pub open spec fn user_named(users: Seq<UserView>, name: Seq<char>) -> Option<UserView> {
    let i = position(usernames(users), name);
    if i < users.len() {
        Some(users[i])
    } else {
        None
    }
}

/// The first superuser.
pub open spec fn first_superuser(users: Seq<UserView>) -> Option<UserView>
    decreases users.len(),
{
    if users.len() == 0 {
        None
    } else if users[0].role == Role::Superuser {
        Some(users[0])
    } else {
        first_superuser(users.drop_first())
    }
}

/// A role that may manage the server.
pub open spec fn manages(role: Role) -> bool {
    role == Role::Superuser || role == Role::Admin
}

/// The lanes are those of some upstream keys: one for each, in order.
pub open spec fn is_specs(specs: Seq<LaneSpec>, keys: Seq<NimKeyView>) -> bool {
    &&& specs.len() == keys.len()
    &&& forall|i: int|
        0 <= i < specs.len() ==> (#[trigger] specs[i]).key@ == keys[i].key && specs[i].rpm
            == keys[i].rpm && specs[i].enabled == keys[i].enabled
}

/// Every entry of a list of caps names a pinned model, and every pinned model
/// is named by an entry.
pub proof fn caps_are_entries(entries: Seq<(String, usize)>)
    ensures
        forall|i: int|
            0 <= i < entries.len() ==> caps(entries).contains_key(
                (#[trigger] entries[i]).0@,
            ),
        forall|m: Seq<char>| #[trigger]
            caps(entries).contains_key(m) ==> exists|i: int|
                0 <= i < entries.len() && (#[trigger] entries[i]).0@ == m,
    decreases entries.len(),
{
    if entries.len() > 0 {
        let rest = entries.drop_last();
        caps_are_entries(rest);
        assert forall|i: int| 0 <= i < entries.len() implies caps(entries).contains_key(
            (#[trigger] entries[i]).0@,
        ) by {
            if i < rest.len() {
                assert(rest[i] == entries[i]);
            }
        }
        assert forall|m: Seq<char>| #[trigger] caps(entries).contains_key(
            m,
        ) implies exists|i: int| 0 <= i < entries.len() && (#[trigger] entries[i]).0@ == m by {
            if m == entries.last().0@ {
                assert(entries[entries.len() - 1].0@ == m);
            } else {
                assert(caps(rest).contains_key(m));
                let i = choose|i: int| 0 <= i < rest.len() && (#[trigger] rest[i]).0@ == m;
                assert(entries[i].0@ == m);
            }
        }
    }
}

/// A position is in range exactly when the name is there, and what stands
/// there is the name, for the first time.
pub proof fn position_is_first(names: Seq<Seq<char>>, name: Seq<char>)
    ensures
        0 <= position(names, name) <= names.len(),
        position(names, name) < names.len() ==> names[position(names, name)] == name,
        forall|i: int| 0 <= i < position(names, name) ==> #[trigger] names[i] != name,
    decreases names.len(),
{
    if names.len() > 0 && names[0] != name {
        let rest = names.drop_first();
        position_is_first(rest, name);
        assert forall|i: int| 0 <= i < position(names, name) implies #[trigger] names[i] != name by {
            if i > 0 {
                assert(rest[i - 1] == names[i]);
            }
        }
    }
}

// ---------------------------------------------------------------------------
// Reading
// ---------------------------------------------------------------------------
impl Role {
    /// Whether the role may manage the server.
    pub fn is_admin(self) -> (r: bool)
        ensures
            r == manages(self),
    {
        match self {
            Role::Superuser => true,
            Role::Admin => true,
            Role::User => false,
        }
    }
}

impl Overrides {
    /// No caps.
    pub fn new() -> (r: Overrides)
        ensures
            r@ == Map::<Seq<char>, usize>::empty(),
    {
        Overrides { entries: Vec::new() }
    }

    /// The cap of a model.
    pub fn get(&self, model: &str) -> (r: Option<usize>)
        ensures
            r == if self@.contains_key(model@) {
                Some(self@[model@])
            } else {
                None
            },
    {
        let mut i: usize = self.entries.len();
        assert(self.entries@.take(i as int) =~= self.entries@);
        while i > 0
            invariant
                i <= self.entries@.len(),
                self@.contains_key(model@) == caps(self.entries@.take(i as int)).contains_key(
                    model@,
                ),
                self@.contains_key(model@) ==> self@[model@] == caps(
                    self.entries@.take(i as int),
                )[model@],
            decreases i,
        {
            assert(self.entries@.take(i as int).drop_last() =~= self.entries@.take(i - 1));
            i -= 1;
            if str_eq(self.entries[i].0.as_str(), model) {
                return Some(self.entries[i].1);
            }
        }
        None
    }

    /// The models with their caps, each model once.
    pub fn listed(&self) -> (r: &Vec<(String, usize)>)
        ensures
            caps(r@) == self@,
            listed_once(r@),
    {
        proof {
            use_type_invariant(self);
        }
        &self.entries
    }

    /// Takes the cap off a model.
    pub fn remove(&mut self, model: &str)
        ensures
            final(self)@ == old(self)@.remove(model@),
            !final(self)@.contains_key(model@),
    {
        proof {
            use_type_invariant(&*self);
        }
        let ghost all = self.entries@;
        let mut left: Vec<(String, usize)> = Vec::new();
        let mut i: usize = 0;
        assert(caps(left@) =~= caps(all.take(0)).remove(model@));
        while i < self.entries.len()
            invariant
                i <= self.entries@.len(),
                all == self.entries@,
                listed_once(all),
                listed_once(left@),
                forall|k: int|
                    0 <= k < left@.len() ==> exists|c: int|
                        0 <= c < i && (#[trigger] left@[k]).0@ == #[trigger] all[c].0@,
                caps(left@) == caps(all.take(i as int)).remove(model@),
            decreases self.entries.len() - i,
        {
            assert(all.take(i + 1).drop_last() =~= all.take(i as int));
            let ghost before = left@;
            if !str_eq(self.entries[i].0.as_str(), model) {
                left.push((self.entries[i].0.clone(), self.entries[i].1));
                assert(left@.drop_last() =~= before);
            }
            assert(caps(left@) =~= caps(all.take(i + 1)).remove(model@));
            i += 1;
        }
        assert(all.take(i as int) =~= all);
        self.entries = left;
    }

    /// Pins a cap on a model.
    pub fn insert(&mut self, model: String, cap: usize)
        ensures
            final(self)@ == old(self)@.insert(model@, cap),
    {
        self.remove(model.as_str());
        proof {
            use_type_invariant(&*self);
            caps_are_entries(self.entries@);
        }
        let ghost before = self.entries@;
        let ghost name = model@;
        let mut entries: Vec<(String, usize)> = Vec::new();
        std::mem::swap(&mut entries, &mut self.entries);
        entries.push((model, cap));
        assert(entries@.drop_last() =~= before);
        assert(listed_once(entries@));
        self.entries = entries;
        assert(self@ =~= old(self)@.insert(name, cap));
    }
}

impl Clone for User {
    fn clone(&self) -> (r: User)
        ensures
            r == *self,
    {
        User {
            username: self.username.clone(),
            password_hash: self.password_hash.clone(),
            role: self.role,
        }
    }
}

impl Clone for NimKey {
    fn clone(&self) -> (r: NimKey)
        ensures
            r == *self,
    {
        NimKey {
            key: self.key.clone(),
            owner: self.owner.clone(),
            enabled: self.enabled,
            rpm: self.rpm,
        }
    }
}

impl Clone for ClientKey {
    fn clone(&self) -> (r: ClientKey)
        ensures
            r == *self,
    {
        ClientKey {
            name: self.name.clone(),
            secret_sha256: self.secret_sha256.clone(),
            last4: self.last4.clone(),
            owner: self.owner.clone(),
        }
    }
}

impl Clone for Overrides {
    fn clone(&self) -> (r: Overrides)
        ensures
            r@ == self@,
    {
        proof {
            use_type_invariant(self);
        }
        let mut entries: Vec<(String, usize)> = Vec::new();
        let mut i: usize = 0;
        while i < self.entries.len()
            invariant
                i <= self.entries@.len(),
                entries@ == self.entries@.take(i as int),
            decreases self.entries.len() - i,
        {
            entries.push((self.entries[i].0.clone(), self.entries[i].1));
            assert(entries@ =~= self.entries@.take(i + 1));
            i += 1;
        }
        assert(entries@ =~= self.entries@);
        Overrides { entries }
    }
}

impl Clone for GovernorSettings {
    fn clone(&self) -> (r: GovernorSettings)
        ensures
            r.enabled == self.enabled,
            r.overrides@ == self.overrides@,
    {
        GovernorSettings { enabled: self.enabled, overrides: self.overrides.clone() }
    }
}

impl Default for GovernorSettings {
    fn default() -> (r: GovernorSettings)
        ensures
            r.enabled,
            r.overrides@ == Map::<Seq<char>, usize>::empty(),
    {
        GovernorSettings { enabled: true, overrides: Overrides::new() }
    }
}

impl Clone for StoredConfig {
    fn clone(&self) -> (r: StoredConfig)
        ensures
            r@ == self@,
    {
        let users = self.users.clone();
        let nim_keys = self.upstream.nim_keys.clone();
        let keys = self.client_auth.keys.clone();
        assert(users@ =~= self.users@);
        assert(nim_keys@ =~= self.upstream.nim_keys@);
        assert(keys@ =~= self.client_auth.keys@);
        StoredConfig {
            users,
            upstream: Upstream { base_url: self.upstream.base_url.clone(), nim_keys },
            client_auth: ClientAuth { mode: self.client_auth.mode, keys },
            limits: self.limits,
            history_days: self.history_days,
            default_window_days: self.default_window_days,
            governor: self.governor.clone(),
        }
    }
}

/// The index of the first user with a name.
pub fn find_user(users: &Vec<User>, name: &str) -> (r: Option<usize>)
    ensures
        match r {
            Some(i) => i < users@.len() && i == position(
                usernames(users_view(users@)),
                name@,
            ),
            None => position(usernames(users_view(users@)), name@) == users@.len(),
        },
{
    let ghost names = usernames(users_view(users@));
    let mut i: usize = 0;
    assert(names.skip(0) =~= names);
    while i < users.len()
        invariant
            i <= users@.len(),
            names == usernames(users_view(users@)),
            position(names, name@) == i + position(names.skip(i as int), name@),
        decreases users.len() - i,
    {
        if str_eq(users[i].username.as_str(), name) {
            return Some(i);
        }
        assert(names.skip(i as int).drop_first() =~= names.skip(i + 1));
        i += 1;
    }
    None
}

impl StoredConfig {
    /// The user with a name.
    pub fn user(&self, name: &str) -> (r: Option<&User>)
        ensures
            match r {
                Some(u) => user_named(self@.users, name@) == Some(u@),
                None => user_named(self@.users, name@) is None,
            },
    {
        match find_user(&self.users, name) {
            Some(i) => Some(&self.users[i]),
            None => None,
        }
    }

    /// The superuser.
    pub fn superuser(&self) -> (r: Option<&User>)
        ensures
            match r {
                Some(u) => first_superuser(self@.users) == Some(u@),
                None => first_superuser(self@.users) is None,
            },
    {
        let ghost all = self@.users;
        let mut i: usize = 0;
        assert(all.skip(0) =~= all);
        while i < self.users.len()
            invariant
                i <= self.users@.len(),
                all == self@.users,
                first_superuser(all) == first_superuser(all.skip(i as int)),
            decreases self.users.len() - i,
        {
            if self.users[i].role == Role::Superuser {
                return Some(&self.users[i]);
            }
            assert(all.skip(i as int).drop_first() =~= all.skip(i + 1));
            i += 1;
        }
        None
    }

    /// The lanes of the pool: one for each upstream key, in order.
    pub fn pool_specs(&self) -> (r: Vec<LaneSpec>)
        ensures
            is_specs(r@, self@.nim_keys),
    {
        let mut specs: Vec<LaneSpec> = Vec::new();
        let mut i: usize = 0;
        while i < self.upstream.nim_keys.len()
            invariant
                i <= self.upstream.nim_keys@.len(),
                specs@.len() == i,
                forall|k: int|
                    0 <= k < i ==> (#[trigger] specs@[k]).key@ == self@.nim_keys[k].key
                        && specs@[k].rpm == self@.nim_keys[k].rpm && specs@[k].enabled
                        == self@.nim_keys[k].enabled,
            decreases self.upstream.nim_keys.len() - i,
        {
            let k = &self.upstream.nim_keys[i];
            specs.push(LaneSpec { key: k.key.clone(), rpm: k.rpm, enabled: k.enabled });
            i += 1;
        }
        specs
    }
}

// ---------------------------------------------------------------------------
// The running configuration
// ---------------------------------------------------------------------------
/// What requests are served under. A request takes one and keeps it.
pub struct Config {
    pub base_url: String,
    pub max_wait: Duration,
    pub heartbeat: Duration,
    pub models_ttl: Duration,
    /// A stream that is silent for this long is given up; zero never is.
    pub stream_idle: Duration,
    /// How long a request that is answered whole may take.
    pub request_timeout: Duration,
    /// Bodies are never touched.
    pub strict_passthrough: bool,
    /// Digests of client secrets, each with the client's name; none where
    /// anyone may use the API.
    pub clients: Option<Vec<(String, String)>>,
    pub max_inflight: usize,
    pub governor: GovernorSettings,
}

/// No digest is listed twice.
pub open spec fn digests_once(list: Seq<(String, String)>) -> bool {
    forall|i: int, j: int|
        0 <= i < j < list.len() ==> (#[trigger] list[i]).0@ != (#[trigger] list[j]).0@
}

/// The client's name for each listed digest.
pub open spec fn names_by_digest(list: Seq<(String, String)>) -> Map<Seq<char>, Seq<char>>
    decreases list.len(),
{
    if list.len() == 0 {
        Map::empty()
    } else {
        names_by_digest(list.drop_last()).insert(list.last().0@, list.last().1@)
    }
}

/// The client's name for the digest of each client key; of two keys with one
/// digest the later one counts.
pub open spec fn client_names_by_digest(keys: Seq<ClientKeyView>) -> Map<Seq<char>, Seq<char>>
    decreases keys.len(),
{
    if keys.len() == 0 {
        Map::empty()
    } else {
        client_names_by_digest(keys.drop_last()).insert(
            keys.last().secret_sha256,
            keys.last().name,
        )
    }
}

/// The digests that have a name are those of the client keys.
pub proof fn named_clients(keys: Seq<ClientKeyView>, digest: Seq<char>)
    ensures
        client_names_by_digest(keys).contains_key(digest) ==> exists|i: int|
            0 <= i < keys.len() && (#[trigger] keys[i]).secret_sha256 == digest,
    decreases keys.len(),
{
    if keys.len() > 0 {
        let rest = keys.drop_last();
        named_clients(rest, digest);
        if keys.last().secret_sha256 == digest {
            assert(keys[keys.len() - 1].secret_sha256 == digest);
        } else if client_names_by_digest(keys).contains_key(digest) {
            let i = choose|i: int|
                0 <= i < rest.len() && (#[trigger] rest[i]).secret_sha256 == digest;
            assert(keys[i].secret_sha256 == digest);
        }
    }
}

/// Another name for a digest that is listed once is another name for it alone.
proof fn renamed(list: Seq<(String, String)>, j: int, entry: (String, String))
    requires
        digests_once(list),
        0 <= j < list.len(),
        list[j].0@ == entry.0@,
    ensures
        digests_once(list.update(j, entry)),
        names_by_digest(list.update(j, entry)) == names_by_digest(list).insert(
            entry.0@,
            entry.1@,
        ),
    decreases list.len(),
{
    let new = list.update(j, entry);
    let rest = list.drop_last();
    assert forall|a: int, b: int| 0 <= a < b < new.len() implies (#[trigger] new[a]).0@ != (
    #[trigger] new[b]).0@ by {
        assert(list[a].0@ != list[b].0@);
    }
    if j == list.len() - 1 {
        assert(new.drop_last() =~= rest);
    } else {
        assert(digests_once(rest)) by {
            assert forall|a: int, b: int| 0 <= a < b < rest.len() implies (#[trigger] rest[a]).0@
                != (#[trigger] rest[b]).0@ by {
                assert(list[a].0@ != list[b].0@);
            }
        }
        renamed(rest, j, entry);
        assert(new.drop_last() =~= rest.update(j, entry));
        assert(list[j].0@ != list[list.len() - 1].0@);
    }
    assert(names_by_digest(new) =~= names_by_digest(list).insert(entry.0@, entry.1@));
}

/// Where a digest is listed.
fn find_digest(list: &Vec<(String, String)>, digest: &str) -> (r: Option<usize>)
    ensures
        match r {
            Some(i) => i < list@.len() && list@[i as int].0@ == digest@,
            None => forall|i: int| 0 <= i < list@.len() ==> (#[trigger] list@[i]).0@ != digest@,
        },
{
    let mut i: usize = 0;
    while i < list.len()
        invariant
            i <= list@.len(),
            forall|k: int| 0 <= k < i ==> (#[trigger] list@[k]).0@ != digest@,
        decreases list.len() - i,
    {
        if str_eq(list[i].0.as_str(), digest) {
            return Some(i);
        }
        i += 1;
    }
    None
}

/// The running configuration is that of a store.
pub open spec fn is_runtime(c: Config, s: StoreView) -> bool {
    &&& c.base_url@ == s.base_url
    &&& c.max_wait.nanos == s.limits.max_wait_secs * NANOS_PER_SEC
    &&& c.heartbeat.nanos == s.limits.heartbeat_secs * NANOS_PER_SEC
    &&& c.models_ttl.nanos == s.limits.models_ttl_secs * NANOS_PER_SEC
    &&& c.stream_idle.nanos == s.limits.stream_idle_secs * NANOS_PER_SEC
    &&& c.request_timeout.nanos == s.limits.request_timeout_secs * NANOS_PER_SEC
    &&& c.strict_passthrough == s.limits.strict_passthrough
    &&& match s.mode {
        Mode::Open => c.clients is None,
        Mode::Keyed => {
            &&& c.clients matches Some(list)
            &&& digests_once(list@)
            &&& names_by_digest(list@) == client_names_by_digest(s.client_keys)
        },
    }
    &&& c.max_inflight == s.limits.max_inflight
    &&& c.governor.enabled == s.governor_enabled
    &&& c.governor.overrides@ == s.overrides
}

impl StoredConfig {
    /// The digests of the client secrets, each once, with the clients' names.
    fn client_digests(&self) -> (r: Vec<(String, String)>)
        ensures
            digests_once(r@),
            names_by_digest(r@) == client_names_by_digest(self@.client_keys),
    {
        let ghost all = self@.client_keys;
        let mut list: Vec<(String, String)> = Vec::new();
        let mut i: usize = 0;
        assert(all.take(0) =~= Seq::empty());
        while i < self.client_auth.keys.len()
            invariant
                i <= self.client_auth.keys@.len(),
                all == self@.client_keys,
                digests_once(list@),
                names_by_digest(list@) == client_names_by_digest(all.take(i as int)),
            decreases self.client_auth.keys.len() - i,
        {
            let k = &self.client_auth.keys[i];
            let entry = (k.secret_sha256.clone(), k.name.clone());
            let ghost before = list@;
            assert(all.take(i + 1).drop_last() =~= all.take(i as int));
            match find_digest(&list, k.secret_sha256.as_str()) {
                Some(j) => {
                    proof {
                        renamed(before, j as int, entry);
                    }
                    list.set(j, entry);
                },
                None => {
                    list.push(entry);
                    assert(list@.drop_last() =~= before);
                },
            }
            i += 1;
        }
        assert(all.take(i as int) =~= all);
        list
    }

    /// The configuration that requests are served under.
    pub fn runtime(&self) -> (r: Config)
        ensures
            is_runtime(r, self@),
    {
        let clients = match self.client_auth.mode {
            Mode::Open => None,
            Mode::Keyed => Some(self.client_digests()),
        };
        Config {
            base_url: self.upstream.base_url.clone(),
            max_wait: Duration::from_secs(self.limits.max_wait_secs),
            heartbeat: Duration::from_secs(self.limits.heartbeat_secs),
            models_ttl: Duration::from_secs(self.limits.models_ttl_secs),
            stream_idle: Duration::from_secs(self.limits.stream_idle_secs),
            request_timeout: Duration::from_secs(self.limits.request_timeout_secs),
            strict_passthrough: self.limits.strict_passthrough,
            clients,
            max_inflight: self.limits.max_inflight,
            governor: self.governor.clone(),
        }
    }
}

// ---------------------------------------------------------------------------
// Laws
// ---------------------------------------------------------------------------
/// A user is found by name: the first one with that name, and no one where none has
/// it.
pub proof fn a_user_is_found_by_name(
    sc: &StoredConfig,
    name: &str,
    at: Option<usize>,
    r: Option<&User>,
    i: int,
)
    requires
        call_ensures(find_user, (&sc.users, name), at),
        call_ensures(StoredConfig::user, (sc, name), r),
    ensures
        at matches Some(k) ==> k < sc.users@.len() && sc.users@[k as int].username@ == name@ && (0
            <= i < k ==> sc.users@[i].username@ != name@) && (r matches Some(u) && u@
            == sc.users@[k as int]@),
        at is None ==> r is None && (0 <= i < sc.users@.len() ==> sc.users@[i].username@ != name@),
{
    let names = usernames(users_view(sc.users@));
    position_is_first(names, name@);
    if let Some(k) = at {
        assert(names[k as int] == name@);
        if 0 <= i < k {
            assert(names[i] != name@);
        }
    } else if 0 <= i < sc.users@.len() {
        assert(names[i] != name@);
    }
}

proof fn first_superuser_is_first(users: Seq<UserView>)
    ensures
        match first_superuser(users) {
            Some(u) => exists|i: int|
                0 <= i < users.len() && #[trigger] users[i] == u && u.role == Role::Superuser && (
                forall|j: int| 0 <= j < i ==> (#[trigger] users[j]).role != Role::Superuser),
            None => forall|i: int|
                0 <= i < users.len() ==> (#[trigger] users[i]).role != Role::Superuser,
        },
    decreases users.len(),
{
    if users.len() > 0 {
        if users[0].role == Role::Superuser {
            assert(users[0] == users[0]);
        } else {
            let rest = users.drop_first();
            first_superuser_is_first(rest);
            match first_superuser(rest) {
                Some(u) => {
                    let i = choose|i: int|
                        0 <= i < rest.len() && #[trigger] rest[i] == u && u.role == Role::Superuser
                            && (forall|j: int|
                            0 <= j < i ==> (#[trigger] rest[j]).role != Role::Superuser);
                    assert(users[i + 1] == u);
                    assert forall|j: int| 0 <= j < i + 1 implies (#[trigger] users[j]).role
                        != Role::Superuser by {
                        if j > 0 {
                            assert(rest[j - 1].role != Role::Superuser);
                        }
                    }
                },
                None => {
                    assert forall|i: int| 0 <= i < users.len() implies (#[trigger] users[i]).role
                        != Role::Superuser by {
                        if i > 0 {
                            assert(rest[i - 1].role != Role::Superuser);
                        }
                    }
                },
            }
        }
    }
}

/// The superuser is the first user with that role, and there is none where no user
/// has it.
pub proof fn the_superuser_is_the_first(sc: &StoredConfig, r: Option<&User>)
    requires
        call_ensures(StoredConfig::superuser, (sc,), r),
    ensures
        r matches Some(u) ==> exists|i: int|
            0 <= i < sc.users@.len() && (#[trigger] sc.users@[i])@ == u@ && sc.users@[i].role
                == Role::Superuser && (forall|j: int|
                0 <= j < i ==> (#[trigger] sc.users@[j]).role != Role::Superuser),
        r is None ==> forall|i: int|
            0 <= i < sc.users@.len() ==> (#[trigger] sc.users@[i]).role != Role::Superuser,
{
    first_superuser_is_first(sc@.users);
    if let Some(u) = r {
        let i = choose|i: int|
            0 <= i < sc@.users.len() && #[trigger] sc@.users[i] == u@ && u@.role == Role::Superuser
                && (forall|j: int|
                0 <= j < i ==> (#[trigger] sc@.users[j]).role != Role::Superuser);
        assert(sc.users@[i]@ == u@);
        assert forall|j: int| 0 <= j < i implies (#[trigger] sc.users@[j]).role
            != Role::Superuser by {
            assert(sc@.users[j].role != Role::Superuser);
        }
    } else {
        assert forall|i: int| 0 <= i < sc.users@.len() implies (#[trigger] sc.users@[i]).role
            != Role::Superuser by {
            assert(sc@.users[i].role != Role::Superuser);
        }
    }
}

/// The superuser and admins manage the server, and plain users do not.
pub proof fn plain_users_manage_nothing(role: Role, r: bool)
    requires
        call_ensures(Role::is_admin, (role,), r),
    ensures
        r <==> role != Role::User,
{
}

/// A pool has a lane for every upstream key, in order, with the key's text, its
/// budget, and whether it is enabled.
pub proof fn every_key_has_a_lane(sc: &StoredConfig, specs: Vec<LaneSpec>, i: int)
    requires
        call_ensures(StoredConfig::pool_specs, (sc,), specs),
    ensures
        specs@.len() == sc.upstream.nim_keys@.len(),
        0 <= i < specs@.len() ==> specs@[i].key@ == sc.upstream.nim_keys@[i].key@ && specs@[i].rpm
            == sc.upstream.nim_keys@[i].rpm && specs@[i].enabled
            == sc.upstream.nim_keys@[i].enabled,
{
}

/// A cap that is pinned on a model is the one that is found, and stays until it is
/// taken off or another takes its place; other models' caps are not touched.
pub proof fn a_cap_is_the_one_that_was_pinned(
    none: Overrides,
    pinned: &mut Overrides,
    name: String,
    cap: usize,
    taken: &mut Overrides,
    gone: &str,
    model: &str,
    of_none: Option<usize>,
    before: Option<usize>,
    after: Option<usize>,
    of_taken_before: Option<usize>,
    of_taken: Option<usize>,
)
    requires
        call_ensures(Overrides::new, (), none),
        call_ensures(Overrides::insert, (pinned, name, cap), ()),
        call_ensures(Overrides::remove, (taken, gone), ()),
        call_ensures(Overrides::get, (&none, model), of_none),
        call_ensures(Overrides::get, (&*old(pinned), model), before),
        call_ensures(Overrides::get, (&*final(pinned), model), after),
        call_ensures(Overrides::get, (&*old(taken), model), of_taken_before),
        call_ensures(Overrides::get, (&*final(taken), model), of_taken),
    ensures
        of_none is None,
        model@ == name@ ==> after == Some(cap),
        model@ != name@ ==> after == before,
        model@ == gone@ ==> of_taken is None,
        model@ != gone@ ==> of_taken == of_taken_before,
{
}

/// Of client keys with one digest the last one gives the name.
pub proof fn the_last_client_counts(keys: Seq<ClientKeyView>, i: int)
    requires
        0 <= i < keys.len(),
        forall|j: int|
            i < j < keys.len() ==> (#[trigger] keys[j]).secret_sha256 != keys[i].secret_sha256,
    ensures
        client_names_by_digest(keys).contains_key(keys[i].secret_sha256),
        client_names_by_digest(keys)[keys[i].secret_sha256] == keys[i].name,
    decreases keys.len(),
{
    let n = keys.len() - 1;
    if i < n {
        let rest = keys.drop_last();
        assert(keys[n].secret_sha256 != keys[i].secret_sha256);
        assert forall|j: int| i < j < rest.len() implies (#[trigger] rest[j]).secret_sha256
            != rest[i].secret_sha256 by {
            assert(keys[j].secret_sha256 != keys[i].secret_sha256);
        }
        the_last_client_counts(rest, i);
    }
}

/// Requests are served under what is stored: the address as it is, every limit in
/// its unit of whole seconds, and whether bodies may be touched; where the API is
/// open no clients are listed, and where it is keyed every client key's digest is,
/// once, with its name (of two with one digest the later one's).
pub proof fn the_running_configuration_is_the_stored_one(
    sc: &StoredConfig,
    c: Config,
    i: int,
)
    requires
        call_ensures(StoredConfig::runtime, (sc,), c),
    ensures
        c.base_url@ == sc.upstream.base_url@,
        c.max_wait.nanos == sc.limits.max_wait_secs * 1_000_000_000,
        c.heartbeat.nanos == sc.limits.heartbeat_secs * 1_000_000_000,
        c.models_ttl.nanos == sc.limits.models_ttl_secs * 1_000_000_000,
        c.stream_idle.nanos == sc.limits.stream_idle_secs * 1_000_000_000,
        c.request_timeout.nanos == sc.limits.request_timeout_secs * 1_000_000_000,
        c.strict_passthrough == sc.limits.strict_passthrough,
        c.max_inflight == sc.limits.max_inflight,
        c.governor.enabled == sc.governor.enabled,
        c.governor.overrides@ == sc.governor.overrides@,
        c.clients is None <==> sc.client_auth.mode == Mode::Open,
        0 <= i < sc.client_auth.keys@.len() && (forall|j: int|
            i < j < sc.client_auth.keys@.len() ==> (#[trigger] sc.client_auth.keys@[j]).secret_sha256@
                != sc.client_auth.keys@[i].secret_sha256@) ==> (c.clients matches Some(list)
            ==> names_by_digest(list@).contains_key(sc.client_auth.keys@[i].secret_sha256@)
            && names_by_digest(list@)[sc.client_auth.keys@[i].secret_sha256@]
            == sc.client_auth.keys@[i].name@),
{
    if 0 <= i < sc.client_auth.keys@.len() && (forall|j: int|
        i < j < sc.client_auth.keys@.len() ==> (#[trigger] sc.client_auth.keys@[j]).secret_sha256@
            != sc.client_auth.keys@[i].secret_sha256@) {
        let keys = sc@.client_keys;
        assert forall|j: int| i < j < keys.len() implies (#[trigger] keys[j]).secret_sha256
            != keys[i].secret_sha256 by {
            assert(sc.client_auth.keys@[j].secret_sha256@
                != sc.client_auth.keys@[i].secret_sha256@);
        }
        the_last_client_counts(keys, i);
    }
}

/// A copy of a store is the store, in every part of it.
pub proof fn a_copy_is_the_same(sc: &StoredConfig, c: StoredConfig, i: int)
    requires
        call_ensures(StoredConfig::clone, (sc,), c),
    ensures
        c.users@.len() == sc.users@.len(),
        0 <= i < sc.users@.len() ==> c.users@[i]@ == sc.users@[i]@,
        c.upstream.base_url@ == sc.upstream.base_url@,
        c.upstream.nim_keys@.len() == sc.upstream.nim_keys@.len(),
        0 <= i < sc.upstream.nim_keys@.len() ==> c.upstream.nim_keys@[i]@
            == sc.upstream.nim_keys@[i]@,
        c.client_auth.mode == sc.client_auth.mode,
        c.client_auth.keys@.len() == sc.client_auth.keys@.len(),
        0 <= i < sc.client_auth.keys@.len() ==> c.client_auth.keys@[i]@
            == sc.client_auth.keys@[i]@,
        c.limits == sc.limits,
        c.history_days == sc.history_days,
        c.default_window_days == sc.default_window_days,
        c.governor.enabled == sc.governor.enabled,
        c.governor.overrides@ == sc.governor.overrides@,
{
    assert(c@.users.len() == c.users@.len());
    assert(c@.nim_keys.len() == c.upstream.nim_keys@.len());
    assert(c@.client_keys.len() == c.client_auth.keys@.len());
    if 0 <= i < sc.users@.len() {
        assert(c@.users[i] == c.users@[i]@ && sc@.users[i] == sc.users@[i]@);
    }
    if 0 <= i < sc.upstream.nim_keys@.len() {
        assert(c@.nim_keys[i] == c.upstream.nim_keys@[i]@ && sc@.nim_keys[i]
            == sc.upstream.nim_keys@[i]@);
    }
    if 0 <= i < sc.client_auth.keys@.len() {
        assert(c@.client_keys[i] == c.client_auth.keys@[i]@ && sc@.client_keys[i]
            == sc.client_auth.keys@[i]@);
    }
}

/// The governor is on, with no cap pinned, unless it is told otherwise.
pub proof fn the_governor_is_on_by_default(g: GovernorSettings, model: &str, cap: Option<usize>)
    requires
        call_ensures(GovernorSettings::default, (), g),
        call_ensures(Overrides::get, (&g.overrides, model), cap),
    ensures
        g.enabled,
        cap is None,
{
}

proof fn an_entry_is_its_cap(entries: Seq<(String, usize)>, i: int)
    requires
        listed_once(entries),
        0 <= i < entries.len(),
    ensures
        caps(entries).contains_key(entries[i].0@),
        caps(entries)[entries[i].0@] == entries[i].1,
    decreases entries.len(),
{
    let rest = entries.drop_last();
    let n = entries.len() - 1;
    if i < n {
        assert(entries[i].0@ != entries[n].0@);
        assert(listed_once(rest)) by {
            assert forall|a: int, b: int| 0 <= a < b < rest.len() implies (#[trigger] rest[a]).0@
                != (#[trigger] rest[b]).0@ by {
                assert(entries[a].0@ != entries[b].0@);
            }
        }
        an_entry_is_its_cap(rest, i);
    }
}

/// Every cap is listed, once, and what is listed is what is found.
pub proof fn every_cap_is_listed_once(
    o: &Overrides,
    list: &Vec<(String, usize)>,
    i: int,
    j: int,
    model: &str,
    cap: Option<usize>,
)
    requires
        call_ensures(Overrides::listed, (o,), list),
        call_ensures(Overrides::get, (o, model), cap),
    ensures
        0 <= i < list@.len() && list@[i].0@ == model@ ==> cap == Some(list@[i].1),
        0 <= i < j < list@.len() ==> list@[i].0@ != list@[j].0@,
        cap is Some ==> exists|k: int| 0 <= k < list@.len() && (#[trigger] list@[k]).0@ == model@,
{
    if 0 <= i < list@.len() {
        an_entry_is_its_cap(list@, i);
    }
    caps_are_entries(list@);
    if cap is Some {
        assert(caps(list@).contains_key(model@));
    }
}

} // verus!
