//! Users: who they are, what they may do, and their passwords.
//!
//! The superuser can never be deleted or demoted, and nobody else can set the
//! superuser's password.
use vstd::prelude::*;

use crate::answers::{Refusal, RefusalView};
use crate::settings;
use crate::settings::{
    bad_request, check_password, forbidden, parse_role, require_admin, stale_session,
    weak_password, AccountReq, UsersReq,
};
use crate::store;
use crate::store::{
    find_user, ClientKey, ClientKeyView, NimKey, NimKeyView, Role, StoreView, StoredConfig, User,
    UserView,
};
use crate::text;
use crate::text::{str_eq, trim};

verus! {

// ---------------------------------------------------------------------------
// Model
// ---------------------------------------------------------------------------
/// The users other than `target`.
pub open spec fn other_users(users: Seq<UserView>, target: Seq<char>) -> Seq<UserView>
    decreases users.len(),
{
    if users.len() == 0 {
        Seq::empty()
    } else {
        let rest = other_users(users.drop_last(), target);
        if users.last().username != target {
            rest.push(users.last())
        } else {
            rest
        }
    }
}

/// The upstream keys that `target` does not own.
pub open spec fn other_keys(keys: Seq<NimKeyView>, target: Seq<char>) -> Seq<NimKeyView>
    decreases keys.len(),
{
    if keys.len() == 0 {
        Seq::empty()
    } else {
        let rest = other_keys(keys.drop_last(), target);
        if keys.last().owner != target {
            rest.push(keys.last())
        } else {
            rest
        }
    }
}

/// The client keys that `target` does not own.
pub open spec fn other_clients(keys: Seq<ClientKeyView>, target: Seq<char>) -> Seq<ClientKeyView>
    decreases keys.len(),
{
    if keys.len() == 0 {
        Seq::empty()
    } else {
        let rest = other_clients(keys.drop_last(), target);
        if keys.last().owner != target {
            rest.push(keys.last())
        } else {
            rest
        }
    }
}

/// A change that comes with a password: the password to be hashed, nothing
/// where it comes with none (or with two), or a refusal of a short one.
pub open spec fn password_of(req: UsersReq) -> Result<Option<Seq<char>>, RefusalView> {
    match (req.add, req.reset_password) {
        (Some(a), None) => if settings::is_weak(a.password@) {
            Err(settings::weak())
        } else {
            Ok(Some(a.password@))
        },
        (None, Some(r)) => if settings::is_weak(r.new_password@) {
            Err(settings::weak())
        } else {
            Ok(Some(r.new_password@))
        },
        _ => Ok(None),
    }
}

/// What a change of the users comes to, where `hash` is the hash of the
/// password that it comes with.
pub open spec fn users_change(
    s: StoreView,
    username: Seq<char>,
    req: UsersReq,
    hash: Seq<char>,
) -> Result<StoreView, RefusalView> {
    match settings::not_admin(s, username, "user management requires an admin"@) {
        Some(x) => Err(x),
        None => match (req.add, req.remove, req.reset_password, req.set_role) {
            (Some(add), None, None, None) => match settings::role_named(add.role@) {
                Some(role) => Ok(
                    StoreView {
                        users: s.users.push(
                            UserView {
                                username: text::trimmed(add.username@),
                                password_hash: hash,
                                role,
                            },
                        ),
                        ..s
                    },
                ),
                None => Err(settings::invalid("role must be \"admin\" or \"user\""@)),
            },
            (None, Some(target), None, None) => match store::user_named(s.users, target@) {
                Some(u) => if u.role == Role::Superuser {
                    Err(settings::forbid("the superuser can never be deleted"@))
                } else {
                    Ok(
                        StoreView {
                            users: other_users(s.users, target@),
                            nim_keys: other_keys(s.nim_keys, target@),
                            client_keys: other_clients(s.client_keys, target@),
                            ..s
                        },
                    )
                },
                None => Err(settings::invalid("no such user"@)),
            },
            (None, None, Some(reset), None) => {
                let i = store::position(store::usernames(s.users), reset.username@);
                if i >= s.users.len() {
                    Err(settings::invalid("no such user"@))
                } else if s.users[i].role == Role::Superuser {
                    Err(
                        settings::forbid(
                            "the superuser's password can only be changed by the superuser (Account settings)"@,
                        ),
                    )
                } else {
                    Ok(with_hash(s, i, hash))
                }
            },
            (None, None, None, Some(set)) => match settings::role_named(set.role@) {
                Some(role) => {
                    let i = store::position(store::usernames(s.users), set.username@);
                    if i >= s.users.len() {
                        Err(settings::invalid("no such user"@))
                    } else if s.users[i].role == Role::Superuser {
                        Err(settings::forbid("the superuser's role is immutable"@))
                    } else {
                        Ok(
                            StoreView {
                                users: s.users.update(i, UserView { role, ..s.users[i] }),
                                ..s
                            },
                        )
                    }
                },
                None => Err(settings::invalid("role must be \"admin\" or \"user\""@)),
            },
            _ => Err(
                settings::invalid(
                    "send exactly one of add / remove / reset_password / set_role"@,
                ),
            ),
        },
    }
}

/// The store with another password hash for user `i`.
pub open spec fn with_hash(s: StoreView, i: int, hash: Seq<char>) -> StoreView {
    StoreView {
        users: s.users.update(i, UserView { password_hash: hash, ..s.users[i] }),
        ..s
    }
}

// ---------------------------------------------------------------------------
// Changing users
// ---------------------------------------------------------------------------
/// The password that a change comes with and that has to be hashed before the
/// change is made. Hashing is slow on purpose and done without the store.
pub fn users_password(req: &UsersReq) -> (r: Result<Option<String>, Refusal>)
    ensures
        match password_of(*req) {
            Ok(Some(p)) => r matches Ok(Some(q)) && q@ == p,
            Ok(None) => r matches Ok(None),
            Err(x) => r matches Err(y) && y@ == x && y.header is None,
        },
{
    match (&req.add, &req.reset_password) {
        (Some(a), None) => if check_password(a.password.as_str()) {
            Err(weak_password())
        } else {
            Ok(Some(a.password.clone()))
        },
        (None, Some(r)) => if check_password(r.new_password.as_str()) {
            Err(weak_password())
        } else {
            Ok(Some(r.new_password.clone()))
        },
        _ => Ok(None),
    }
}

fn retain_users(users: &Vec<User>, target: &str) -> (r: Vec<User>)
    ensures
        store::users_view(r@) == other_users(store::users_view(users@), target@),
{
    let ghost all = store::users_view(users@);
    let mut left: Vec<User> = Vec::new();
    let mut i: usize = 0;
    assert(store::users_view(left@) =~= other_users(all.take(0), target@));
    while i < users.len()
        invariant
            i <= users@.len(),
            all == store::users_view(users@),
            store::users_view(left@) == other_users(all.take(i as int), target@),
        decreases users.len() - i,
    {
        assert(all.take(i + 1).drop_last() =~= all.take(i as int));
        if !str_eq(users[i].username.as_str(), target) {
            let ghost before = left@;
            left.push(users[i].clone());
            assert(store::users_view(left@) =~= store::users_view(before).push(all[i as int]));
        }
        i += 1;
    }
    assert(all.take(i as int) =~= all);
    left
}

fn retain_keys(keys: &Vec<NimKey>, target: &str) -> (r: Vec<NimKey>)
    ensures
        store::nim_keys_view(r@) == other_keys(store::nim_keys_view(keys@), target@),
{
    let ghost all = store::nim_keys_view(keys@);
    let mut left: Vec<NimKey> = Vec::new();
    let mut i: usize = 0;
    assert(store::nim_keys_view(left@) =~= other_keys(all.take(0), target@));
    while i < keys.len()
        invariant
            i <= keys@.len(),
            all == store::nim_keys_view(keys@),
            store::nim_keys_view(left@) == other_keys(all.take(i as int), target@),
        decreases keys.len() - i,
    {
        assert(all.take(i + 1).drop_last() =~= all.take(i as int));
        if !str_eq(keys[i].owner.as_str(), target) {
            let ghost before = left@;
            left.push(keys[i].clone());
            assert(store::nim_keys_view(left@) =~= store::nim_keys_view(before).push(
                all[i as int],
            ));
        }
        i += 1;
    }
    assert(all.take(i as int) =~= all);
    left
}

fn retain_clients(keys: &Vec<ClientKey>, target: &str) -> (r: Vec<ClientKey>)
    ensures
        store::client_keys_view(r@) == other_clients(store::client_keys_view(keys@), target@),
{
    let ghost all = store::client_keys_view(keys@);
    let mut left: Vec<ClientKey> = Vec::new();
    let mut i: usize = 0;
    assert(store::client_keys_view(left@) =~= other_clients(all.take(0), target@));
    while i < keys.len()
        invariant
            i <= keys@.len(),
            all == store::client_keys_view(keys@),
            store::client_keys_view(left@) == other_clients(all.take(i as int), target@),
        decreases keys.len() - i,
    {
        assert(all.take(i + 1).drop_last() =~= all.take(i as int));
        if !str_eq(keys[i].owner.as_str(), target) {
            let ghost before = left@;
            left.push(keys[i].clone());
            assert(store::client_keys_view(left@) =~= store::client_keys_view(before).push(
                all[i as int],
            ));
        }
        i += 1;
    }
    assert(all.take(i as int) =~= all);
    left
}

/// Sets the password hash of user `i`.
fn set_hash(cand: &mut StoredConfig, i: usize, hash: String)
    requires
        i < old(cand).users@.len(),
    ensures
        final(cand)@ == with_hash(old(cand)@, i as int, hash@),
{
    let ghost before = cand@;
    let ghost h = hash@;
    cand.users[i].password_hash = hash;
    assert(cand@.users =~= with_hash(before, i as int, h).users);
}

/// A changed candidate for a change of the users, where `hash` is the hash of
/// the password that it comes with (any text where it comes with none).
/// Deleting a user takes their upstream keys out of the pool and revokes their
/// client keys.
pub fn users(sc: &StoredConfig, username: &str, req: UsersReq, hash: String) -> (r: Result<
    StoredConfig,
    Refusal,
>)
    ensures
        settings::comes_to(r, users_change(sc@, username@, req, hash@)),
{
    match require_admin(sc, username, "user management requires an admin") {
        Ok(_) => {},
        Err(x) => return Err(x),
    }
    let mut cand = sc.clone();
    match (req.add, req.remove, req.reset_password, req.set_role) {
        (Some(add), None, None, None) => match parse_role(add.role.as_str()) {
            Some(role) => {
                let ghost before = cand.users@;
                let user = User {
                    username: trim(add.username.as_str()),
                    password_hash: hash,
                    role,
                };
                cand.users.push(user);
                assert(store::users_view(cand.users@) =~= store::users_view(before).push(user@));
            },
            None => return Err(bad_request("role must be \"admin\" or \"user\"")),
        },
        (None, Some(target), None, None) => {
            match cand.user(target.as_str()) {
                Some(u) => {
                    if u.role == Role::Superuser {
                        return Err(forbidden("the superuser can never be deleted"));
                    }
                },
                None => return Err(bad_request("no such user")),
            }
            let users = retain_users(&cand.users, target.as_str());
            let nim_keys = retain_keys(&cand.upstream.nim_keys, target.as_str());
            let client_keys = retain_clients(&cand.client_auth.keys, target.as_str());
            cand.users = users;
            cand.upstream.nim_keys = nim_keys;
            cand.client_auth.keys = client_keys;
        },
        (None, None, Some(reset), None) => match find_user(&cand.users, reset.username.as_str()) {
            Some(i) => {
                if cand.users[i].role == Role::Superuser {
                    return Err(
                        forbidden(
                            "the superuser's password can only be changed by the superuser (Account settings)",
                        ),
                    );
                }
                set_hash(&mut cand, i, hash);
            },
            None => return Err(bad_request("no such user")),
        },
        (None, None, None, Some(set)) => {
            let role = match parse_role(set.role.as_str()) {
                Some(role) => role,
                None => return Err(bad_request("role must be \"admin\" or \"user\"")),
            };
            match find_user(&cand.users, set.username.as_str()) {
                Some(i) => {
                    if cand.users[i].role == Role::Superuser {
                        return Err(forbidden("the superuser's role is immutable"));
                    }
                    let ghost before = cand@;
                    cand.users[i].role = role;
                    assert(cand@.users =~= before.users.update(
                        i as int,
                        UserView { role, ..before.users[i as int] },
                    ));
                },
                None => return Err(bad_request("no such user")),
            }
        },
        _ => return Err(
            bad_request("send exactly one of add / remove / reset_password / set_role"),
        ),
    }
    Ok(cand)
}

// ---------------------------------------------------------------------------
// One's own password
// ---------------------------------------------------------------------------
/// Why a change of one's own password was not made.
#[derive(Clone, Copy, Debug, PartialEq, Eq, Structural)]
pub enum PasswordChangeErr {
    UserGone,
    HashRotated,
}

/// What a change of one's own password comes to.
pub open spec fn password_change(
    s: StoreView,
    username: Seq<char>,
    verified_hash: Seq<char>,
    new_hash: Seq<char>,
) -> Result<StoreView, PasswordChangeErr> {
    let i = store::position(store::usernames(s.users), username);
    if i >= s.users.len() {
        Err(PasswordChangeErr::UserGone)
    } else if s.users[i].password_hash != verified_hash {
        Err(PasswordChangeErr::HashRotated)
    } else {
        Ok(with_hash(s, i, new_hash))
    }
}

/// Makes a change of one's own password, unless the stored hash is no longer
/// the one that the current password was verified against: a reset that came
/// in between wins.
pub fn apply_password_change(
    cand: &mut StoredConfig,
    username: &str,
    verified_hash: &str,
    new_hash: &str,
) -> (r: Result<(), PasswordChangeErr>)
    ensures
        match password_change(old(cand)@, username@, verified_hash@, new_hash@) {
            Ok(s) => r is Ok && final(cand)@ == s,
            Err(e) => r == Err::<(), PasswordChangeErr>(e) && final(cand)@ == old(cand)@,
        },
{
    match find_user(&cand.users, username) {
        Some(i) => {
            if !str_eq(cand.users[i].password_hash.as_str(), verified_hash) {
                return Err(PasswordChangeErr::HashRotated);
            }
            set_hash(cand, i, new_hash.to_owned());
            Ok(())
        },
        None => Err(PasswordChangeErr::UserGone),
    }
}

/// The hash that the current password has to be verified against.
pub fn account_hash(sc: &StoredConfig, username: &str, req: &AccountReq) -> (r: Result<
    String,
    Refusal,
>)
    ensures
        if settings::is_weak(req.new_password@) {
            r matches Err(y) && y@ == settings::weak() && y.header is None
        } else {
            match store::user_named(sc@.users, username@) {
                Some(u) => r matches Ok(h) && h@ == u.password_hash,
                None => r matches Err(y) && y@ == settings::stale() && y.header is None,
            }
        },
{
    if check_password(req.new_password.as_str()) {
        return Err(weak_password());
    }
    match sc.user(username) {
        Some(u) => Ok(u.password_hash.clone()),
        None => Err(stale_session()),
    }
}

/// What a change of one's own password comes to, once the current password was
/// verified (or not) against `verified_hash`.
pub open spec fn account_change(
    s: StoreView,
    username: Seq<char>,
    verified_hash: Seq<char>,
    verified: bool,
    new_hash: Seq<char>,
) -> Result<StoreView, RefusalView> {
    if !verified {
        Err(
            RefusalView {
                status: 403,
                code: "wrong_password"@,
                message: "current password is incorrect"@,
            },
        )
    } else {
        match password_change(s, username, verified_hash, new_hash) {
            Ok(cand) => Ok(cand),
            Err(PasswordChangeErr::UserGone) => Err(settings::stale()),
            Err(PasswordChangeErr::HashRotated) => Err(
                RefusalView {
                    status: 409,
                    code: "password_changed"@,
                    message: "your password was changed while this request was in flight; log in again"@,
                },
            ),
        }
    }
}

/// A changed candidate for a change of one's own password.
pub fn account(
    sc: &StoredConfig,
    username: &str,
    verified_hash: &str,
    verified: bool,
    new_hash: &str,
) -> (r: Result<StoredConfig, Refusal>)
    ensures
        settings::comes_to(
            r,
            account_change(sc@, username@, verified_hash@, verified, new_hash@),
        ),
{
    if !verified {
        return Err(Refusal::new(403, "wrong_password", "current password is incorrect"));
    }
    let mut cand = sc.clone();
    match apply_password_change(&mut cand, username, verified_hash, new_hash) {
        Ok(_) => Ok(cand),
        Err(PasswordChangeErr::UserGone) => Err(stale_session()),
        Err(PasswordChangeErr::HashRotated) => Err(
            Refusal::new(
                409,
                "password_changed",
                "your password was changed while this request was in flight; log in again",
            ),
        ),
    }
}

// ---------------------------------------------------------------------------
// Laws
// ---------------------------------------------------------------------------
/// No two users have the same name.
pub open spec fn distinct_users(users: Seq<UserView>) -> bool {
    forall|i: int, j: int|
        0 <= i < j < users.len() ==> #[trigger] users[i].username != #[trigger] users[j].username
}

/// Which users stay when one is deleted.
proof fn who_stays(users: Seq<UserView>, target: Seq<char>)
    ensures
        forall|u: UserView|
            #![trigger other_users(users, target).contains(u)]
            other_users(users, target).contains(u) <==> users.contains(u) && u.username != target,
    decreases users.len(),
{
    if users.len() > 0 {
        let rest = users.drop_last();
        who_stays(rest, target);
        let left = other_users(rest, target);
        let all = other_users(users, target);
        assert forall|u: UserView|
            #![trigger all.contains(u)]
            all.contains(u) <==> users.contains(u) && u.username != target by {
            if users.contains(u) && u.username != target {
                let i = choose|i: int| 0 <= i < users.len() && users[i] == u;
                if i < rest.len() {
                    assert(rest[i] == u);
                    assert(rest.contains(u));
                    assert(left.contains(u));
                    let k = choose|k: int| 0 <= k < left.len() && left[k] == u;
                    assert(all[k] == u);
                } else {
                    assert(all[all.len() - 1] == u);
                }
            }
            if all.contains(u) {
                let k = choose|k: int| 0 <= k < all.len() && all[k] == u;
                if k < left.len() {
                    assert(left[k] == u);
                    assert(left.contains(u));
                    assert(rest.contains(u));
                    let i = choose|i: int| 0 <= i < rest.len() && rest[i] == u;
                    assert(users[i] == u);
                } else {
                    assert(users[users.len() - 1] == u);
                }
            }
        }
    }
}

/// The superuser is inviolable: whatever an admin asks for, every superuser is
/// still there with the same name, password and role, and nobody has become
/// one.
pub proof fn the_superuser_is_inviolable(
    s: StoreView,
    username: Seq<char>,
    req: UsersReq,
    hash: Seq<char>,
    u: UserView,
)
    requires
        distinct_users(s.users),
        users_change(s, username, req, hash) is Ok,
        u.role == Role::Superuser,
    ensures
        users_change(s, username, req, hash)->Ok_0.users.contains(u) <==> s.users.contains(u),
{
    let c = users_change(s, username, req, hash)->Ok_0;
    match (req.add, req.remove, req.reset_password, req.set_role) {
        (Some(add), None, None, None) => {
            if s.users.contains(u) {
                let i = choose|i: int| 0 <= i < s.users.len() && s.users[i] == u;
                assert(c.users[i] == u);
            }
            if c.users.contains(u) {
                let i = choose|i: int| 0 <= i < c.users.len() && c.users[i] == u;
                assert(s.users[i] == u);
            }
        },
        (None, Some(target), None, None) => {
            who_stays(s.users, target@);
            if s.users.contains(u) && u.username == target@ {
                let i = choose|i: int| 0 <= i < s.users.len() && s.users[i] == u;
                let names = store::usernames(s.users);
                let p = store::position(names, target@);
                store::position_is_first(names, target@);
                assert(names[i] == target@);
                assert(names[p] == target@);
                if p < i {
                    assert(s.users[p].username != s.users[i].username);
                }
                assert(p == i);
            }
        },
        (None, None, Some(reset), None) => {
            let i = store::position(store::usernames(s.users), reset.username@);
            store::position_is_first(store::usernames(s.users), reset.username@);
            updated_elsewhere(s.users, c.users, i, u);
        },
        (None, None, None, Some(set)) => {
            let i = store::position(store::usernames(s.users), set.username@);
            store::position_is_first(store::usernames(s.users), set.username@);
            updated_elsewhere(s.users, c.users, i, u);
        },
        _ => {},
    }
}

/// An update of one entry, that is not and does not become `u`, leaves `u`.
proof fn updated_elsewhere(a: Seq<UserView>, b: Seq<UserView>, i: int, u: UserView)
    requires
        0 <= i < a.len(),
        b == a.update(i, b[i]),
        a[i] != u,
        b[i] != u,
    ensures
        b.contains(u) <==> a.contains(u),
{
    if a.contains(u) {
        let k = choose|k: int| 0 <= k < a.len() && a[k] == u;
        assert(b[k] == u);
    }
    if b.contains(u) {
        let k = choose|k: int| 0 <= k < b.len() && b[k] == u;
        assert(a[k] == u);
    }
}

proof fn no_key_is_left(keys: Seq<NimKeyView>, target: Seq<char>)
    ensures
        forall|i: int|
            0 <= i < other_keys(keys, target).len() ==> (#[trigger] other_keys(
                keys,
                target,
            )[i]).owner != target,
    decreases keys.len(),
{
    if keys.len() > 0 {
        no_key_is_left(keys.drop_last(), target);
        let rest = other_keys(keys.drop_last(), target);
        assert forall|i: int| 0 <= i < other_keys(keys, target).len() implies (#[trigger] other_keys(
            keys,
            target,
        )[i]).owner != target by {
            if i < rest.len() {
                assert(other_keys(keys, target)[i] == rest[i]);
            }
        }
    }
}

proof fn no_client_is_left(keys: Seq<ClientKeyView>, target: Seq<char>)
    ensures
        forall|i: int|
            0 <= i < other_clients(keys, target).len() ==> (#[trigger] other_clients(
                keys,
                target,
            )[i]).owner != target,
    decreases keys.len(),
{
    if keys.len() > 0 {
        no_client_is_left(keys.drop_last(), target);
        let rest = other_clients(keys.drop_last(), target);
        assert forall|i: int|
            0 <= i < other_clients(keys, target).len() implies (#[trigger] other_clients(
            keys,
            target,
        )[i]).owner != target by {
            if i < rest.len() {
                assert(other_clients(keys, target)[i] == rest[i]);
            }
        }
    }
}

/// Deleting a user takes everything of theirs with it: the user is gone, and so
/// is every upstream key and every client key that they owned.
pub proof fn a_deleted_user_leaves_nothing(
    s: StoreView,
    username: Seq<char>,
    req: UsersReq,
    hash: Seq<char>,
)
    requires
        users_change(s, username, req, hash) is Ok,
        req.remove is Some,
    ensures
        ({
            let c = users_change(s, username, req, hash)->Ok_0;
            let target = req.remove->0@;
            &&& store::user_named(c.users, target) is None
            &&& forall|i: int| 0 <= i < c.nim_keys.len() ==> (#[trigger] c.nim_keys[i]).owner != target
            &&& forall|i: int|
                0 <= i < c.client_keys.len() ==> (#[trigger] c.client_keys[i]).owner != target
        }),
{
    let c = users_change(s, username, req, hash)->Ok_0;
    let target = req.remove->0@;
    who_stays(s.users, target);
    no_key_is_left(s.nim_keys, target);
    no_client_is_left(s.client_keys, target);
    let names = store::usernames(c.users);
    let p = store::position(names, target);
    store::position_is_first(names, target);
    if p < c.users.len() {
        assert(names[p] == target);
        assert(c.users.contains(c.users[p]));
    }
}

/// A password reset that comes in while its owner changes the password wins:
/// the change is refused and the reset stays.
pub proof fn a_reset_wins_over_a_change(
    s: StoreView,
    username: Seq<char>,
    verified_hash: Seq<char>,
    reset_hash: Seq<char>,
    new_hash: Seq<char>,
)
    requires
        store::user_named(s.users, username) is Some,
        reset_hash != verified_hash,
    ensures
        ({
            let i = store::position(store::usernames(s.users), username);
            let reset = with_hash(s, i, reset_hash);
            password_change(reset, username, verified_hash, new_hash) == Err::<
                StoreView,
                PasswordChangeErr,
            >(PasswordChangeErr::HashRotated)
        }),
{
    let i = store::position(store::usernames(s.users), username);
    let reset = with_hash(s, i, reset_hash);
    store::position_is_first(store::usernames(s.users), username);
    assert(store::usernames(reset.users) =~= store::usernames(s.users));
}

/// Whoever asks manages the server.
pub open spec fn by_an_admin(sc: StoredConfig, username: Seq<char>) -> bool {
    settings::asks_as(sc, username, Role::Superuser) || settings::asks_as(sc, username, Role::Admin)
}

/// Everything of a store but its users is the same.
pub open spec fn same_but_users(a: StoredConfig, b: StoredConfig) -> bool {
    &&& b@.base_url == a@.base_url
    &&& b@.nim_keys == a@.nim_keys
    &&& b@.mode == a@.mode
    &&& b@.client_keys == a@.client_keys
    &&& b@.limits == a@.limits
    &&& b@.history_days == a@.history_days
    &&& b@.default_window_days == a@.default_window_days
    &&& b@.governor_enabled == a@.governor_enabled
    &&& b@.overrides == a@.overrides
}

proof fn asked_by(sc: &StoredConfig, username: &str, role: Option<Role>)
    requires
        call_ensures(settings::role_of, (sc, username), role),
    ensures
        role == settings::role_in(sc@, username@),
        role is None <==> settings::nobody(*sc, username@),
        by_an_admin(*sc, username@) <==> (role matches Some(x) && x != Role::User),
        settings::asks_as(*sc, username@, Role::User) <==> role == Some(Role::User),
{
    settings::whoever_asks_is_looked_up(sc, username, role);
}

/// Users are for those who manage the server to change: no one else's request comes
/// to anything, and it is told why. A request that is not exactly one change is
/// turned away.
pub proof fn users_are_changed_by_admins(
    sc: &StoredConfig,
    username: &str,
    req: UsersReq,
    hash: String,
    r: Result<StoredConfig, Refusal>,
    role: Option<Role>,
)
    requires
        call_ensures(users, (sc, username, req, hash), r),
        call_ensures(settings::role_of, (sc, username), role),
    ensures
        settings::nobody(*sc, username@) ==> settings::refused(
            r,
            401,
            "unauthorized"@,
            "your user no longer exists"@,
        ),
        settings::asks_as(*sc, username@, Role::User) ==> settings::refused(
            r,
            403,
            "forbidden"@,
            "user management requires an admin"@,
        ),
        by_an_admin(*sc, username@) && !((req.add is Some && req.remove is None
            && req.reset_password is None && req.set_role is None) || (req.add is None
            && req.remove is Some && req.reset_password is None && req.set_role is None) || (
        req.add is None && req.remove is None && req.reset_password is Some && req.set_role is None)
            || (req.add is None && req.remove is None && req.reset_password is None
            && req.set_role is Some)) ==> settings::refused(
            r,
            400,
            "invalid_config"@,
            "send exactly one of add / remove / reset_password / set_role"@,
        ),
{
    asked_by(sc, username, role);
}

/// A user who is added comes last, under their trimmed name, with the hash of their
/// password and the role that the request names, which is never the superuser's; a
/// role that has no name is turned away. Everyone who was there stays, in their
/// place, and nothing else changes.
pub proof fn an_added_user_has_the_role_they_were_given(
    sc: &StoredConfig,
    username: &str,
    req: UsersReq,
    hash: String,
    r: Result<StoredConfig, Refusal>,
    role: Option<Role>,
    name: &str,
    bare: String,
    i: int,
)
    requires
        call_ensures(users, (sc, username, req, hash), r),
        call_ensures(settings::role_of, (sc, username), role),
        by_an_admin(*sc, username@),
        req.add is Some && req.remove is None && req.reset_password is None && req.set_role is None,
        name@ == req.add->0.username@,
        call_ensures(trim, (name,), bare),
    ensures
        r is Ok <==> req.add->0.role@ == "admin"@ || req.add->0.role@ == "user"@,
        r is Err ==> settings::refused(
            r,
            400,
            "invalid_config"@,
            "role must be \"admin\" or \"user\""@,
        ),
        r matches Ok(c) ==> {
            &&& c.users@.len() == sc.users@.len() + 1
            &&& c.users@.last().username@ == bare@
            &&& c.users@.last().password_hash@ == hash@
            &&& req.add->0.role@ == "admin"@ ==> c.users@.last().role == Role::Admin
            &&& req.add->0.role@ == "user"@ ==> c.users@.last().role == Role::User
            &&& 0 <= i < sc.users@.len() ==> c.users@[i]@ == sc.users@[i]@
            &&& same_but_users(*sc, c)
        },
{
    asked_by(sc, username, role);
    reveal_strlit("admin");
    reveal_strlit("user");
    assert("admin"@.len() != "user"@.len());
    if let Ok(c) = r {
        assert(c@.users.len() == sc@.users.len() + 1);
        assert(c@.users.last() == c.users@.last()@);
        if 0 <= i < sc.users@.len() {
            assert(c@.users[i] == c.users@[i]@);
            assert(sc@.users[i] == sc.users@[i]@);
        }
    }
}

/// The user with index `i` is the first one with this name.
pub open spec fn first_user(sc: StoredConfig, name: Seq<char>, i: int) -> bool {
    &&& 0 <= i < sc.users@.len()
    &&& sc.users@[i].username@ == name
    &&& forall|j: int| 0 <= j < i ==> (#[trigger] sc.users@[j]).username@ != name
}

proof fn first_user_is_found(sc: StoredConfig, name: Seq<char>, i: int)
    ensures
        first_user(sc, name, i) ==> store::position(store::usernames(sc@.users), name) == i
            && store::user_named(sc@.users, name) == Some(sc.users@[i]@),
        settings::nobody(sc, name) ==> store::position(store::usernames(sc@.users), name)
            == sc.users@.len() && store::user_named(sc@.users, name) is None,
{
    let names = store::usernames(sc@.users);
    let p = store::position(names, name);
    store::position_is_first(names, name);
    if first_user(sc, name, i) {
        assert(names[i] == name);
        if p < i {
            assert(names[p] == name);
            assert(sc.users@[p].username@ == name);
        }
    }
    if settings::nobody(sc, name) && p < names.len() {
        assert(names[p] == name);
        assert(sc.users@[p].username@ == name);
    }
}

/// A password that is reset, or a role that is set, is that of the user who is named
/// and of no one else: the rest of that user, everyone else, and everything else of
/// the store stay. The superuser's password and role are not for others to change,
/// and a user who is not there, or a role that has no name, is turned away.
pub proof fn only_the_named_user_is_changed(
    sc: &StoredConfig,
    username: &str,
    req: UsersReq,
    hash: String,
    r: Result<StoredConfig, Refusal>,
    role: Option<Role>,
    name: Seq<char>,
    i: int,
    j: int,
)
    requires
        call_ensures(users, (sc, username, req, hash), r),
        call_ensures(settings::role_of, (sc, username), role),
        by_an_admin(*sc, username@),
        req.add is None && req.remove is None && (req.reset_password is Some
            != req.set_role is Some),
        req.reset_password matches Some(x) ==> name == x.username@,
        req.set_role matches Some(x) ==> name == x.username@,
        0 <= j < sc.users@.len(),
    ensures
        ({
            let resets = req.reset_password is Some;
            let known = resets || req.set_role->0.role@ == "admin"@ || req.set_role->0.role@
                == "user"@;
            &&& !known ==> settings::refused(
                r,
                400,
                "invalid_config"@,
                "role must be \"admin\" or \"user\""@,
            )
            &&& known && settings::nobody(*sc, name) ==> settings::refused(
                r,
                400,
                "invalid_config"@,
                "no such user"@,
            )
            &&& known && first_user(*sc, name, i) && sc.users@[i].role == Role::Superuser
                ==> settings::refused(
                r,
                403,
                "forbidden"@,
                if resets {
                    "the superuser's password can only be changed by the superuser (Account settings)"@
                } else {
                    "the superuser's role is immutable"@
                },
            )
            &&& known && first_user(*sc, name, i) && sc.users@[i].role != Role::Superuser ==> (
            r matches Ok(c) && {
                &&& c.users@.len() == sc.users@.len()
                &&& j != i ==> c.users@[j]@ == sc.users@[j]@
                &&& c.users@[i].username@ == sc.users@[i].username@
                &&& resets ==> c.users@[i].password_hash@ == hash@ && c.users@[i].role
                    == sc.users@[i].role
                &&& !resets ==> c.users@[i].password_hash@ == sc.users@[i].password_hash@
                &&& !resets && req.set_role->0.role@ == "admin"@ ==> c.users@[i].role == Role::Admin
                &&& !resets && req.set_role->0.role@ == "user"@ ==> c.users@[i].role == Role::User
                &&& same_but_users(*sc, c)
            })
        }),
{
    asked_by(sc, username, role);
    reveal_strlit("admin");
    reveal_strlit("user");
    assert("admin"@.len() != "user"@.len());
    first_user_is_found(*sc, name, i);
    assert(sc@.users[j] == sc.users@[j]@);
    if first_user(*sc, name, i) {
        assert(sc@.users[i] == sc.users@[i]@);
        if let Ok(c) = r {
            assert(c@.users.len() == c.users@.len());
            assert(c@.users[i] == c.users@[i]@);
            assert(c@.users[j] == c.users@[j]@);
        }
    }
}

proof fn others_stay(users: Seq<UserView>, target: Seq<char>)
    ensures
        other_users(users, target) == users.filter(|u: UserView| u.username != target),
    decreases users.len(),
{
    reveal(Seq::filter);
    if users.len() > 0 {
        others_stay(users.drop_last(), target);
    }
}

proof fn others_keys_stay(keys: Seq<NimKeyView>, target: Seq<char>)
    ensures
        other_keys(keys, target) == keys.filter(|k: NimKeyView| k.owner != target),
    decreases keys.len(),
{
    reveal(Seq::filter);
    if keys.len() > 0 {
        others_keys_stay(keys.drop_last(), target);
    }
}

proof fn others_clients_stay(keys: Seq<ClientKeyView>, target: Seq<char>)
    ensures
        other_clients(keys, target) == keys.filter(|k: ClientKeyView| k.owner != target),
    decreases keys.len(),
{
    reveal(Seq::filter);
    if keys.len() > 0 {
        others_clients_stay(keys.drop_last(), target);
    }
}

/// A user who is deleted goes with every key of theirs, of either sort; every other
/// user and every key of theirs stays, as it is and in order, and so does everything
/// else of the store. The superuser is never deleted, and a user who is not there is
/// turned away.
pub proof fn only_the_deleted_user_goes(
    sc: &StoredConfig,
    username: &str,
    req: UsersReq,
    hash: String,
    r: Result<StoredConfig, Refusal>,
    role: Option<Role>,
    i: int,
)
    requires
        call_ensures(users, (sc, username, req, hash), r),
        call_ensures(settings::role_of, (sc, username), role),
        by_an_admin(*sc, username@),
        req.add is None && req.remove is Some && req.reset_password is None && req.set_role is None,
    ensures
        ({
            let target = req.remove->0@;
            &&& settings::nobody(*sc, target) ==> settings::refused(
                r,
                400,
                "invalid_config"@,
                "no such user"@,
            )
            &&& first_user(*sc, target, i) && sc.users@[i].role == Role::Superuser
                ==> settings::refused(
                r,
                403,
                "forbidden"@,
                "the superuser can never be deleted"@,
            )
            &&& first_user(*sc, target, i) && sc.users@[i].role != Role::Superuser ==> (
            r matches Ok(c) && {
                &&& c@.users == sc@.users.filter(|u: UserView| u.username != target)
                &&& c@.nim_keys == sc@.nim_keys.filter(|k: NimKeyView| k.owner != target)
                &&& c@.client_keys == sc@.client_keys.filter(|k: ClientKeyView| k.owner != target)
                &&& c@.base_url == sc@.base_url
                &&& c@.mode == sc@.mode
                &&& c@.limits == sc@.limits
                &&& c@.history_days == sc@.history_days
                &&& c@.default_window_days == sc@.default_window_days
                &&& c@.governor_enabled == sc@.governor_enabled
                &&& c@.overrides == sc@.overrides
            })
        }),
{
    asked_by(sc, username, role);
    let target = req.remove->0@;
    first_user_is_found(*sc, target, i);
    others_stay(sc@.users, target);
    others_keys_stay(sc@.nim_keys, target);
    others_clients_stay(sc@.client_keys, target);
}

/// The password that a change of the users comes with is checked before it is
/// hashed: ten characters are enough, fewer are refused, and a change that comes
/// with none has none to hash.
pub proof fn a_short_password_is_refused(req: UsersReq, r: Result<Option<String>, Refusal>)
    requires
        call_ensures(users_password, (&req,), r),
    ensures
        req.add is Some && req.reset_password is None ==> {
            let p = req.add->0.password@;
            &&& p.len() >= 10 ==> (r matches Ok(Some(q)) && q@ == p)
            &&& p.len() < 10 ==> (r matches Err(x) && x.status == 400 && x.code@ == "weak_password"@
                && x.message@ == "password must be at least 10 characters"@ && x.header is None)
        },
        req.add is None && req.reset_password is Some ==> {
            let p = req.reset_password->0.new_password@;
            &&& p.len() >= 10 ==> (r matches Ok(Some(q)) && q@ == p)
            &&& p.len() < 10 ==> (r matches Err(x) && x.status == 400 && x.code@ == "weak_password"@
                && x.message@ == "password must be at least 10 characters"@ && x.header is None)
        },
        req.add is Some == req.reset_password is Some ==> (r matches Ok(None)),
{
}

/// A change of one's own password is checked against the hash that is stored for
/// whoever asks; a new password of fewer than ten characters is refused before
/// that, and so is a user who is no more.
pub proof fn ones_own_hash_is_checked(
    sc: &StoredConfig,
    username: &str,
    req: AccountReq,
    r: Result<String, Refusal>,
    i: int,
)
    requires
        call_ensures(account_hash, (sc, username, &req), r),
    ensures
        req.new_password@.len() < 10 ==> (r matches Err(x) && x.status == 400 && x.code@
            == "weak_password"@),
        req.new_password@.len() >= 10 && first_user(*sc, username@, i) ==> (r matches Ok(h) && h@
            == sc.users@[i].password_hash@),
        req.new_password@.len() >= 10 && settings::nobody(*sc, username@) ==> (r matches Err(x)
            && x.status == 401 && x.code@ == "unauthorized"@),
{
    first_user_is_found(*sc, username@, i);
}

/// One's own password changes exactly when the current one was verified and the
/// stored hash is still the one that it was verified against; then the new hash
/// takes its place, and nothing else changes. A wrong password, a reset that came in
/// between, and a user who is no more are each told as what they are.
pub proof fn ones_own_password_is_changed_once_verified(
    sc: &StoredConfig,
    username: &str,
    verified_hash: &str,
    verified: bool,
    new_hash: &str,
    r: Result<StoredConfig, Refusal>,
    i: int,
    j: int,
)
    requires
        call_ensures(account, (sc, username, verified_hash, verified, new_hash), r),
        0 <= j < sc.users@.len(),
    ensures
        !verified ==> settings::refused(
            r,
            403,
            "wrong_password"@,
            "current password is incorrect"@,
        ),
        verified && settings::nobody(*sc, username@) ==> settings::refused(
            r,
            401,
            "unauthorized"@,
            "your user no longer exists"@,
        ),
        verified && first_user(*sc, username@, i) && sc.users@[i].password_hash@ != verified_hash@
            ==> settings::refused(
            r,
            409,
            "password_changed"@,
            "your password was changed while this request was in flight; log in again"@,
        ),
        verified && first_user(*sc, username@, i) && sc.users@[i].password_hash@ == verified_hash@
            ==> (r matches Ok(c) && {
            &&& c.users@.len() == sc.users@.len()
            &&& c.users@[i].password_hash@ == new_hash@
            &&& c.users@[i].username@ == sc.users@[i].username@
            &&& c.users@[i].role == sc.users@[i].role
            &&& j != i ==> c.users@[j]@ == sc.users@[j]@
            &&& same_but_users(*sc, c)
        }),
{
    first_user_is_found(*sc, username@, i);
    assert(sc@.users[j] == sc.users@[j]@);
    if first_user(*sc, username@, i) {
        assert(sc@.users[i] == sc.users@[i]@);
        if let Ok(c) = r {
            assert(c@.users.len() == c.users@.len());
            assert(c@.users[i] == c.users@[i]@);
            assert(c@.users[j] == c.users@[j]@);
        }
    }
}

/// The change itself: it is made in place where the hash is still the verified one,
/// and leaves everything as it was where it is not.
pub proof fn a_rotated_hash_stops_the_change(
    cand: &mut StoredConfig,
    username: &str,
    verified_hash: &str,
    new_hash: &str,
    r: Result<(), PasswordChangeErr>,
    i: int,
)
    requires
        call_ensures(apply_password_change, (cand, username, verified_hash, new_hash), r),
    ensures
        settings::nobody(*old(cand), username@) ==> r == Err::<(), PasswordChangeErr>(
            PasswordChangeErr::UserGone,
        ),
        first_user(*old(cand), username@, i) && old(cand).users@[i].password_hash@
            != verified_hash@ ==> r == Err::<(), PasswordChangeErr>(PasswordChangeErr::HashRotated),
        first_user(*old(cand), username@, i) && old(cand).users@[i].password_hash@
            == verified_hash@ ==> r is Ok && final(cand).users@.len() == old(cand).users@.len()
            && final(cand).users@[i].password_hash@ == new_hash@ && final(cand).users@[i].role
            == old(cand).users@[i].role,
        r is Err ==> final(cand)@ == old(cand)@,
{
    first_user_is_found(*old(cand), username@, i);
    if first_user(*old(cand), username@, i) {
        assert(old(cand)@.users[i] == old(cand).users@[i]@);
        assert(final(cand)@.users.len() == final(cand).users@.len());
        if r is Ok {
            assert(final(cand)@.users[i] == final(cand).users@[i]@);
        }
    }
}

} // verus!
