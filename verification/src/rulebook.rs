//! The rules that a stored configuration has to obey before it is kept.
use vstd::prelude::*;

use crate::store;
use crate::store::{NimKeyView, StoreView, StoredConfig, User};
use crate::text::str_eq;

verus! {

/// A rule of the stored configuration.
#[derive(Clone, Copy, Debug, PartialEq, Eq, Structural)]
pub enum Rule {
    /// Every user has a name.
    Username,
    /// Every client key has a name.
    ClientName,
    /// Every upstream key may be spent at least once in a window.
    KeyBudget,
    /// The superuser owns an enabled upstream key, so that the pool never runs
    /// out of lanes.
    PoolFloor,
    /// A heartbeat comes before the wait is over.
    Heartbeat,
    /// The dashboard shows at least one day unless asked otherwise.
    Window,
    /// History that is not kept for ever is kept for as long as the dashboard
    /// shows.
    Retention,
    /// A pinned model may be used at least once at a time.
    ModelCap,
}

/// Someone owns an enabled upstream key.
pub open spec fn owns_enabled(keys: Seq<NimKeyView>, owner: Seq<char>) -> bool {
    exists|i: int|
        0 <= i < keys.len() && (#[trigger] keys[i]).enabled && keys[i].owner == owner
}

/// The configuration obeys a rule.
pub open spec fn obeys(s: StoreView, rule: Rule) -> bool {
    match rule {
        Rule::Username => forall|i: int|
            0 <= i < s.users.len() ==> (#[trigger] s.users[i]).username.len() > 0,
        Rule::ClientName => forall|i: int|
            0 <= i < s.client_keys.len() ==> (#[trigger] s.client_keys[i]).name.len() > 0,
        Rule::KeyBudget => forall|i: int|
            0 <= i < s.nim_keys.len() ==> (#[trigger] s.nim_keys[i]).rpm >= 1,
        Rule::PoolFloor => {
            store::first_superuser(s.users) matches Some(root) ==> owns_enabled(
                s.nim_keys,
                root.username,
            )
        },
        Rule::Heartbeat => s.limits.heartbeat_secs < s.limits.max_wait_secs,
        Rule::Window => s.default_window_days >= 1,
        Rule::Retention => s.history_days == 0 || s.history_days >= s.default_window_days,
        Rule::ModelCap => forall|m: Seq<char>| #[trigger]
            s.overrides.contains_key(m) ==> s.overrides[m] >= 1,
    }
}

/// The first rule that the configuration breaks.
pub open spec fn first_broken(s: StoreView) -> Option<Rule> {
    if !obeys(s, Rule::Username) {
        Some(Rule::Username)
    } else if !obeys(s, Rule::ClientName) {
        Some(Rule::ClientName)
    } else if !obeys(s, Rule::KeyBudget) {
        Some(Rule::KeyBudget)
    } else if !obeys(s, Rule::PoolFloor) {
        Some(Rule::PoolFloor)
    } else if !obeys(s, Rule::Heartbeat) {
        Some(Rule::Heartbeat)
    } else if !obeys(s, Rule::Window) {
        Some(Rule::Window)
    } else if !obeys(s, Rule::Retention) {
        Some(Rule::Retention)
    } else if !obeys(s, Rule::ModelCap) {
        Some(Rule::ModelCap)
    } else {
        None
    }
}

/// What is said of a broken rule.
pub open spec fn said(rule: Rule) -> Seq<char> {
    match rule {
        Rule::Username => "a username cannot be empty"@,
        Rule::ClientName => "a client key needs a name"@,
        Rule::KeyBudget => "rpm must be at least 1"@,
        Rule::PoolFloor => "the superuser must keep at least one enabled key"@,
        Rule::Heartbeat => "heartbeat_secs must be less than max_wait_secs"@,
        Rule::Window => "default_window_days must be at least 1"@,
        Rule::Retention => "history days must be 0 or at least default_window_days"@,
        Rule::ModelCap => "a model cap must be at least 1"@,
    }
}

impl Rule {
    /// What is said of a candidate that breaks the rule.
    pub fn message(self) -> (r: &'static str)
        ensures
            r@ == said(self),
    {
        match self {
            Rule::Username => "a username cannot be empty",
            Rule::ClientName => "a client key needs a name",
            Rule::KeyBudget => "rpm must be at least 1",
            Rule::PoolFloor => "the superuser must keep at least one enabled key",
            Rule::Heartbeat => "heartbeat_secs must be less than max_wait_secs",
            Rule::Window => "default_window_days must be at least 1",
            Rule::Retention => "history days must be 0 or at least default_window_days",
            Rule::ModelCap => "a model cap must be at least 1",
        }
    }
}

// ---------------------------------------------------------------------------
// Checking
// ---------------------------------------------------------------------------
fn users_are_named(sc: &StoredConfig) -> (r: bool)
    ensures
        r == obeys(sc@, Rule::Username),
{
    let mut i: usize = 0;
    while i < sc.users.len()
        invariant
            i <= sc.users@.len(),
            forall|k: int| 0 <= k < i ==> (#[trigger] sc@.users[k]).username.len() > 0,
        decreases sc.users.len() - i,
    {
        if sc.users[i].username.as_str().unicode_len() == 0 {
            assert(sc@.users[i as int].username.len() == 0);
            return false;
        }
        i += 1;
    }
    true
}

fn clients_are_named(sc: &StoredConfig) -> (r: bool)
    ensures
        r == obeys(sc@, Rule::ClientName),
{
    let mut i: usize = 0;
    while i < sc.client_auth.keys.len()
        invariant
            i <= sc.client_auth.keys@.len(),
            forall|k: int| 0 <= k < i ==> (#[trigger] sc@.client_keys[k]).name.len() > 0,
        decreases sc.client_auth.keys.len() - i,
    {
        if sc.client_auth.keys[i].name.as_str().unicode_len() == 0 {
            assert(sc@.client_keys[i as int].name.len() == 0);
            return false;
        }
        i += 1;
    }
    true
}

fn keys_have_budgets(sc: &StoredConfig) -> (r: bool)
    ensures
        r == obeys(sc@, Rule::KeyBudget),
{
    let mut i: usize = 0;
    while i < sc.upstream.nim_keys.len()
        invariant
            i <= sc.upstream.nim_keys@.len(),
            forall|k: int| 0 <= k < i ==> (#[trigger] sc@.nim_keys[k]).rpm >= 1,
        decreases sc.upstream.nim_keys.len() - i,
    {
        if sc.upstream.nim_keys[i].rpm == 0 {
            assert(sc@.nim_keys[i as int].rpm == 0);
            return false;
        }
        i += 1;
    }
    true
}

fn floor_holds(sc: &StoredConfig) -> (r: bool)
    ensures
        r == obeys(sc@, Rule::PoolFloor),
{
    match sc.superuser() {
        Some(root) => {
            let mut i: usize = 0;
            while i < sc.upstream.nim_keys.len()
                invariant
                    i <= sc.upstream.nim_keys@.len(),
                    store::first_superuser(sc@.users) == Some(root@),
                    forall|k: int|
                        0 <= k < i ==> !((#[trigger] sc@.nim_keys[k]).enabled
                            && sc@.nim_keys[k].owner == root.username@),
                decreases sc.upstream.nim_keys.len() - i,
            {
                if sc.upstream.nim_keys[i].enabled && str_eq(
                    sc.upstream.nim_keys[i].owner.as_str(),
                    root.username.as_str(),
                ) {
                    assert(sc@.nim_keys[i as int].enabled);
                    return true;
                }
                i += 1;
            }
            false
        },
        None => true,
    }
}

fn caps_are_usable(sc: &StoredConfig) -> (r: bool)
    ensures
        r == obeys(sc@, Rule::ModelCap),
{
    let caps = &sc.governor.overrides;
    let list = caps.listed();
    let ghost entries = list@;
    proof {
        store::caps_are_entries(entries);
    }
    let mut i: usize = 0;
    while i < list.len()
        invariant
            i <= list@.len(),
            entries == list@,
            caps@ == sc@.overrides,
            forall|k: int|
                0 <= k < entries.len() ==> caps@.contains_key((#[trigger] entries[k]).0@),
            forall|k: int| 0 <= k < i ==> caps@[(#[trigger] entries[k]).0@] >= 1,
        decreases list.len() - i,
    {
        let cap = caps.get(list[i].0.as_str());
        assert(caps@.contains_key(entries[i as int].0@));
        if let Some(n) = cap {
            if n == 0 {
                return false;
            }
        }
        i += 1;
    }
    assert forall|m: Seq<char>| #[trigger] sc@.overrides.contains_key(m) implies sc@.overrides[m]
        >= 1 by {
        let k = choose|k: int| 0 <= k < entries.len() && (#[trigger] entries[k]).0@ == m;
        assert(caps@[entries[k].0@] >= 1);
    }
    true
}

/// The first rule that a candidate breaks.
pub fn broken(candidate: &StoredConfig) -> (r: Option<Rule>)
    ensures
        r == first_broken(candidate@),
{
    let limits = &candidate.limits;
    if !users_are_named(candidate) {
        Some(Rule::Username)
    } else if !clients_are_named(candidate) {
        Some(Rule::ClientName)
    } else if !keys_have_budgets(candidate) {
        Some(Rule::KeyBudget)
    } else if !floor_holds(candidate) {
        Some(Rule::PoolFloor)
    } else if !(limits.heartbeat_secs < limits.max_wait_secs) {
        Some(Rule::Heartbeat)
    } else if !(candidate.default_window_days >= 1) {
        Some(Rule::Window)
    } else if !(candidate.history_days == 0 || candidate.history_days
        >= candidate.default_window_days) {
        Some(Rule::Retention)
    } else if !caps_are_usable(candidate) {
        Some(Rule::ModelCap)
    } else {
        None
    }
}

// ---------------------------------------------------------------------------
// Laws
// ---------------------------------------------------------------------------
/// Everyone has a name.
pub open spec fn everyone_is_named(c: StoredConfig) -> bool {
    forall|i: int| 0 <= i < c.users@.len() ==> (#[trigger] c.users@[i]).username@.len() > 0
}

/// Every client key has a name.
pub open spec fn every_client_is_named(c: StoredConfig) -> bool {
    forall|i: int|
        0 <= i < c.client_auth.keys@.len() ==> (#[trigger] c.client_auth.keys@[i]).name@.len() > 0
}

/// Every upstream key may be spent.
pub open spec fn every_key_can_be_spent(c: StoredConfig) -> bool {
    forall|i: int|
        0 <= i < c.upstream.nim_keys@.len() ==> (#[trigger] c.upstream.nim_keys@[i]).rpm > 0
}

/// Someone owns an enabled upstream key.
pub open spec fn has_a_lane(c: StoredConfig, owner: Seq<char>) -> bool {
    exists|i: int|
        0 <= i < c.upstream.nim_keys@.len() && (#[trigger] c.upstream.nim_keys@[i]).enabled
            && c.upstream.nim_keys@[i].owner@ == owner
}

/// No model is capped at nothing.
pub open spec fn every_cap_can_be_used(c: StoredConfig) -> bool {
    forall|m: Seq<char>| #[trigger]
        c.governor.overrides@.contains_key(m) ==> c.governor.overrides@[m] > 0
}

proof fn the_rules_in_words(c: &StoredConfig, root: Option<&User>)
    requires
        call_ensures(StoredConfig::superuser, (c,), root),
    ensures
        obeys(c@, Rule::Username) <==> everyone_is_named(*c),
        obeys(c@, Rule::ClientName) <==> every_client_is_named(*c),
        obeys(c@, Rule::KeyBudget) <==> every_key_can_be_spent(*c),
        obeys(c@, Rule::PoolFloor) <==> (root matches Some(u) ==> has_a_lane(*c, u.username@)),
        obeys(c@, Rule::Heartbeat) <==> c.limits.heartbeat_secs < c.limits.max_wait_secs,
        obeys(c@, Rule::Window) <==> c.default_window_days > 0,
        obeys(c@, Rule::Retention) <==> c.history_days == 0 || c.history_days
            >= c.default_window_days,
        obeys(c@, Rule::ModelCap) <==> every_cap_can_be_used(*c),
{
    let users = c.users@;
    let clients = c.client_auth.keys@;
    let keys = c.upstream.nim_keys@;
    assert(obeys(c@, Rule::Username) <==> forall|i: int|
        0 <= i < users.len() ==> (#[trigger] users[i]).username@.len() > 0) by {
        if obeys(c@, Rule::Username) {
            assert forall|i: int| 0 <= i < users.len() implies (#[trigger] users[i]).username@.len()
                > 0 by {
                assert(c@.users[i].username.len() > 0);
            }
        }
    }
    assert(obeys(c@, Rule::ClientName) <==> forall|i: int|
        0 <= i < clients.len() ==> (#[trigger] clients[i]).name@.len() > 0) by {
        if obeys(c@, Rule::ClientName) {
            assert forall|i: int| 0 <= i < clients.len() implies (#[trigger] clients[i]).name@.len()
                > 0 by {
                assert(c@.client_keys[i].name.len() > 0);
            }
        }
    }
    assert(obeys(c@, Rule::KeyBudget) <==> forall|i: int|
        0 <= i < keys.len() ==> (#[trigger] keys[i]).rpm > 0) by {
        if obeys(c@, Rule::KeyBudget) {
            assert forall|i: int| 0 <= i < keys.len() implies (#[trigger] keys[i]).rpm > 0 by {
                assert(c@.nim_keys[i].rpm >= 1);
            }
        }
    }
    if let Some(u) = root {
        assert(owns_enabled(c@.nim_keys, u.username@) <==> exists|i: int|
            0 <= i < keys.len() && (#[trigger] keys[i]).enabled && keys[i].owner@ == u.username@)
            by {
            if owns_enabled(c@.nim_keys, u.username@) {
                let i = choose|i: int|
                    0 <= i < c@.nim_keys.len() && (#[trigger] c@.nim_keys[i]).enabled
                        && c@.nim_keys[i].owner == u.username@;
                assert(keys[i].enabled);
            }
            if exists|i: int|
                0 <= i < keys.len() && (#[trigger] keys[i]).enabled && keys[i].owner@
                    == u.username@ {
                let i = choose|i: int|
                    0 <= i < keys.len() && (#[trigger] keys[i]).enabled && keys[i].owner@
                        == u.username@;
                assert(c@.nim_keys[i].enabled);
            }
        }
        assert(store::first_superuser(c@.users) == Some(u@));
        assert(u@.username == u.username@);
        assert(obeys(c@, Rule::PoolFloor) <==> owns_enabled(c@.nim_keys, u.username@));
    }
    assert(obeys(c@, Rule::Window) <==> c.default_window_days > 0);
    assert(obeys(c@, Rule::Retention) <==> c.history_days == 0 || c.history_days
        >= c.default_window_days);
    assert(obeys(c@, Rule::Heartbeat) <==> c.limits.heartbeat_secs < c.limits.max_wait_secs);
    let caps = c.governor.overrides@;
    assert(c@.overrides == caps);
    if obeys(c@, Rule::ModelCap) {
        assert forall|m: Seq<char>| #[trigger] caps.contains_key(m) implies caps[m] > 0 by {
            assert(c@.overrides.contains_key(m));
        }
    }
    if forall|m: Seq<char>| #[trigger] caps.contains_key(m) ==> caps[m] > 0 {
        assert forall|m: Seq<char>| #[trigger] c@.overrides.contains_key(m) implies c@.overrides[m]
            >= 1 by {
            assert(caps.contains_key(m));
        }
    }
}

/// What a configuration has to be: everyone and every client key has a name; every
/// upstream key may be spent; the superuser, where there is one, owns an enabled
/// key; a heartbeat comes before the longest wait is over; at least a day is shown,
/// and no more than is kept, where history is not kept for ever; and no model is
/// capped at nothing. A candidate that is all this breaks no rule. Of one that is
/// not, the first of these that does not hold is told.
pub proof fn the_first_broken_rule_is_told(c: &StoredConfig, r: Option<Rule>, root: Option<&User>)
    requires
        call_ensures(broken, (c,), r),
        call_ensures(StoredConfig::superuser, (c,), root),
    ensures
        ({
            let floor = root matches Some(u) ==> has_a_lane(*c, u.username@);
            let beats = c.limits.heartbeat_secs < c.limits.max_wait_secs;
            let shows = c.default_window_days > 0;
            let keeps = c.history_days == 0 || c.history_days >= c.default_window_days;
            let named = everyone_is_named(*c) && every_client_is_named(*c);
            let paced = every_key_can_be_spent(*c) && floor;
            &&& r is None <==> named && paced && beats && shows && keeps && every_cap_can_be_used(
                *c,
            )
            &&& r == Some(Rule::Username) <==> !everyone_is_named(*c)
            &&& r == Some(Rule::ClientName) <==> everyone_is_named(*c) && !every_client_is_named(*c)
            &&& r == Some(Rule::KeyBudget) <==> named && !every_key_can_be_spent(*c)
            &&& r == Some(Rule::PoolFloor) <==> named && every_key_can_be_spent(*c) && !floor
            &&& r == Some(Rule::Heartbeat) <==> named && paced && !beats
            &&& r == Some(Rule::Window) <==> named && paced && beats && !shows
            &&& r == Some(Rule::Retention) <==> named && paced && beats && shows && !keeps
            &&& r == Some(Rule::ModelCap) <==> named && paced && beats && shows && keeps
                && !every_cap_can_be_used(*c)
        }),
{
    the_rules_in_words(c, root);
}

/// What is said of a broken rule names what is wrong.
pub proof fn each_rule_says_what_is_wrong(rule: Rule, r: &'static str)
    requires
        call_ensures(Rule::message, (rule,), r),
    ensures
        rule == Rule::Username ==> r@ == "a username cannot be empty"@,
        rule == Rule::ClientName ==> r@ == "a client key needs a name"@,
        rule == Rule::KeyBudget ==> r@ == "rpm must be at least 1"@,
        rule == Rule::PoolFloor ==> r@ == "the superuser must keep at least one enabled key"@,
        rule == Rule::Heartbeat ==> r@ == "heartbeat_secs must be less than max_wait_secs"@,
        rule == Rule::Window ==> r@ == "default_window_days must be at least 1"@,
        rule == Rule::Retention ==> r@
            == "history days must be 0 or at least default_window_days"@,
        rule == Rule::ModelCap ==> r@ == "a model cap must be at least 1"@,
{
}

} // verus!
