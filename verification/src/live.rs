//! The configuration in force, and how another one takes its place.
use std::sync::Arc;

use vstd::prelude::*;

use crate::pool;
use crate::pool::{LaneSpec, Pool};
use crate::rulebook;
use crate::rulebook::{broken, Rule};
use crate::store;
use crate::store::{Config, StoredConfig};
use crate::text::join;
use crate::time;

verus! {

/// What came of keeping a candidate.
pub enum Persisted {
    /// The candidate is not valid, and why.
    Rejected(String),
    /// The candidate could not be written, and why.
    Unwritten(String),
    Saved,
}

/// The configuration in force.
pub struct Live {
    pub store: StoredConfig,
    /// What requests are served under; each takes it as it is when it arrives.
    pub config: Arc<Config>,
    pub pool: Pool,
    /// Grows by one with every change.
    pub revision: u64,
}

/// Everything in force agrees with the store.
pub open spec fn in_force(l: Live) -> bool {
    &&& l.pool.wf()
    &&& store::is_runtime(*l.config, l.store@)
}

/// The pool `after` is the one that `specs` make of the pool `before`, by the
/// same clock.
pub open spec fn rebuilt(before: Pool, after: Pool, specs: Seq<LaneSpec>) -> bool {
    &&& after@ == pool::assembled(before@.lanes, specs)
    &&& after.keeps_time(before)
}

/// A candidate is in force in place of what was before.
pub open spec fn swapped(before: Live, candidate: StoredConfig, after: Live) -> bool {
    &&& after.store@ == candidate@
    &&& store::is_runtime(*after.config, candidate@)
    &&& after.pool.wf()
    &&& exists|specs: Seq<LaneSpec>|
        store::is_specs(specs, candidate@.nim_keys) && #[trigger] rebuilt(
            before.pool,
            after.pool,
            specs,
        )
    &&& after.revision == if before.revision == u64::MAX {
        0
    } else {
        (before.revision + 1) as u64
    }
}

/// What a commit leaves, and what it says.
pub open spec fn committed(
    before: Live,
    candidate: StoredConfig,
    persisted: Persisted,
    after: Live,
    r: Result<bool, String>,
) -> bool {
    match rulebook::first_broken(candidate@) {
        Some(rule) => r matches Err(e) && e@ == rulebook::said(rule) && after == before,
        None => match persisted {
            Persisted::Rejected(why) => r matches Err(e) && e@ == why@ && after == before,
            Persisted::Unwritten(why) => r matches Err(e) && e@
                == "cannot write the config store: "@ + why@ && after == before,
            Persisted::Saved => {
                &&& r matches Ok(retention)
                &&& retention == (candidate@.history_days != before.store@.history_days)
                &&& swapped(before, candidate, after)
            },
        },
    }
}

impl Live {
    /// Puts a configuration in force for the first time.
    pub fn new(store: StoredConfig) -> (r: Live)
        ensures
            in_force(r),
            r.store@ == store@,
            r.revision == 1,
            exists|specs: Seq<LaneSpec>|
                store::is_specs(specs, store@.nim_keys) && r.pool@ == #[trigger] pool::assembled(
                    Seq::empty(),
                    specs,
                ),
            time::is_reading(r.pool.latest()),
    {
        let specs = store.pool_specs();
        let config = Arc::new(store.runtime());
        let pool = Pool::new(specs);
        Live { store, config, pool, revision: 1 }
    }

    /// Puts a candidate in force, once it has been kept: the running
    /// configuration is swapped, and the pool is rebuilt with the rate state of
    /// the keys that stay. A candidate that breaks a rule or was not kept changes
    /// nothing. The answer tells whether the history retention is another one
    /// now.
    pub fn commit(&mut self, candidate: StoredConfig, persisted: Persisted) -> (r: Result<
        bool,
        String,
    >)
        requires
            in_force(*old(self)),
        ensures
            in_force(*final(self)),
            committed(*old(self), candidate, persisted, *final(self), r),
    {
        if let Some(rule) = broken(&candidate) {
            return Err(rule.message().to_owned());
        }
        match persisted {
            Persisted::Rejected(why) => Err(why),
            Persisted::Unwritten(why) => Err(
                join("cannot write the config store: ", why.as_str()),
            ),
            Persisted::Saved => {
                let ghost before = self.pool;
                let retention: bool = candidate.history_days != self.store.history_days;
                self.config = Arc::new(candidate.runtime());
                let specs = candidate.pool_specs();
                let ghost given = specs@;
                let pool = self.pool.rebuild(specs);
                self.pool = pool;
                self.store = candidate;
                self.revision = self.revision.wrapping_add(1);
                assert(store::is_specs(given, candidate@.nim_keys));
                assert(rebuilt(before, self.pool, given));
                Ok(retention)
            },
        }
    }
}

/// A change of the configuration is all or nothing: it takes effect exactly when
/// the candidate obeys every rule and was written, and then the configuration in
/// force is the candidate, which leaves the superuser an enabled key; else
/// everything stays as it was.
pub proof fn a_commit_is_all_or_nothing(
    before: Live,
    candidate: StoredConfig,
    persisted: Persisted,
    after: Live,
    r: Result<bool, String>,
    rule: Rule,
)
    requires
        committed(before, candidate, persisted, after, r),
    ensures
        r is Ok <==> persisted is Saved && rulebook::first_broken(candidate@) is None,
        rulebook::first_broken(candidate@) is None ==> rulebook::obeys(candidate@, rule),
        r is Ok ==> after.store@ == candidate@ && rulebook::obeys(after.store@, rule),
        r is Ok ==> (store::first_superuser(after.store@.users) matches Some(root)
            ==> rulebook::owns_enabled(after.store@.nim_keys, root.username)),
        r is Err ==> after == before,
{
    assert(r is Ok ==> rulebook::obeys(candidate@, Rule::PoolFloor));
}

/// Some upstream key is kept with this very text.
pub open spec fn keeps(keys: Seq<store::NimKeyView>, key: Seq<char>) -> bool {
    exists|i: int| 0 <= i < keys.len() && #[trigger] keys[i].key == key
}

/// A change of the configuration never refreshes a key: every lane of the
/// rebuilt pool holds a key of the candidate, with the window and the bench
/// that the key had before where the pool held it; and the clock goes on.
pub proof fn a_commit_keeps_rate_state(
    before: Live,
    candidate: StoredConfig,
    after: Live,
    r: Result<bool, String>,
    i: int,
)
    requires
        committed(before, candidate, Persisted::Saved, after, r),
        r is Ok,
        0 <= i < after.pool@.lanes.len(),
    ensures
        after.pool.keeps_time(before.pool),
        keeps(candidate@.nim_keys, after.pool@.lanes[i].key),
        pool::kept(before.pool@.lanes, after.pool@.lanes[i].key) matches Some(prev) ==> {
            &&& after.pool@.lanes[i].sent == prev.sent
            &&& after.pool@.lanes[i].cooldown_until == prev.cooldown_until
        },
{
    let specs = choose|specs: Seq<LaneSpec>|
        store::is_specs(specs, candidate@.nim_keys) && #[trigger] rebuilt(
            before.pool,
            after.pool,
            specs,
        );
    crate::pool_laws::a_rebuild_carries_kept_keys(before.pool@, specs, i);
    let k = choose|k: int|
        0 <= k < specs.len() && #[trigger] specs[k].key@ == after.pool@.lanes[i].key;
    assert(candidate@.nim_keys[k].key == after.pool@.lanes[i].key);
}

/// A change of the configuration takes effect exactly when the candidate breaks no
/// rule and was written. Then the store and what requests are served under are the
/// candidate's, the pool is the one that is rebuilt for the candidate's keys, by the
/// same clock, the revision is the next one, and the answer tells whether history is
/// kept for another number of days. Else nothing changes, and the answer says why.
pub proof fn a_commit_puts_the_candidate_in_force(
    live: &mut Live,
    candidate: StoredConfig,
    persisted: Persisted,
    r: Result<bool, String>,
    rule: Option<Rule>,
    i: int,
)
    requires
        call_ensures(Live::commit, (live, candidate, persisted), r),
        call_ensures(broken, (&candidate,), rule),
    ensures
        r is Ok <==> rule is None && persisted is Saved,
        r is Err ==> *final(live) == *old(live),
        rule matches Some(x) ==> (r matches Err(e) && e@ == rulebook::said(x)),
        rule is None ==> (persisted matches Persisted::Rejected(why) ==> (r matches Err(e) && e@
            == why@)),
        rule is None ==> (persisted matches Persisted::Unwritten(why) ==> (r matches Err(e) && e@
            == "cannot write the config store: "@ + why@)),
        r matches Ok(retention) ==> {
            &&& final(live).store@ == candidate@
            &&& retention <==> candidate.history_days != old(live).store.history_days
            &&& old(live).revision < u64::MAX ==> final(live).revision == old(live).revision + 1
            &&& final(live).config.base_url@ == candidate.upstream.base_url@
            &&& final(live).config.max_wait.nanos == candidate.limits.max_wait_secs * 1_000_000_000
            &&& final(live).config.max_inflight == candidate.limits.max_inflight
            &&& final(live).config.heartbeat.nanos == candidate.limits.heartbeat_secs
                * 1_000_000_000
            &&& final(live).config.models_ttl.nanos == candidate.limits.models_ttl_secs
                * 1_000_000_000
            &&& final(live).config.stream_idle.nanos == candidate.limits.stream_idle_secs
                * 1_000_000_000
            &&& final(live).config.request_timeout.nanos == candidate.limits.request_timeout_secs
                * 1_000_000_000
            &&& final(live).config.governor.enabled == candidate.governor.enabled
            &&& final(live).config.governor.overrides@ == candidate.governor.overrides@
            &&& final(live).config.clients matches Some(list) ==> store::names_by_digest(list@)
                == store::client_names_by_digest(candidate@.client_keys)
            &&& final(live).config.strict_passthrough == candidate.limits.strict_passthrough
            &&& final(live).config.clients is None <==> candidate.client_auth.mode
                == store::Mode::Open
            &&& final(live).pool@.lanes.len() == candidate.upstream.nim_keys@.len()
            &&& final(live).pool.clock() == old(live).pool.clock()
            &&& final(live).pool.latest() == old(live).pool.latest()
        },
{
    if r is Ok {
        let specs = choose|specs: Seq<LaneSpec>|
            store::is_specs(specs, candidate@.nim_keys) && #[trigger] rebuilt(
                old(live).pool,
                final(live).pool,
                specs,
            );
        if specs.len() > 0 {
            crate::pool_laws::a_rebuilt_pool_has_every_lane(old(live).pool@.lanes, specs);
        }
    }
}

/// A configuration that is put in force for the first time is revision one, served
/// as it is stored, with one fresh lane for every upstream key.
pub proof fn a_first_start_is_revision_one(stored: StoredConfig, live: Live, i: int)
    requires
        call_ensures(Live::new, (stored,), live),
    ensures
        live.revision == 1,
        live.store@ == stored@,
        live.config.base_url@ == stored.upstream.base_url@,
        live.config.max_wait.nanos == stored.limits.max_wait_secs * 1_000_000_000,
        live.config.max_inflight == stored.limits.max_inflight,
        live.config.heartbeat.nanos == stored.limits.heartbeat_secs * 1_000_000_000,
        live.config.models_ttl.nanos == stored.limits.models_ttl_secs * 1_000_000_000,
        live.config.stream_idle.nanos == stored.limits.stream_idle_secs * 1_000_000_000,
        live.config.request_timeout.nanos == stored.limits.request_timeout_secs * 1_000_000_000,
        live.config.strict_passthrough == stored.limits.strict_passthrough,
        live.config.governor.enabled == stored.governor.enabled,
        live.config.governor.overrides@ == stored.governor.overrides@,
        live.config.clients is None <==> stored.client_auth.mode == store::Mode::Open,
        live.pool@.lanes.len() == stored.upstream.nim_keys@.len(),
        0 <= i < live.pool@.lanes.len() ==> live.pool@.lanes[i].sent.len() == 0
            && live.pool@.lanes[i].cooldown_until.nanos == 0,
{
    let specs = choose|specs: Seq<LaneSpec>|
        store::is_specs(specs, stored@.nim_keys) && live.pool@ == #[trigger] pool::assembled(
            Seq::empty(),
            specs,
        );
    crate::pool_laws::a_rebuilt_pool_has_every_lane(Seq::empty(), specs);
    if 0 <= i < live.pool@.lanes.len() {
        crate::pool_laws::a_rebuild_carries_kept_keys(
            pool::PoolView { lanes: Seq::empty(), active: 0 },
            specs,
            i,
        );
    }
}

} // verus!
