//! Starting up: what the environment and the command line say, and what is said
//! of the posture that the proxy starts in.
use vstd::prelude::*;

use crate::scan;
use crate::scan::utf8_lossy;
use crate::store;
use crate::store::{Config, NimKeyView, StoredConfig};
use crate::text;
use crate::text::{contains, join, parse_u64, str_eq, to_decimal};
use crate::time;

verus! {

/// The port that is listened on unless told otherwise.
pub const DEFAULT_PORT: u16 = 8000;

// ---------------------------------------------------------------------------
// The clock on the wall
// ---------------------------------------------------------------------------
/// `std::time::SystemTime`, an opaque reading of the clock on the wall.
#[verifier::external_type_specification]
#[verifier::external_body]
pub struct ExSystemTime(std::time::SystemTime);

/// `std::time::SystemTime::now` reads the clock on the wall. Nothing is claimed
/// of the reading.
pub assume_specification[ std::time::SystemTime::now ]() -> std::time::SystemTime;

/// The span from the Unix epoch to a reading; none for a reading from before.
pub uninterp spec fn epoch_span(reading: std::time::SystemTime) -> Option<std::time::Duration>;

/// Calls `SystemTime::duration_since` with the Unix epoch: the time since then,
/// or a failure for a reading from before. It depends on the reading alone.
#[verifier::external_body]
fn since_epoch(reading: &std::time::SystemTime) -> (r: Option<std::time::Duration>)
    ensures
        r == epoch_span(*reading),
{
    reading.duration_since(std::time::UNIX_EPOCH).ok()
}

/// Seconds since the Unix epoch, by a clock that may stand before it.
pub fn secs_or_zero(since: Option<u64>) -> (r: u64)
    ensures
        r == match since {
            Some(secs) => secs,
            None => 0,
        },
{
    match since {
        Some(secs) => secs,
        None => 0,
    }
}

/// The whole seconds from the Unix epoch to a reading; zero for a reading from
/// before.
pub open spec fn epoch_secs(reading: std::time::SystemTime) -> u64 {
    match epoch_span(reading) {
        Some(span) => time::whole_secs(span),
        None => 0,
    }
}

/// The whole seconds from the Unix epoch to a reading of the clock on the wall;
/// zero for a reading from before.
pub fn unix_secs(reading: std::time::SystemTime) -> (r: u64)
    ensures
        r == epoch_secs(reading),
{
    let since: Option<u64> = match since_epoch(&reading) {
        Some(span) => Some(span.as_secs()),
        None => None,
    };
    secs_or_zero(since)
}

/// Seconds since the Unix epoch, by the clock on the wall; zero where the clock
/// stands before it. What the clock reads is not stated.
pub fn unix_now() -> (r: u64)
    ensures
        exists|reading: std::time::SystemTime| r == #[trigger] epoch_secs(reading),
{
    unix_secs(std::time::SystemTime::now())
}

// ---------------------------------------------------------------------------
// The data directory and the store in it
// ---------------------------------------------------------------------------
/// Why the data directory cannot be used; `writable` tells what came of writing
/// to it.
pub open spec fn unusable(dir: Seq<char>, writable: Result<(), String>) -> Option<Seq<char>> {
    if dir.len() == 0 {
        Some("DATA_DIR must point at a writable directory (the config store lives there)"@)
    } else {
        match writable {
            Ok(()) => None,
            Err(e) => Some(
                "\nnim-proxy cannot start: DATA_DIR "@ + dir + " is not writable ("@ + e@
                    + ").\nThe config store (settings, users, keys) persists there.\n"@,
            ),
        }
    }
}

/// Checks that the data directory can be used, and says why if it cannot.
pub fn check_data_dir(dir: &str, writable: &Result<(), String>) -> (r: Result<(), String>)
    ensures
        match unusable(dir@, *writable) {
            Some(why) => r matches Err(e) && e@ == why,
            None => r is Ok,
        },
{
    if dir.unicode_len() == 0 {
        return Err(
            "DATA_DIR must point at a writable directory (the config store lives there)".to_owned(),
        );
    }
    match writable {
        Ok(()) => Ok(()),
        Err(e) => {
            let a = join("\nnim-proxy cannot start: DATA_DIR ", dir);
            let b = join(a.as_str(), " is not writable (");
            let c = join(b.as_str(), e.as_str());
            Err(
                join(
                    c.as_str(),
                    ").\nThe config store (settings, users, keys) persists there.\n",
                ),
            )
        },
    }
}

/// The store to start with: the one that was loaded, or a fresh one where there
/// was none. Without a usable data directory, or with a store that cannot be
/// read, there is no start: a store that is there is never passed over.
pub fn start(
    dir: &str,
    writable: Result<(), String>,
    loaded: Result<Option<StoredConfig>, String>,
    fresh: StoredConfig,
) -> (r: Result<StoredConfig, String>)
    ensures
        match unusable(dir@, writable) {
            Some(why) => r matches Err(e) && e@ == why,
            None => match loaded {
                Ok(Some(store)) => r == Ok::<StoredConfig, String>(store),
                Ok(None) => r == Ok::<StoredConfig, String>(fresh),
                Err(e) => r matches Err(m) && m@ == "\nnim-proxy cannot start: "@ + e@ + "\n"@,
            },
        },
        dir@.len() == 0 || writable is Err || loaded is Err ==> r is Err,
{
    if let Err(why) = check_data_dir(dir, &writable) {
        return Err(why);
    }
    match loaded {
        Ok(Some(store)) => Ok(store),
        Ok(None) => Ok(fresh),
        Err(e) => {
            let m = join("\nnim-proxy cannot start: ", e.as_str());
            Err(join(m.as_str(), "\n"))
        },
    }
}

// ---------------------------------------------------------------------------
// The environment
// ---------------------------------------------------------------------------
/// A setting, or its default where it is not set.
pub fn env_or(value: Option<String>, default: &str) -> (r: String)
    ensures
        r@ == match value {
            Some(v) => v@,
            None => default@,
        },
{
    match value {
        Some(v) => v,
        None => default.to_owned(),
    }
}

/// Whether the headers of a proxy in front are trusted: only if told so.
pub fn trust_proxy(value: Option<&str>) -> (r: bool)
    ensures
        r == (value matches Some(v) && v@ == "true"@),
{
    match value {
        Some(v) => str_eq(v, "true"),
        None => false,
    }
}

/// Settings that the environment used to hold and that are ignored there now.
pub fn legacy_vars() -> (r: Vec<&'static str>)
    ensures
        r@.len() == 16,
        r@[0]@ == "NIM_API_KEYS"@,
        r@[1]@ == "NIM_BASE_URL"@,
        r@[2]@ == "RPM_PER_KEY"@,
        r@[3]@ == "PROXY_API_KEYS"@,
        r@[4]@ == "ADMIN_PASSWORD"@,
        r@[5]@ == "INSECURE_NO_AUTH"@,
        r@[6]@ == "MAX_WAIT_SECS"@,
        r@[7]@ == "HEARTBEAT_SECS"@,
        r@[8]@ == "MODELS_TTL_SECS"@,
        r@[9]@ == "STREAM_IDLE_SECS"@,
        r@[10]@ == "REQUEST_TIMEOUT_SECS"@,
        r@[11]@ == "STRICT_PASSTHROUGH"@,
        r@[12]@ == "REF_PRICE_IN"@,
        r@[13]@ == "REF_PRICE_OUT"@,
        r@[14]@ == "HISTORY_DAYS"@,
        r@[15]@ == "MAX_INFLIGHT"@,
{
    let mut names: Vec<&'static str> = Vec::new();
    names.push("NIM_API_KEYS");
    names.push("NIM_BASE_URL");
    names.push("RPM_PER_KEY");
    names.push("PROXY_API_KEYS");
    names.push("ADMIN_PASSWORD");
    names.push("INSECURE_NO_AUTH");
    names.push("MAX_WAIT_SECS");
    names.push("HEARTBEAT_SECS");
    names.push("MODELS_TTL_SECS");
    names.push("STREAM_IDLE_SECS");
    names.push("REQUEST_TIMEOUT_SECS");
    names.push("STRICT_PASSTHROUGH");
    names.push("REF_PRICE_IN");
    names.push("REF_PRICE_OUT");
    names.push("HISTORY_DAYS");
    names.push("MAX_INFLIGHT");
    names
}

/// Names with a comma and a space between them.
pub open spec fn listed(names: Seq<String>) -> Seq<char>
    decreases names.len(),
{
    if names.len() == 0 {
        Seq::empty()
    } else if names.len() == 1 {
        names[0]@
    } else {
        listed(names.drop_last()) + ", "@ + names.last()@
    }
}

/// The warning about settings that are set and ignored.
pub open spec fn legacy_warning(set: Seq<String>) -> Seq<char> {
    "ignoring legacy env vars ("@ + listed(set) + ") — these settings live in the dashboard now"@
}

/// The warning about settings that are set and ignored, if any are.
pub fn warn_legacy_env(set: &Vec<String>) -> (r: Option<String>)
    ensures
        match r {
            Some(w) => set@.len() > 0 && w@ == legacy_warning(set@),
            None => set@.len() == 0,
        },
{
    if set.len() == 0 {
        return None;
    }
    let mut names = set[0].clone();
    let mut i: usize = 1;
    assert(set@.take(1).len() == 1);
    while i < set.len()
        invariant
            1 <= i <= set@.len(),
            names@ == listed(set@.take(i as int)),
        decreases set.len() - i,
    {
        assert(set@.take(i + 1).drop_last() =~= set@.take(i as int));
        let with_comma = join(names.as_str(), ", ");
        names = join(with_comma.as_str(), set[i].as_str());
        i += 1;
    }
    assert(set@.take(i as int) =~= set@);
    let start = join("ignoring legacy env vars (", names.as_str());
    Some(join(start.as_str(), ") — these settings live in the dashboard now"))
}

// ---------------------------------------------------------------------------
// The health probe
// ---------------------------------------------------------------------------
/// The command line asks for the health probe.
pub open spec fn asks_for_health(args: Seq<String>) -> bool {
    exists|i: int| 0 <= i < args.len() && #[trigger] args[i]@ == "--health"@
}

/// Whether the command line asks for the health probe.
pub fn wants_health(args: &Vec<String>) -> (r: bool)
    ensures
        r == exists|i: int| 0 <= i < args@.len() && #[trigger] args@[i]@ == "--health"@,
        r == asks_for_health(args@),
{
    let mut i: usize = 0;
    while i < args.len()
        invariant
            i <= args@.len(),
            forall|k: int| 0 <= k < i ==> #[trigger] args@[k]@ != "--health"@,
        decreases args.len() - i,
    {
        if str_eq(args[i].as_str(), "--health") {
            assert(args@[i as int]@ == "--health"@);
            return true;
        }
        i += 1;
    }
    false
}

/// The port that a text names, if it names one.
pub open spec fn port_named(s: Seq<char>) -> Option<u16> {
    match text::signed_plain_u64(s) {
        Some(n) => if n <= u16::MAX {
            Some(n as u16)
        } else {
            None
        },
        None => None,
    }
}

/// The port that a text names, if it names one.
pub fn parse_port(s: &str) -> (r: Option<u16>)
    ensures
        r == port_named(s@),
{
    match parse_u64(s) {
        Some(n) => if n <= u16::MAX as u64 {
            Some(n as u16)
        } else {
            None
        },
        None => None,
    }
}

/// The port that the health probe asks at: the one set, or the default where
/// what is set is no port.
pub fn probe_port(s: &str) -> (r: u16)
    ensures
        r == match port_named(s@) {
            Some(p) => p,
            None => DEFAULT_PORT,
        },
{
    match parse_port(s) {
        Some(p) => p,
        None => DEFAULT_PORT,
    }
}

/// Whether the start of an answer tells of good health.
pub fn health_probe(answer: &[u8]) -> (r: bool)
    ensures
        r == text::occurs_in("200"@, scan::lossy(answer@)),
{
    let s = utf8_lossy(answer);
    contains(s.as_str(), "200")
}

/// How often history is sampled: as often as set, but at most once a second.
pub fn sample_interval(secs: u64) -> (r: u64)
    ensures
        r == if secs >= 1 {
            secs
        } else {
            1
        },
{
    if secs >= 1 {
        secs
    } else {
        1
    }
}

// ---------------------------------------------------------------------------
// Posture
// ---------------------------------------------------------------------------
/// Whether first-time setup is still to come: there is no superuser.
pub fn setup_required(sc: &StoredConfig) -> (r: bool)
    ensures
        r == (store::first_superuser(sc@.users) is None),
{
    sc.superuser().is_none()
}

/// How many keys are enabled.
pub open spec fn enabled_count(keys: Seq<NimKeyView>) -> nat
    decreases keys.len(),
{
    if keys.len() == 0 {
        0
    } else {
        enabled_count(keys.drop_last()) + if keys.last().enabled {
            1nat
        } else {
            0nat
        }
    }
}

/// The budget of the enabled keys together.
pub open spec fn enabled_rpm(keys: Seq<NimKeyView>) -> nat
    decreases keys.len(),
{
    if keys.len() == 0 {
        0
    } else {
        enabled_rpm(keys.drop_last()) + if keys.last().enabled {
            keys.last().rpm as nat
        } else {
            0nat
        }
    }
}

/// What is said of the lanes.
pub fn lanes_line(sc: &StoredConfig) -> (r: String)
    ensures
        r@ == text::decimal(enabled_count(sc@.nim_keys)) + " enabled key(s), "@ + text::decimal(
            enabled_rpm(sc@.nim_keys),
        ) + " rpm aggregate"@,
{
    let keys = &sc.upstream.nim_keys;
    let ghost all = sc@.nim_keys;
    let mut n: u128 = 0;
    let mut rpm: u128 = 0;
    let mut i: usize = 0;
    while i < keys.len()
        invariant
            i <= keys.len(),
            all == store::nim_keys_view(keys@),
            n == enabled_count(all.take(i as int)),
            n <= i,
            rpm == enabled_rpm(all.take(i as int)),
            rpm <= i * usize::MAX,
        decreases keys.len() - i,
    {
        assert(all.take(i + 1).drop_last() =~= all.take(i as int));
        let k = keys[i].rpm;
        assert(i * usize::MAX + k <= (i + 1) * usize::MAX) by (nonlinear_arith)
            requires
                k <= usize::MAX,
        ;
        assert((i + 1) * usize::MAX <= u128::MAX) by (nonlinear_arith)
            requires
                i + 1 <= usize::MAX,
                usize::MAX <= 0xffff_ffff_ffff_ffff,
        ;
        if keys[i].enabled {
            n = n + 1;
            rpm = rpm + k as u128;
        }
        i += 1;
    }
    assert(all.take(i as int) =~= all);
    let count = to_decimal(n);
    let total = to_decimal(rpm);
    let a = join(count.as_str(), " enabled key(s), ");
    let b = join(a.as_str(), total.as_str());
    join(b.as_str(), " rpm aggregate")
}

/// What is said of who may use the API.
pub fn api_auth_line(cfg: &Config) -> (r: String)
    ensures
        r@ == match cfg.clients {
            Some(list) => "keyed ("@ + text::decimal(list@.len()) + " client key(s))"@,
            None => "open (no client keys required — keep this on a trusted network)"@,
        },
{
    match &cfg.clients {
        Some(list) => {
            let n = to_decimal(list.len() as u128);
            let a = join("keyed (", n.as_str());
            join(a.as_str(), " client key(s))")
        },
        None => "open (no client keys required — keep this on a trusted network)".to_owned(),
    }
}

/// What is said of who may use the dashboard.
pub fn dashboard_auth_line(sc: &StoredConfig) -> (r: String)
    ensures
        r@ == if store::first_superuser(sc@.users) is None {
            "setup wizard (no users yet)"@
        } else {
            "session ("@ + text::decimal(sc@.users.len()) + " user(s))"@
        },
{
    if setup_required(sc) {
        "setup wizard (no users yet)".to_owned()
    } else {
        let n = to_decimal(sc.users.len() as u128);
        let a = join("session (", n.as_str());
        join(a.as_str(), " user(s))")
    }
}

/// What is said of how long requests wait.
pub fn patience_line(cfg: &Config) -> (r: String)
    ensures
        r@ == "waits up to "@ + text::decimal(
            (cfg.max_wait.nanos / crate::time::NANOS_PER_SEC) as nat,
        ) + "s per request, heartbeat every "@ + text::decimal(
            (cfg.heartbeat.nanos / crate::time::NANOS_PER_SEC) as nat,
        ) + "s"@,
{
    let wait = to_decimal(cfg.max_wait.as_secs());
    let beat = to_decimal(cfg.heartbeat.as_secs());
    let a = join("waits up to ", wait.as_str());
    let b = join(a.as_str(), "s per request, heartbeat every ");
    let c = join(b.as_str(), beat.as_str());
    join(c.as_str(), "s")
}

// ---------------------------------------------------------------------------
// Laws
// ---------------------------------------------------------------------------
/// A store that is there is never passed over: it is what the proxy starts with, and
/// a fresh one only where there is none. Without a data directory that can be written
/// to, or with a store that cannot be read, nothing starts, and what is said is why.
pub proof fn a_store_is_never_passed_over(
    dir: &str,
    writable: Result<(), String>,
    loaded: Result<Option<StoredConfig>, String>,
    fresh: StoredConfig,
    r: Result<StoredConfig, String>,
    checked: Result<(), String>,
)
    requires
        call_ensures(start, (dir, writable, loaded, fresh), r),
        call_ensures(check_data_dir, (dir, &writable), checked),
    ensures
        checked is Ok <==> dir@.len() > 0 && writable is Ok,
        dir@.len() == 0 ==> (checked matches Err(e) && e@
            == "DATA_DIR must point at a writable directory (the config store lives there)"@),
        dir@.len() > 0 ==> (writable matches Err(w) ==> (checked matches Err(e) && e@
            == "\nnim-proxy cannot start: DATA_DIR "@ + dir@ + " is not writable ("@ + w@
            + ").\nThe config store (settings, users, keys) persists there.\n"@)),
        checked matches Err(e) ==> (r matches Err(m) && m@ == e@),
        checked is Ok ==> match loaded {
            Ok(Some(stored)) => r == Ok::<StoredConfig, String>(stored),
            Ok(None) => r == Ok::<StoredConfig, String>(fresh),
            Err(e) => r matches Err(m) && m@ == "\nnim-proxy cannot start: "@ + e@ + "\n"@,
        },
{
}

/// A setting counts as it is set, and as its default only where it is not set; the
/// headers of a proxy in front are trusted only where the setting is the word
/// `true`; and history is sampled as often as set, but not more than once a second.
pub proof fn settings_count_as_they_are_set(
    value: Option<String>,
    default: &str,
    r: String,
    trusted: Option<&str>,
    trust: bool,
    secs: u64,
    every: u64,
)
    requires
        call_ensures(env_or, (value, default), r),
        call_ensures(trust_proxy, (trusted,), trust),
        call_ensures(sample_interval, (secs,), every),
    ensures
        value matches Some(v) ==> r@ == v@,
        value is None ==> r@ == default@,
        trust <==> trusted is Some && trusted->0@ == "true"@,
        every >= 1,
        secs >= 1 ==> every == secs,
        secs == 0 ==> every == 1,
{
}

/// Sixteen settings used to be in the environment and are not any more; each is
/// listed once.
pub proof fn sixteen_settings_have_moved(names: Vec<&'static str>)
    requires
        call_ensures(legacy_vars, (), names),
    ensures
        names@.len() == 16,
        names@[0]@ == "NIM_API_KEYS"@ && names@[1]@ == "NIM_BASE_URL"@ && names@[2]@
            == "RPM_PER_KEY"@ && names@[3]@ == "PROXY_API_KEYS"@ && names@[4]@ == "ADMIN_PASSWORD"@
            && names@[5]@ == "INSECURE_NO_AUTH"@ && names@[6]@ == "MAX_WAIT_SECS"@ && names@[7]@
            == "HEARTBEAT_SECS"@,
        names@[8]@ == "MODELS_TTL_SECS"@ && names@[9]@ == "STREAM_IDLE_SECS"@ && names@[10]@
            == "REQUEST_TIMEOUT_SECS"@ && names@[11]@ == "STRICT_PASSTHROUGH"@ && names@[12]@
            == "REF_PRICE_IN"@ && names@[13]@ == "REF_PRICE_OUT"@ && names@[14]@ == "HISTORY_DAYS"@
            && names@[15]@ == "MAX_INFLIGHT"@,
{
}

/// There is a warning exactly where a setting is set and ignored. It names them all
/// in order: one more of them is one more name behind a comma.
pub proof fn a_warning_names_them_all(
    set: Vec<String>,
    more: Vec<String>,
    name: String,
    r: Option<String>,
    rr: Option<String>,
)
    requires
        call_ensures(warn_legacy_env, (&set,), r),
        call_ensures(warn_legacy_env, (&more,), rr),
        more@ == set@.push(name),
    ensures
        r is None <==> set@.len() == 0,
        rr is Some,
        set@.len() == 0 ==> rr->0@ == "ignoring legacy env vars ("@ + name@
            + ") — these settings live in the dashboard now"@,
        set@.len() > 0 ==> exists|names: Seq<char>| {
            &&& r->0@ == "ignoring legacy env vars ("@ + names
                + ") — these settings live in the dashboard now"@
            &&& rr->0@ == "ignoring legacy env vars ("@ + (#[trigger] (names + ", "@)) + name@
                + ") — these settings live in the dashboard now"@
        },
{
    assert(more@.drop_last() =~= set@);
    if set@.len() > 0 {
        let names = listed(set@);
        assert(listed(more@) == names + ", "@ + name@);
        assert("ignoring legacy env vars ("@ + (names + ", "@ + name@)
            + ") — these settings live in the dashboard now"@ =~= "ignoring legacy env vars ("@ + (
        names + ", "@) + name@ + ") — these settings live in the dashboard now"@);
    }
}

/// The health probe is asked for by its flag, wherever it stands on the command
/// line; it asks at the port that is set, where that is a number that a port can
/// have, and at 8000 otherwise; and health is good where the answer says 200.
pub proof fn the_probe_asks_at_the_port_that_is_set(
    args: &Vec<String>,
    wanted: bool,
    i: int,
    s: &str,
    n: Option<u64>,
    port: Option<u16>,
    at: u16,
    answer: &[u8],
    well: bool,
    a: Seq<char>,
    b: Seq<char>,
)
    requires
        call_ensures(wants_health, (args,), wanted),
        call_ensures(text::parse_u64, (s,), n),
        call_ensures(parse_port, (s,), port),
        call_ensures(probe_port, (s,), at),
        call_ensures(health_probe, (answer,), well),
    ensures
        0 <= i < args@.len() && args@[i]@ == "--health"@ ==> wanted,
        wanted ==> exists|k: int| 0 <= k < args@.len() && #[trigger] args@[k]@ == "--health"@,
        n is None ==> port is None && at == 8000,
        n matches Some(m) ==> (m <= 65535 ==> port == Some(m as u16) && at == m) && (m > 65535
            ==> port is None && at == 8000),
        scan::lossy(answer@) == a + "200"@ + b ==> well,
        well ==> exists|k: int|
            0 <= k && k + 3 <= scan::lossy(answer@).len() && #[trigger] scan::lossy(
                answer@,
            ).subrange(k, k + 3) == "200"@,
{
    reveal_strlit("200");
    let whole = scan::lossy(answer@);
    if whole == a + "200"@ + b {
        assert(whole.subrange(a.len() as int, a.len() as int + "200"@.len()) =~= "200"@);
        assert(text::stands_at(whole, "200"@, a.len() as int));
    }
    if well {
        let k = choose|k: int| text::stands_at(whole, "200"@, k);
        assert(whole.subrange(k, k + 3) == "200"@);
    }
}

/// Setup is still to come exactly while no user is a superuser.
pub proof fn setup_is_over_once_there_is_a_superuser(
    sc: &StoredConfig,
    r: bool,
    root: Option<&store::User>,
)
    requires
        call_ensures(setup_required, (sc,), r),
        call_ensures(StoredConfig::superuser, (sc,), root),
    ensures
        r <==> root is None,
{
}

proof fn enabled_are_counted(keys: Seq<NimKeyView>)
    ensures
        enabled_count(keys) == keys.filter(|k: NimKeyView| k.enabled).len(),
        enabled_rpm(keys) == keys.filter(|k: NimKeyView| k.enabled).map_values(
            |k: NimKeyView| k.rpm as int,
        ).fold_left(0int, |a: int, b: int| a + b),
    decreases keys.len(),
{
    reveal(Seq::filter);
    if keys.len() > 0 {
        let rest = keys.drop_last();
        enabled_are_counted(rest);
        let p = |k: NimKeyView| k.enabled;
        let f = |k: NimKeyView| k.rpm as int;
        if keys.last().enabled {
            assert(keys.filter(p) =~= rest.filter(p).push(keys.last()));
            assert(keys.filter(p).map_values(f).drop_last() =~= rest.filter(p).map_values(f));
            assert(keys.filter(p).map_values(f).last() == keys.last().rpm as int);
        }
    }
}

/// What is said at the start tells how many keys are enabled and what they may spend
/// together, whether clients need a key and how many have one, whether the dashboard
/// has users yet and how many, and how long requests wait, in whole seconds.
pub proof fn the_start_is_told_as_it_is(
    sc: &StoredConfig,
    cfg: &Config,
    lanes: String,
    api: String,
    dash: String,
    patience: String,
    root: Option<&store::User>,
    count: String,
    total: String,
    n: u128,
    rpm: u128,
)
    requires
        call_ensures(lanes_line, (sc,), lanes),
        call_ensures(api_auth_line, (cfg,), api),
        call_ensures(dashboard_auth_line, (sc,), dash),
        call_ensures(patience_line, (cfg,), patience),
        call_ensures(StoredConfig::superuser, (sc,), root),
        n == sc@.nim_keys.filter(|k: NimKeyView| k.enabled).len(),
        rpm == sc@.nim_keys.filter(|k: NimKeyView| k.enabled).map_values(
            |k: NimKeyView| k.rpm as int,
        ).fold_left(0int, |a: int, b: int| a + b),
        call_ensures(to_decimal, (n,), count),
        call_ensures(to_decimal, (rpm,), total),
    ensures
        lanes@ == count@ + " enabled key(s), "@ + total@ + " rpm aggregate"@,
        cfg.clients is None ==> api@
            == "open (no client keys required — keep this on a trusted network)"@,
        cfg.clients matches Some(list) ==> api@ == "keyed ("@ + text::decimal(list@.len())
            + " client key(s))"@,
        root is None ==> dash@ == "setup wizard (no users yet)"@,
        root is Some ==> dash@ == "session ("@ + text::decimal(sc.users@.len()) + " user(s))"@,
        patience@ == "waits up to "@ + text::decimal((cfg.max_wait.nanos / 1_000_000_000) as nat)
            + "s per request, heartbeat every "@ + text::decimal(
            (cfg.heartbeat.nanos / 1_000_000_000) as nat,
        ) + "s"@,
{
    enabled_are_counted(sc@.nim_keys);
    assert(sc@.users.len() == sc.users@.len());
}

/// Seconds are counted from the Unix epoch, and are none where the clock stands
/// before it.
pub proof fn time_starts_at_the_epoch(
    reading: std::time::SystemTime,
    r: u64,
    since: Option<u64>,
    secs: u64,
)
    requires
        call_ensures(unix_secs, (reading,), r),
        call_ensures(secs_or_zero, (since,), secs),
    ensures
        epoch_span(reading) matches Some(span) ==> r == time::whole_secs(span),
        epoch_span(reading) is None ==> r == 0,
        since matches Some(n) ==> secs == n,
        since is None ==> secs == 0,
{
}

} // verus!
