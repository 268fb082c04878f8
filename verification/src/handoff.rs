//! Shared plugin/native writer lease and restore handoff.
//!
//! Exactly one writer (the plugin or the native host) mirrors a provider at a
//! time. Each announces itself with a lease file that carries a heartbeat; a
//! lease is live while its heartbeat is within the TTL and its process alive.
//! Everything here decides on values already read: the files, the clock, the
//! environment and the process table are read by the caller.
use vstd::prelude::*;

use crate::digest::{hex_digit, hex_digit_exec};
use crate::json::{is_truthy, json_get, opt_ref, truthy, Json};
use crate::layout::join;
use crate::status::{to_lowercase, unicode_lower};
use crate::text::{
    chars_of, concat2, opt_str_view, opt_view, owned, push_char, str_eq, strings_view, trim, trim_str,
};

verus! {

/// Version written into new lease files.
pub const SCHEMA: i64 = 1;

/// Lease TTL used when none is configured.
pub const DEFAULT_TTL_MS: i64 = 45_000;

/// Smallest TTL a configuration may ask for.
pub const MIN_TTL_MS: i64 = 1_000;

pub open spec fn is_owner_spec(owner: Seq<char>) -> bool {
    owner == "plugin"@ || owner == "native"@
}

fn is_owner(owner: &str) -> (r: bool)
    ensures
        r == is_owner_spec(owner@),
{
    str_eq(owner, "plugin") || str_eq(owner, "native")
}

pub open spec fn flag_truthy(raw: Seq<char>) -> bool {
    let v = unicode_lower(trim(raw));
    v == "1"@ || v == "true"@ || v == "yes"@ || v == "on"@
}

/// Whether an environment flag value switches the flag on: `1`, `true`,
/// `yes` or `on`, ignoring surrounding blanks and case.
pub fn truthy_flag(raw: &str) -> (r: bool)
    ensures
        r == flag_truthy(raw@),
{
    let t = trim_str(raw);
    let v = to_lowercase(t.as_str());
    let s = v.as_str();
    str_eq(s, "1") || str_eq(s, "true") || str_eq(s, "yes") || str_eq(s, "on")
}

pub open spec fn ascii_digit(c: char) -> bool {
    '0' <= c && c <= '9'
}

/// Value of a string of decimal digits.
pub open spec fn digits_value(s: Seq<char>) -> int
    decreases s.len(),
{
    if s.len() == 0 {
        0
    } else {
        digits_value(s.drop_last()) * 10 + (s.last() as int - '0' as int)
    }
}

proof fn lemma_digits_nonneg(s: Seq<char>)
    requires
        forall|i: int| 0 <= i < s.len() ==> ascii_digit(#[trigger] s[i]),
    ensures
        digits_value(s) >= 0,
    decreases s.len(),
{
    if s.len() > 0 {
        lemma_digits_nonneg(s.drop_last());
    }
}

proof fn lemma_digits_grow(s: Seq<char>, k: int)
    requires
        0 <= k <= s.len(),
        forall|i: int| 0 <= i < s.len() ==> ascii_digit(#[trigger] s[i]),
    ensures
        digits_value(s.subrange(0, k)) <= digits_value(s),
    decreases s.len() - k,
{
    if k < s.len() {
        lemma_digits_grow(s, k + 1);
        let a = s.subrange(0, k + 1);
        assert(a.drop_last() =~= s.subrange(0, k));
        lemma_digits_nonneg(s.subrange(0, k));
    } else {
        assert(s.subrange(0, k) =~= s);
    }
}

/// The lease TTL a configuration value asks for: a plain decimal number of
/// milliseconds (at least `MIN_TTL_MS`); anything else, or a number beyond
/// `i64`, gives `DEFAULT_TTL_MS`.
pub open spec fn ttl_spec(raw: Seq<char>) -> int {
    let t = trim(raw);
    if t.len() > 0 && all_digits(t) && digits_value(t) <= i64::MAX {
        if digits_value(t) >= MIN_TTL_MS {
            digits_value(t)
        } else {
            MIN_TTL_MS as int
        }
    } else {
        DEFAULT_TTL_MS as int
    }
}

/// Parse a configured lease TTL (see [`ttl_spec`]).
pub fn parse_lease_ttl(raw: &str) -> (r: i64)
    ensures
        r == ttl_spec(raw@),
{
    let t = trim_str(raw);
    let v = chars_of(t.as_str());
    assert(v@ == trim(raw@));
    if v.len() == 0 {
        return DEFAULT_TTL_MS;
    }
    let mut i: usize = 0;
    while i < v.len()
        invariant
            i <= v.len(),
            v@ == trim(raw@),
            forall|j: int| 0 <= j < i ==> ascii_digit(#[trigger] v@[j]),
        decreases v.len() - i,
    {
        if !('0' <= v[i] && v[i] <= '9') {
            assert(!ascii_digit(v@[i as int]));
            assert(trim(raw@)[i as int] == v@[i as int]);
            return DEFAULT_TTL_MS;
        }
        i += 1;
    }
    let mut value: i64 = 0;
    let mut k: usize = 0;
    while k < v.len()
        invariant
            k <= v.len(),
            v@ == trim(raw@),
            forall|j: int| 0 <= j < v.len() ==> ascii_digit(#[trigger] v@[j]),
            value == digits_value(v@.subrange(0, k as int)),
        decreases v.len() - k,
    {
        let d = (v[k] as u32 - '0' as u32) as i64;
        assert(v@.subrange(0, k + 1).drop_last() =~= v@.subrange(0, k as int));
        proof {
            lemma_digits_nonneg(v@.subrange(0, k as int));
        }
        if value > (i64::MAX - d) / 10 {
            proof {
                lemma_digits_grow(v@, k + 1);
                assert(digits_value(v@.subrange(0, k + 1)) == value * 10 + d);
                assert(value * 10 + d > i64::MAX) by (nonlinear_arith)
                    requires
                        value > (i64::MAX - d) / 10,
                        0 <= d <= 9,
                ;
                assert(v@.subrange(0, v@.len() as int) =~= v@);
            }
            return DEFAULT_TTL_MS;
        }
        assert(value * 10 + d <= i64::MAX) by (nonlinear_arith)
            requires
                value <= (i64::MAX - d) / 10,
                0 <= d <= 9,
                value >= 0,
        ;
        value = value * 10 + d;
        k += 1;
    }
    assert(v@.subrange(0, v@.len() as int) =~= v@);
    if value >= MIN_TTL_MS {
        value
    } else {
        MIN_TTL_MS
    }
}

/// One writer's lease as read from a lease file.
#[derive(Debug, Clone, PartialEq, Eq)]
pub struct WriterLease {
    pub owner: String,
    pub pid: i64,
    pub heartbeat_ms: i64,
    pub fingerprint: String,
    pub endpoint_hash: String,
    pub socket_path: String,
    pub schema: i64,
    pub path: String,
}

/// `a - b`, saturated to the range of `i64`.
pub open spec fn sat_sub(a: int, b: int) -> int {
    if a - b > i64::MAX {
        i64::MAX as int
    } else if a - b < i64::MIN {
        i64::MIN as int
    } else {
        a - b
    }
}

/// A lease is fresh when its process (if it names one) is alive and its
/// heartbeat is at most `ttl` milliseconds old (inclusive).
pub open spec fn fresh(l: WriterLease, now: int, ttl: int, pid_alive: bool) -> bool {
    !(l.pid > 0 && !pid_alive) && sat_sub(now, l.heartbeat_ms as int) <= ttl
}

impl WriterLease {
    /// Freshness at clock `now` with window `ttl`; `pid_alive` is whether the
    /// lease's process exists (consulted only for a positive pid).
    pub fn is_fresh(&self, now: i64, ttl: i64, pid_alive: bool) -> (r: bool)
        ensures
            r == fresh(*self, now as int, ttl as int, pid_alive),
    {
        if self.pid > 0 && !pid_alive {
            return false;
        }
        let d: i128 = now as i128 - self.heartbeat_ms as i128;
        let age: i128 = if d > i64::MAX as i128 {
            i64::MAX as i128
        } else if d < i64::MIN as i128 {
            i64::MIN as i128
        } else {
            d
        };
        age <= ttl as i128
    }

    /// A field-by-field copy.
    pub fn duplicate(&self) -> (r: Self)
        ensures
            r == *self,
    {
        WriterLease {
            owner: self.owner.clone(),
            pid: self.pid,
            heartbeat_ms: self.heartbeat_ms,
            fingerprint: self.fingerprint.clone(),
            endpoint_hash: self.endpoint_hash.clone(),
            socket_path: self.socket_path.clone(),
            schema: self.schema,
            path: self.path.clone(),
        }
    }
}

/// Native leases outrank plugin leases; then the newer heartbeat wins.
pub open spec fn lease_key_gt(a: WriterLease, b: WriterLease) -> bool {
    let an = a.owner@ == "native"@;
    let bn = b.owner@ == "native"@;
    (an && !bn) || (an == bn && a.heartbeat_ms > b.heartbeat_ms)
}

/// `i` is the live pick: fresh, strictly above every fresh lease before it
/// and not below any fresh lease after it (the first of the best).
pub open spec fn is_live_pick(
    s: Seq<WriterLease>,
    alive: Seq<bool>,
    now: int,
    ttl: int,
    i: int,
) -> bool {
    &&& 0 <= i < s.len()
    &&& fresh(s[i], now, ttl, alive[i])
    &&& forall|j: int|
        0 <= j < i && fresh(s[j], now, ttl, alive[j]) ==> lease_key_gt(s[i], #[trigger] s[j])
    &&& forall|j: int|
        i < j < s.len() && fresh(s[j], now, ttl, alive[j]) ==> !lease_key_gt(#[trigger] s[j], s[i])
}

/// The live lease, if any lease is fresh.
pub open spec fn live_lease(s: Seq<WriterLease>, alive: Seq<bool>, now: int, ttl: int) -> Option<
    WriterLease,
> {
    if exists|i: int| is_live_pick(s, alive, now, ttl, i) {
        Some(s[choose|i: int| is_live_pick(s, alive, now, ttl, i)])
    } else {
        None
    }
}

/// The leases that are not fresh, in order.
pub open spec fn stale_leases(s: Seq<WriterLease>, alive: Seq<bool>, now: int, ttl: int) -> Seq<
    WriterLease,
>
    decreases s.len(),
{
    if s.len() == 0 {
        Seq::empty()
    } else if fresh(s.last(), now, ttl, alive[s.len() - 1]) {
        stale_leases(s.drop_last(), alive.subrange(0, s.len() - 1), now, ttl)
    } else {
        stale_leases(s.drop_last(), alive.subrange(0, s.len() - 1), now, ttl).push(s.last())
    }
}

proof fn lemma_pick_unique(s: Seq<WriterLease>, alive: Seq<bool>, now: int, ttl: int, i: int, k: int)
    requires
        is_live_pick(s, alive, now, ttl, i),
        is_live_pick(s, alive, now, ttl, k),
    ensures
        i == k,
{
    if i < k {
        assert(lease_key_gt(s[k], s[i]));
    } else if k < i {
        assert(lease_key_gt(s[i], s[k]));
    }
}

/// Split leases into the live one and the stale ones. `pid_alive[i]` is
/// whether the process of `leases[i]` exists.
pub fn pick_lease(leases: &Vec<WriterLease>, now: i64, ttl: i64, pid_alive: &Vec<bool>) -> (r: (
    Option<WriterLease>,
    Vec<WriterLease>,
))
    requires
        pid_alive.len() == leases.len(),
    ensures
        r.0 == live_lease(leases@, pid_alive@, now as int, ttl as int),
        r.0 is Some <==> exists|i: int|
            0 <= i < leases@.len() && fresh(leases@[i], now as int, ttl as int, pid_alive@[i]),
        r.1@ == stale_leases(leases@, pid_alive@, now as int, ttl as int),
{
    let ghost s = leases@;
    let ghost al = pid_alive@;
    let mut best: Option<usize> = None;
    let mut stale: Vec<WriterLease> = Vec::new();
    let mut i: usize = 0;
    while i < leases.len()
        invariant
            i <= leases.len(),
            s == leases@,
            al == pid_alive@,
            pid_alive.len() == leases.len(),
            stale@ == stale_leases(s.subrange(0, i as int), al.subrange(0, i as int), now as int, ttl as int),
            match best {
                None => forall|j: int| 0 <= j < i ==> !fresh(#[trigger] s[j], now as int, ttl as int, al[j]),
                Some(b) => {
                    &&& b < i
                    &&& fresh(s[b as int], now as int, ttl as int, al[b as int])
                    &&& forall|j: int|
                        0 <= j < b && fresh(s[j], now as int, ttl as int, al[j]) ==> lease_key_gt(
                            s[b as int],
                            #[trigger] s[j],
                        )
                    &&& forall|j: int|
                        b < j < i && fresh(s[j], now as int, ttl as int, al[j]) ==> !lease_key_gt(
                            #[trigger] s[j],
                            s[b as int],
                        )
                },
            },
        decreases leases.len() - i,
    {
        let ghost pre = s.subrange(0, i as int);
        assert(s.subrange(0, i + 1).drop_last() =~= pre);
        assert(al.subrange(0, i + 1).subrange(0, i as int) =~= al.subrange(0, i as int));
        let l = &leases[i];
        if l.is_fresh(now, ttl, pid_alive[i]) {
            let replace = match best {
                None => true,
                Some(b) => {
                    let cur = &leases[b];
                    let ln = str_eq(l.owner.as_str(), "native");
                    let cn = str_eq(cur.owner.as_str(), "native");
                    (ln && !cn) || (ln == cn && l.heartbeat_ms > cur.heartbeat_ms)
                },
            };
            if replace {
                best = Some(i);
            }
        } else {
            stale.push(l.duplicate());
        }
        i += 1;
    }
    assert(s.subrange(0, s.len() as int) =~= s);
    assert(al.subrange(0, al.len() as int) =~= al);
    match best {
        Some(b) => {
            assert(is_live_pick(s, al, now as int, ttl as int, b as int));
            proof {
                let k = choose|k: int| is_live_pick(s, al, now as int, ttl as int, k);
                lemma_pick_unique(s, al, now as int, ttl as int, b as int, k);
            }
            (Some(leases[b].duplicate()), stale)
        },
        None => {
            assert(!exists|k: int| is_live_pick(s, al, now as int, ttl as int, k));
            (None, stale)
        },
    }
}

/// The live lease is the best fresh lease: it is one of the fresh leases;
/// when any fresh lease is native, it is native; no fresh lease of its own
/// kind (native or not) has a newer heartbeat; and of fresh leases of its
/// kind with the same heartbeat, it is the first.
pub proof fn law_live_lease_is_newest_of_its_kind(s: Seq<WriterLease>, alive: Seq<bool>, now: int, ttl: int)
    requires
        alive.len() == s.len(),
    ensures
        live_lease(s, alive, now, ttl) matches Some(l) ==> {
            &&& exists|i: int|
                0 <= i < s.len() && s[i] == l && fresh(s[i], now, ttl, alive[i]) && forall|j: int|
                    0 <= j < i && fresh(s[j], now, ttl, alive[j]) && (#[trigger] s[j].owner@ == "native"@) == (
                    l.owner@ == "native"@) ==> s[j].heartbeat_ms < l.heartbeat_ms
            &&& forall|j: int|
                0 <= j < s.len() && fresh(s[j], now, ttl, alive[j]) && s[j].owner@ == "native"@
                    ==> l.owner@ == "native"@
            &&& forall|j: int|
                0 <= j < s.len() && fresh(s[j], now, ttl, alive[j]) && (s[j].owner@ == "native"@) == (
                l.owner@ == "native"@) ==> s[j].heartbeat_ms <= l.heartbeat_ms
        },
{
    if exists|i: int| is_live_pick(s, alive, now, ttl, i) {
        let i = choose|i: int| is_live_pick(s, alive, now, ttl, i);
        let l = s[i];
        assert forall|j: int|
            0 <= j < i && fresh(s[j], now, ttl, alive[j]) && (#[trigger] s[j].owner@ == "native"@) == (l.owner@
                == "native"@) implies s[j].heartbeat_ms < l.heartbeat_ms by {
            assert(lease_key_gt(l, s[j]));
        }
        assert forall|j: int|
            0 <= j < s.len() && fresh(s[j], now, ttl, alive[j]) && s[j].owner@ == "native"@ implies l.owner@
            == "native"@ by {
            if j < i {
                assert(lease_key_gt(l, s[j]));
            } else if j > i {
                assert(!lease_key_gt(s[j], l));
            }
        }
        assert forall|j: int|
            0 <= j < s.len() && fresh(s[j], now, ttl, alive[j]) && (s[j].owner@ == "native"@) == (l.owner@
                == "native"@) implies s[j].heartbeat_ms <= l.heartbeat_ms by {
            if j < i {
                assert(lease_key_gt(l, s[j]));
            } else if j > i {
                assert(!lease_key_gt(s[j], l));
            }
        }
    }
}

/// Whether some lease is owned by `owner`.
pub open spec fn any_owner(s: Seq<WriterLease>, owner: Seq<char>) -> bool {
    exists|i: int| 0 <= i < s.len() && s[i].owner@ == owner
}

/// Who owns the provider: the environment's native claim (unless the plugin
/// is forced), else the live lease's owner.
pub open spec fn decided_owner(force: bool, env_native: bool, live: Option<WriterLease>) -> Option<
    Seq<char>,
> {
    if env_native && !force {
        Some("native"@)
    } else if live is Some {
        Some(live.unwrap().owner@)
    } else {
        None
    }
}

/// Which writer mirrors a provider, and why.
#[derive(Debug)]
pub struct WriterDecision {
    pub writer: String,
    pub owner: Option<String>,
    pub native_live: bool,
    pub plugin_live: bool,
    pub native_detected: bool,
    pub plugin_detected: bool,
    pub force_plugin: bool,
    pub env_native_live: bool,
    pub lease_stale: bool,
    pub lease: Option<WriterLease>,
    pub fingerprint: String,
}

impl WriterDecision {
    /// The plugin yields to a live native writer unless it is forced.
    pub fn yields(&self) -> (r: bool)
        ensures
            r == (!self.force_plugin && self.native_live),
    {
        !self.force_plugin && self.native_live
    }

    pub fn outcome(&self) -> (r: &'static str)
        ensures
            r@ == if self.native_live {
                "native_owns"@
            } else if self.plugin_live {
                "plugin_owns"@
            } else {
                "unclaimed"@
            },
    {
        if self.native_live {
            "native_owns"
        } else if self.plugin_live {
            "plugin_owns"
        } else {
            "unclaimed"
        }
    }
}

fn any_owner_exec(leases: &Vec<WriterLease>, owner: &str) -> (r: bool)
    ensures
        r == any_owner(leases@, owner@),
{
    let mut i: usize = 0;
    while i < leases.len()
        invariant
            i <= leases.len(),
            forall|j: int| 0 <= j < i ==> leases@[j].owner@ != owner@,
        decreases leases.len() - i,
    {
        if str_eq(leases[i].owner.as_str(), owner) {
            return true;
        }
        i += 1;
    }
    false
}

/// Decide the writer from the flags read from the environment (`force`: the
/// plugin is forced; `env_native`: a native host announced itself) and the
/// leases found, at clock `now` with lease window `ttl`.
pub fn resolve_writer(
    fingerprint: &str,
    force: bool,
    env_native: bool,
    leases: &Vec<WriterLease>,
    now: i64,
    ttl: i64,
    pid_alive: &Vec<bool>,
) -> (r: WriterDecision)
    requires
        pid_alive.len() == leases.len(),
    ensures
        ({
            let live = live_lease(leases@, pid_alive@, now as int, ttl as int);
            let owner = decided_owner(force, env_native, live);
            &&& r.native_live == (owner == Some("native"@) && !force)
            &&& r.plugin_live == (owner == Some("plugin"@) && !r.native_live)
            &&& r.writer@ == if force && (env_native || (live is Some && live.unwrap().owner@
                == "native"@)) {
                "plugin-forced"@
            } else if r.native_live {
                "native"@
            } else {
                "plugin"@
            }
            &&& opt_view(r.owner) == if force {
                Some("plugin"@)
            } else {
                owner
            }
            &&& r.native_detected == (env_native || any_owner(leases@, "native"@))
            &&& r.plugin_detected == any_owner(leases@, "plugin"@)
            &&& r.force_plugin == force
            &&& r.env_native_live == env_native
            &&& r.lease_stale == (live is None && stale_leases(
                leases@,
                pid_alive@,
                now as int,
                ttl as int,
            ).len() > 0)
            &&& r.lease == live
            &&& r.fingerprint@ == fingerprint@
        }),
        !(r.native_live && r.plugin_live),
        r.force_plugin ==> !r.native_live,
{
    let (live, stale) = pick_lease(leases, now, ttl, pid_alive);
    let native_file = any_owner_exec(leases, "native");
    let plugin_file = any_owner_exec(leases, "plugin");
    let owner: Option<String> = if env_native && !force {
        Some(owned("native"))
    } else {
        match &live {
            Some(l) => Some(l.owner.clone()),
            None => None,
        }
    };
    let owner_native = match &owner {
        Some(o) => str_eq(o.as_str(), "native"),
        None => false,
    };
    let owner_plugin = match &owner {
        Some(o) => str_eq(o.as_str(), "plugin"),
        None => false,
    };
    let native_live = owner_native && !force;
    let plugin_live = owner_plugin && !native_live;
    let live_native = match &live {
        Some(l) => str_eq(l.owner.as_str(), "native"),
        None => false,
    };
    let writer = if force && (env_native || live_native) {
        "plugin-forced"
    } else if native_live {
        "native"
    } else {
        "plugin"
    };
    let lease_stale = live.is_none() && stale.len() > 0;
    WriterDecision {
        writer: owned(writer),
        owner: if force {
            Some(owned("plugin"))
        } else {
            owner
        },
        native_live,
        plugin_live,
        native_detected: env_native || native_file,
        plugin_detected: plugin_file,
        force_plugin: force,
        env_native_live: env_native,
        lease_stale,
        lease: live,
        fingerprint: owned(fingerprint),
    }
}

/// A plugin claim: `None` when the plugin yields to a native writer, else
/// whether the native claim must be cleared first (the plugin is forced).
pub fn claim_plugin_plan(decision: &WriterDecision) -> (r: Option<bool>)
    ensures
        r == if !decision.force_plugin && decision.native_live {
            None
        } else {
            Some(decision.force_plugin)
        },
{
    if decision.yields() {
        None
    } else {
        Some(decision.force_plugin)
    }
}

/// What a heartbeat writes.
#[derive(Debug)]
pub enum HeartbeatPlan {
    /// Another writer owns the provider: write nothing.
    Yield,
    /// No lease of ours is live: claim anew.
    Claim,
    /// Refresh our live lease with these endpoint details.
    Refresh { socket_path: String, endpoint_hash: String },
}

/// `given`, or `prior` when `given` is empty.
pub open spec fn or_prior(given: Seq<char>, prior: Seq<char>) -> Seq<char> {
    if given.len() == 0 {
        prior
    } else {
        given
    }
}

fn or_prior_exec(given: &str, prior: &str) -> (r: String)
    ensures
        r@ == or_prior(given@, prior@),
{
    if given.is_empty() {
        owned(prior)
    } else {
        owned(given)
    }
}

/// A plugin heartbeat yields to a native writer, refreshes its own live
/// lease keeping the recorded endpoint details that are not given, and
/// otherwise claims.
pub fn heartbeat_plugin_plan(decision: &WriterDecision, socket_path: &str, endpoint_hash: &str) -> (r:
    HeartbeatPlan)
    ensures
        (!decision.force_plugin && decision.native_live) ==> r is Yield,
        !(!decision.force_plugin && decision.native_live) ==> match decision.lease {
            Some(l) if l.owner@ == "plugin"@ => r matches HeartbeatPlan::Refresh {
                socket_path: s,
                endpoint_hash: h,
            } ==> s@ == or_prior(socket_path@, l.socket_path@) && h@ == or_prior(
                endpoint_hash@,
                l.endpoint_hash@,
            ),
            _ => r is Claim,
        },
        !(!decision.force_plugin && decision.native_live) && decision.lease is Some
            && decision.lease.unwrap().owner@ == "plugin"@ ==> r is Refresh,
{
    if decision.yields() {
        return HeartbeatPlan::Yield;
    }
    match &decision.lease {
        Some(l) => {
            if str_eq(l.owner.as_str(), "plugin") {
                HeartbeatPlan::Refresh {
                    socket_path: or_prior_exec(socket_path, l.socket_path.as_str()),
                    endpoint_hash: or_prior_exec(endpoint_hash, l.endpoint_hash.as_str()),
                }
            } else {
                HeartbeatPlan::Claim
            }
        },
        None => HeartbeatPlan::Claim,
    }
}

/// A native heartbeat: while the native side is live it refreshes the lease
/// (keeping recorded endpoint details not given) unless the live lease
/// belongs to another native process; otherwise it claims.
pub fn heartbeat_native_plan(
    decision: &WriterDecision,
    socket_path: &str,
    endpoint_hash: &str,
    owner_pid: i64,
) -> (r: HeartbeatPlan)
    ensures
        !decision.native_live ==> r is Claim,
        decision.native_live && decision.lease is Some && decision.lease.unwrap().pid > 0
            && decision.lease.unwrap().pid != owner_pid ==> r is Yield,
        decision.native_live && !(decision.lease is Some && decision.lease.unwrap().pid > 0
            && decision.lease.unwrap().pid != owner_pid) ==> r is Refresh,
        r matches HeartbeatPlan::Refresh { socket_path: s, endpoint_hash: h } ==> s@ == or_prior(
            socket_path@,
            match decision.lease {
                Some(l) => l.socket_path@,
                None => Seq::empty(),
            },
        ) && h@ == or_prior(
            endpoint_hash@,
            match decision.lease {
                Some(l) => l.endpoint_hash@,
                None => Seq::empty(),
            },
        ),
{
    if !decision.native_live {
        return HeartbeatPlan::Claim;
    }
    match &decision.lease {
        Some(l) => {
            if l.pid > 0 && l.pid != owner_pid {
                HeartbeatPlan::Yield
            } else {
                HeartbeatPlan::Refresh {
                    socket_path: or_prior_exec(socket_path, l.socket_path.as_str()),
                    endpoint_hash: or_prior_exec(endpoint_hash, l.endpoint_hash.as_str()),
                }
            }
        },
        None => {
            proof {
                reveal_strlit("");
            }
            HeartbeatPlan::Refresh {
            socket_path: or_prior_exec(socket_path, ""),
            endpoint_hash: or_prior_exec(endpoint_hash, ""),
        }
        },
    }
}

/// A native claim is refused only while a live plugin lease of another
/// process holds and neither the native environment flag nor the forced
/// plugin flag is set.
pub fn claim_native_allowed(decision: &WriterDecision, owner_pid: i64) -> (r: bool)
    ensures
        r == !(decision.plugin_live && decision.lease is Some && decision.lease.unwrap().pid
            != owner_pid && !decision.env_native_live && !decision.force_plugin),
{
    let other = match &decision.lease {
        Some(l) => l.pid != owner_pid,
        None => false,
    };
    !(decision.plugin_live && other && !decision.env_native_live && !decision.force_plugin)
}

/// `root` joined with the relative file name `name`, as `Path::join` does.
pub open spec fn join_path(root: Seq<char>, name: Seq<char>) -> Seq<char> {
    if root.len() == 0 {
        name
    } else if root.last() == '/' {
        root + name
    } else {
        root + "/"@ + name
    }
}

pub fn join_path_exec(root: &str, name: &str) -> (r: String)
    ensures
        r@ == join_path(root@, name@),
{
    let v = chars_of(root);
    if v.len() == 0 {
        owned(name)
    } else if v[v.len() - 1] == '/' {
        concat2(root, name)
    } else {
        crate::text::concat3(root, "/", name)
    }
}

/// Every root joined with every name, root by root.
pub open spec fn paths_for(roots: Seq<Seq<char>>, names: Seq<Seq<char>>) -> Seq<Seq<char>>
    decreases roots.len(),
{
    if roots.len() == 0 {
        Seq::empty()
    } else {
        paths_for(roots.drop_last(), names) + names.map_values(
            |n: Seq<char>| join_path(roots.last(), n),
        )
    }
}

/// With one name, the paths are that name under each root, in order.
pub proof fn lemma_paths_for_single(roots: Seq<Seq<char>>, n: Seq<char>)
    ensures
        paths_for(roots, seq![n]).len() == roots.len(),
        forall|i: int| 0 <= i < roots.len() ==> #[trigger] paths_for(roots, seq![n])[i] == join_path(roots[i], n),
    decreases roots.len(),
{
    if roots.len() > 0 {
        lemma_paths_for_single(roots.drop_last(), n);
        let tail = seq![n].map_values(|m: Seq<char>| join_path(roots.last(), m));
        assert(tail.len() == 1 && tail[0] == join_path(roots.last(), n));
        assert forall|i: int| 0 <= i < roots.len() implies #[trigger] paths_for(roots, seq![n])[i] == join_path(
            roots[i],
            n,
        ) by {
            if i < roots.len() - 1 {
                assert(roots.drop_last()[i] == roots[i]);
            }
        }
    }
}

fn paths_for_exec(roots: &Vec<String>, names: &Vec<String>) -> (r: Vec<String>)
    ensures
        strings_view(r@) == paths_for(strings_view(roots@), strings_view(names@)),
{
    let mut out: Vec<String> = Vec::new();
    let mut i: usize = 0;
    while i < roots.len()
        invariant
            i <= roots.len(),
            strings_view(out@) == paths_for(
                strings_view(roots@.subrange(0, i as int)),
                strings_view(names@),
            ),
        decreases roots.len() - i,
    {
        let ghost before = strings_view(out@);
        let ghost rv = strings_view(roots@.subrange(0, i + 1));
        assert(rv.drop_last() =~= strings_view(roots@.subrange(0, i as int)));
        assert(rv.last() == roots@[i as int]@);
        let mut j: usize = 0;
        while j < names.len()
            invariant
                j <= names.len(),
                i < roots.len(),
                strings_view(out@) == before + strings_view(names@).subrange(0, j as int).map_values(
                    |n: Seq<char>| join_path(roots@[i as int]@, n),
                ),
            decreases names.len() - j,
        {
            let p = join_path_exec(roots[i].as_str(), names[j].as_str());
            let ghost o0 = strings_view(out@);
            out.push(p);
            assert(strings_view(out@) =~= o0.push(p@));
            assert(strings_view(names@).subrange(0, j + 1) =~= strings_view(names@).subrange(
                0,
                j as int,
            ).push(names@[j as int]@));
            assert(strings_view(names@).subrange(0, j + 1).map_values(
                |n: Seq<char>| join_path(roots@[i as int]@, n),
            ) =~= strings_view(names@).subrange(0, j as int).map_values(
                |n: Seq<char>| join_path(roots@[i as int]@, n),
            ).push(join_path(roots@[i as int]@, names@[j as int]@)));
            j += 1;
        }
        assert(strings_view(names@).subrange(0, names@.len() as int) =~= strings_view(names@));
        i += 1;
    }
    assert(roots@.subrange(0, roots@.len() as int) =~= roots@);
    out
}

/// The three lease files of `owner` under one root.
pub open spec fn writer_names(fingerprint: Seq<char>, owner: Seq<char>) -> Seq<Seq<char>> {
    seq!["writer-"@ + fingerprint + ".json"@, owner + "-live-"@ + fingerprint, owner + "-live"@]
}

/// The lease files `owner` writes (or clears) under each state root.
pub fn writer_paths(fingerprint: &str, owner: &str, roots: &Vec<String>) -> (r: Result<
    Vec<String>,
    String,
>)
    ensures
        match r {
            Ok(v) => is_owner_spec(owner@) && strings_view(v@) == paths_for(
                strings_view(roots@),
                writer_names(fingerprint@, owner@),
            ),
            Err(e) => !is_owner_spec(owner@) && e@ == "unknown handoff owner: "@ + owner@,
        },
{
    if !is_owner(owner) {
        return Err(concat2("unknown handoff owner: ", owner));
    }
    let mut names: Vec<String> = Vec::new();
    names.push(crate::text::concat3("writer-", fingerprint, ".json"));
    names.push(crate::text::concat3(owner, "-live-", fingerprint));
    names.push(concat2(owner, "-live"));
    assert(strings_view(names@) =~= writer_names(fingerprint@, owner@));
    Ok(paths_for_exec(roots, &names))
}

/// The legacy native marker under the XDG state directory.
pub fn legacy_native_marker_path(fingerprint: &str, xdg_state_dir: &str) -> (r: String)
    ensures
        r@ == join_path(xdg_state_dir@, "native-live-"@ + fingerprint@),
{
    let name = concat2("native-live-", fingerprint);
    join_path_exec(xdg_state_dir, name.as_str())
}

/// The plugin marker under the XDG state directory.
pub fn plugin_marker_path(fingerprint: &str, xdg_state_dir: &str) -> (r: String)
    ensures
        r@ == join_path(xdg_state_dir@, "plugin-live-"@ + fingerprint@),
{
    let name = concat2("plugin-live-", fingerprint);
    join_path_exec(xdg_state_dir, name.as_str())
}

/// The shared restore file of an endpoint under each state root.
pub fn restore_paths(endpoint_hash: &str, roots: &Vec<String>) -> (r: Vec<String>)
    ensures
        strings_view(r@) == paths_for(
            strings_view(roots@),
            seq!["restore-"@ + endpoint_hash@ + ".json"@],
        ),
{
    let mut names: Vec<String> = Vec::new();
    names.push(crate::text::concat3("restore-", endpoint_hash, ".json"));
    assert(strings_view(names@) =~= seq!["restore-"@ + endpoint_hash@ + ".json"@]);
    paths_for_exec(roots, &names)
}

/// The files a lease may be read from under one root.
pub open spec fn candidate_names(fingerprint: Seq<char>) -> Seq<Seq<char>> {
    seq![
        "writer-"@ + fingerprint + ".json"@,
        "native-live-"@ + fingerprint,
        "plugin-live-"@ + fingerprint,
        "native-live"@,
        "plugin-live"@,
        "writer.json"@,
    ]
}

/// `s` without repeats, first occurrences kept in order.
pub open spec fn dedup(s: Seq<Seq<char>>) -> Seq<Seq<char>>
    decreases s.len(),
{
    if s.len() == 0 {
        Seq::empty()
    } else if dedup(s.drop_last()).contains(s.last()) {
        dedup(s.drop_last())
    } else {
        dedup(s.drop_last()).push(s.last())
    }
}

/// Every file a lease may be read from, each once, root by root.
pub fn candidate_paths(fingerprint: &str, roots: &Vec<String>) -> (r: Vec<String>)
    ensures
        strings_view(r@) == dedup(paths_for(strings_view(roots@), candidate_names(fingerprint@))),
{
    let mut names: Vec<String> = Vec::new();
    names.push(crate::text::concat3("writer-", fingerprint, ".json"));
    names.push(concat2("native-live-", fingerprint));
    names.push(concat2("plugin-live-", fingerprint));
    names.push(owned("native-live"));
    names.push(owned("plugin-live"));
    names.push(owned("writer.json"));
    assert(strings_view(names@) =~= candidate_names(fingerprint@));
    let all = paths_for_exec(roots, &names);
    let mut out: Vec<String> = Vec::new();
    let mut i: usize = 0;
    while i < all.len()
        invariant
            i <= all.len(),
            strings_view(out@) == dedup(strings_view(all@.subrange(0, i as int))),
        decreases all.len() - i,
    {
        let ghost pre = strings_view(all@.subrange(0, i as int));
        let ghost now_s = strings_view(all@.subrange(0, i + 1));
        assert(now_s.drop_last() =~= pre);
        assert(now_s.last() == all@[i as int]@);
        if !crate::text::contains_str(&out, all[i].as_str()) {
            let ghost o0 = strings_view(out@);
            out.push(all[i].clone());
            assert(strings_view(out@) =~= o0.push(all@[i as int]@));
        }
        i += 1;
    }
    assert(all@.subrange(0, all@.len() as int) =~= all@);
    out
}

// ---- lease files -----------------------------------------------------------

/// Unicode control characters (general category Cc).
pub open spec fn is_cc(c: char) -> bool {
    (c as u32) <= 0x1f || (0x7f <= (c as u32) && (c as u32) <= 0x9f)
}

/// The quote of a quoted rendering of `t`: double quotes when the text holds
/// a single quote and no double quote, else single quotes.
pub open spec fn repr_quote(t: Seq<char>) -> char {
    if t.contains('\'') && !t.contains('"') {
        '"'
    } else {
        '\''
    }
}

pub open spec fn repr_char(c: char, q: char) -> Seq<char> {
    if c == '\\' {
        seq!['\\', '\\']
    } else if c == '\n' {
        seq!['\\', 'n']
    } else if c == '\r' {
        seq!['\\', 'r']
    } else if c == '\t' {
        seq!['\\', 't']
    } else if c == q {
        seq!['\\', c]
    } else if is_cc(c) {
        seq!['\\', 'x', hex_digit(((c as u32) / 16) as u8), hex_digit(((c as u32) % 16) as u8)]
    } else {
        seq![c]
    }
}

pub open spec fn repr_body(t: Seq<char>, q: char) -> Seq<char>
    decreases t.len(),
{
    if t.len() == 0 {
        Seq::empty()
    } else {
        repr_body(t.drop_last(), q) + repr_char(t.last(), q)
    }
}

/// `t` in its quote, with backslash escapes for the backslash, newline,
/// return, tab, the quote itself, and other control characters (`\xHH`).
pub open spec fn repr_string(t: Seq<char>) -> Seq<char> {
    seq![repr_quote(t)] + repr_body(t, repr_quote(t)) + seq![repr_quote(t)]
}

fn has_char(v: &Vec<char>, c: char) -> (r: bool)
    ensures
        r == v@.contains(c),
{
    let mut i: usize = 0;
    while i < v.len()
        invariant
            i <= v.len(),
            forall|j: int| 0 <= j < i ==> v@[j] != c,
        decreases v.len() - i,
    {
        if v[i] == c {
            return true;
        }
        i += 1;
    }
    false
}

/// `text` quoted with escapes (see [`repr_string`]).
pub fn py_repr_string(text: &str) -> (r: String)
    ensures
        r@ == repr_string(text@),
{
    let v = chars_of(text);
    let quote = if has_char(&v, '\'') && !has_char(&v, '"') {
        '"'
    } else {
        '\''
    };
    let mut out = String::new();
    push_char(&mut out, quote);
    let mut i: usize = 0;
    while i < v.len()
        invariant
            i <= v.len(),
            v@ == text@,
            quote == repr_quote(text@),
            out@ == seq![quote] + repr_body(v@.take(i as int), quote),
        decreases v.len() - i,
    {
        assert(v@.take(i + 1).drop_last() =~= v@.take(i as int));
        let c = v[i];
        let ghost o0 = out@;
        if c == '\\' {
            push_char(&mut out, '\\');
            push_char(&mut out, '\\');
        } else if c == '\n' {
            push_char(&mut out, '\\');
            push_char(&mut out, 'n');
        } else if c == '\r' {
            push_char(&mut out, '\\');
            push_char(&mut out, 'r');
        } else if c == '\t' {
            push_char(&mut out, '\\');
            push_char(&mut out, 't');
        } else if c == quote {
            push_char(&mut out, '\\');
            push_char(&mut out, c);
        } else if (c as u32) <= 0x1f || (0x7f <= (c as u32) && (c as u32) <= 0x9f) {
            let code = c as u32;
            push_char(&mut out, '\\');
            push_char(&mut out, 'x');
            push_char(&mut out, hex_digit_exec((code / 16) as u8));
            push_char(&mut out, hex_digit_exec((code % 16) as u8));
        } else {
            push_char(&mut out, c);
        }
        assert(out@ =~= o0 + repr_char(c, quote));
        i += 1;
    }
    assert(v@.take(v.len() as int) =~= v@);
    push_char(&mut out, quote);
    out
}

/// The literal rendering of a JSON value: null as `None`, booleans as `True`
/// and `False`, numbers as their text, strings quoted (see [`repr_string`]),
/// lists in brackets and objects in braces, items parted by `, ` and keys
/// from values by `: `.
pub open spec fn py_repr_spec(v: Json) -> Seq<char>
    decreases v, 1int,
{
    match v {
        Json::Null => "None"@,
        Json::Bool(b) => if b {
            "True"@
        } else {
            "False"@
        },
        Json::Number { text, .. } => text@,
        Json::Str(s) => repr_string(s@),
        Json::Array { items, .. } => "["@ + join(repr_items(items@), ", "@) + "]"@,
        Json::Object { entries, .. } => "{"@ + join(repr_entries(entries@), ", "@) + "}"@,
    }
}

pub open spec fn repr_items(s: Seq<Json>) -> Seq<Seq<char>>
    decreases s, 0int,
{
    if s.len() == 0 {
        Seq::empty()
    } else {
        repr_items(s.drop_last()).push(py_repr_spec(s.last()))
    }
}

pub open spec fn repr_entries(s: Seq<(String, Json)>) -> Seq<Seq<char>>
    decreases s, 0int,
{
    if s.len() == 0 {
        Seq::empty()
    } else {
        repr_entries(s.drop_last()).push(
            repr_string(s.last().0@) + ": "@ + py_repr_spec(s.last().1),
        )
    }
}

/// The literal rendering of a JSON value (see [`py_repr_spec`]).
#[verifier::loop_isolation(false)]
pub fn py_repr(v: &Json) -> (r: String)
    ensures
        r@ == py_repr_spec(*v),
    decreases v,
{
    match v {
        Json::Null => owned("None"),
        Json::Bool(b) => if *b {
            owned("True")
        } else {
            owned("False")
        },
        Json::Number { text, .. } => text.clone(),
        Json::Str(s) => py_repr_string(s.as_str()),
        Json::Array { items, .. } => {
            let mut parts: Vec<String> = Vec::new();
            let mut i: usize = 0;
            while i < items.len()
                invariant
                    i <= items.len(),
                    strings_view(parts@) == repr_items(items@.take(i as int)),
                decreases items.len() - i,
            {
                assert(items@.take(i + 1).drop_last() =~= items@.take(i as int));
                let r = py_repr(&items[i]);
                let ghost p0 = strings_view(parts@);
                parts.push(r);
                assert(strings_view(parts@) =~= p0.push(r@));
                i += 1;
            }
            assert(items@.take(items.len() as int) =~= items@);
            let body = crate::sidebar::join_lines(&parts, ", ");
            crate::text::concat3("[", body.as_str(), "]")
        },
        Json::Object { entries, .. } => {
            let mut parts: Vec<String> = Vec::new();
            let mut i: usize = 0;
            while i < entries.len()
                invariant
                    i <= entries.len(),
                    strings_view(parts@) == repr_entries(entries@.take(i as int)),
                decreases entries.len() - i,
            {
                assert(entries@.take(i + 1).drop_last() =~= entries@.take(i as int));
                let k = py_repr_string(entries[i].0.as_str());
                let val = py_repr(&entries[i].1);
                let item = crate::text::concat3(k.as_str(), ": ", val.as_str());
                let ghost p0 = strings_view(parts@);
                parts.push(item);
                assert(strings_view(parts@) =~= p0.push(item@));
                i += 1;
            }
            assert(entries@.take(entries.len() as int) =~= entries@);
            let body = crate::sidebar::join_lines(&parts, ", ");
            crate::text::concat3("{", body.as_str(), "}")
        },
    }
}

/// A lease field as text: missing or null is empty, strings verbatim,
/// booleans `True`/`False`, numbers their JSON text, containers their repr.
pub open spec fn py_string_spec(v: Option<Json>) -> Seq<char> {
    match v {
        None => Seq::empty(),
        Some(Json::Null) => Seq::empty(),
        Some(Json::Str(s)) => s@,
        Some(Json::Bool(b)) => if b {
            "True"@
        } else {
            "False"@
        },
        Some(Json::Number { text, .. }) => text@,
        Some(j) => py_repr_spec(j),
    }
}

fn py_string(v: Option<&Json>) -> (r: String)
    ensures
        r@ == py_string_spec(opt_ref(v)),
{
    match v {
        None => String::new(),
        Some(Json::Null) => String::new(),
        Some(Json::Str(s)) => s.clone(),
        Some(Json::Bool(b)) => if *b {
            owned("True")
        } else {
            owned("False")
        },
        Some(Json::Number { text, .. }) => text.clone(),
        Some(j) => py_repr(j),
    }
}

pub open spec fn all_digits(d: Seq<char>) -> bool {
    forall|i: int| 0 <= i < d.len() ==> ascii_digit(#[trigger] d[i])
}

/// The text after an optional leading sign.
pub open spec fn unsigned_part(s: Seq<char>) -> Seq<char> {
    if s.len() > 0 && (s[0] == '-' || s[0] == '+') {
        s.drop_first()
    } else {
        s
    }
}

/// `str::parse::<i64>`: an optional sign and decimal digits, within range.
pub open spec fn parse_i64_spec(s: Seq<char>) -> Option<int> {
    let d = unsigned_part(s);
    let v = if s.len() > 0 && s[0] == '-' {
        -digits_value(d)
    } else {
        digits_value(d)
    };
    if d.len() == 0 || !all_digits(d) {
        None
    } else if i64::MIN <= v <= i64::MAX {
        Some(v)
    } else {
        None
    }
}

#[verifier::loop_isolation(false)]
pub(crate) fn parse_i64(text: &str) -> (r: Option<i64>)
    ensures
        match r {
            Some(n) => parse_i64_spec(text@) == Some(n as int),
            None => parse_i64_spec(text@) is None,
        },
{
    let v = chars_of(text);
    let neg = v.len() > 0 && v[0] == '-';
    let start: usize = if v.len() > 0 && (v[0] == '-' || v[0] == '+') {
        1
    } else {
        0
    };
    let ghost d = unsigned_part(text@);
    assert(d =~= v@.skip(start as int));
    if start >= v.len() {
        return None;
    }
    let mut k: usize = start;
    while k < v.len()
        invariant
            start <= k <= v.len(),
            v@ == text@,
            d == v@.skip(start as int),
            forall|j: int| start <= j < k ==> ascii_digit(#[trigger] v@[j]),
        decreases v.len() - k,
    {
        if !('0' <= v[k] && v[k] <= '9') {
            assert(d[k - start] == v@[k as int]);
            assert(!ascii_digit(d[k - start]));
            assert(!all_digits(d));
            return None;
        }
        k += 1;
    }
    assert(all_digits(d)) by {
        assert forall|i: int| 0 <= i < d.len() implies ascii_digit(#[trigger] d[i]) by {
            assert(d[i] == v@[i + start]);
        }
    }
    let mut value: i128 = 0;
    let mut m: usize = start;
    while m < v.len()
        invariant
            start <= m <= v.len(),
            v@ == text@,
            d == v@.skip(start as int),
            all_digits(d),
            value == digits_value(d.take(m - start)),
            0 <= value <= 0x8000_0000_0000_0000,
        decreases v.len() - m,
    {
        assert(d.take(m - start + 1).drop_last() =~= d.take(m - start));
        assert(d[m - start] == v@[m as int]);
        let digit = (v[m] as u32 - '0' as u32) as i128;
        let next = value * 10 + digit;
        if next > 0x8000_0000_0000_0000 {
            proof {
                lemma_digits_grow(d, m - start + 1);
                assert(d.take(m - start + 1) =~= d.subrange(0, m - start + 1));
                assert(digits_value(d.take(m - start + 1)) == next);
                assert(digits_value(d) > i64::MAX);
            }
            return None;
        }
        value = next;
        m += 1;
    }
    assert(d.take(v.len() - start) =~= d);
    let signed: i128 = if neg {
        -value
    } else {
        value
    };
    if signed < i64::MIN as i128 || signed > i64::MAX as i128 {
        return None;
    }
    Some(signed as i64)
}

/// A lease number: a truthy boolean is 1, a number its `i64` cast, a
/// string its parsed value; anything else (or a failed parse) is `default`.
pub open spec fn int_value_spec(v: Option<Json>, default: int) -> int {
    if !truthy(v) {
        default
    } else {
        match v.unwrap() {
            Json::Bool(b) => if b {
                1
            } else {
                0
            },
            Json::Number { trunc, .. } => trunc as int,
            Json::Str(s) => match parse_i64_spec(trim(s@)) {
                Some(n) => n,
                None => default,
            },
            _ => default,
        }
    }
}

fn int_value(v: Option<&Json>, default: i64) -> (r: i64)
    ensures
        r == int_value_spec(opt_ref(v), default as int),
{
    if !is_truthy(v) {
        return default;
    }
    match v.unwrap() {
        Json::Bool(b) => if *b {
            1
        } else {
            0
        },
        Json::Number { trunc, .. } => *trunc,
        Json::Str(s) => {
            let t = trim_str(s.as_str());
            match parse_i64(t.as_str()) {
                Some(n) => n,
                None => default,
            }
        },
        _ => default,
    }
}

/// A lease field that is present and truthy, as text; else `fallback`.
pub open spec fn field_or(payload: Json, key: Seq<char>, fallback: Seq<char>) -> Seq<char> {
    if truthy(json_get(payload, key)) {
        py_string_spec(json_get(payload, key))
    } else {
        fallback
    }
}

pub open spec fn marker_word(w: Seq<char>) -> bool {
    w == "1"@ || w == "live"@ || w == "yes"@ || w == "on"@ || w == "true"@
}

/// What a lease file says. `parsed` is the file's trimmed text parsed as
/// JSON (`None` when it is not JSON) and `mtime_ms` the file's modification
/// time: a JSON object names its owner and heartbeat (the modification time
/// when it has none), and a bare marker word in a file named after an owner
/// is a pid-less lease of that owner.
pub open spec fn lease_text_spec(
    text: Seq<char>,
    path: Seq<char>,
    fallback_owner: Option<Seq<char>>,
    fallback_fingerprint: Seq<char>,
    parsed: Option<Json>,
    mtime_ms: int,
) -> Option<(Seq<char>, int, int, Seq<char>, Seq<char>, Seq<char>, int, Seq<char>)> {
    let stripped = trim(text);
    if stripped.len() == 0 {
        None
    } else if parsed is Some && parsed.unwrap() is Object {
        let p = parsed.unwrap();
        let owner = py_string_spec(
            if truthy(json_get(p, "owner"@)) {
                json_get(p, "owner"@)
            } else {
                None
            },
        );
        let hb = int_value_spec(json_get(p, "heartbeat_ms"@), 0);
        if !is_owner_spec(owner) {
            None
        } else {
            Some(
                (
                    owner,
                    int_value_spec(json_get(p, "pid"@), 0),
                    if hb <= 0 {
                        mtime_ms
                    } else {
                        hb
                    },
                    field_or(p, "fingerprint"@, fallback_fingerprint),
                    field_or(p, "endpoint_hash"@, Seq::empty()),
                    field_or(p, "socket_path"@, Seq::empty()),
                    int_value_spec(json_get(p, "schema"@), SCHEMA as int),
                    path,
                ),
            )
        }
    } else if fallback_owner is Some && is_owner_spec(fallback_owner.unwrap()) && marker_word(
        unicode_lower(stripped),
    ) {
        Some(
            (
                fallback_owner.unwrap(),
                0,
                mtime_ms,
                fallback_fingerprint,
                Seq::empty(),
                Seq::empty(),
                0,
                path,
            ),
        )
    } else {
        None
    }
}

pub open spec fn lease_fields(l: WriterLease) -> (
    Seq<char>,
    int,
    int,
    Seq<char>,
    Seq<char>,
    Seq<char>,
    int,
    Seq<char>,
) {
    (
        l.owner@,
        l.pid as int,
        l.heartbeat_ms as int,
        l.fingerprint@,
        l.endpoint_hash@,
        l.socket_path@,
        l.schema as int,
        l.path@,
    )
}

fn field_or_exec(payload: &Json, key: &str, fallback: &str) -> (r: String)
    ensures
        r@ == field_or(*payload, key@, fallback@),
{
    let v = payload.get(key);
    if is_truthy(v) {
        py_string(v)
    } else {
        owned(fallback)
    }
}

/// Read a lease from a lease file's text (see [`lease_text_spec`]).
pub fn parse_lease_text(
    text: &str,
    path: &str,
    fallback_owner: Option<&str>,
    fallback_fingerprint: &str,
    parsed: Option<&Json>,
    mtime_ms: i64,
) -> (r: Option<WriterLease>)
    ensures
        match r {
            Some(l) => lease_text_spec(
                text@,
                path@,
                opt_str_view(fallback_owner),
                fallback_fingerprint@,
                opt_ref(parsed),
                mtime_ms as int,
            ) == Some(lease_fields(l)),
            None => lease_text_spec(
                text@,
                path@,
                opt_str_view(fallback_owner),
                fallback_fingerprint@,
                opt_ref(parsed),
                mtime_ms as int,
            ) is None,
        },
{
    proof {
        reveal_strlit("");
    }
    let stripped = trim_str(text);
    if stripped.as_str().is_empty() {
        return None;
    }
    match parsed {
        Some(p) => {
            if p.is_object() {
                let ov = p.get("owner");
                let owner = py_string(if is_truthy(ov) {
                    ov
                } else {
                    None
                });
                if !is_owner(owner.as_str()) {
                    return None;
                }
                let pid = int_value(p.get("pid"), 0);
                let hb = int_value(p.get("heartbeat_ms"), 0);
                let heartbeat_ms = if hb <= 0 {
                    mtime_ms
                } else {
                    hb
                };
                return Some(
                    WriterLease {
                        owner,
                        pid,
                        heartbeat_ms,
                        fingerprint: field_or_exec(p, "fingerprint", fallback_fingerprint),
                        endpoint_hash: field_or_exec(p, "endpoint_hash", ""),
                        socket_path: field_or_exec(p, "socket_path", ""),
                        schema: int_value(p.get("schema"), SCHEMA),
                        path: owned(path),
                    },
                );
            }
        },
        None => {},
    }
    match fallback_owner {
        Some(o) => {
            if is_owner(o) {
                let low = to_lowercase(stripped.as_str());
                let w = low.as_str();
                if str_eq(w, "1") || str_eq(w, "live") || str_eq(w, "yes") || str_eq(w, "on")
                    || str_eq(w, "true") {
                    return Some(
                        WriterLease {
                            owner: owned(o),
                            pid: 0,
                            heartbeat_ms: mtime_ms,
                            fingerprint: owned(fallback_fingerprint),
                            endpoint_hash: String::new(),
                            socket_path: String::new(),
                            schema: 0,
                            path: owned(path),
                        },
                    );
                }
            }
        },
        None => {},
    }
    None
}

} // verus!
