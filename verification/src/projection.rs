//! The projection of the dashboard state onto the signals that the diagnosis reasons over.

use vstd::prelude::*;

use crate::app::observe::{added_latency, latency_added};
use crate::app::rollup::reach_states;
use crate::app::state::{
    reported, reported_health, HandshakeModel, ReachState, ResolverModel, TargetModel, TlsModel,
};
use crate::app::{AppModel, AppState};
use crate::diagnosis::{Signals, SignalsModel};
use crate::health::{severity, worse, worst_in, Health};
use crate::map::{
    holds_key, law_upsert, lemma_has_is_membership, lemma_models, lookup, ordered, upsert, Ordered,
    OrderedMap,
};
use crate::metrics::dns::Integrity;
use crate::metrics::iface::held_count;
use crate::text::{same_text, strings, text_of};
use crate::units::{clamped, difference, Reading};

verus! {

/// The worse of a target's latency and loss.
pub open spec fn target_health(t: TargetModel) -> Health {
    worse(t.latency_health.state, t.loss_health.state)
}

/// The worst health across the gateway targets, where there are any.
pub open spec fn gateway_health(s: Seq<(Seq<char>, TargetModel)>) -> Option<Health>
    decreases s.len(),
{
    if s.len() == 0 {
        None
    } else {
        let before = gateway_health(s.drop_last());
        let t = s.last().1;
        if t.is_gateway {
            Some(
                match before {
                    Some(h) => worse(h, target_health(t)),
                    None => target_health(t),
                },
            )
        } else {
            before
        }
    }
}

/// What the internet targets amount to.
pub ghost struct InternetModel {
    /// The worst health among them.
    pub health: Health,
    pub total: nat,
    /// How many are unhealthy.
    pub bad: nat,
    /// The last of the worst unhealthy ones.
    pub worst_host: Option<Seq<char>>,
    pub worst_health: Health,
}

/// What the internet (non-gateway) targets amount to.
pub open spec fn internet_of(s: Seq<(Seq<char>, TargetModel)>) -> InternetModel
    decreases s.len(),
{
    if s.len() == 0 {
        InternetModel {
            health: Health::Good,
            total: 0,
            bad: 0,
            worst_host: None,
            worst_health: Health::Good,
        }
    } else {
        let before = internet_of(s.drop_last());
        let (name, t) = s.last();
        let h = target_health(t);
        if t.is_gateway {
            before
        } else if h == Health::Good {
            InternetModel { health: worse(before.health, h), total: before.total + 1, ..before }
        } else if severity(h) >= severity(before.worst_health) {
            InternetModel {
                health: worse(before.health, h),
                total: before.total + 1,
                bad: before.bad + 1,
                worst_host: Some(name),
                worst_health: h,
            }
        } else {
            InternetModel {
                health: worse(before.health, h),
                total: before.total + 1,
                bad: before.bad + 1,
                ..before
            }
        }
    }
}

/// The worst jitter across the gateway targets, or across the others.
pub open spec fn jitter_of(s: Seq<(Seq<char>, TargetModel)>, gateway: bool) -> Health
    decreases s.len(),
{
    if s.len() == 0 {
        Health::Good
    } else if s.last().1.is_gateway == gateway {
        worse(jitter_of(s.drop_last(), gateway), s.last().1.jitter_health.state)
    } else {
        jitter_of(s.drop_last(), gateway)
    }
}

/// The worst timing health across the resolvers other than the system's.
pub open spec fn public_dns(s: Seq<(Seq<char>, ResolverModel)>) -> Health
    decreases s.len(),
{
    if s.len() == 0 {
        Health::Good
    } else if s.last().0 == "system"@ {
        public_dns(s.drop_last())
    } else {
        worse(public_dns(s.drop_last()), s.last().1.health.state)
    }
}

/// The worst honesty across the resolvers.
pub open spec fn dns_honesty(s: Seq<(Seq<char>, ResolverModel)>) -> Health
    decreases s.len(),
{
    if s.len() == 0 {
        Health::Good
    } else {
        worse(dns_honesty(s.drop_last()), s.last().1.integrity_health.state)
    }
}

/// The resolvers with the given verdict, in order.
pub open spec fn judged_as(s: Seq<(Seq<char>, ResolverModel)>, want: Integrity) -> Seq<Seq<char>>
    decreases s.len(),
{
    if s.len() == 0 {
        Seq::empty()
    } else if s.last().1.integrity == want {
        judged_as(s.drop_last(), want).push(s.last().0)
    } else {
        judged_as(s.drop_last(), want)
    }
}

/// How many endpoints fail their last check.
pub open spec fn failing(s: Seq<(Seq<char>, ReachState)>) -> nat
    decreases s.len(),
{
    if s.len() == 0 {
        0
    } else {
        failing(s.drop_last()) + (if s.last().1.ok {
            0nat
        } else {
            1nat
        })
    }
}

/// The worst handshake health over TCP endpoints.
pub open spec fn tcp_health(s: Seq<(Seq<char>, HandshakeModel)>) -> Health
    decreases s.len(),
{
    if s.len() == 0 {
        Health::Good
    } else {
        worse(tcp_health(s.drop_last()), s.last().1.health.state)
    }
}

/// The worst handshake health over TLS endpoints.
pub open spec fn tls_health(s: Seq<(Seq<char>, TlsModel)>) -> Health
    decreases s.len(),
{
    if s.len() == 0 {
        Health::Good
    } else {
        worse(tls_health(s.drop_last()), s.last().1.handshake.health.state)
    }
}

/// The worst expiry health over TLS endpoints.
pub open spec fn expiry_health(s: Seq<(Seq<char>, TlsModel)>) -> Health
    decreases s.len(),
{
    if s.len() == 0 {
        Health::Good
    } else {
        worse(expiry_health(s.drop_last()), s.last().1.expiry_health.state)
    }
}

/// The endpoint whose certificate runs out first, with its days; the first of equals.
pub open spec fn soonest(s: Seq<(Seq<char>, TlsModel)>) -> Option<(Seq<char>, i64)>
    decreases s.len(),
{
    if s.len() == 0 {
        None
    } else {
        let before = soonest(s.drop_last());
        match (s.last().1.expires_in_days, before) {
            (Some(d), Some((_, least))) if least <= d => before,
            (Some(d), _) => Some((s.last().0, d)),
            (None, _) => before,
        }
    }
}

/// The TCP endpoints whose last handshake failed, added to a set of names kept in order.
pub open spec fn with_failed_tcp(s: Seq<(Seq<char>, HandshakeModel)>) -> Seq<(Seq<char>, ())>
    decreases s.len(),
{
    if s.len() == 0 {
        Seq::empty()
    } else if s.last().1.last_ok {
        with_failed_tcp(s.drop_last())
    } else {
        upsert(with_failed_tcp(s.drop_last()), s.last().0, ())
    }
}

/// The TLS endpoints whose last negotiation failed, added to a set of names kept in order.
pub open spec fn with_failed_tls(
    set: Seq<(Seq<char>, ())>,
    s: Seq<(Seq<char>, TlsModel)>,
) -> Seq<(Seq<char>, ())>
    decreases s.len(),
{
    if s.len() == 0 {
        set
    } else if s.last().1.handshake.last_ok {
        with_failed_tls(set, s.drop_last())
    } else {
        upsert(with_failed_tls(set, s.drop_last()), s.last().0, ())
    }
}

/// The keys of a map, in order.
pub open spec fn keys<V>(s: Seq<(Seq<char>, V)>) -> Seq<Seq<char>> {
    Seq::new(s.len(), |i: int| s[i].0)
}

/// The endpoints that failed outright, by name, each once, in order.
pub open spec fn failed_endpoints(m: AppModel) -> Seq<Seq<char>> {
    keys(with_failed_tls(with_failed_tcp(m.tcp), m.tls))
}

/// A TCP endpoint of that name failed its last handshake.
pub open spec fn tcp_failed(s: Seq<(Seq<char>, HandshakeModel)>, name: Seq<char>) -> bool {
    exists|i: int| 0 <= i < s.len() && (#[trigger] s[i]).0 == name && !s[i].1.last_ok
}

/// A TLS endpoint of that name failed its last negotiation.
pub open spec fn tls_failed(s: Seq<(Seq<char>, TlsModel)>, name: Seq<char>) -> bool {
    exists|i: int| 0 <= i < s.len() && (#[trigger] s[i]).0 == name && !s[i].1.handshake.last_ok
}

proof fn lemma_failed_tcp(s: Seq<(Seq<char>, HandshakeModel)>, name: Seq<char>)
    ensures
        ordered(with_failed_tcp(s)),
        holds_key(with_failed_tcp(s), name) == tcp_failed(s, name),
    decreases s.len(),
{
    if s.len() > 0 {
        let init = s.drop_last();
        lemma_failed_tcp(init, name);
        if tcp_failed(init, name) {
            let i = choose|i: int|
                0 <= i < init.len() && (#[trigger] init[i]).0 == name && !init[i].1.last_ok;
            assert(s[i] == init[i]);
        }
        if tcp_failed(s, name) {
            let i = choose|i: int|
                0 <= i < s.len() && (#[trigger] s[i]).0 == name && !s[i].1.last_ok;
            if i < init.len() {
                assert(init[i] == s[i]);
            }
        }
        if !s.last().1.last_ok {
            assert(s[s.len() - 1] == s.last());
            law_upsert(with_failed_tcp(init), s.last().0, (), name);
        }
    }
}

proof fn lemma_failed_tls(
    set: Seq<(Seq<char>, ())>,
    s: Seq<(Seq<char>, TlsModel)>,
    name: Seq<char>,
)
    requires
        ordered(set),
    ensures
        ordered(with_failed_tls(set, s)),
        holds_key(with_failed_tls(set, s), name) == (holds_key(set, name) || tls_failed(s, name)),
    decreases s.len(),
{
    if s.len() > 0 {
        let init = s.drop_last();
        lemma_failed_tls(set, init, name);
        if tls_failed(init, name) {
            let i = choose|i: int|
                0 <= i < init.len() && (#[trigger] init[i]).0 == name
                    && !init[i].1.handshake.last_ok;
            assert(s[i] == init[i]);
        }
        if tls_failed(s, name) {
            let i = choose|i: int|
                0 <= i < s.len() && (#[trigger] s[i]).0 == name && !s[i].1.handshake.last_ok;
            if i < init.len() {
                assert(init[i] == s[i]);
            }
        }
        if !s.last().1.handshake.last_ok {
            assert(s[s.len() - 1] == s.last());
            law_upsert(with_failed_tls(set, init), s.last().0, (), name);
        }
    }
}

/// An endpoint that fails both probes is one complaint: the failed endpoints are listed in
/// order, each once, and they are exactly those that failed at either.
pub proof fn law_failed_endpoints_are_listed_once(m: AppModel, name: Seq<char>)
    ensures
        forall|i: int, j: int|
            0 <= i < j < failed_endpoints(m).len() ==> (#[trigger] failed_endpoints(m)[i]).before(
                #[trigger] failed_endpoints(m)[j],
            ),
        failed_endpoints(m).contains(name) <==> tcp_failed(m.tcp, name) || tls_failed(m.tls, name),
{
    let set = with_failed_tls(with_failed_tcp(m.tcp), m.tls);
    lemma_failed_tcp(m.tcp, name);
    lemma_failed_tls(with_failed_tcp(m.tcp), m.tls, name);
    lemma_has_is_membership(set, name);
    let names = failed_endpoints(m);
    assert forall|i: int, j: int| 0 <= i < j < names.len() implies (#[trigger] names[i]).before(
        #[trigger] names[j],
    ) by {
        assert(set[i].0.before(set[j].0));
    }
    if names.contains(name) {
        let i = choose|i: int| 0 <= i < names.len() && names[i] == name;
        assert(set[i].0 == name);
    }
    if holds_key(set, name) {
        let i = choose|i: int| 0 <= i < set.len() && (#[trigger] set[i]).0 == name;
        assert(names[i] == name);
    }
}

/// The signal-to-noise ratio, where both are known.
pub open spec fn snr_of(rssi: Option<Reading>, noise: Option<Reading>) -> Option<Reading> {
    match (rssi, noise) {
        (Some(r), Some(n)) => Some(clamped(r - n) as i64),
        _ => None,
    }
}

/// The signal-to-noise ratio, where both are known.
pub fn signal_to_noise(rssi: Option<Reading>, noise: Option<Reading>) -> (r: Option<Reading>)
    ensures
        r == snr_of(rssi, noise),
{
    match (rssi, noise) {
        (Some(r), Some(n)) => Some(difference(r, n)),
        _ => None,
    }
}

/// The signals of a dashboard state.
#[verifier::opaque]
pub open spec fn signals_of(m: AppModel) -> SignalsModel {
    let internet = internet_of(m.targets);
    let cfg = m.config.thresholds;
    let snr = snr_of(m.link.rssi_dbm, m.link.noise_dbm);
    SignalsModel {
        gateway: gateway_health(m.targets),
        internet: internet.health,
        internet_total: internet.total,
        internet_bad: internet.bad,
        worst_internet_host: internet.worst_host,
        dns_system: match lookup(m.resolvers, "system"@) {
            Some(r) => Some(r.health.state),
            None => None,
        },
        dns_public: public_dns(m.resolvers),
        dns_integrity: dns_honesty(m.resolvers),
        dns_forged: judged_as(m.resolvers, Integrity::Forged),
        dns_hijacked: judged_as(m.resolvers, Integrity::Hijacked),
        reach_any_ok: failing(m.reachability) < m.reachability.len(),
        reach_all_fail: m.reachability.len() > 0 && failing(m.reachability)
            == m.reachability.len(),
        reach_total: m.reachability.len(),
        reach_bad: failing(m.reachability),
        transport: worse(tcp_health(m.tcp), tls_health(m.tls)),
        transport_failed: failed_endpoints(m),
        cert: expiry_health(m.tls),
        cert_soonest: soonest(m.tls),
        routing_seen: m.routing.seen,
        routing_reachable: m.routing.reachable,
        wifi_signal: match m.link.rssi_dbm {
            Some(v) => cfg.rssi.health_of(v as int),
            None => Health::Good,
        },
        wifi_quality: match snr {
            Some(v) => cfg.snr.health_of(v as int),
            None => Health::Good,
        },
        rssi_dbm: m.link.rssi_dbm,
        snr_db: snr,
        tx_rate: m.link.tx_rate,
        captive: m.captive_portal,
        nic_errors: reported(m.iface.health),
        nic_error_count: match (m.iface.rx_errors, m.iface.tx_errors) {
            (Some(rx), Some(tx)) => Some(held_count(rx + tx) as u64),
            _ => None,
        },
        bufferbloat: reported(m.throughput.bufferbloat_health),
        bufferbloat_ms: match (m.throughput.idle_latency_ms, m.throughput.loaded_latency_ms) {
            (Some(i), Some(l)) => Some(added_latency(i, l)),
            _ => None,
        },
        capacity: reported(m.throughput.health),
        capacity_mbps: m.throughput.last_mbps,
        route: reported(m.routing.health),
        jitter_gateway: jitter_of(m.targets, true),
        jitter_internet: jitter_of(m.targets, false),
        radio: reported(m.link.health),
        reach: worst_in(reach_states(m.reachability)),
    }
}

/// What the ping targets say.
struct TargetSignals {
    gateway: Option<Health>,
    internet: Health,
    total: usize,
    bad: usize,
    worst_host: Option<String>,
    worst_health: Health,
    jitter_gateway: Health,
    jitter_internet: Health,
}

fn target_signals(state: &AppState) -> (r: TargetSignals)
    ensures
        r.gateway == gateway_health(state@.targets),
        ({
            let i = internet_of(state@.targets);
            &&& r.internet == i.health
            &&& r.total == i.total
            &&& r.bad == i.bad
            &&& text_of(r.worst_host) == i.worst_host
        }),
        r.jitter_gateway == jitter_of(state@.targets, true),
        r.jitter_internet == jitter_of(state@.targets, false),
{
    let ghost all = state@.targets;
    let mut r = TargetSignals {
        gateway: None,
        internet: Health::Good,
        total: 0,
        bad: 0,
        worst_host: None,
        worst_health: Health::Good,
        jitter_gateway: Health::Good,
        jitter_internet: Health::Good,
    };
    let n: usize = state.targets.len();
    for i in 0..n
        invariant
            n == all.len(),
            all == state@.targets,
            r.gateway == gateway_health(all.take(i as int)),
            r.internet == internet_of(all.take(i as int)).health,
            r.total == internet_of(all.take(i as int)).total,
            r.bad == internet_of(all.take(i as int)).bad,
            text_of(r.worst_host) == internet_of(all.take(i as int)).worst_host,
            r.worst_health == internet_of(all.take(i as int)).worst_health,
            r.bad <= r.total <= i,
            r.jitter_gateway == jitter_of(all.take(i as int), true),
            r.jitter_internet == jitter_of(all.take(i as int), false),
    {
        assert(all.take(i + 1).drop_last() =~= all.take(i as int));
        assert(all.take(i + 1).last() == all[i as int]);
        let t = state.targets.value_at(i);
        let h = t.latency_health_current().worst(t.loss_health_current());
        if t.is_gateway {
            r.jitter_gateway = r.jitter_gateway.worst(t.jitter_health_current());
            r.gateway = Some(
                match r.gateway {
                    Some(g) => g.worst(h),
                    None => h,
                },
            );
        } else {
            r.jitter_internet = r.jitter_internet.worst(t.jitter_health_current());
            r.total = r.total + 1;
            r.internet = r.internet.worst(h);
            if h != Health::Good {
                r.bad = r.bad + 1;
                if h.level() >= r.worst_health.level() {
                    r.worst_health = h;
                    r.worst_host = Some(state.targets.key_at(i).clone());
                }
            }
        }
    }
    assert(all.take(n as int) =~= all);
    r
}

/// What the resolvers say.
struct ResolverSignals {
    system: Option<Health>,
    public: Health,
    integrity: Health,
    forged: Vec<String>,
    hijacked: Vec<String>,
}

fn resolver_signals(state: &AppState) -> (r: ResolverSignals)
    ensures
        r.system == (match lookup(state@.resolvers, "system"@) {
            Some(x) => Some(x.health.state),
            None => None,
        }),
        r.public == public_dns(state@.resolvers),
        r.integrity == dns_honesty(state@.resolvers),
        strings(r.forged@) == judged_as(state@.resolvers, Integrity::Forged),
        strings(r.hijacked@) == judged_as(state@.resolvers, Integrity::Hijacked),
{
    let ghost all = state@.resolvers;
    let system = match state.resolvers.get(&"system".to_owned()) {
        Some(x) => Some(x.health_current()),
        None => None,
    };
    proof {
        lemma_models(state.resolvers@, "system"@);
    }
    let mut r = ResolverSignals {
        system,
        public: Health::Good,
        integrity: Health::Good,
        forged: Vec::new(),
        hijacked: Vec::new(),
    };
    assert(strings(r.forged@) =~= judged_as(all.take(0), Integrity::Forged));
    assert(strings(r.hijacked@) =~= judged_as(all.take(0), Integrity::Hijacked));
    let n: usize = state.resolvers.len();
    for i in 0..n
        invariant
            n == all.len(),
            all == state@.resolvers,
            r.system == system,
            r.public == public_dns(all.take(i as int)),
            r.integrity == dns_honesty(all.take(i as int)),
            strings(r.forged@) == judged_as(all.take(i as int), Integrity::Forged),
            strings(r.hijacked@) == judged_as(all.take(i as int), Integrity::Hijacked),
    {
        assert(all.take(i + 1).drop_last() =~= all.take(i as int));
        assert(all.take(i + 1).last() == all[i as int]);
        let name = state.resolvers.key_at(i);
        let x = state.resolvers.value_at(i);
        if !same_text(name.as_str(), "system") {
            r.public = r.public.worst(x.health_current());
        }
        r.integrity = r.integrity.worst(x.integrity_health_current());
        let ghost f = r.forged@;
        let ghost h = r.hijacked@;
        match x.integrity {
            Integrity::Forged => {
                r.forged.push(name.clone());
                assert(strings(r.forged@) =~= strings(f).push(name@));
            },
            Integrity::Hijacked => {
                r.hijacked.push(name.clone());
                assert(strings(r.hijacked@) =~= strings(h).push(name@));
            },
            Integrity::Honest => {},
        }
    }
    assert(all.take(n as int) =~= all);
    r
}

fn failing_endpoints(state: &AppState) -> (n: usize)
    ensures
        n == failing(state@.reachability),
        n <= state@.reachability.len(),
{
    let ghost all = state@.reachability;
    let mut bad: usize = 0;
    let n: usize = state.reachability.len();
    for i in 0..n
        invariant
            n == all.len(),
            all == state@.reachability,
            bad == failing(all.take(i as int)),
            bad <= i,
    {
        assert(all.take(i + 1).drop_last() =~= all.take(i as int));
        if !state.reachability.value_at(i).ok {
            bad = bad + 1;
        }
    }
    assert(all.take(n as int) =~= all);
    bad
}

/// What the handshakes say.
struct TransportSignals {
    health: Health,
    failed: Vec<String>,
    cert: Health,
    soonest: Option<(String, i64)>,
}

fn transport_signals(state: &AppState) -> (r: TransportSignals)
    ensures
        r.health == worse(tcp_health(state@.tcp), tls_health(state@.tls)),
        strings(r.failed@) == failed_endpoints(state@),
        r.cert == expiry_health(state@.tls),
        crate::diagnosis::soonest_text(r.soonest) == soonest(state@.tls),
{
    let ghost all = state@.tcp;
    let mut tcp = Health::Good;
    let mut failed: OrderedMap<String, ()> = OrderedMap::new();
    let n: usize = state.tcp.len();
    for i in 0..n
        invariant
            n == all.len(),
            all == state@.tcp,
            tcp == tcp_health(all.take(i as int)),
            failed@ == with_failed_tcp(all.take(i as int)),
    {
        assert(all.take(i + 1).drop_last() =~= all.take(i as int));
        assert(all.take(i + 1).last() == all[i as int]);
        let x = state.tcp.value_at(i);
        tcp = tcp.worst(x.health_current());
        if !x.last_ok {
            failed.insert(state.tcp.key_at(i).clone(), ());
        }
    }
    assert(all.take(n as int) =~= all);
    let ghost base = failed@;
    let ghost all = state@.tls;
    let mut tls = Health::Good;
    let mut cert = Health::Good;
    let mut first: Option<(String, i64)> = None;
    let n: usize = state.tls.len();
    for i in 0..n
        invariant
            n == all.len(),
            all == state@.tls,
            tls == tls_health(all.take(i as int)),
            cert == expiry_health(all.take(i as int)),
            failed@ == with_failed_tls(base, all.take(i as int)),
            crate::diagnosis::soonest_text(first) == soonest(all.take(i as int)),
    {
        assert(all.take(i + 1).drop_last() =~= all.take(i as int));
        assert(all.take(i + 1).last() == all[i as int]);
        let x = state.tls.value_at(i);
        tls = tls.worst(x.health_current());
        cert = cert.worst(x.expiry_health_current());
        if !x.handshake.last_ok {
            failed.insert(state.tls.key_at(i).clone(), ());
        }
        match x.expires_in_days {
            Some(d) => {
                let sooner = match &first {
                    Some(p) => d < p.1,
                    None => true,
                };
                if sooner {
                    first = Some((state.tls.key_at(i).clone(), d));
                }
            },
            None => {},
        }
    }
    assert(all.take(n as int) =~= all);
    let mut names: Vec<String> = Vec::new();
    let n: usize = failed.len();
    for i in 0..n
        invariant
            n == failed@.len(),
            strings(names@) == keys(failed@).take(i as int),
    {
        let ghost before = names@;
        names.push(failed.key_at(i).clone());
        assert(strings(names@) =~= strings(before).push(failed@[i as int].0));
        assert(keys(failed@).take(i + 1) =~= keys(failed@).take(i as int).push(
            keys(failed@)[i as int],
        ));
    }
    assert(keys(failed@).take(n as int) =~= keys(failed@));
    TransportSignals { health: tcp.worst(tls), failed: names, cert, soonest: first }
}

impl Signals {
    /// Project the current state into a diagnosis snapshot.
    pub fn from_state(state: &AppState) -> (s: Signals)
        ensures
            s@ == signals_of(state@),
    {
        let t = target_signals(state);
        // DNS: the OS-configured "system" resolver is split from the public ones. Honesty,
        // which the timing verdicts cannot see, reaches the DNS panel and therefore the
        // header, so it has to reach the diagnosis too.
        let d = resolver_signals(state);
        let reach_total: usize = state.reachability.len();
        let reach_bad: usize = failing_endpoints(state);
        // TCP and TLS timings together: they are one panel and one complaint.
        let x = transport_signals(state);
        // Wi-Fi: classify RSSI (signal) and SNR (quality) against their thresholds: a live,
        // un-debounced read.
        let cfg = state.config.thresholds;
        let rssi_dbm = state.link.rssi_dbm;
        let snr_db = signal_to_noise(rssi_dbm, state.link.noise_dbm);
        let wifi_signal = match rssi_dbm {
            Some(v) => cfg.rssi.evaluate(v),
            None => Health::Good,
        };
        let wifi_quality = match snr_db {
            Some(v) => cfg.snr.evaluate(v),
            None => Health::Good,
        };
        let nic_error_count = match (state.iface.rx_errors, state.iface.tx_errors) {
            (Some(rx), Some(tx)) => Some(rx.saturating_add(tx)),
            _ => None,
        };
        let bufferbloat_ms = match (
            state.throughput.idle_latency_ms,
            state.throughput.loaded_latency_ms,
        ) {
            (Some(i), Some(l)) => Some(latency_added(i, l)),
            _ => None,
        };
        let s = Signals {
            gateway: t.gateway,
            internet: t.internet,
            internet_total: t.total,
            internet_bad: t.bad,
            worst_internet_host: t.worst_host,
            dns_system: d.system,
            dns_public: d.public,
            dns_integrity: d.integrity,
            dns_forged: d.forged,
            dns_hijacked: d.hijacked,
            reach_any_ok: reach_bad < reach_total,
            reach_all_fail: reach_total > 0 && reach_bad == reach_total,
            reach_total,
            reach_bad,
            transport: x.health,
            transport_failed: x.failed,
            cert: x.cert,
            cert_soonest: x.soonest,
            routing_seen: state.routing.seen,
            routing_reachable: state.routing.reachable,
            wifi_signal,
            wifi_quality,
            rssi_dbm,
            snr_db,
            tx_rate: state.link.tx_rate,
            captive: state.captive_portal,
            nic_errors: state.iface.health_current(),
            nic_error_count,
            bufferbloat: state.throughput.bufferbloat_health_current(),
            bufferbloat_ms,
            capacity: reported_health(&state.throughput.health),
            capacity_mbps: state.throughput.last_mbps,
            route: reported_health(&state.routing.health),
            jitter_gateway: t.jitter_gateway,
            jitter_internet: t.jitter_internet,
            radio: reported_health(&state.link.health),
            reach: state.worst_endpoint(),
        };
        proof {
            reveal(signals_of);
            let m = signals_of(state@);
            assert(s@.gateway == m.gateway);
            assert(s@.internet == m.internet);
            assert(s@.internet_total == m.internet_total);
            assert(s@.internet_bad == m.internet_bad);
            assert(s@.worst_internet_host == m.worst_internet_host);
            assert(s@.dns_system == m.dns_system);
            assert(s@.dns_public == m.dns_public);
            assert(s@.dns_integrity == m.dns_integrity);
            assert(s@.dns_forged == m.dns_forged);
            assert(s@.dns_hijacked == m.dns_hijacked);
            assert(s@.reach_any_ok == m.reach_any_ok);
            assert(s@.reach_all_fail == m.reach_all_fail);
            assert(s@.reach_total == m.reach_total);
            assert(s@.reach_bad == m.reach_bad);
            assert(s@.transport == m.transport);
            assert(s@.transport_failed == m.transport_failed);
            assert(s@.cert == m.cert);
            assert(s@.cert_soonest == m.cert_soonest);
            assert(s@.routing_seen == m.routing_seen);
            assert(s@.routing_reachable == m.routing_reachable);
            assert(s@.wifi_signal == m.wifi_signal);
            assert(s@.wifi_quality == m.wifi_quality);
            assert(s@.rssi_dbm == m.rssi_dbm);
            assert(s@.snr_db == m.snr_db);
            assert(s@.tx_rate == m.tx_rate);
            assert(s@.captive == m.captive);
            assert(s@.nic_errors == m.nic_errors);
            assert(s@.nic_error_count == m.nic_error_count);
            assert(s@.bufferbloat == m.bufferbloat);
            assert(s@.bufferbloat_ms == m.bufferbloat_ms);
            assert(s@.capacity == m.capacity);
            assert(s@.capacity_mbps == m.capacity_mbps);
            assert(s@.route == m.route);
            assert(s@.jitter_gateway == m.jitter_gateway);
            assert(s@.jitter_internet == m.jitter_internet);
            assert(s@.radio == m.radio);
            assert(s@.reach == m.reach);
        }
        s
    }
}

} // verus!
