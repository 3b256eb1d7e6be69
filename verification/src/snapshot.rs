//! What a snapshot of the signals says of the state that it was taken of.

use vstd::prelude::*;

use crate::app::rollup::reach_states;
use crate::app::state::{HandshakeModel, ReachState, ResolverModel, TargetModel, TlsModel};
use crate::app::AppModel;
use crate::health::{lemma_worst_in_is_worst, severity, Health};
use crate::map::{lemma_entry_is_found, lemma_has_is_membership, lookup, ordered};
use crate::metrics::dns::Integrity;
use crate::projection::{
    dns_honesty, expiry_health, failing, gateway_health, internet_of, jitter_of, judged_as,
    public_dns, signals_of, soonest, target_health, tcp_health, tls_health,
};

verus! {

// ---------------------------------------------------------------------------------------
// Ping targets
// ---------------------------------------------------------------------------------------

/// A target loses packets or is slow, and this badly.
pub open spec fn as_bad_as(t: TargetModel, h: Health) -> bool {
    t.latency_health.state == h || t.loss_health.state == h
}

/// A target is no worse than this, neither in latency nor in loss.
pub open spec fn no_worse_than(t: TargetModel, h: Health) -> bool {
    severity(t.latency_health.state) <= severity(h) && severity(t.loss_health.state) <= severity(h)
}

proof fn lemma_gateway(s: Seq<(Seq<char>, TargetModel)>)
    ensures
        gateway_health(s) is Some <==> exists|i: int|
            0 <= i < s.len() && (#[trigger] s[i]).1.is_gateway,
        gateway_health(s) matches Some(h) ==> {
            &&& forall|i: int|
                0 <= i < s.len() && (#[trigger] s[i]).1.is_gateway ==> no_worse_than(s[i].1, h)
            &&& exists|i: int|
                0 <= i < s.len() && (#[trigger] s[i]).1.is_gateway && as_bad_as(s[i].1, h)
        },
    decreases s.len(),
{
    if s.len() > 0 {
        let init = s.drop_last();
        lemma_gateway(init);
        let n = s.len() - 1;
        assert(s[n] == s.last());
        assert forall|i: int| 0 <= i < n implies #[trigger] s[i] == init[i] by {}
        if gateway_health(init) is Some {
            let k = choose|k: int|
                0 <= k < init.len() && (#[trigger] init[k]).1.is_gateway && as_bad_as(
                    init[k].1,
                    gateway_health(init)->0,
                );
            assert(s[k] == init[k]);
        }
        if exists|i: int| 0 <= i < s.len() && (#[trigger] s[i]).1.is_gateway {
            let k = choose|k: int| 0 <= k < s.len() && (#[trigger] s[k]).1.is_gateway;
            if k < n {
                assert(init[k].1.is_gateway);
            }
        }
        if gateway_health(s) is Some {
            let h = gateway_health(s)->0;
            assert forall|i: int| 0 <= i < s.len() && (#[trigger] s[i]).1.is_gateway implies no_worse_than(
                s[i].1,
                h,
            ) by {
                if i < n {
                    assert(init[i].1.is_gateway);
                }
            }
        }
    }
}

/// The gateway is known exactly where a target is registered as one, and is as bad as the
/// worst of them, in latency or loss.
pub proof fn law_the_gateway_signal(m: AppModel)
    ensures
        ({
            let g = signals_of(m).gateway;
            &&& g is Some <==> exists|i: int|
                0 <= i < m.targets.len() && (#[trigger] m.targets[i]).1.is_gateway
            &&& g matches Some(h) ==> {
                &&& forall|i: int|
                    0 <= i < m.targets.len() && (#[trigger] m.targets[i]).1.is_gateway
                        ==> no_worse_than(m.targets[i].1, h)
                &&& exists|i: int|
                    0 <= i < m.targets.len() && (#[trigger] m.targets[i]).1.is_gateway
                        && as_bad_as(m.targets[i].1, h)
            }
        }),
{
    reveal(signals_of);
    lemma_gateway(m.targets);
}

proof fn lemma_hosts(s: Seq<(Seq<char>, TargetModel)>)
    ensures
        ({
            let r = internet_of(s);
            &&& forall|i: int|
                0 <= i < s.len() && !(#[trigger] s[i]).1.is_gateway ==> no_worse_than(
                    s[i].1,
                    r.health,
                )
            &&& r.health == r.worst_health
            &&& r.bad > 0 <==> r.worst_host is Some
            &&& r.bad > 0 <==> r.health != Health::Good
            &&& r.worst_host matches Some(name) ==> exists|i: int|
                0 <= i < s.len() && (#[trigger] s[i]).0 == name && !s[i].1.is_gateway && as_bad_as(
                    s[i].1,
                    r.health,
                ) && forall|j: int|
                    i < j < s.len() && !(#[trigger] s[j]).1.is_gateway ==> !as_bad_as(
                        s[j].1,
                        r.health,
                    )
        }),
    decreases s.len(),
{
    if s.len() > 0 {
        let init = s.drop_last();
        lemma_hosts(init);
        let n = s.len() - 1;
        let r = internet_of(s);
        let b = internet_of(init);
        assert(s[n] == s.last());
        assert forall|i: int| 0 <= i < n implies #[trigger] s[i] == init[i] by {}
        assert forall|i: int| 0 <= i < s.len() && !(#[trigger] s[i]).1.is_gateway implies no_worse_than(
            s[i].1,
            r.health,
        ) by {
            if i < n {
                assert(!init[i].1.is_gateway);
            }
        }
        let own = !s.last().1.is_gateway && target_health(s.last().1) != Health::Good && severity(
            target_health(s.last().1),
        ) >= severity(b.worst_health);
        if r.worst_host is Some {
            let name = r.worst_host->0;
            if own {
                assert(s[n].0 == name && !s[n].1.is_gateway && as_bad_as(s[n].1, r.health));
            } else {
                let k = choose|k: int|
                    0 <= k < init.len() && (#[trigger] init[k]).0 == name && !init[k].1.is_gateway
                        && as_bad_as(init[k].1, b.health) && forall|j: int|
                        k < j < init.len() && !(#[trigger] init[j]).1.is_gateway ==> !as_bad_as(
                            init[j].1,
                            b.health,
                        );
                assert(s[k] == init[k]);
                assert(r.health == b.health);
                assert forall|j: int|
                    k < j < s.len() && !(#[trigger] s[j]).1.is_gateway implies !as_bad_as(
                    s[j].1,
                    r.health,
                ) by {
                    if j < n {
                        assert(!init[j].1.is_gateway);
                    }
                }
            }
        }
    }
}

/// The internet is as bad as the worst host, in latency or loss; and that host is named, the
/// last one of equals.
pub proof fn law_the_internet_signal(m: AppModel)
    ensures
        ({
            let s = signals_of(m);
            &&& forall|i: int|
                0 <= i < m.targets.len() && !(#[trigger] m.targets[i]).1.is_gateway
                    ==> no_worse_than(m.targets[i].1, s.internet)
            &&& s.internet_bad > 0 <==> s.internet != Health::Good
            &&& s.internet_bad > 0 <==> s.worst_internet_host is Some
            &&& s.worst_internet_host matches Some(name) ==> exists|i: int|
                0 <= i < m.targets.len() && (#[trigger] m.targets[i]).0 == name
                    && !m.targets[i].1.is_gateway && as_bad_as(m.targets[i].1, s.internet)
                    && forall|j: int|
                    i < j < m.targets.len() && !(#[trigger] m.targets[j]).1.is_gateway
                        ==> !as_bad_as(m.targets[j].1, s.internet)
        }),
{
    reveal(signals_of);
    lemma_hosts(m.targets);
}

/// One more target counts where it is a host, and counts as bad where its latency or its loss
/// is; a gateway counts for neither. Without targets both counts are nought.
pub proof fn law_hosts_are_counted(
    m: AppModel,
    targets: Seq<(Seq<char>, TargetModel)>,
    name: Seq<char>,
    t: TargetModel,
)
    ensures
        ({
            let none = signals_of(AppModel { targets: Seq::empty(), ..m });
            let before = signals_of(AppModel { targets, ..m });
            let after = signals_of(AppModel { targets: targets.push((name, t)), ..m });
            let ill = t.latency_health.state != Health::Good || t.loss_health.state
                != Health::Good;
            &&& none.internet_total == 0 && none.internet_bad == 0
            &&& after.internet_total == before.internet_total + (if t.is_gateway {
                0nat
            } else {
                1nat
            })
            &&& after.internet_bad == before.internet_bad + (if !t.is_gateway && ill {
                1nat
            } else {
                0nat
            })
        }),
{
    reveal(signals_of);
    assert(targets.push((name, t)).drop_last() =~= targets);
}

proof fn lemma_jitter(s: Seq<(Seq<char>, TargetModel)>, gateway: bool)
    ensures
        forall|i: int|
            0 <= i < s.len() && (#[trigger] s[i]).1.is_gateway == gateway ==> severity(
                s[i].1.jitter_health.state,
            ) <= severity(jitter_of(s, gateway)),
        jitter_of(s, gateway) != Health::Good ==> exists|i: int|
            0 <= i < s.len() && (#[trigger] s[i]).1.is_gateway == gateway
                && s[i].1.jitter_health.state == jitter_of(s, gateway),
    decreases s.len(),
{
    if s.len() > 0 {
        let init = s.drop_last();
        lemma_jitter(init, gateway);
        let n = s.len() - 1;
        let h = jitter_of(s, gateway);
        assert(s[n] == s.last());
        assert forall|i: int| 0 <= i < n implies #[trigger] s[i] == init[i] by {}
        assert forall|i: int|
            0 <= i < s.len() && (#[trigger] s[i]).1.is_gateway == gateway implies severity(
            s[i].1.jitter_health.state,
        ) <= severity(h) by {
            if i < n {
                assert(init[i].1.is_gateway == gateway);
            }
        }
        if h != Health::Good && h == jitter_of(init, gateway) {
            let k = choose|k: int|
                0 <= k < init.len() && (#[trigger] init[k]).1.is_gateway == gateway
                    && init[k].1.jitter_health.state == h;
            assert(s[k] == init[k]);
        }
    }
}

/// The jitter of the gateway is the worst among the gateways, and that of the internet the
/// worst among the hosts.
pub proof fn law_the_jitter_signals(m: AppModel)
    ensures
        ({
            let s = signals_of(m);
            &&& forall|i: int|
                0 <= i < m.targets.len() ==> if (#[trigger] m.targets[i]).1.is_gateway {
                    severity(m.targets[i].1.jitter_health.state) <= severity(s.jitter_gateway)
                } else {
                    severity(m.targets[i].1.jitter_health.state) <= severity(s.jitter_internet)
                }
            &&& s.jitter_gateway != Health::Good ==> exists|i: int|
                0 <= i < m.targets.len() && (#[trigger] m.targets[i]).1.is_gateway
                    && m.targets[i].1.jitter_health.state == s.jitter_gateway
            &&& s.jitter_internet != Health::Good ==> exists|i: int|
                0 <= i < m.targets.len() && !(#[trigger] m.targets[i]).1.is_gateway
                    && m.targets[i].1.jitter_health.state == s.jitter_internet
        }),
{
    reveal(signals_of);
    lemma_jitter(m.targets, true);
    lemma_jitter(m.targets, false);
    assert forall|i: int| 0 <= i < m.targets.len() implies if (
    #[trigger] m.targets[i]).1.is_gateway {
        severity(m.targets[i].1.jitter_health.state) <= severity(jitter_of(m.targets, true))
    } else {
        severity(m.targets[i].1.jitter_health.state) <= severity(jitter_of(m.targets, false))
    } by {
        assert(m.targets[i].1.is_gateway == true || m.targets[i].1.is_gateway == false);
    }
}

// ---------------------------------------------------------------------------------------
// Resolvers
// ---------------------------------------------------------------------------------------

proof fn lemma_public(s: Seq<(Seq<char>, ResolverModel)>)
    ensures
        forall|i: int|
            0 <= i < s.len() && (#[trigger] s[i]).0 != "system"@ ==> severity(s[i].1.health.state)
                <= severity(public_dns(s)),
        public_dns(s) != Health::Good ==> exists|i: int|
            0 <= i < s.len() && (#[trigger] s[i]).0 != "system"@ && s[i].1.health.state
                == public_dns(s),
        forall|i: int|
            0 <= i < s.len() ==> severity((#[trigger] s[i]).1.integrity_health.state) <= severity(
                dns_honesty(s),
            ),
        dns_honesty(s) != Health::Good ==> exists|i: int|
            0 <= i < s.len() && (#[trigger] s[i]).1.integrity_health.state == dns_honesty(s),
    decreases s.len(),
{
    if s.len() > 0 {
        let init = s.drop_last();
        lemma_public(init);
        let n = s.len() - 1;
        assert(s[n] == s.last());
        assert forall|i: int| 0 <= i < n implies #[trigger] s[i] == init[i] by {}
        assert forall|i: int|
            0 <= i < s.len() && (#[trigger] s[i]).0 != "system"@ implies severity(
            s[i].1.health.state,
        ) <= severity(public_dns(s)) by {
            if i < n {
                assert(init[i].0 != "system"@);
            }
        }
        assert forall|i: int| 0 <= i < s.len() implies severity(
            (#[trigger] s[i]).1.integrity_health.state,
        ) <= severity(dns_honesty(s)) by {
            if i < n {
                assert(init[i] == s[i]);
            }
        }
        let h = public_dns(s);
        if h != Health::Good && h == public_dns(init) {
            let k = choose|k: int|
                0 <= k < init.len() && (#[trigger] init[k]).0 != "system"@
                    && init[k].1.health.state == h;
            assert(s[k] == init[k]);
        }
        let g = dns_honesty(s);
        if g != Health::Good && g == dns_honesty(init) {
            let k = choose|k: int|
                0 <= k < init.len() && (#[trigger] init[k]).1.integrity_health.state == g;
            assert(s[k] == init[k]);
        }
    }
}

/// The resolver named "system" is the configured one, and its timing is a signal of its own;
/// the public ones are as slow as the slowest of all others. Honesty is the worst of all.
pub proof fn law_the_resolver_signals(m: AppModel)
    requires
        ordered(m.resolvers),
    ensures
        ({
            let s = signals_of(m);
            &&& s.dns_system is Some <==> exists|i: int|
                0 <= i < m.resolvers.len() && (#[trigger] m.resolvers[i]).0 == "system"@
            &&& forall|i: int|
                0 <= i < m.resolvers.len() ==> if (#[trigger] m.resolvers[i]).0 == "system"@ {
                    s.dns_system == Some(m.resolvers[i].1.health.state)
                } else {
                    severity(m.resolvers[i].1.health.state) <= severity(s.dns_public)
                }
            &&& s.dns_public != Health::Good ==> exists|i: int|
                0 <= i < m.resolvers.len() && (#[trigger] m.resolvers[i]).0 != "system"@
                    && m.resolvers[i].1.health.state == s.dns_public
            &&& forall|i: int|
                0 <= i < m.resolvers.len() ==> severity(
                    (#[trigger] m.resolvers[i]).1.integrity_health.state,
                ) <= severity(s.dns_integrity)
            &&& s.dns_integrity != Health::Good ==> exists|i: int|
                0 <= i < m.resolvers.len() && (#[trigger] m.resolvers[i]).1.integrity_health.state
                    == s.dns_integrity
        }),
{
    reveal(signals_of);
    lemma_public(m.resolvers);
    lemma_has_is_membership(m.resolvers, "system"@);
    assert forall|i: int| 0 <= i < m.resolvers.len() implies if (#[trigger] m.resolvers[i]).0
        == "system"@ {
        signals_of(m).dns_system == Some(m.resolvers[i].1.health.state)
    } else {
        severity(m.resolvers[i].1.health.state) <= severity(signals_of(m).dns_public)
    } by {
        if m.resolvers[i].0 == "system"@ {
            lemma_entry_is_found(m.resolvers, i);
        }
    }
}

/// The dishonest resolvers are named, in their order: one more resolver is added to the forged
/// where its answers are forged, to the hijacked where they are hijacked, and else to neither.
pub proof fn law_dishonest_resolvers_are_named(
    m: AppModel,
    resolvers: Seq<(Seq<char>, ResolverModel)>,
    name: Seq<char>,
    r: ResolverModel,
)
    ensures
        ({
            let none = signals_of(AppModel { resolvers: Seq::empty(), ..m });
            let before = signals_of(AppModel { resolvers, ..m });
            let after = signals_of(AppModel { resolvers: resolvers.push((name, r)), ..m });
            &&& none.dns_forged.len() == 0 && none.dns_hijacked.len() == 0
            &&& after.dns_forged == (if r.integrity == Integrity::Forged {
                before.dns_forged.push(name)
            } else {
                before.dns_forged
            })
            &&& after.dns_hijacked == (if r.integrity == Integrity::Hijacked {
                before.dns_hijacked.push(name)
            } else {
                before.dns_hijacked
            })
        }),
{
    reveal(signals_of);
    assert(resolvers.push((name, r)).drop_last() =~= resolvers);
}

// ---------------------------------------------------------------------------------------
// Endpoints
// ---------------------------------------------------------------------------------------

proof fn lemma_failing(s: Seq<(Seq<char>, ReachState)>)
    ensures
        failing(s) <= s.len(),
        failing(s) < s.len() <==> exists|i: int| 0 <= i < s.len() && (#[trigger] s[i]).1.ok,
    decreases s.len(),
{
    if s.len() > 0 {
        let init = s.drop_last();
        lemma_failing(init);
        let n = s.len() - 1;
        assert(s[n] == s.last());
        if exists|i: int| 0 <= i < init.len() && (#[trigger] init[i]).1.ok {
            let k = choose|k: int| 0 <= k < init.len() && (#[trigger] init[k]).1.ok;
            assert(s[k] == init[k]);
        }
        if exists|i: int| 0 <= i < s.len() && (#[trigger] s[i]).1.ok {
            let k = choose|k: int| 0 <= k < s.len() && (#[trigger] s[k]).1.ok;
            if k < n {
                assert(init[k].1.ok);
            }
        }
    }
}

/// Something on the web answers exactly where an endpoint passed its last check; all of it
/// fails where there are endpoints and none did. The reported health is the worst of theirs.
pub proof fn law_the_endpoint_signals(m: AppModel)
    ensures
        ({
            let s = signals_of(m);
            let some = exists|i: int|
                0 <= i < m.reachability.len() && (#[trigger] m.reachability[i]).1.ok;
            &&& s.reach_any_ok <==> some
            &&& s.reach_all_fail <==> m.reachability.len() > 0 && !some
            &&& s.reach_total == m.reachability.len()
            &&& forall|i: int|
                0 <= i < m.reachability.len() ==> severity(
                    (#[trigger] m.reachability[i]).1.health.state,
                ) <= severity(s.reach)
            &&& s.reach != Health::Good ==> exists|i: int|
                0 <= i < m.reachability.len() && (#[trigger] m.reachability[i]).1.health.state
                    == s.reach
        }),
{
    reveal(signals_of);
    lemma_failing(m.reachability);
    let states = reach_states(m.reachability);
    lemma_worst_in_is_worst(states);
    assert forall|i: int| 0 <= i < m.reachability.len() implies severity(
        (#[trigger] m.reachability[i]).1.health.state,
    ) <= severity(signals_of(m).reach) by {
        assert(states[i] == m.reachability[i].1.health.state);
    }
    if states.contains(signals_of(m).reach) {
        let k = choose|k: int| 0 <= k < states.len() && states[k] == signals_of(m).reach;
        assert(m.reachability[k].1.health.state == signals_of(m).reach);
    }
}

/// One more endpoint counts as failing exactly where its last check failed.
pub proof fn law_failing_endpoints_are_counted(
    m: AppModel,
    reachability: Seq<(Seq<char>, ReachState)>,
    name: Seq<char>,
    r: ReachState,
)
    ensures
        ({
            let none = signals_of(AppModel { reachability: Seq::empty(), ..m });
            let before = signals_of(AppModel { reachability, ..m });
            let after = signals_of(AppModel { reachability: reachability.push((name, r)), ..m });
            &&& none.reach_bad == 0
            &&& after.reach_bad == before.reach_bad + (if r.ok {
                0nat
            } else {
                1nat
            })
        }),
{
    reveal(signals_of);
    assert(reachability.push((name, r)).drop_last() =~= reachability);
}

proof fn lemma_tcp(s: Seq<(Seq<char>, HandshakeModel)>)
    ensures
        forall|i: int|
            0 <= i < s.len() ==> severity((#[trigger] s[i]).1.health.state) <= severity(
                tcp_health(s),
            ),
        tcp_health(s) != Health::Good ==> exists|i: int|
            0 <= i < s.len() && (#[trigger] s[i]).1.health.state == tcp_health(s),
    decreases s.len(),
{
    if s.len() > 0 {
        let init = s.drop_last();
        lemma_tcp(init);
        let n = s.len() - 1;
        let h = tcp_health(s);
        assert(s[n] == s.last());
        assert forall|i: int| 0 <= i < s.len() implies severity((#[trigger] s[i]).1.health.state)
            <= severity(h) by {
            if i < n {
                assert(init[i] == s[i]);
            }
        }
        if h != Health::Good && h == tcp_health(init) {
            let k = choose|k: int| 0 <= k < init.len() && (#[trigger] init[k]).1.health.state == h;
            assert(s[k] == init[k]);
        }
    }
}

proof fn lemma_tls(s: Seq<(Seq<char>, TlsModel)>)
    ensures
        forall|i: int|
            0 <= i < s.len() ==> severity((#[trigger] s[i]).1.handshake.health.state) <= severity(
                tls_health(s),
            ) && severity(s[i].1.expiry_health.state) <= severity(expiry_health(s)),
        tls_health(s) != Health::Good ==> exists|i: int|
            0 <= i < s.len() && (#[trigger] s[i]).1.handshake.health.state == tls_health(s),
        expiry_health(s) != Health::Good ==> exists|i: int|
            0 <= i < s.len() && (#[trigger] s[i]).1.expiry_health.state == expiry_health(s),
    decreases s.len(),
{
    if s.len() > 0 {
        let init = s.drop_last();
        lemma_tls(init);
        let n = s.len() - 1;
        let h = tls_health(s);
        let e = expiry_health(s);
        assert(s[n] == s.last());
        assert forall|i: int| 0 <= i < s.len() implies severity(
            (#[trigger] s[i]).1.handshake.health.state,
        ) <= severity(h) && severity(s[i].1.expiry_health.state) <= severity(e) by {
            if i < n {
                assert(init[i] == s[i]);
            }
        }
        if h != Health::Good && h == tls_health(init) {
            let k = choose|k: int|
                0 <= k < init.len() && (#[trigger] init[k]).1.handshake.health.state == h;
            assert(s[k] == init[k]);
        }
        if e != Health::Good && e == expiry_health(init) {
            let k = choose|k: int|
                0 <= k < init.len() && (#[trigger] init[k]).1.expiry_health.state == e;
            assert(s[k] == init[k]);
        }
    }
}

/// The transport is as bad as the worst handshake, with or without encryption; certificates
/// are a signal of their own.
pub proof fn law_the_transport_signals(m: AppModel)
    ensures
        ({
            let s = signals_of(m);
            &&& forall|i: int|
                0 <= i < m.tcp.len() ==> severity((#[trigger] m.tcp[i]).1.health.state)
                    <= severity(s.transport)
            &&& forall|i: int|
                0 <= i < m.tls.len() ==> severity((#[trigger] m.tls[i]).1.handshake.health.state)
                    <= severity(s.transport) && severity(m.tls[i].1.expiry_health.state)
                    <= severity(s.cert)
            &&& s.transport != Health::Good ==> (exists|i: int|
                0 <= i < m.tcp.len() && (#[trigger] m.tcp[i]).1.health.state == s.transport) || (
            exists|i: int|
                0 <= i < m.tls.len() && (#[trigger] m.tls[i]).1.handshake.health.state
                    == s.transport)
            &&& s.cert != Health::Good ==> exists|i: int|
                0 <= i < m.tls.len() && (#[trigger] m.tls[i]).1.expiry_health.state == s.cert
        }),
{
    reveal(signals_of);
    lemma_tcp(m.tcp);
    lemma_tls(m.tls);
}

proof fn lemma_soonest(s: Seq<(Seq<char>, TlsModel)>)
    ensures
        soonest(s) is None <==> forall|i: int|
            0 <= i < s.len() ==> (#[trigger] s[i]).1.expires_in_days is None,
        soonest(s) matches Some(p) ==> {
            &&& forall|i: int|
                0 <= i < s.len() && (#[trigger] s[i]).1.expires_in_days is Some ==> p.1
                    <= s[i].1.expires_in_days->0
            &&& exists|i: int|
                0 <= i < s.len() && (#[trigger] s[i]).0 == p.0 && s[i].1.expires_in_days == Some(
                    p.1,
                ) && forall|j: int|
                    0 <= j < i ==> (#[trigger] s[j]).1.expires_in_days != Some(p.1)
        },
    decreases s.len(),
{
    if s.len() > 0 {
        let init = s.drop_last();
        lemma_soonest(init);
        let n = s.len() - 1;
        assert(s[n] == s.last());
        assert forall|i: int| 0 <= i < n implies #[trigger] s[i] == init[i] by {}
        if soonest(init) is Some {
            let p = soonest(init)->0;
            let k = choose|k: int|
                0 <= k < init.len() && (#[trigger] init[k]).0 == p.0
                    && init[k].1.expires_in_days == Some(p.1) && forall|j: int|
                    0 <= j < k ==> (#[trigger] init[j]).1.expires_in_days != Some(p.1);
            assert(s[k] == init[k]);
            assert(s[k].1.expires_in_days is Some);
            assert forall|j: int| 0 <= j < k implies (#[trigger] s[j]).1.expires_in_days != Some(
                p.1,
            ) by {
                assert(init[j] == s[j]);
            }
        }
        if soonest(s) is None {
            assert forall|i: int| 0 <= i < s.len() implies (
            #[trigger] s[i]).1.expires_in_days is None by {
                if i < n {
                    assert(init[i].1.expires_in_days is None);
                }
            }
        } else {
            let p = soonest(s)->0;
            assert forall|i: int|
                0 <= i < s.len() && (#[trigger] s[i]).1.expires_in_days is Some implies p.1
                <= s[i].1.expires_in_days->0 by {
                if i < n {
                    assert(init[i].1.expires_in_days is Some);
                }
            }
            if p == (s.last().0, s.last().1.expires_in_days->0) && s.last().1.expires_in_days
                is Some && soonest(init) != Some(p) {
                assert(s[n].0 == p.0 && s[n].1.expires_in_days == Some(p.1));
                assert forall|j: int| 0 <= j < n implies (
                #[trigger] s[j]).1.expires_in_days != Some(p.1) by {
                    assert(init[j] == s[j]);
                    if init[j].1.expires_in_days == Some(p.1) {
                        assert(init[j].1.expires_in_days is Some);
                    }
                }
            }
        }
    }
}

/// The certificate named is the one that ends first, the first one of equals; there is none
/// exactly where no certificate was seen.
pub proof fn law_the_first_certificate_to_end_is_named(m: AppModel)
    ensures
        ({
            let c = signals_of(m).cert_soonest;
            &&& c is None <==> forall|i: int|
                0 <= i < m.tls.len() ==> (#[trigger] m.tls[i]).1.expires_in_days is None
            &&& c matches Some(p) ==> {
                &&& forall|i: int|
                    0 <= i < m.tls.len() && (#[trigger] m.tls[i]).1.expires_in_days is Some
                        ==> p.1 <= m.tls[i].1.expires_in_days->0
                &&& exists|i: int|
                    0 <= i < m.tls.len() && (#[trigger] m.tls[i]).0 == p.0
                        && m.tls[i].1.expires_in_days == Some(p.1) && forall|j: int|
                        0 <= j < i ==> (#[trigger] m.tls[j]).1.expires_in_days != Some(p.1)
            }
        }),
{
    reveal(signals_of);
    lemma_soonest(m.tls);
}

// ---------------------------------------------------------------------------------------
// The rest
// ---------------------------------------------------------------------------------------

/// The radio is judged by its latest reading: the signal against the bounds of the signal, and
/// its distance from the noise, where both are known, against those of quality. Its reported
/// health is kept apart.
pub proof fn law_the_radio_signals(m: AppModel)
    ensures
        ({
            let s = signals_of(m);
            let cfg = m.config.thresholds;
            &&& s.rssi_dbm == m.link.rssi_dbm && s.tx_rate == m.link.tx_rate
            &&& m.link.rssi_dbm is None ==> s.wifi_signal == Health::Good
            &&& m.link.rssi_dbm matches Some(r) ==> s.wifi_signal == cfg.rssi.health_of(r as int)
            &&& m.link.rssi_dbm is None || m.link.noise_dbm is None ==> s.snr_db is None
                && s.wifi_quality == Health::Good
            &&& m.link.rssi_dbm is Some && m.link.noise_dbm is Some && i64::MIN
                <= m.link.rssi_dbm->0 - m.link.noise_dbm->0 <= i64::MAX ==> s.snr_db is Some
                && s.snr_db->0 == m.link.rssi_dbm->0 - m.link.noise_dbm->0 && s.wifi_quality
                == cfg.snr.health_of(m.link.rssi_dbm->0 - m.link.noise_dbm->0)
            &&& m.link.health is None ==> s.radio == Health::Good
            &&& m.link.health matches Some(d) ==> s.radio == d.state
        }),
{
    reveal(signals_of);
}

/// The card, the portal, the route and what was measured under load are taken as they are
/// reported, and as good where nothing was measured yet.
pub proof fn law_the_other_signals(m: AppModel)
    ensures
        ({
            let s = signals_of(m);
            let t = m.throughput;
            &&& s.captive == m.captive_portal
            &&& s.routing_seen == m.routing.seen && s.routing_reachable == m.routing.reachable
            &&& m.routing.health matches Some(d) ==> s.route == d.state
            &&& m.routing.health is None ==> s.route == Health::Good
            &&& m.iface.health matches Some(d) ==> s.nic_errors == d.state
            &&& m.iface.health is None ==> s.nic_errors == Health::Good
            &&& m.iface.rx_errors is None || m.iface.tx_errors is None
                ==> s.nic_error_count is None
            &&& m.iface.rx_errors is Some && m.iface.tx_errors is Some && m.iface.rx_errors->0
                + m.iface.tx_errors->0 <= u64::MAX ==> s.nic_error_count is Some
                && s.nic_error_count->0 == m.iface.rx_errors->0 + m.iface.tx_errors->0
            &&& t.bufferbloat_health matches Some(d) ==> s.bufferbloat == d.state
            &&& t.bufferbloat_health is None ==> s.bufferbloat == Health::Good
            &&& t.idle_latency_ms is None || t.loaded_latency_ms is None
                ==> s.bufferbloat_ms is None
            &&& t.idle_latency_ms is Some && t.loaded_latency_ms is Some && 0
                <= t.idle_latency_ms->0 <= t.loaded_latency_ms->0 ==> s.bufferbloat_ms is Some
                && s.bufferbloat_ms->0 == t.loaded_latency_ms->0 - t.idle_latency_ms->0
            &&& t.idle_latency_ms is Some && t.loaded_latency_ms is Some && t.idle_latency_ms->0
                > t.loaded_latency_ms->0 ==> s.bufferbloat_ms == Some(0i64)
            &&& t.health matches Some(d) ==> s.capacity == d.state
            &&& t.health is None ==> s.capacity == Health::Good
            &&& s.capacity_mbps == t.last_mbps
        }),
{
    reveal(signals_of);
}

} // verus!
