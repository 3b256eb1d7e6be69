//! The header and the diagnosis agree: what the one calls unhealthy, the other explains.

use vstd::prelude::*;

use crate::app::rollup::{
    latency_states, loss_states, overall, panels, reach_states, resolver_states, tcp_states,
    tls_states,
};
use crate::app::state::{reported, HandshakeModel, ReachState, ResolverModel, TargetModel, TlsModel};
use crate::app::validity::valid;
use crate::app::AppModel;
use crate::diagnosis::{
    bad, coherent, diagnosed, endpoint_rule, gateway_bad, isp_rule, law_diagnosis_is_never_empty,
    law_diagnosis_lists_the_findings, law_known_faults_are_explained, law_worst_first_sorts,
    lemma_findings, lemma_rulings_hold, lemma_worst_covers_rule, ranked, rulings, SignalsModel,
};
use crate::health::{lemma_worst_in_is_worst, severity, worst_in, Health};
use crate::map::{lemma_entry_is_found, lemma_slot, ordered};
use crate::projection::{
    dns_honesty, expiry_health, failing, gateway_health, internet_of, jitter_of, public_dns,
    signals_of, target_health, tcp_health, tls_health,
};
use crate::unsaid::law_taking_symptoms_on;

verus! {

// ---------------------------------------------------------------------------------------
// The signals are no milder than what they sum up
// ---------------------------------------------------------------------------------------

/// `h` is worse than `w`.
pub open spec fn beyond(h: Health, w: Health) -> bool {
    severity(h) > severity(w)
}

proof fn lemma_gateways(s: Seq<(Seq<char>, TargetModel)>)
    ensures
        forall|i: int|
            0 <= i < s.len() && (#[trigger] s[i]).1.is_gateway ==> (gateway_health(s) matches Some(h)
                && !beyond(target_health(s[i].1), h)),
    decreases s.len(),
{
    if s.len() > 0 {
        let init = s.drop_last();
        lemma_gateways(init);
        assert forall|i: int| 0 <= i < s.len() && (#[trigger] s[i]).1.is_gateway implies (
        gateway_health(s) matches Some(h) && !beyond(target_health(s[i].1), h)) by {
            if i < init.len() {
                assert(init[i] == s[i]);
            }
        }
    }
}

proof fn lemma_internet(s: Seq<(Seq<char>, TargetModel)>)
    ensures
        internet_of(s).bad <= internet_of(s).total,
        internet_of(s).bad == 0 <==> internet_of(s).health == Health::Good,
        forall|i: int|
            0 <= i < s.len() && !(#[trigger] s[i]).1.is_gateway ==> !beyond(
                target_health(s[i].1),
                internet_of(s).health,
            ),
    decreases s.len(),
{
    if s.len() > 0 {
        let init = s.drop_last();
        lemma_internet(init);
        assert forall|i: int| 0 <= i < s.len() && !(#[trigger] s[i]).1.is_gateway implies !beyond(
            target_health(s[i].1),
            internet_of(s).health,
        ) by {
            if i < init.len() {
                assert(init[i] == s[i]);
            }
        }
    }
}

proof fn lemma_jitter(s: Seq<(Seq<char>, TargetModel)>)
    ensures
        forall|i: int|
            0 <= i < s.len() ==> !beyond(
                (#[trigger] s[i]).1.jitter_health.state,
                jitter_of(s, s[i].1.is_gateway),
            ),
    decreases s.len(),
{
    if s.len() > 0 {
        let init = s.drop_last();
        lemma_jitter(init);
        assert forall|i: int| 0 <= i < s.len() implies !beyond(
            (#[trigger] s[i]).1.jitter_health.state,
            jitter_of(s, s[i].1.is_gateway),
        ) by {
            if i < init.len() {
                assert(init[i] == s[i]);
            }
        }
    }
}

proof fn lemma_public_dns(s: Seq<(Seq<char>, ResolverModel)>)
    ensures
        forall|i: int|
            0 <= i < s.len() && (#[trigger] s[i]).0 != "system"@ ==> !beyond(
                s[i].1.health.state,
                public_dns(s),
            ),
    decreases s.len(),
{
    if s.len() > 0 {
        let init = s.drop_last();
        lemma_public_dns(init);
        assert forall|i: int| 0 <= i < s.len() && (#[trigger] s[i]).0 != "system"@ implies !beyond(
            s[i].1.health.state,
            public_dns(s),
        ) by {
            if i < init.len() {
                assert(init[i] == s[i]);
            }
        }
    }
}

proof fn lemma_honesty(s: Seq<(Seq<char>, ResolverModel)>)
    ensures
        forall|i: int|
            0 <= i < s.len() ==> !beyond(
                (#[trigger] s[i]).1.integrity_health.state,
                dns_honesty(s),
            ),
    decreases s.len(),
{
    if s.len() > 0 {
        let init = s.drop_last();
        lemma_honesty(init);
        assert forall|i: int| 0 <= i < s.len() implies !beyond(
            (#[trigger] s[i]).1.integrity_health.state,
            dns_honesty(s),
        ) by {
            if i < init.len() {
                assert(init[i] == s[i]);
            }
        }
    }
}

proof fn lemma_tcp(s: Seq<(Seq<char>, HandshakeModel)>)
    ensures
        forall|i: int|
            0 <= i < s.len() ==> !beyond((#[trigger] s[i]).1.health.state, tcp_health(s)),
    decreases s.len(),
{
    if s.len() > 0 {
        let init = s.drop_last();
        lemma_tcp(init);
        assert forall|i: int| 0 <= i < s.len() implies !beyond(
            (#[trigger] s[i]).1.health.state,
            tcp_health(s),
        ) by {
            if i < init.len() {
                assert(init[i] == s[i]);
            }
        }
    }
}

proof fn lemma_tls(s: Seq<(Seq<char>, TlsModel)>)
    ensures
        forall|i: int|
            0 <= i < s.len() ==> !beyond((#[trigger] s[i]).1.handshake.health.state, tls_health(s))
                && !beyond(s[i].1.expiry_health.state, expiry_health(s)),
    decreases s.len(),
{
    if s.len() > 0 {
        let init = s.drop_last();
        lemma_tls(init);
        assert forall|i: int| 0 <= i < s.len() implies !beyond(
            (#[trigger] s[i]).1.handshake.health.state,
            tls_health(s),
        ) && !beyond(s[i].1.expiry_health.state, expiry_health(s)) by {
            if i < init.len() {
                assert(init[i] == s[i]);
            }
        }
    }
}

proof fn lemma_failing(s: Seq<(Seq<char>, ReachState)>)
    ensures
        failing(s) <= s.len(),
        failing(s) == 0 <==> forall|i: int| 0 <= i < s.len() ==> (#[trigger] s[i]).1.ok,
    decreases s.len(),
{
    if s.len() > 0 {
        let init = s.drop_last();
        lemma_failing(init);
        if failing(s) == 0 {
            assert forall|i: int| 0 <= i < s.len() implies (#[trigger] s[i]).1.ok by {
                if i < init.len() {
                    assert(init[i] == s[i]);
                }
            }
        }
        if forall|i: int| 0 <= i < s.len() ==> (#[trigger] s[i]).1.ok {
            assert forall|i: int| 0 <= i < init.len() implies (#[trigger] init[i]).1.ok by {
                assert(init[i] == s[i]);
            }
            assert(s[s.len() - 1] == s.last());
        }
    }
}

/// The counts in the signals of a state agree with what they count.
pub proof fn law_signals_are_coherent(m: AppModel)
    ensures
        coherent(signals_of(m)),
{
    lemma_internet(m.targets);
    lemma_failing(m.reachability);
    reveal(signals_of);
}

/// A resolver's timing is no worse than the signal that it goes into.
proof fn lemma_timing(m: AppModel, i: int)
    requires
        ordered(m.resolvers),
        0 <= i < m.resolvers.len(),
    ensures
        ({
            let s = signals_of(m);
            let h = m.resolvers[i].1.health.state;
            (s.dns_system matches Some(x) && !beyond(h, x)) || !beyond(h, s.dns_public)
        }),
{
    reveal(signals_of);
    lemma_public_dns(m.resolvers);
    if m.resolvers[i].0 == "system"@ {
        lemma_entry_is_found(m.resolvers, i);
    }
}

// ---------------------------------------------------------------------------------------
// What the diagnosis says when nothing is wrong
// ---------------------------------------------------------------------------------------

/// The diagnosis says that nothing is wrong.
pub open spec fn all_clear(m: AppModel) -> bool {
    diagnosed(signals_of(m))[0].severity == Health::Good
}

/// No target loses packets, is slow or is unsteady.
pub open spec fn pings_well(s: Seq<(Seq<char>, TargetModel)>) -> bool {
    forall|i: int|
        0 <= i < s.len() ==> (#[trigger] s[i]).1.latency_health.state == Health::Good
            && s[i].1.loss_health.state == Health::Good && s[i].1.jitter_health.state
            == Health::Good
}

/// No resolver is slow or dishonest.
pub open spec fn resolves_well(s: Seq<(Seq<char>, ResolverModel)>) -> bool {
    forall|i: int|
        0 <= i < s.len() ==> (#[trigger] s[i]).1.health.state == Health::Good
            && s[i].1.integrity_health.state == Health::Good
}

/// No TCP endpoint is slow to connect.
pub open spec fn connects_well(s: Seq<(Seq<char>, HandshakeModel)>) -> bool {
    forall|i: int| 0 <= i < s.len() ==> (#[trigger] s[i]).1.health.state == Health::Good
}

/// No TLS endpoint is slow to negotiate or close to expiry.
pub open spec fn negotiates_well(s: Seq<(Seq<char>, TlsModel)>) -> bool {
    forall|i: int|
        0 <= i < s.len() ==> (#[trigger] s[i]).1.handshake.health.state == Health::Good
            && s[i].1.expiry_health.state == Health::Good
}

/// A snapshot that the diagnosis finds no fault with has none of the faults that it looks
/// for.
pub proof fn law_silence_of_the_rules(s: SignalsModel)
    requires
        diagnosed(s)[0].severity == Health::Good,
        coherent(s),
    ensures
        !bad(s.nic_errors),
        !bad(s.wifi_signal),
        !bad(s.wifi_quality),
        !gateway_bad(s),
        !s.captive,
        s.internet_bad == 0,
        !bad(s.bufferbloat),
        !(s.dns_system matches Some(h) && bad(h)),
        !bad(s.dns_public),
        !bad(s.dns_integrity),
        !bad(s.transport),
        !bad(s.cert),
        s.reach_bad == 0,
        !bad(s.reach),
        !bad(s.radio),
        !bad(s.route),
        !bad(s.capacity),
        !bad(s.jitter_gateway),
        !bad(s.jitter_internet),
{
    law_known_faults_are_explained(s);
    lemma_worst_covers_rule(s, isp_rule(s));
    lemma_worst_covers_rule(s, endpoint_rule(s));
}

/// "No problems detected" is true: no target, resolver, endpoint, certificate, radio or card
/// is unhealthy, nothing is intercepted, the route stands, and no load stalls the link.
pub proof fn law_all_clear_means_nothing_is_wrong(m: AppModel)
    requires
        all_clear(m),
        ordered(m.resolvers),
    ensures
        pings_well(m.targets),
        resolves_well(m.resolvers),
        connects_well(m.tcp),
        negotiates_well(m.tls),
        forall|i: int|
            0 <= i < m.reachability.len() ==> (#[trigger] m.reachability[i]).1.ok
                && m.reachability[i].1.health.state == Health::Good,
        !m.captive_portal,
        reported(m.iface.health) == Health::Good,
        reported(m.throughput.health) == Health::Good,
        reported(m.throughput.bufferbloat_health) == Health::Good,
        reported(m.routing.health) == Health::Good,
        reported(m.link.health) == Health::Good,
        m.link.rssi_dbm matches Some(v) ==> m.config.thresholds.rssi.health_of(v as int)
            == Health::Good,
{
    let s = signals_of(m);
    assert forall|i: int| 0 <= i < m.resolvers.len() implies (
    #[trigger] m.resolvers[i]).1.health.state == Health::Good
        || (s.dns_system matches Some(x) && bad(x)) || bad(s.dns_public) by {
        lemma_timing(m, i);
    }
    reveal(signals_of);
    lemma_internet(m.targets);
    lemma_failing(m.reachability);
    law_signals_are_coherent(m);
    law_silence_of_the_rules(s);
    lemma_gateways(m.targets);
    lemma_jitter(m.targets);
    assert forall|i: int| 0 <= i < m.targets.len() implies (
    #[trigger] m.targets[i]).1.latency_health.state == Health::Good
        && m.targets[i].1.loss_health.state == Health::Good && m.targets[i].1.jitter_health.state
        == Health::Good by {
        assert(target_health(m.targets[i].1) == Health::Good);
    }
    let reach = reach_states(m.reachability);
    lemma_worst_in_is_worst(reach);
    assert forall|i: int| 0 <= i < m.reachability.len() implies (
    #[trigger] m.reachability[i]).1.ok && m.reachability[i].1.health.state == Health::Good by {
        assert(!beyond(reach[i], worst_in(reach)));
    }
    lemma_honesty(m.resolvers);
    lemma_tcp(m.tcp);
    lemma_tls(m.tls);
}

// ---------------------------------------------------------------------------------------
// What the header claims
// ---------------------------------------------------------------------------------------

/// The severity of the worst verdict.
pub open spec fn worst_verdict(m: AppModel) -> Health {
    diagnosed(signals_of(m))[0].severity
}

proof fn lemma_latency_panel(m: AppModel)
    ensures
        !beyond(worst_in(latency_states(m.targets)), worst_verdict(m)),
        !beyond(worst_in(loss_states(m.targets)), worst_verdict(m)),
{
    let w = worst_verdict(m);
    let a = latency_states(m.targets);
    let b = loss_states(m.targets);
    law_known_faults_are_explained(signals_of(m));
    law_signals_are_coherent(m);
    lemma_gateways(m.targets);
    lemma_internet(m.targets);
    lemma_jitter(m.targets);
    lemma_worst_in_is_worst(a);
    lemma_worst_in_is_worst(b);
    reveal(signals_of);
    assert forall|i: int| 0 <= i < m.targets.len() implies !beyond(
        target_health((#[trigger] m.targets[i]).1),
        w,
    ) && !beyond(m.targets[i].1.jitter_health.state, w) by {}
    if worst_in(a) != Health::Good {
        let i = choose|i: int| 0 <= i < a.len() && a[i] == worst_in(a);
        assert(!beyond(target_health(m.targets[i].1), w));
    }
    if worst_in(b) != Health::Good {
        let i = choose|i: int| 0 <= i < b.len() && b[i] == worst_in(b);
        assert(!beyond(target_health(m.targets[i].1), w));
    }
}

proof fn lemma_dns_panel(m: AppModel)
    requires
        ordered(m.resolvers),
    ensures
        !beyond(worst_in(resolver_states(m.resolvers)), worst_verdict(m)),
{
    let a = resolver_states(m.resolvers);
    lemma_worst_in_is_worst(a);
    if worst_in(a) != Health::Good {
        let i = choose|i: int| 0 <= i < a.len() && a[i] == worst_in(a);
        law_known_faults_are_explained(signals_of(m));
    law_signals_are_coherent(m);
        lemma_timing(m, i);
        lemma_honesty(m.resolvers);
        reveal(signals_of);
        assert(!beyond(m.resolvers[i].1.integrity_health.state, dns_honesty(m.resolvers)));
    }
}

proof fn lemma_transport_panel(m: AppModel)
    ensures
        !beyond(worst_in(tcp_states(m.tcp)), worst_verdict(m)),
        !beyond(worst_in(tls_states(m.tls)), worst_verdict(m)),
{
    let a = tcp_states(m.tcp);
    let b = tls_states(m.tls);
    law_known_faults_are_explained(signals_of(m));
    law_signals_are_coherent(m);
    lemma_tcp(m.tcp);
    lemma_tls(m.tls);
    lemma_worst_in_is_worst(a);
    lemma_worst_in_is_worst(b);
    reveal(signals_of);
    if worst_in(a) != Health::Good {
        let i = choose|i: int| 0 <= i < a.len() && a[i] == worst_in(a);
        assert(!beyond(m.tcp[i].1.health.state, tcp_health(m.tcp)));
    }
    if worst_in(b) != Health::Good {
        let i = choose|i: int| 0 <= i < b.len() && b[i] == worst_in(b);
        assert(!beyond(m.tls[i].1.handshake.health.state, tls_health(m.tls)));
    }
}

/// The header never claims worse than the diagnosis explains: in every valid state the worst
/// verdict is at least as severe as the overall health.
pub proof fn law_the_header_claims_nothing_unexplained(m: AppModel)
    requires
        valid(m),
    ensures
        !beyond(overall(m), worst_verdict(m)),
{
    let w = worst_verdict(m);
    let p = panels(m);
    lemma_worst_in_is_worst(p);
    lemma_latency_panel(m);
    lemma_dns_panel(m);
    lemma_transport_panel(m);
    law_known_faults_are_explained(signals_of(m));
    law_signals_are_coherent(m);
    reveal(signals_of);
    assert(!beyond(p[0], w) && !beyond(p[1], w) && !beyond(p[2], w) && !beyond(p[3], w));
    assert(!beyond(p[4], w) && !beyond(p[5], w) && !beyond(p[6], w));
    if overall(m) != Health::Good {
        let k = choose|k: int| 0 <= k < p.len() && p[k] == overall(m);
        assert(!beyond(p[k], w));
    }
}

// ---------------------------------------------------------------------------------------
// What the diagnosis says ahead of the header
// ---------------------------------------------------------------------------------------

proof fn lemma_targets_within(s: Seq<(Seq<char>, TargetModel)>, h: Health)
    requires
        forall|i: int|
            0 <= i < s.len() ==> !beyond(target_health((#[trigger] s[i]).1), h) && !beyond(
                s[i].1.jitter_health.state,
                h,
            ),
    ensures
        gateway_health(s) matches Some(g) ==> !beyond(g, h),
        !beyond(internet_of(s).health, h),
        !beyond(jitter_of(s, true), h),
        !beyond(jitter_of(s, false), h),
    decreases s.len(),
{
    if s.len() > 0 {
        let init = s.drop_last();
        assert forall|i: int| 0 <= i < init.len() implies !beyond(
            target_health((#[trigger] init[i]).1),
            h,
        ) && !beyond(init[i].1.jitter_health.state, h) by {
            assert(init[i] == s[i]);
        }
        lemma_targets_within(init, h);
        assert(s[s.len() - 1] == s.last());
    }
}

proof fn lemma_resolvers_within(s: Seq<(Seq<char>, ResolverModel)>, h: Health)
    requires
        forall|i: int|
            0 <= i < s.len() ==> !beyond((#[trigger] s[i]).1.health.state, h) && !beyond(
                s[i].1.integrity_health.state,
                h,
            ),
    ensures
        !beyond(public_dns(s), h),
        !beyond(dns_honesty(s), h),
    decreases s.len(),
{
    if s.len() > 0 {
        let init = s.drop_last();
        assert forall|i: int| 0 <= i < init.len() implies !beyond(
            (#[trigger] init[i]).1.health.state,
            h,
        ) && !beyond(init[i].1.integrity_health.state, h) by {
            assert(init[i] == s[i]);
        }
        lemma_resolvers_within(init, h);
        assert(s[s.len() - 1] == s.last());
    }
}

proof fn lemma_tcp_within(s: Seq<(Seq<char>, HandshakeModel)>, h: Health)
    requires
        forall|i: int| 0 <= i < s.len() ==> !beyond((#[trigger] s[i]).1.health.state, h),
    ensures
        !beyond(tcp_health(s), h),
    decreases s.len(),
{
    if s.len() > 0 {
        let init = s.drop_last();
        assert forall|i: int| 0 <= i < init.len() implies !beyond(
            (#[trigger] init[i]).1.health.state,
            h,
        ) by {
            assert(init[i] == s[i]);
        }
        lemma_tcp_within(init, h);
        assert(s[s.len() - 1] == s.last());
    }
}

proof fn lemma_tls_within(s: Seq<(Seq<char>, TlsModel)>, h: Health)
    requires
        forall|i: int|
            0 <= i < s.len() ==> !beyond((#[trigger] s[i]).1.handshake.health.state, h) && !beyond(
                s[i].1.expiry_health.state,
                h,
            ),
    ensures
        !beyond(tls_health(s), h),
        !beyond(expiry_health(s), h),
    decreases s.len(),
{
    if s.len() > 0 {
        let init = s.drop_last();
        assert forall|i: int| 0 <= i < init.len() implies !beyond(
            (#[trigger] init[i]).1.handshake.health.state,
            h,
        ) && !beyond(init[i].1.expiry_health.state, h) by {
            assert(init[i] == s[i]);
        }
        lemma_tls_within(init, h);
        assert(s[s.len() - 1] == s.last());
    }
}

/// No panel is worse than the header, nor is any part of a panel.
proof fn lemma_parts_within(m: AppModel)
    ensures
        ({
            let h = overall(m);
            &&& forall|i: int|
                0 <= i < m.targets.len() ==> !beyond(
                    target_health((#[trigger] m.targets[i]).1),
                    h,
                ) && !beyond(m.targets[i].1.jitter_health.state, h)
            &&& forall|i: int|
                0 <= i < m.resolvers.len() ==> !beyond(
                    (#[trigger] m.resolvers[i]).1.health.state,
                    h,
                ) && !beyond(m.resolvers[i].1.integrity_health.state, h)
            &&& forall|i: int|
                0 <= i < m.tcp.len() ==> !beyond((#[trigger] m.tcp[i]).1.health.state, h)
            &&& forall|i: int|
                0 <= i < m.tls.len() ==> !beyond(
                    (#[trigger] m.tls[i]).1.handshake.health.state,
                    h,
                ) && !beyond(m.tls[i].1.expiry_health.state, h)
            &&& forall|i: int|
                0 <= i < m.reachability.len() ==> !beyond(
                    (#[trigger] m.reachability[i]).1.health.state,
                    h,
                )
            &&& !beyond(reported(m.iface.health), h)
            &&& !beyond(reported(m.captive_health), h)
            &&& !beyond(reported(m.throughput.bufferbloat_health), h)
            &&& !beyond(reported(m.throughput.health), h)
            &&& !beyond(reported(m.routing.health), h)
            &&& !beyond(reported(m.link.health), h)
            &&& !beyond(worst_in(reach_states(m.reachability)), h)
        }),
{
    let h = overall(m);
    let p = panels(m);
    lemma_worst_in_is_worst(p);
    assert(!beyond(p[0], h) && !beyond(p[1], h) && !beyond(p[2], h) && !beyond(p[3], h));
    assert(!beyond(p[4], h) && !beyond(p[5], h) && !beyond(p[6], h));
    let latency = latency_states(m.targets);
    let loss = loss_states(m.targets);
    let dns = resolver_states(m.resolvers);
    let reach = reach_states(m.reachability);
    let tcp = tcp_states(m.tcp);
    let tls = tls_states(m.tls);
    lemma_worst_in_is_worst(latency);
    lemma_worst_in_is_worst(loss);
    lemma_worst_in_is_worst(dns);
    lemma_worst_in_is_worst(reach);
    lemma_worst_in_is_worst(tcp);
    lemma_worst_in_is_worst(tls);
    assert forall|i: int| 0 <= i < m.targets.len() implies !beyond(
        target_health((#[trigger] m.targets[i]).1),
        h,
    ) && !beyond(m.targets[i].1.jitter_health.state, h) by {
        assert(!beyond(latency[i], h) && !beyond(loss[i], h));
    }
    assert forall|i: int| 0 <= i < m.resolvers.len() implies !beyond(
        (#[trigger] m.resolvers[i]).1.health.state,
        h,
    ) && !beyond(m.resolvers[i].1.integrity_health.state, h) by {
        assert(!beyond(dns[i], h));
    }
    assert forall|i: int| 0 <= i < m.tcp.len() implies !beyond(
        (#[trigger] m.tcp[i]).1.health.state,
        h,
    ) by {
        assert(!beyond(tcp[i], h));
    }
    assert forall|i: int| 0 <= i < m.tls.len() implies !beyond(
        (#[trigger] m.tls[i]).1.handshake.health.state,
        h,
    ) && !beyond(m.tls[i].1.expiry_health.state, h) by {
        assert(!beyond(tls[i], h));
    }
    assert forall|i: int| 0 <= i < m.reachability.len() implies !beyond(
        (#[trigger] m.reachability[i]).1.health.state,
        h,
    ) by {
        assert(!beyond(reach[i], h));
    }
}

/// The diagnosis reads something that the header has yet to report: a radio whose latest
/// reading is worse than the header, or an endpoint that failed its last check and is not
/// reported as down.
pub open spec fn ahead(m: AppModel) -> bool {
    let s = signals_of(m);
    ||| beyond(s.wifi_signal, overall(m))
    ||| beyond(s.wifi_quality, overall(m))
    ||| exists|i: int|
        0 <= i < m.reachability.len() && !(#[trigger] m.reachability[i]).1.ok
            && m.reachability[i].1.health.state != Health::Crit
}

/// The diagnosis never claims worse than the header shows, but where it is ahead: it reads
/// the radio and the endpoints as they are, and the header what has been confirmed of them.
pub proof fn law_the_diagnosis_claims_nothing_unshown(m: AppModel)
    requires
        valid(m),
    ensures
        beyond(worst_verdict(m), overall(m)) ==> ahead(m),
{
    let s = signals_of(m);
    let h = overall(m);
    if beyond(worst_verdict(m), h) && !ahead(m) {
        let v = diagnosed(s)[0];
        law_diagnosis_is_never_empty(s);
        assert(diagnosed(s).contains(v));
        law_diagnosis_lists_the_findings(s, v);
        lemma_findings(s, v);
        lemma_rulings_hold(s, v);
        let first = ranked(s)[0];
        if ranked(s).len() > 0 {
            law_worst_first_sorts(rulings(s), first);
            lemma_rulings_hold(s, first);
            law_taking_symptoms_on(first, s);
        }
        lemma_parts_within(m);
        lemma_targets_within(m.targets, h);
        lemma_resolvers_within(m.resolvers, h);
        lemma_tcp_within(m.tcp, h);
        lemma_tls_within(m.tls, h);
        lemma_failing(m.reachability);
        lemma_system_within(m, h);
        reveal(signals_of);
        if failing(m.reachability) > 0 {
            let i = choose|i: int|
                0 <= i < m.reachability.len() && !(#[trigger] m.reachability[i]).1.ok;
            assert(m.reachability[i].1.health.state == Health::Crit);
        }
    }
}

proof fn lemma_system_within(m: AppModel, h: Health)
    requires
        forall|i: int|
            0 <= i < m.resolvers.len() ==> !beyond((#[trigger] m.resolvers[i]).1.health.state, h),
    ensures
        signals_of(m).dns_system matches Some(x) ==> !beyond(x, h),
{
    reveal(signals_of);
    lemma_slot(m.resolvers, "system"@);
}

} // verus!
