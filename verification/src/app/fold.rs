//! Folding a reading into the state: each handler updates the part that the reading is about
//! and hands back the incidents it raised there.

use vstd::prelude::*;

use crate::app::observe::{
    address_report, at_most, bloat_measured, bloat_report, capacity_probed, capacity_report,
    captive_raw, captive_report, change, check_address, check_captive, checked, counted,
    counter_report, handshake_report, honesty_report, link_report, linked, looked_up, lookup_report,
    negotiated, path_report, ping_reports, pinged, rated, reach_report, reached, shook, tls_reports,
    traced,
};
use crate::app::state::{
    fresh_debouncer, fresh_handshake, fresh_resolver, fresh_target, fresh_tls, new_debouncer,
    or_fresh, HandshakeState, ReachState, ResolverState, TargetState, TlsState,
};
use crate::app::{AppModel, AppState};
use crate::health::{debounced, severity};
use crate::incidents::{incidents, Incident, IncidentModel};
use crate::map::{lemma_models, lemma_models_upsert, lemma_slot, lemma_with_default, lookup, upsert};
use crate::metrics::dns::{Answer, Integrity};
use crate::metrics::{hops, MetricId, Sample};
use crate::net::{over_vpn, RouteInfo};
use crate::text::text_of;
use crate::units::{Reading, Timestamp};

verus! {

/// What a map holds for `k`, or `fresh`.
pub open spec fn held_or<V>(s: Seq<(Seq<char>, V)>, k: Seq<char>, fresh: V) -> V {
    match lookup(s, k) {
        Some(v) => v,
        None => fresh,
    }
}

/// The state and the incidents after folding a reading in, before the incidents are
/// attributed, filtered and reported.
pub open spec fn folded(m: AppModel, now: Timestamp, sample: Sample) -> (
    AppModel,
    Seq<IncidentModel>,
) {
    let cfg = m.config.thresholds;
    match sample {
        Sample::Latency { target, rtt_ms } => {
            let t = held_or(m.targets, target@, fresh_target(false, cfg));
            (
                AppModel {
                    targets: upsert(m.targets, target@, pinged(t, cfg, now, rtt_ms)),
                    ..m
                },
                ping_reports(t, cfg, now, target@, rtt_ms),
            )
        },
        Sample::Dns { resolver, answer } => {
            let r = held_or(m.resolvers, resolver@, fresh_resolver(cfg));
            (
                AppModel {
                    resolvers: upsert(m.resolvers, resolver@, looked_up(r, cfg, now, answer)),
                    ..m
                },
                at_most(lookup_report(r, cfg, now, resolver@, answer)),
            )
        },
        Sample::DnsIntegrity { resolver, verdict } => {
            let r = held_or(m.resolvers, resolver@, fresh_resolver(cfg));
            (
                AppModel {
                    resolvers: upsert(m.resolvers, resolver@, checked(r, now, verdict)),
                    ..m
                },
                at_most(honesty_report(r, now, resolver@, verdict)),
            )
        },
        Sample::Reachability { endpoint, ok } => {
            let r = held_or(
                m.reachability,
                endpoint@,
                ReachState { ok: true, health: fresh_debouncer(cfg) },
            );
            (
                AppModel {
                    reachability: upsert(m.reachability, endpoint@, reached(r, now, ok)),
                    ..m
                },
                at_most(reach_report(r, now, endpoint@, ok)),
            )
        },
        Sample::CaptivePortal { detected } => {
            let d = or_fresh(m.captive_health, cfg);
            let raw = captive_raw(detected);
            (
                AppModel {
                    captive_health: Some(debounced(d, now, raw)),
                    captive_portal: match change(d, now, raw) {
                        Some(h) => severity(h) > 0,
                        None => m.captive_portal,
                    },
                    ..m
                },
                at_most(captive_report(m.captive_health, cfg, now, detected)),
            )
        },
        Sample::PublicIp { ip } => (
            AppModel { public_ip: Some(ip@), ..m },
            at_most(address_report(m.public_ip, now, ip@)),
        ),
        Sample::Throughput { rx_bps, tx_bps } => (
            AppModel { throughput: rated(m.throughput, cfg.history_len, rx_bps, tx_bps), ..m },
            Seq::empty(),
        ),
        Sample::ThroughputProbe { mbps } => (
            AppModel { throughput: capacity_probed(m.throughput, cfg, now, mbps), ..m },
            at_most(capacity_report(m.throughput, cfg, now, mbps)),
        ),
        Sample::Bufferbloat { idle_ms, loaded_ms } => (
            AppModel {
                throughput: bloat_measured(m.throughput, cfg, now, idle_ms, loaded_ms),
                ..m
            },
            at_most(bloat_report(m.throughput, cfg, now, idle_ms, loaded_ms)),
        ),
        Sample::Link { rssi_dbm, noise_dbm, tx_rate, ssid } => (
            AppModel {
                link: linked(m.link, cfg, now, rssi_dbm, noise_dbm, tx_rate, text_of(ssid)),
                ..m
            },
            at_most(link_report(m.link, cfg, now, rssi_dbm)),
        ),
        Sample::InterfaceErrors { rx_errors, tx_errors } => (
            AppModel { iface: counted(m.iface, cfg, now, rx_errors, tx_errors), ..m },
            at_most(counter_report(m.iface, cfg, now, rx_errors, tx_errors)),
        ),
        Sample::TcpHandshake { endpoint, connect_ms } => {
            let h = held_or(m.tcp, endpoint@, fresh_handshake(cfg));
            (
                AppModel {
                    tcp: upsert(m.tcp, endpoint@, shook(h, cfg, now, connect_ms)),
                    ..m
                },
                at_most(
                    handshake_report(
                        h,
                        cfg,
                        now,
                        MetricId::TcpHandshake,
                        endpoint@,
                        connect_ms,
                    ),
                ),
            )
        },
        Sample::Tls { endpoint, handshake_ms, expires_in_days } => {
            let t = held_or(m.tls, endpoint@, fresh_tls(cfg));
            (
                AppModel {
                    tls: upsert(
                        m.tls,
                        endpoint@,
                        negotiated(t, cfg, now, handshake_ms, expires_in_days),
                    ),
                    ..m
                },
                tls_reports(t, cfg, now, endpoint@, handshake_ms, expires_in_days),
            )
        },
        Sample::Routing { target, hops: hop_count, reachable, changed, detail } => (
            AppModel {
                routing: traced(m.routing, cfg, now, hop_count, reachable, changed, hops(detail@)),
                ..m
            },
            at_most(path_report(m.routing, cfg, now, target@, hop_count, reachable, changed)),
        ),
    }
}

impl AppState {
    fn apply_latency(&mut self, now: Timestamp, target: String, rtt_ms: Option<Reading>) -> (out:
        Vec<Incident>)
        ensures
            (final(self)@, incidents(out@)) == folded(
                old(self)@,
                now,
                Sample::Latency { target, rtt_ms },
            ),
    {
        let ghost before = self.targets@;
        let cfg = self.config.thresholds;
        let name = target.clone();
        let fresh = TargetState::new(false, &cfg);
        proof {
            lemma_models(before, target@);
            lemma_slot(before, target@);
        }
        let p: usize = self.targets.entry(target, fresh);
        let ghost mid = self.targets@;
        proof {
            lemma_with_default(before, target@, fresh, fresh);
        }
        let out = self.targets.value_at_mut(p).ping(&cfg, now, name.as_str(), rtt_ms);
        proof {
            let v = self.targets@[p as int].1;
            lemma_with_default(before, target@, fresh, v);
            lemma_models_upsert(before, target@, v);
            assert(self.targets@ =~= mid.update(p as int, (target@, v)));
        }
        out
    }

    fn apply_dns(&mut self, now: Timestamp, resolver: String, answer: Answer) -> (out: Vec<
        Incident,
    >)
        ensures
            (final(self)@, incidents(out@)) == folded(
                old(self)@,
                now,
                Sample::Dns { resolver, answer },
            ),
    {
        let ghost before = self.resolvers@;
        let cfg = self.config.thresholds;
        let name = resolver.clone();
        let fresh = ResolverState::new(&cfg);
        proof {
            lemma_models(before, resolver@);
            lemma_slot(before, resolver@);
        }
        let p: usize = self.resolvers.entry(resolver, fresh);
        let ghost mid = self.resolvers@;
        proof {
            lemma_with_default(before, resolver@, fresh, fresh);
        }
        let out = self.resolvers.value_at_mut(p).lookup(&cfg, now, name.as_str(), answer);
        proof {
            let v = self.resolvers@[p as int].1;
            lemma_with_default(before, resolver@, fresh, v);
            lemma_models_upsert(before, resolver@, v);
            assert(self.resolvers@ =~= mid.update(p as int, (resolver@, v)));
        }
        out
    }

    fn apply_dns_integrity(&mut self, now: Timestamp, resolver: String, verdict: Integrity) -> (out:
        Vec<Incident>)
        ensures
            (final(self)@, incidents(out@)) == folded(
                old(self)@,
                now,
                Sample::DnsIntegrity { resolver, verdict },
            ),
    {
        let ghost before = self.resolvers@;
        let cfg = self.config.thresholds;
        let name = resolver.clone();
        let fresh = ResolverState::new(&cfg);
        proof {
            lemma_models(before, resolver@);
            lemma_slot(before, resolver@);
        }
        let p: usize = self.resolvers.entry(resolver, fresh);
        let ghost mid = self.resolvers@;
        proof {
            lemma_with_default(before, resolver@, fresh, fresh);
        }
        let out = self.resolvers.value_at_mut(p).check(now, name.as_str(), verdict);
        proof {
            let v = self.resolvers@[p as int].1;
            lemma_with_default(before, resolver@, fresh, v);
            lemma_models_upsert(before, resolver@, v);
            assert(self.resolvers@ =~= mid.update(p as int, (resolver@, v)));
        }
        out
    }

    fn apply_reachability(&mut self, now: Timestamp, endpoint: String, ok: bool) -> (out: Vec<
        Incident,
    >)
        ensures
            (final(self)@, incidents(out@)) == folded(
                old(self)@,
                now,
                Sample::Reachability { endpoint, ok },
            ),
    {
        let ghost before = self.reachability@;
        let cfg = self.config.thresholds;
        let name = endpoint.clone();
        let fresh = ReachState { ok: true, health: new_debouncer(&cfg) };
        proof {
            lemma_slot(before, endpoint@);
        }
        let p: usize = self.reachability.entry(endpoint, fresh);
        let ghost mid = self.reachability@;
        proof {
            lemma_with_default(before, endpoint@, fresh, fresh);
        }
        let out = self.reachability.value_at_mut(p).check(now, name.as_str(), ok);
        proof {
            let v = self.reachability@[p as int].1;
            lemma_with_default(before, endpoint@, fresh, v);
            assert(self.reachability@ =~= mid.update(p as int, (endpoint@, v)));
        }
        out
    }

    fn apply_tcp(&mut self, now: Timestamp, endpoint: String, connect_ms: Option<Reading>) -> (out:
        Vec<Incident>)
        ensures
            (final(self)@, incidents(out@)) == folded(
                old(self)@,
                now,
                Sample::TcpHandshake { endpoint, connect_ms },
            ),
    {
        let ghost before = self.tcp@;
        let cfg = self.config.thresholds;
        let name = endpoint.clone();
        let fresh = HandshakeState::new(&cfg);
        proof {
            lemma_models(before, endpoint@);
            lemma_slot(before, endpoint@);
        }
        let p: usize = self.tcp.entry(endpoint, fresh);
        let ghost mid = self.tcp@;
        proof {
            lemma_with_default(before, endpoint@, fresh, fresh);
        }
        let out = self.tcp.value_at_mut(p).shake(
            &cfg,
            now,
            MetricId::TcpHandshake,
            name.as_str(),
            connect_ms,
        );
        proof {
            let v = self.tcp@[p as int].1;
            lemma_with_default(before, endpoint@, fresh, v);
            lemma_models_upsert(before, endpoint@, v);
            assert(self.tcp@ =~= mid.update(p as int, (endpoint@, v)));
        }
        out
    }

    fn apply_tls(
        &mut self,
        now: Timestamp,
        endpoint: String,
        handshake_ms: Option<Reading>,
        expires_in_days: Option<i64>,
    ) -> (out: Vec<Incident>)
        ensures
            (final(self)@, incidents(out@)) == folded(
                old(self)@,
                now,
                Sample::Tls { endpoint, handshake_ms, expires_in_days },
            ),
    {
        let ghost before = self.tls@;
        let cfg = self.config.thresholds;
        let name = endpoint.clone();
        let fresh = TlsState::new(&cfg);
        proof {
            lemma_models(before, endpoint@);
            lemma_slot(before, endpoint@);
        }
        let p: usize = self.tls.entry(endpoint, fresh);
        let ghost mid = self.tls@;
        proof {
            lemma_with_default(before, endpoint@, fresh, fresh);
        }
        let out = self.tls.value_at_mut(p).negotiate(
            &cfg,
            now,
            name.as_str(),
            handshake_ms,
            expires_in_days,
        );
        proof {
            let v = self.tls@[p as int].1;
            lemma_with_default(before, endpoint@, fresh, v);
            lemma_models_upsert(before, endpoint@, v);
            assert(self.tls@ =~= mid.update(p as int, (endpoint@, v)));
        }
        out
    }

    fn apply_captive(&mut self, now: Timestamp, detected: bool) -> (out: Vec<Incident>)
        ensures
            (final(self)@, incidents(out@)) == folded(
                old(self)@,
                now,
                Sample::CaptivePortal { detected },
            ),
    {
        let cfg = self.config.thresholds;
        let (committed, out) = check_captive(&mut self.captive_health, &cfg, now, detected);
        match committed {
            Some(h) => {
                self.captive_portal = h.level() > 0;
            },
            None => {},
        }
        out
    }

    fn apply_public_ip(&mut self, now: Timestamp, ip: String) -> (out: Vec<Incident>)
        ensures
            (final(self)@, incidents(out@)) == folded(old(self)@, now, Sample::PublicIp { ip }),
    {
        let out = check_address(&self.public_ip, now, ip.as_str());
        self.public_ip = Some(ip);
        out
    }

    /// Fold one reading in, without reporting what it raised.
    pub fn fold(&mut self, now: Timestamp, sample: Sample) -> (out: Vec<Incident>)
        ensures
            (final(self)@, incidents(out@)) == folded(old(self)@, now, sample),
    {
        match sample {
            Sample::Latency { target, rtt_ms } => self.apply_latency(now, target, rtt_ms),
            Sample::Dns { resolver, answer } => self.apply_dns(now, resolver, answer),
            Sample::DnsIntegrity { resolver, verdict } => self.apply_dns_integrity(
                now,
                resolver,
                verdict,
            ),
            Sample::Reachability { endpoint, ok } => self.apply_reachability(now, endpoint, ok),
            Sample::CaptivePortal { detected } => self.apply_captive(now, detected),
            Sample::PublicIp { ip } => self.apply_public_ip(now, ip),
            Sample::Throughput { rx_bps, tx_bps } => {
                let cap: usize = self.config.thresholds.history_len;
                self.throughput.rate(cap, rx_bps, tx_bps);
                let out: Vec<Incident> = Vec::new();
                assert(incidents(out@) =~= Seq::<IncidentModel>::empty());
                out
            },
            Sample::ThroughputProbe { mbps } => {
                let cfg = self.config.thresholds;
                self.throughput.probe(&cfg, now, mbps)
            },
            Sample::Bufferbloat { idle_ms, loaded_ms } => {
                let cfg = self.config.thresholds;
                self.throughput.measure_bloat(&cfg, now, idle_ms, loaded_ms)
            },
            Sample::Link { rssi_dbm, noise_dbm, tx_rate, ssid } => {
                let cfg = self.config.thresholds;
                self.link.read(&cfg, now, rssi_dbm, noise_dbm, tx_rate, ssid)
            },
            Sample::InterfaceErrors { rx_errors, tx_errors } => {
                let cfg = self.config.thresholds;
                self.iface.count(&cfg, now, rx_errors, tx_errors)
            },
            Sample::TcpHandshake { endpoint, connect_ms } => self.apply_tcp(
                now,
                endpoint,
                connect_ms,
            ),
            Sample::Tls { endpoint, handshake_ms, expires_in_days } => self.apply_tls(
                now,
                endpoint,
                handshake_ms,
                expires_in_days,
            ),
            Sample::Routing { target, hops: hop_count, reachable, changed, detail } => {
                let cfg = self.config.thresholds;
                self.routing.trace(
                    &cfg,
                    now,
                    target.as_str(),
                    hop_count,
                    reachable,
                    changed,
                    detail,
                )
            },
        }
    }

    /// Record default-route facts (interface, MTU, VPN) detected at startup.
    pub fn apply_route_info(&mut self, info: &RouteInfo)
        ensures
            final(self)@ == (AppModel {
                interface: crate::app::observe::newer(info@.interface, old(self)@.interface),
                mtu: crate::app::observe::newer(info@.mtu, old(self)@.mtu),
                vpn: over_vpn(info@),
                ..old(self)@
            }),
    {
        if info.interface.is_some() {
            self.interface = crate::incidents::copy_text(&info.interface);
        }
        if info.mtu.is_some() {
            self.mtu = info.mtu;
        }
        self.vpn = info.is_vpn();
    }
}

} // verus!
