//! What one reading does to the part of the state that it is about, and the incidents it
//! raises there.

use vstd::prelude::*;

use crate::app::report::{incident_for, joined3, scalar_report, status_incident, status_report};
use crate::app::state::{
    latency_thresholds_of, new_debouncer, or_empty, or_fresh, push_series, HandshakeModel,
    HandshakeState, IfaceState, LinkModel, LinkState, ReachState, ResolverModel, ResolverState,
    RoutingModel, RoutingState, TargetModel, TargetState, ThroughputModel, ThroughputState,
    TlsModel, TlsState,
};
use crate::config::ThresholdConfig;
use crate::format::{decimal, fixed0, push_decimal, push_fixed0};
use crate::health::{commits, debounced, Debouncer, Health};
use crate::history::{jitter_of, loss_of, Bounded};
use crate::incidents::{event, incidents, Incident, IncidentModel};
use crate::metrics::dns::{answer_latency, Answer, Integrity};
use crate::metrics::{hops, Hop, HopModel, MetricId};
use crate::text::text_of;
use crate::units::{clamped, difference, Reading, Timestamp};

verus! {

/// The transition that a debouncer reports on seeing `raw` at `now`.
pub open spec fn change(d: Debouncer, now: Timestamp, raw: Health) -> Option<Health> {
    if commits(d, now, raw) {
        Some(raw)
    } else {
        None
    }
}

/// No incident, or one.
pub open spec fn at_most(i: Option<IncidentModel>) -> Seq<IncidentModel> {
    match i {
        Some(x) => seq![x],
        None => Seq::empty(),
    }
}

/// A list of no incident, or one.
fn listed(i: Option<Incident>) -> (v: Vec<Incident>)
    ensures
        incidents(v@) == at_most(crate::app::state::incident_model(i)),
{
    let mut v: Vec<Incident> = Vec::new();
    match i {
        Some(x) => {
            v.push(x);
        },
        None => {},
    }
    assert(incidents(v@) =~= at_most(crate::app::state::incident_model(i)));
    v
}

/// Append an incident to a list.
fn note(v: &mut Vec<Incident>, i: Incident)
    ensures
        incidents(final(v)@) == incidents(old(v)@) + seq![i@],
{
    v.push(i);
    assert(incidents(v@) =~= incidents(old(v)@) + seq![i@]);
}

// ---------------------------------------------------------------------------------------
// Ping
// ---------------------------------------------------------------------------------------

/// The latency history after an echo: a timeout adds nothing to it.
pub open spec fn latency_series(t: TargetModel, rtt: Option<Reading>) -> Bounded<Reading> {
    match rtt {
        Some(r) => t.latency_ms.pushed(r),
        None => t.latency_ms,
    }
}

/// The raw latency health of an echo. A timed-out ping is a latency failure in its own right:
/// evaluating the *stale* last-good RTT would keep reporting "healthy" straight through a
/// total outage.
pub open spec fn latency_raw(t: TargetModel, cfg: ThresholdConfig, rtt: Option<Reading>) -> Health {
    match rtt {
        Some(r) => latency_thresholds_of(t.is_gateway, cfg).health_of(r as int),
        None => Health::Crit,
    }
}

/// A ping target after an echo.
pub open spec fn pinged(
    t: TargetModel,
    cfg: ThresholdConfig,
    now: Timestamp,
    rtt: Option<Reading>,
) -> TargetModel {
    let latency = latency_series(t, rtt);
    let loss = t.loss.pushed(rtt is Some);
    let pct = loss_of(loss.items);
    TargetModel {
        is_gateway: t.is_gateway,
        latency_ms: latency,
        loss,
        loss_history: t.loss_history.pushed(pct),
        latency_health: debounced(t.latency_health, now, latency_raw(t, cfg, rtt)),
        jitter_health: match jitter_of(latency.items) {
            Some(j) => debounced(t.jitter_health, now, cfg.jitter.health_of(j as int)),
            None => t.jitter_health,
        },
        loss_health: debounced(t.loss_health, now, cfg.loss.health_of(pct as int)),
    }
}

/// What an echo reports of the latency.
pub open spec fn latency_report(
    t: TargetModel,
    cfg: ThresholdConfig,
    now: Timestamp,
    name: Seq<char>,
    rtt: Option<Reading>,
) -> Option<IncidentModel> {
    match (change(t.latency_health, now, latency_raw(t, cfg, rtt)), rtt) {
        (Some(sev), Some(r)) => Some(
            scalar_report(
                now,
                MetricId::Latency,
                name,
                sev,
                r,
                "ms"@,
                latency_thresholds_of(t.is_gateway, cfg),
            ),
        ),
        (Some(sev), None) => Some(
            status_report(
                now,
                MetricId::Latency,
                name,
                sev,
                "latency probe timed out ("@ + name + ")"@,
            ),
        ),
        (None, _) => None,
    }
}

/// What an echo reports of the jitter.
pub open spec fn jitter_report(
    t: TargetModel,
    cfg: ThresholdConfig,
    now: Timestamp,
    name: Seq<char>,
    rtt: Option<Reading>,
) -> Option<IncidentModel> {
    match jitter_of(latency_series(t, rtt).items) {
        Some(j) => match change(t.jitter_health, now, cfg.jitter.health_of(j as int)) {
            Some(sev) => Some(
                scalar_report(now, MetricId::Jitter, name, sev, j, "ms"@, cfg.jitter),
            ),
            None => None,
        },
        None => None,
    }
}

/// What an echo reports of the loss.
pub open spec fn loss_report(
    t: TargetModel,
    cfg: ThresholdConfig,
    now: Timestamp,
    name: Seq<char>,
    rtt: Option<Reading>,
) -> Option<IncidentModel> {
    let pct = loss_of(t.loss.pushed(rtt is Some).items);
    match change(t.loss_health, now, cfg.loss.health_of(pct as int)) {
        Some(sev) => Some(scalar_report(now, MetricId::Loss, name, sev, pct, "%"@, cfg.loss)),
        None => None,
    }
}

/// The incidents that an echo raises: of latency, of jitter and of loss, in that order.
pub open spec fn ping_reports(
    t: TargetModel,
    cfg: ThresholdConfig,
    now: Timestamp,
    name: Seq<char>,
    rtt: Option<Reading>,
) -> Seq<IncidentModel> {
    at_most(latency_report(t, cfg, now, name, rtt)) + at_most(
        jitter_report(t, cfg, now, name, rtt),
    ) + at_most(loss_report(t, cfg, now, name, rtt))
}

impl TargetState {
    /// Fold one echo in.
    pub fn ping(&mut self, cfg: &ThresholdConfig, now: Timestamp, name: &str, rtt: Option<Reading>)
        -> (out: Vec<Incident>)
        ensures
            final(self)@ == pinged(old(self)@, *cfg, now, rtt),
            incidents(out@) == ping_reports(old(self)@, *cfg, now, name@, rtt),
    {
        let ghost t = self@;
        match rtt {
            Some(r) => {
                self.latency_ms.push(r);
                self.loss.record(true);
            },
            None => {
                self.loss.record(false);
            },
        }
        let mut out: Vec<Incident> = Vec::new();
        assert(incidents(out@) =~= Seq::<IncidentModel>::empty());

        // Latency (uses gateway or internet thresholds depending on the target's role).
        let lat_thr = self.latency_thresholds(cfg);
        match rtt {
            Some(r) => {
                let raw = lat_thr.evaluate(r);
                match self.latency_health.update(now, raw) {
                    Some(sev) => {
                        note(
                            &mut out,
                            incident_for(now, MetricId::Latency, name, sev, r, "ms", &lat_thr),
                        );
                    },
                    None => {},
                }
            },
            None => {
                match self.latency_health.update(now, Health::Crit) {
                    Some(sev) => {
                        let message = joined3("latency probe timed out (", name, ")");
                        note(
                            &mut out,
                            status_incident(now, MetricId::Latency, name, sev, message),
                        );
                    },
                    None => {},
                }
            },
        }
        assert(incidents(out@) =~= at_most(latency_report(t, *cfg, now, name@, rtt)));
        let ghost o1 = incidents(out@);

        // Jitter (shares the Latency panel).
        match self.latency_ms.jitter() {
            Some(jitter) => {
                let raw = cfg.jitter.evaluate(jitter);
                match self.jitter_health.update(now, raw) {
                    Some(sev) => {
                        note(
                            &mut out,
                            incident_for(
                                now,
                                MetricId::Jitter,
                                name,
                                sev,
                                jitter,
                                "ms",
                                &cfg.jitter,
                            ),
                        );
                    },
                    None => {},
                }
            },
            None => {},
        }
        assert(incidents(out@) =~= o1 + at_most(jitter_report(t, *cfg, now, name@, rtt)));
        let ghost o2 = incidents(out@);

        // Loss.
        let loss_pct: Reading = self.loss.loss_pct();
        self.loss_history.push(loss_pct);
        let raw = cfg.loss.evaluate(loss_pct);
        match self.loss_health.update(now, raw) {
            Some(sev) => {
                note(
                    &mut out,
                    incident_for(now, MetricId::Loss, name, sev, loss_pct, "%", &cfg.loss),
                );
            },
            None => {},
        }
        assert(incidents(out@) =~= o2 + at_most(loss_report(t, *cfg, now, name@, rtt)));
        out
    }
}

// ---------------------------------------------------------------------------------------
// DNS
// ---------------------------------------------------------------------------------------

/// The raw health of a lookup: a failed one is critical.
pub open spec fn lookup_raw(cfg: ThresholdConfig, latency: Option<Reading>) -> Health {
    match latency {
        Some(ms) => cfg.dns.health_of(ms as int),
        None => Health::Crit,
    }
}

/// A resolver after a lookup.
pub open spec fn looked_up(
    r: ResolverModel,
    cfg: ThresholdConfig,
    now: Timestamp,
    answer: Answer,
) -> ResolverModel {
    let latency = answer_latency(answer);
    ResolverModel {
        latency_ms: match latency {
            Some(ms) => r.latency_ms.pushed(ms),
            None => r.latency_ms,
        },
        last_ok: latency is Some,
        health: debounced(r.health, now, lookup_raw(cfg, latency)),
        ..r
    }
}

/// What a lookup reports.
pub open spec fn lookup_report(
    r: ResolverModel,
    cfg: ThresholdConfig,
    now: Timestamp,
    name: Seq<char>,
    answer: Answer,
) -> Option<IncidentModel> {
    let latency = answer_latency(answer);
    match change(r.health, now, lookup_raw(cfg, latency)) {
        Some(sev) => Some(
            if sev == Health::Good {
                status_report(
                    now,
                    MetricId::Dns,
                    name,
                    sev,
                    "dns recovered ("@ + name + ")"@,
                )
            } else {
                match latency {
                    None => status_report(
                        now,
                        MetricId::Dns,
                        name,
                        sev,
                        "dns failed ("@ + name + ")"@,
                    ),
                    Some(ms) => scalar_report(now, MetricId::Dns, name, sev, ms, "ms"@, cfg.dns),
                }
            },
        ),
        None => None,
    }
}

/// The raw health of an honesty verdict.
pub open spec fn honesty_raw(verdict: Integrity) -> Health {
    match verdict {
        Integrity::Honest => Health::Good,
        _ => Health::Warn,
    }
}

/// A resolver after an honesty check.
pub open spec fn checked(r: ResolverModel, now: Timestamp, verdict: Integrity) -> ResolverModel {
    ResolverModel {
        integrity: verdict,
        integrity_health: debounced(r.integrity_health, now, honesty_raw(verdict)),
        ..r
    }
}

/// What an honesty verdict says of a resolver.
pub open spec fn honesty_message(verdict: Integrity, name: Seq<char>) -> Seq<char> {
    match verdict {
        Integrity::Honest => "dns answers are honest again ("@ + name + ")"@,
        Integrity::Hijacked => "dns answers for names it does not own ("@ + name + ")"@,
        Integrity::Forged => "dns answers are forged ("@ + name + ")"@,
    }
}

/// What an honesty check reports.
pub open spec fn honesty_report(
    r: ResolverModel,
    now: Timestamp,
    name: Seq<char>,
    verdict: Integrity,
) -> Option<IncidentModel> {
    match change(r.integrity_health, now, honesty_raw(verdict)) {
        Some(sev) => Some(
            status_report(now, MetricId::DnsIntegrity, name, sev, honesty_message(verdict, name)),
        ),
        None => None,
    }
}

impl ResolverState {
    /// Fold one lookup in.
    pub fn lookup(&mut self, cfg: &ThresholdConfig, now: Timestamp, name: &str, answer: Answer)
        -> (out: Vec<Incident>)
        ensures
            final(self)@ == looked_up(old(self)@, *cfg, now, answer),
            incidents(out@) == at_most(lookup_report(old(self)@, *cfg, now, name@, answer)),
    {
        let latency = answer.latency_ms();
        let raw = match latency {
            Some(ms) => {
                self.latency_ms.push(ms);
                self.last_ok = true;
                cfg.dns.evaluate(ms)
            },
            None => {
                self.last_ok = false;
                Health::Crit  // a failed lookup is critical
            },
        };
        let incident = match self.health.update(now, raw) {
            Some(sev) => Some(
                match (sev, latency) {
                    (Health::Good, _) => status_incident(
                        now,
                        MetricId::Dns,
                        name,
                        sev,
                        joined3("dns recovered (", name, ")"),
                    ),
                    (_, None) => status_incident(
                        now,
                        MetricId::Dns,
                        name,
                        sev,
                        joined3("dns failed (", name, ")"),
                    ),
                    (_, Some(ms)) => incident_for(
                        now,
                        MetricId::Dns,
                        name,
                        sev,
                        ms,
                        "ms",
                        &cfg.dns,
                    ),
                },
            ),
            None => None,
        };
        listed(incident)
    }

    /// Fold one honesty verdict in.
    pub fn check(&mut self, now: Timestamp, name: &str, verdict: Integrity) -> (out: Vec<Incident>)
        ensures
            final(self)@ == checked(old(self)@, now, verdict),
            incidents(out@) == at_most(honesty_report(old(self)@, now, name@, verdict)),
    {
        self.integrity = verdict;
        let raw = match verdict {
            Integrity::Honest => Health::Good,
            _ => Health::Warn,
        };
        let incident = match self.integrity_health.update(now, raw) {
            Some(sev) => {
                let lead = match verdict {
                    Integrity::Honest => "dns answers are honest again (",
                    Integrity::Hijacked => "dns answers for names it does not own (",
                    Integrity::Forged => "dns answers are forged (",
                };
                Some(
                    status_incident(
                        now,
                        MetricId::DnsIntegrity,
                        name,
                        sev,
                        joined3(lead, name, ")"),
                    ),
                )
            },
            None => None,
        };
        listed(incident)
    }
}

// ---------------------------------------------------------------------------------------
// Endpoints
// ---------------------------------------------------------------------------------------

/// The raw health of a reachability check.
pub open spec fn reach_raw(ok: bool) -> Health {
    if ok {
        Health::Good
    } else {
        Health::Crit
    }
}

/// An endpoint after a reachability check.
pub open spec fn reached(r: ReachState, now: Timestamp, ok: bool) -> ReachState {
    ReachState { ok, health: debounced(r.health, now, reach_raw(ok)) }
}

/// What a reachability check reports.
pub open spec fn reach_report(r: ReachState, now: Timestamp, name: Seq<char>, ok: bool) -> Option<
    IncidentModel,
> {
    match change(r.health, now, reach_raw(ok)) {
        Some(sev) => Some(
            status_report(
                now,
                MetricId::Reachability,
                name,
                sev,
                name + (if sev == Health::Good {
                    " reachable"@
                } else {
                    " unreachable"@
                }),
            ),
        ),
        None => None,
    }
}

impl ReachState {
    /// Fold one check in.
    pub fn check(&mut self, now: Timestamp, name: &str, ok: bool) -> (out: Vec<Incident>)
        ensures
            *final(self) == reached(*old(self), now, ok),
            incidents(out@) == at_most(reach_report(*old(self), now, name@, ok)),
    {
        self.ok = ok;
        let raw = if ok {
            Health::Good
        } else {
            Health::Crit
        };
        let incident = match self.health.update(now, raw) {
            Some(sev) => {
                let mut message = name.to_owned();
                match sev {
                    Health::Good => message.append(" reachable"),
                    _ => message.append(" unreachable"),
                }
                Some(status_incident(now, MetricId::Reachability, name, sev, message))
            },
            None => None,
        };
        listed(incident)
    }
}

/// The raw health of a handshake: a failed one is critical.
pub open spec fn handshake_raw(cfg: ThresholdConfig, took: Option<Reading>) -> Health {
    match took {
        Some(ms) => cfg.tcp_handshake.health_of(ms as int),
        None => Health::Crit,
    }
}

/// An endpoint after a handshake.
pub open spec fn shook(
    h: HandshakeModel,
    cfg: ThresholdConfig,
    now: Timestamp,
    took: Option<Reading>,
) -> HandshakeModel {
    HandshakeModel {
        connect_ms: match took {
            Some(ms) => h.connect_ms.pushed(ms),
            None => h.connect_ms,
        },
        last_ok: took is Some,
        health: debounced(h.health, now, handshake_raw(cfg, took)),
    }
}

/// What a handshake reports.
pub open spec fn handshake_report(
    h: HandshakeModel,
    cfg: ThresholdConfig,
    now: Timestamp,
    metric: MetricId,
    name: Seq<char>,
    took: Option<Reading>,
) -> Option<IncidentModel> {
    match change(h.health, now, handshake_raw(cfg, took)) {
        Some(sev) => Some(
            match took {
                Some(ms) => scalar_report(now, metric, name, sev, ms, "ms"@, cfg.tcp_handshake),
                None => status_report(
                    now,
                    metric,
                    name,
                    sev,
                    crate::metrics::metric_label(metric) + " handshake failed ("@ + name + ")"@,
                ),
            },
        ),
        None => None,
    }
}

impl HandshakeState {
    /// Fold one handshake in. TCP connects and TLS negotiations share the bounds: either is
    /// what a real connection waits on before its first byte.
    pub fn shake(
        &mut self,
        cfg: &ThresholdConfig,
        now: Timestamp,
        metric: MetricId,
        name: &str,
        took: Option<Reading>,
    ) -> (out: Vec<Incident>)
        ensures
            final(self)@ == shook(old(self)@, *cfg, now, took),
            incidents(out@) == at_most(
                handshake_report(old(self)@, *cfg, now, metric, name@, took),
            ),
    {
        let raw = match took {
            Some(ms) => {
                self.connect_ms.push(ms);
                self.last_ok = true;
                cfg.tcp_handshake.evaluate(ms)
            },
            None => {
                self.last_ok = false;
                Health::Crit
            },
        };
        let incident = match self.health.update(now, raw) {
            Some(sev) => Some(
                match took {
                    Some(ms) => incident_for(now, metric, name, sev, ms, "ms", &cfg.tcp_handshake),
                    None => {
                        let mut message = metric.label().to_owned();
                        message.append(" handshake failed (");
                        message.append(name);
                        message.append(")");
                        status_incident(now, metric, name, sev, message)
                    },
                },
            ),
            None => None,
        };
        listed(incident)
    }
}

/// Days left on a certificate at which it is worth a warning.
pub const CERT_WARN_DAYS: i64 = 14;

/// Days left on a certificate at which it is critical.
pub const CERT_CRIT_DAYS: i64 = 3;

/// The raw health of a certificate with `days` left.
pub open spec fn expiry_raw(days: i64) -> Health {
    if days <= CERT_CRIT_DAYS {
        Health::Crit
    } else if days <= CERT_WARN_DAYS {
        Health::Warn
    } else {
        Health::Good
    }
}

/// An endpoint after a negotiation. One without a certificate says nothing of the expiry.
pub open spec fn negotiated(
    t: TlsModel,
    cfg: ThresholdConfig,
    now: Timestamp,
    took: Option<Reading>,
    days: Option<i64>,
) -> TlsModel {
    TlsModel {
        handshake: shook(t.handshake, cfg, now, took),
        expires_in_days: match days {
            Some(d) => Some(d),
            None => t.expires_in_days,
        },
        expiry_health: match days {
            Some(d) => debounced(t.expiry_health, now, expiry_raw(d)),
            None => t.expiry_health,
        },
    }
}

/// The size of a day count.
pub open spec fn day_count(days: i64) -> nat {
    if days < 0 {
        (-days) as nat
    } else {
        days as nat
    }
}

/// What there is to say of a certificate with `days` left.
pub open spec fn expiry_message(days: i64, sev: Health, name: Seq<char>) -> Seq<char> {
    if sev == Health::Good {
        "certificate renewed ("@ + name + ")"@
    } else if days < 0 {
        "certificate expired "@ + decimal(day_count(days)) + "d ago ("@ + name + ")"@
    } else {
        "certificate expires in "@ + decimal(day_count(days)) + "d ("@ + name + ")"@
    }
}

/// What a negotiation reports of the certificate.
pub open spec fn expiry_report(t: TlsModel, now: Timestamp, name: Seq<char>, days: Option<i64>)
    -> Option<IncidentModel> {
    match days {
        Some(d) => match change(t.expiry_health, now, expiry_raw(d)) {
            Some(sev) => Some(
                status_report(now, MetricId::Certificate, name, sev, expiry_message(d, sev, name)),
            ),
            None => None,
        },
        None => None,
    }
}

/// The incidents that a negotiation raises: of the handshake and of the certificate.
pub open spec fn tls_reports(
    t: TlsModel,
    cfg: ThresholdConfig,
    now: Timestamp,
    name: Seq<char>,
    took: Option<Reading>,
    days: Option<i64>,
) -> Seq<IncidentModel> {
    at_most(handshake_report(t.handshake, cfg, now, MetricId::Tls, name, took)) + at_most(
        expiry_report(t, now, name, days),
    )
}

/// The size of a day count.
pub fn days_size(days: i64) -> (n: u64)
    ensures
        n == day_count(days),
{
    if days < 0 {
        (-(days as i128)) as u64
    } else {
        days as u64
    }
}

impl TlsState {
    /// Fold one negotiation in.
    pub fn negotiate(
        &mut self,
        cfg: &ThresholdConfig,
        now: Timestamp,
        name: &str,
        took: Option<Reading>,
        days: Option<i64>,
    ) -> (out: Vec<Incident>)
        ensures
            final(self)@ == negotiated(old(self)@, *cfg, now, took, days),
            incidents(out@) == tls_reports(old(self)@, *cfg, now, name@, took, days),
    {
        let ghost t = self@;
        let mut out = self.handshake.shake(cfg, now, MetricId::Tls, name, took);
        let ghost o1 = incidents(out@);
        match days {
            Some(d) => {
                self.expires_in_days = Some(d);
                let raw = if d <= CERT_CRIT_DAYS {
                    Health::Crit
                } else if d <= CERT_WARN_DAYS {
                    Health::Warn
                } else {
                    Health::Good
                };
                match self.expiry_health.update(now, raw) {
                    Some(sev) => {
                        let message = match sev {
                            Health::Good => joined3("certificate renewed (", name, ")"),
                            _ => {
                                let mut m = if d < 0 {
                                    "certificate expired ".to_owned()
                                } else {
                                    "certificate expires in ".to_owned()
                                };
                                push_decimal(&mut m, days_size(d));
                                if d < 0 {
                                    m.append("d ago (");
                                } else {
                                    m.append("d (");
                                }
                                m.append(name);
                                m.append(")");
                                m
                            },
                        };
                        note(
                            &mut out,
                            status_incident(now, MetricId::Certificate, name, sev, message),
                        );
                    },
                    None => {},
                }
            },
            None => {},
        }
        assert(incidents(out@) =~= o1 + at_most(expiry_report(t, now, name@, days)));
        out
    }
}

// ---------------------------------------------------------------------------------------
// Throughput
// ---------------------------------------------------------------------------------------

/// The throughput state after a passive reading.
pub open spec fn rated(t: ThroughputModel, cap: usize, rx: Reading, tx: Reading) -> ThroughputModel {
    ThroughputModel {
        rx_bps: Some(or_empty(t.rx_bps, cap).pushed(rx)),
        tx_bps: Some(or_empty(t.tx_bps, cap).pushed(tx)),
        ..t
    }
}

/// The throughput state after a capacity probe.
pub open spec fn capacity_probed(
    t: ThroughputModel,
    cfg: ThresholdConfig,
    now: Timestamp,
    mbps: Reading,
) -> ThroughputModel {
    ThroughputModel {
        last_mbps: Some(mbps),
        capacity_mbps: Some(or_empty(t.capacity_mbps, cfg.history_len).pushed(mbps)),
        health: Some(
            debounced(or_fresh(t.health, cfg), now, cfg.throughput.health_of(mbps as int)),
        ),
        ..t
    }
}

/// What a capacity probe reports: a recovery, or the rate and the bound actually crossed, so
/// that a crit incident doesn't quote the warn floor and read as a milder problem than it is.
pub open spec fn capacity_report(
    t: ThroughputModel,
    cfg: ThresholdConfig,
    now: Timestamp,
    mbps: Reading,
) -> Option<IncidentModel> {
    match change(or_fresh(t.health, cfg), now, cfg.throughput.health_of(mbps as int)) {
        Some(sev) => Some(
            if sev == Health::Good {
                status_report(
                    now,
                    MetricId::Throughput,
                    "probe"@,
                    Health::Good,
                    "throughput recovered"@,
                )
            } else {
                IncidentModel {
                    value: Some(mbps),
                    unit: "Mbps"@,
                    threshold: crate::app::report::crossed(cfg.throughput, sev),
                    ..event(
                        now,
                        MetricId::Throughput,
                        sev,
                        "throughput "@ + fixed0(mbps as int) + "Mbps below floor"@,
                    )
                }
            },
        ),
        None => None,
    }
}

/// The latency that load adds: never negative.
pub open spec fn added_latency(idle: Reading, loaded: Reading) -> Reading {
    if loaded <= idle {
        0
    } else {
        clamped(loaded - idle) as i64
    }
}

/// The latency that load adds: never negative.
pub fn latency_added(idle: Reading, loaded: Reading) -> (d: Reading)
    ensures
        d == added_latency(idle, loaded),
{
    if loaded <= idle {
        0
    } else {
        difference(loaded, idle)
    }
}

/// The throughput state after a bufferbloat measurement.
pub open spec fn bloat_measured(
    t: ThroughputModel,
    cfg: ThresholdConfig,
    now: Timestamp,
    idle: Reading,
    loaded: Reading,
) -> ThroughputModel {
    let delta = added_latency(idle, loaded);
    ThroughputModel {
        idle_latency_ms: Some(idle),
        loaded_latency_ms: Some(loaded),
        added_latency_ms: Some(or_empty(t.added_latency_ms, cfg.history_len).pushed(delta)),
        bufferbloat_health: Some(
            debounced(
                or_fresh(t.bufferbloat_health, cfg),
                now,
                cfg.bufferbloat.health_of(delta as int),
            ),
        ),
        ..t
    }
}

/// What a bufferbloat measurement reports.
pub open spec fn bloat_report(
    t: ThroughputModel,
    cfg: ThresholdConfig,
    now: Timestamp,
    idle: Reading,
    loaded: Reading,
) -> Option<IncidentModel> {
    let delta = added_latency(idle, loaded);
    match change(
        or_fresh(t.bufferbloat_health, cfg),
        now,
        cfg.bufferbloat.health_of(delta as int),
    ) {
        Some(sev) => Some(
            if sev == Health::Good {
                status_report(
                    now,
                    MetricId::Bufferbloat,
                    "bufferbloat"@,
                    Health::Good,
                    "bufferbloat cleared"@,
                )
            } else {
                IncidentModel {
                    value: Some(delta),
                    unit: "ms"@,
                    target: Some("bufferbloat"@),
                    threshold: crate::app::report::crossed(cfg.bufferbloat, sev),
                    ..event(
                        now,
                        MetricId::Bufferbloat,
                        sev,
                        "bufferbloat +"@ + fixed0(delta as int) + "ms under load"@,
                    )
                }
            },
        ),
        None => None,
    }
}

impl ThroughputState {
    /// Fold one passive reading in.
    pub fn rate(&mut self, cap: usize, rx: Reading, tx: Reading)
        ensures
            final(self)@ == rated(old(self)@, cap, rx, tx),
    {
        push_series(&mut self.rx_bps, cap, rx);
        push_series(&mut self.tx_bps, cap, tx);
    }

    /// Fold one capacity-probe result in.
    pub fn probe(&mut self, cfg: &ThresholdConfig, now: Timestamp, mbps: Reading) -> (out: Vec<
        Incident,
    >)
        ensures
            final(self)@ == capacity_probed(old(self)@, *cfg, now, mbps),
            incidents(out@) == at_most(capacity_report(old(self)@, *cfg, now, mbps)),
    {
        self.last_mbps = Some(mbps);
        push_series(&mut self.capacity_mbps, cfg.history_len, mbps);
        let thr = cfg.throughput;
        let raw = thr.evaluate(mbps);
        let mut health = match self.health {
            Some(d) => d,
            None => new_debouncer(cfg),
        };
        let changed = health.update(now, raw);
        self.health = Some(health);
        let incident = match changed {
            Some(sev) => Some(
                match sev {
                    Health::Good => status_incident(
                        now,
                        MetricId::Throughput,
                        "probe",
                        Health::Good,
                        "throughput recovered".to_owned(),
                    ),
                    _ => {
                        let bound: Reading = match sev {
                            Health::Crit => thr.crit,
                            _ => thr.warn,
                        };
                        let mut message = "throughput ".to_owned();
                        push_fixed0(&mut message, mbps);
                        message.append("Mbps below floor");
                        Incident::new(now, MetricId::Throughput, sev, message).with_value(
                            mbps,
                            "Mbps",
                        ).with_threshold(bound)
                    },
                },
            ),
            None => None,
        };
        listed(incident)
    }

    /// Fold one bufferbloat measurement in.
    pub fn measure_bloat(
        &mut self,
        cfg: &ThresholdConfig,
        now: Timestamp,
        idle: Reading,
        loaded: Reading,
    ) -> (out: Vec<Incident>)
        ensures
            final(self)@ == bloat_measured(old(self)@, *cfg, now, idle, loaded),
            incidents(out@) == at_most(bloat_report(old(self)@, *cfg, now, idle, loaded)),
    {
        self.idle_latency_ms = Some(idle);
        self.loaded_latency_ms = Some(loaded);
        let delta: Reading = latency_added(idle, loaded);
        push_series(&mut self.added_latency_ms, cfg.history_len, delta);
        let thr = cfg.bufferbloat;
        let raw = thr.evaluate(delta);
        let mut health = match self.bufferbloat_health {
            Some(d) => d,
            None => new_debouncer(cfg),
        };
        let changed = health.update(now, raw);
        self.bufferbloat_health = Some(health);
        let incident = match changed {
            Some(sev) => Some(
                match sev {
                    Health::Good => status_incident(
                        now,
                        MetricId::Bufferbloat,
                        "bufferbloat",
                        Health::Good,
                        "bufferbloat cleared".to_owned(),
                    ),
                    _ => {
                        let bound: Reading = match sev {
                            Health::Crit => thr.crit,
                            _ => thr.warn,
                        };
                        let mut message = "bufferbloat +".to_owned();
                        push_fixed0(&mut message, delta);
                        message.append("ms under load");
                        Incident::new(now, MetricId::Bufferbloat, sev, message).with_value(
                            delta,
                            "ms",
                        ).with_target("bufferbloat").with_threshold(bound)
                    },
                },
            ),
            None => None,
        };
        listed(incident)
    }
}

// ---------------------------------------------------------------------------------------
// Link, routing, interface
// ---------------------------------------------------------------------------------------

/// What is new where it is there, and what was before where it is not.
pub open spec fn newer<T>(new: Option<T>, before: Option<T>) -> Option<T> {
    match new {
        Some(x) => Some(x),
        None => before,
    }
}

/// The link state after a reading. A reading without a signal (radio off, or the shell-out
/// failed) is no data point: recording it would draw a cliff in the trend line that never
/// happened. Noise is recorded with the signal, so the two series stay index-aligned.
pub open spec fn linked(
    l: LinkModel,
    cfg: ThresholdConfig,
    now: Timestamp,
    rssi: Option<Reading>,
    noise: Option<Reading>,
    tx_rate: Option<Reading>,
    ssid: Option<Seq<char>>,
) -> LinkModel {
    let named = LinkModel {
        ssid: newer(ssid, l.ssid),
        noise_dbm: newer(noise, l.noise_dbm),
        tx_rate: newer(tx_rate, l.tx_rate),
        ..l
    };
    match rssi {
        None => named,
        Some(r) => LinkModel {
            rssi_dbm: Some(r),
            rssi_history: Some(or_empty(l.rssi_history, cfg.history_len).pushed(r)),
            noise_history: match noise {
                Some(n) => Some(or_empty(l.noise_history, cfg.history_len).pushed(n)),
                None => l.noise_history,
            },
            health: Some(debounced(or_fresh(l.health, cfg), now, cfg.rssi.health_of(r as int))),
            ..named
        },
    }
}

/// What a link reading reports.
pub open spec fn link_report(
    l: LinkModel,
    cfg: ThresholdConfig,
    now: Timestamp,
    rssi: Option<Reading>,
) -> Option<IncidentModel> {
    match rssi {
        Some(r) => match change(or_fresh(l.health, cfg), now, cfg.rssi.health_of(r as int)) {
            Some(sev) => Some(
                scalar_report(now, MetricId::Link, "wifi"@, sev, r, "dBm"@, cfg.rssi),
            ),
            None => None,
        },
        None => None,
    }
}

impl LinkState {
    /// Fold one link reading in.
    pub fn read(
        &mut self,
        cfg: &ThresholdConfig,
        now: Timestamp,
        rssi_dbm: Option<Reading>,
        noise_dbm: Option<Reading>,
        tx_rate: Option<Reading>,
        ssid: Option<String>,
    ) -> (out: Vec<Incident>)
        ensures
            final(self)@ == linked(
                old(self)@,
                *cfg,
                now,
                rssi_dbm,
                noise_dbm,
                tx_rate,
                text_of(ssid),
            ),
            incidents(out@) == at_most(link_report(old(self)@, *cfg, now, rssi_dbm)),
    {
        if ssid.is_some() {
            self.ssid = ssid;
        }
        if noise_dbm.is_some() {
            self.noise_dbm = noise_dbm;
        }
        if tx_rate.is_some() {
            self.tx_rate = tx_rate;
        }
        let rssi: Reading = match rssi_dbm {
            Some(r) => r,
            None => {
                return listed(None);
            },
        };
        self.rssi_dbm = Some(rssi);
        push_series(&mut self.rssi_history, cfg.history_len, rssi);
        match noise_dbm {
            Some(n) => push_series(&mut self.noise_history, cfg.history_len, n),
            None => {},
        }
        let thr = cfg.rssi;
        let raw = thr.evaluate(rssi);
        let mut health = match self.health {
            Some(d) => d,
            None => new_debouncer(cfg),
        };
        let changed = health.update(now, raw);
        self.health = Some(health);
        let incident = match changed {
            Some(sev) => Some(incident_for(now, MetricId::Link, "wifi", sev, rssi, "dBm", &thr)),
            None => None,
        };
        listed(incident)
    }
}

/// The raw health of a traced path.
pub open spec fn path_raw(reachable: bool, changed: bool) -> Health {
    if !reachable {
        Health::Crit
    } else if changed {
        Health::Warn
    } else {
        Health::Good
    }
}

/// The routing state after a trace.
pub open spec fn traced(
    r: RoutingModel,
    cfg: ThresholdConfig,
    now: Timestamp,
    hop_count: usize,
    reachable: bool,
    changed: bool,
    detail: Seq<HopModel>,
) -> RoutingModel {
    RoutingModel {
        hops: hop_count,
        reachable,
        changed,
        seen: true,
        detail,
        health: Some(debounced(or_fresh(r.health, cfg), now, path_raw(reachable, changed))),
    }
}

/// What there is to say of a traced path.
pub open spec fn path_message(raw: Health, target: Seq<char>, hop_count: usize) -> Seq<char> {
    match raw {
        Health::Crit => "route to "@ + target + " unreachable"@,
        Health::Warn => "route to "@ + target + " changed ("@ + decimal(hop_count as nat)
            + " hops)"@,
        Health::Good => "route to "@ + target + " stable ("@ + decimal(hop_count as nat)
            + " hops)"@,
    }
}

/// What a trace reports.
pub open spec fn path_report(
    r: RoutingModel,
    cfg: ThresholdConfig,
    now: Timestamp,
    target: Seq<char>,
    hop_count: usize,
    reachable: bool,
    changed: bool,
) -> Option<IncidentModel> {
    let raw = path_raw(reachable, changed);
    match change(or_fresh(r.health, cfg), now, raw) {
        Some(sev) => Some(
            status_report(
                now,
                MetricId::Routing,
                target,
                sev,
                path_message(raw, target, hop_count),
            ),
        ),
        None => None,
    }
}

impl RoutingState {
    /// Fold one traced path in.
    pub fn trace(
        &mut self,
        cfg: &ThresholdConfig,
        now: Timestamp,
        target: &str,
        hop_count: usize,
        reachable: bool,
        changed: bool,
        detail: Vec<Hop>,
    ) -> (out: Vec<Incident>)
        ensures
            final(self)@ == traced(
                old(self)@,
                *cfg,
                now,
                hop_count,
                reachable,
                changed,
                hops(detail@),
            ),
            incidents(out@) == at_most(
                path_report(old(self)@, *cfg, now, target@, hop_count, reachable, changed),
            ),
    {
        self.hops = hop_count;
        self.reachable = reachable;
        self.changed = changed;
        self.detail = detail;
        self.seen = true;
        let raw = if !reachable {
            Health::Crit
        } else if changed {
            Health::Warn
        } else {
            Health::Good
        };
        let mut health = match self.health {
            Some(d) => d,
            None => new_debouncer(cfg),
        };
        let committed = health.update(now, raw);
        self.health = Some(health);
        let incident = match committed {
            Some(sev) => {
                let mut message = "route to ".to_owned();
                message.append(target);
                match raw {
                    Health::Crit => message.append(" unreachable"),
                    Health::Warn => {
                        message.append(" changed (");
                        push_decimal(&mut message, hop_count as u64);
                        message.append(" hops)");
                    },
                    Health::Good => {
                        message.append(" stable (");
                        push_decimal(&mut message, hop_count as u64);
                        message.append(" hops)");
                    },
                }
                Some(status_incident(now, MetricId::Routing, target, sev, message))
            },
            None => None,
        };
        listed(incident)
    }
}

/// An error count as a reading.
pub open spec fn error_reading(rx: u64, tx: u64) -> Reading {
    clamped((rx + tx) * 1_000_000_000) as i64
}

/// An error count as a reading.
pub fn errors_read(rx: u64, tx: u64) -> (r: Reading)
    ensures
        r == error_reading(rx, tx),
{
    let wide: u128 = (rx as u128 + tx as u128) * 1_000_000_000;
    if wide > i64::MAX as u128 {
        i64::MAX
    } else {
        wide as i64
    }
}

/// The state of the network card after a counter reading.
pub open spec fn counted(i: IfaceState, cfg: ThresholdConfig, now: Timestamp, rx: u64, tx: u64)
    -> IfaceState {
    IfaceState {
        rx_errors: Some(rx),
        tx_errors: Some(tx),
        health: Some(
            debounced(
                or_fresh(i.health, cfg),
                now,
                cfg.interface_errors.health_of(error_reading(rx, tx) as int),
            ),
        ),
    }
}

/// What a counter reading reports.
pub open spec fn counter_report(
    i: IfaceState,
    cfg: ThresholdConfig,
    now: Timestamp,
    rx: u64,
    tx: u64,
) -> Option<IncidentModel> {
    let total = error_reading(rx, tx);
    match change(or_fresh(i.health, cfg), now, cfg.interface_errors.health_of(total as int)) {
        Some(sev) => Some(
            scalar_report(
                now,
                MetricId::InterfaceErrors,
                "nic"@,
                sev,
                total,
                ""@,
                cfg.interface_errors,
            ),
        ),
        None => None,
    }
}

impl IfaceState {
    /// Fold one reading of the error counters in.
    pub fn count(&mut self, cfg: &ThresholdConfig, now: Timestamp, rx: u64, tx: u64) -> (out: Vec<
        Incident,
    >)
        ensures
            *final(self) == counted(*old(self), *cfg, now, rx, tx),
            incidents(out@) == at_most(counter_report(*old(self), *cfg, now, rx, tx)),
    {
        self.rx_errors = Some(rx);
        self.tx_errors = Some(tx);
        let total: Reading = errors_read(rx, tx);
        let raw = cfg.interface_errors.evaluate(total);
        let mut health = match self.health {
            Some(d) => d,
            None => new_debouncer(cfg),
        };
        let changed = health.update(now, raw);
        self.health = Some(health);
        let incident = match changed {
            Some(sev) => Some(
                incident_for(
                    now,
                    MetricId::InterfaceErrors,
                    "nic",
                    sev,
                    total,
                    "",
                    &cfg.interface_errors,
                ),
            ),
            None => None,
        };
        listed(incident)
    }
}

// ---------------------------------------------------------------------------------------
// Captive portal and public address
// ---------------------------------------------------------------------------------------

/// The raw health of a captive-portal check.
pub open spec fn captive_raw(detected: bool) -> Health {
    if detected {
        Health::Crit
    } else {
        Health::Good
    }
}

/// What a captive-portal check reports.
pub open spec fn captive_report(
    d: Option<Debouncer>,
    cfg: ThresholdConfig,
    now: Timestamp,
    detected: bool,
) -> Option<IncidentModel> {
    match change(or_fresh(d, cfg), now, captive_raw(detected)) {
        Some(sev) => Some(
            status_report(
                now,
                MetricId::CaptivePortal,
                "captive"@,
                sev,
                if sev == Health::Good {
                    "captive portal cleared"@
                } else {
                    "captive portal detected (sign-in required)"@
                },
            ),
        ),
        None => None,
    }
}

/// Fold one captive-portal reading into its debouncer, like every other reading: a single
/// intercepted request may be a flaky proxy, and crying "sign-in" over it is costly.
pub fn check_captive(
    health: &mut Option<Debouncer>,
    cfg: &ThresholdConfig,
    now: Timestamp,
    detected: bool,
) -> (out: (Option<Health>, Vec<Incident>))
    ensures
        *final(health) == Some(
            debounced(or_fresh(*old(health), *cfg), now, captive_raw(detected)),
        ),
        out.0 == change(or_fresh(*old(health), *cfg), now, captive_raw(detected)),
        incidents(out.1@) == at_most(captive_report(*old(health), *cfg, now, detected)),
{
    let raw = if detected {
        Health::Crit
    } else {
        Health::Good
    };
    let mut d = match *health {
        Some(d) => d,
        None => new_debouncer(cfg),
    };
    let changed = d.update(now, raw);
    *health = Some(d);
    let incident = match changed {
        Some(sev) => {
            let message = match sev {
                Health::Good => "captive portal cleared".to_owned(),
                _ => "captive portal detected (sign-in required)".to_owned(),
            };
            Some(status_incident(now, MetricId::CaptivePortal, "captive", sev, message))
        },
        None => None,
    };
    (changed, listed(incident))
}

/// What a sighting of the public address reports: a change, never the first one.
pub open spec fn address_report(
    before: Option<Seq<char>>,
    now: Timestamp,
    ip: Seq<char>,
) -> Option<IncidentModel> {
    match before {
        Some(prior) if prior != ip => Some(
            status_report(
                now,
                MetricId::PublicIp,
                "wan"@,
                Health::Warn,
                "public IP changed "@ + prior + " → "@ + ip,
            ),
        ),
        _ => None,
    }
}

/// The incident of a sighting of the public address.
pub fn check_address(before: &Option<String>, now: Timestamp, ip: &str) -> (out: Vec<Incident>)
    ensures
        incidents(out@) == at_most(address_report(text_of(*before), now, ip@)),
{
    let incident = match before {
        Some(prior) => if crate::text::same_text(prior.as_str(), ip) {
            None
        } else {
            let mut message = "public IP changed ".to_owned();
            message.append(prior.as_str());
            message.append(" → ");
            message.append(ip);
            Some(status_incident(now, MetricId::PublicIp, "wan", Health::Warn, message))
        },
        None => None,
    };
    listed(incident)
}

} // verus!
