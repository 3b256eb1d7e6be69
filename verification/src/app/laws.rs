//! What the reducer is for: what each kind of reading does to the state, which incidents it
//! raises, whom they are blamed on, and which of them reach the feed.

use vstd::prelude::*;

use crate::app::fold::{folded, held_or};
use crate::app::noise::{
    aged, aged_one, attributed, deduped, fed, fed_all, flaps_of, fresh_flaps, log_failed, reports,
    sampled, settlements, settles, swing_report, swing_reports, swings, swung, unflapped,
};
use crate::app::report::{scalar_report, settle_report};
use crate::app::rollup::{
    gap_len, latency_states, loss_states, minute_of, minutes_in, one_bucket_per_minute, overall,
    panel, panels, reach_states, resolver_states, tcp_states, ticked, tls_states, uptime, with_gap,
};
use crate::app::state::{
    fresh_handshake, fresh_resolver, fresh_target, fresh_tls, or_empty, or_fresh, reported,
    AlertKeyModel, FlapKeyModel, FlapModel, Minute, ReachState, TargetModel,
};
use crate::app::{configured_targets, hosts_registered, target_registered, AppModel};
use crate::config::{dwell_span, AlertConfig, Config, ThresholdConfig};
use crate::diagnosis::{blamed, diagnosed, law_diagnosis_is_never_empty, Layer};
use crate::format::{decimal, fixed0};
use crate::health::{
    debounced, in_time_order, law_enough_swings_in_the_window_are_flapping,
    lemma_worst_in_is_worst, observed, severity, since, Debouncer, Health, Thresholds,
};
use crate::history::{jitter_of, lemma_percent_bounds, loss_of, Bounded};
use crate::incidents::IncidentModel;
use crate::map::{law_upsert, lookup, ordered};
use crate::metrics::dns::{Answer, Integrity};
use crate::metrics::{hops, metric_label, Hop, MetricId, Sample};
use crate::projection::signals_of;
use crate::text::{strings, text_of};
use crate::units::{Reading, Timestamp};

verus! {

// ---------------------------------------------------------------------------------------
// Attribution
// ---------------------------------------------------------------------------------------

/// The layer to blame is that of the worst verdict, and nobody is blamed while it is good.
pub proof fn law_the_worst_verdict_is_blamed(m: AppModel)
    ensures
        ({
            let v = diagnosed(signals_of(m));
            &&& v[0].severity != Health::Good ==> blamed(v) == v[0].layer
            &&& v[0].severity == Health::Good ==> blamed(v) is None
        }),
{
    let v = diagnosed(signals_of(m));
    law_diagnosis_is_never_empty(signals_of(m));
    if v[0].severity == Health::Good {
        assert forall|i: int| 0 <= i < v.len() implies (#[trigger] v[i]).severity == Health::Good by {
            assert(severity(v[i].severity) <= severity(v[0].severity));
        }
        lemma_nobody_blamed(v);
    }
}

proof fn lemma_nobody_blamed(v: Seq<crate::diagnosis::Verdict>)
    requires
        forall|i: int| 0 <= i < v.len() ==> (#[trigger] v[i]).severity == Health::Good,
    ensures
        blamed(v) is None,
    decreases v.len(),
{
    if v.len() > 0 {
        let rest = v.drop_first();
        assert forall|i: int| 0 <= i < rest.len() implies (#[trigger] rest[i]).severity
            == Health::Good by {
            assert(rest[i] == v[i + 1]);
        }
        lemma_nobody_blamed(rest);
    }
}

/// The incident is about a ping to a target that is registered as the gateway.
pub open spec fn pings_the_gateway(m: AppModel, inc: IncidentModel) -> bool {
    inc.target matches Some(a) && lookup(m.targets, a) matches Some(t) && t.is_gateway
}

/// An alert further down the path than the layer to blame is an echo of that fault, and is
/// marked with it; any other is left without a cause.
///
/// - A ping that fails to a host other than the gateway is an echo of a fault of the card, the
///   radio or the gateway, and a ping to the gateway only of one of the card or the radio.
/// - What the radio reports is an echo of the card alone, and what the card reports of nothing.
/// - Endpoints, the route, capacity, bufferbloat, portals, addresses and handshakes are echoes
///   of anything up to the gateway.
/// - Lookups, and their honesty, are echoes of anything up to the provider.
/// - A certificate and the dashboard's own log are nobody's echo.
pub proof fn law_an_alert_past_the_fault_is_its_echo(
    m: AppModel,
    v: Seq<IncidentModel>,
    i: int,
    fault: Layer,
)
    requires
        0 <= i < v.len(),
        v[i].severity != Health::Good,
        v[i].cause is None,
        blamed(diagnosed(signals_of(m))) == Some(fault),
    ensures
        ({
            let cause = attributed(m, v)[i].cause;
            let local = fault == Layer::Nic || fault == Layer::Wifi;
            let lan = local || fault == Layer::Gateway;
            match v[i].metric {
                MetricId::Latency | MetricId::Loss | MetricId::Jitter => if pings_the_gateway(
                    m,
                    v[i],
                ) {
                    cause == (if local {
                        Some(fault)
                    } else {
                        None
                    })
                } else {
                    cause == (if lan {
                        Some(fault)
                    } else {
                        None
                    })
                },
                MetricId::Link => cause == (if fault == Layer::Nic {
                    Some(fault)
                } else {
                    None
                }),
                MetricId::InterfaceErrors => cause is None,
                MetricId::Dns | MetricId::DnsIntegrity => cause == (if lan || fault
                    == Layer::Isp {
                    Some(fault)
                } else {
                    None
                }),
                MetricId::Certificate | MetricId::Log => cause is None,
                _ => cause == (if lan {
                    Some(fault)
                } else {
                    None
                }),
            }
        }),
{
}

/// Where nothing is to blame no alert is an echo, and a recovery never is one.
pub proof fn law_nothing_echoes_without_a_fault(m: AppModel, v: Seq<IncidentModel>, i: int)
    requires
        0 <= i < v.len(),
    ensures
        blamed(diagnosed(signals_of(m))) is None ==> attributed(m, v)[i] == v[i],
        v[i].severity == Health::Good ==> attributed(m, v)[i] == v[i],
        attributed(m, v).len() == v.len(),
{
}

// ---------------------------------------------------------------------------------------
// Readings
// ---------------------------------------------------------------------------------------

/// An incident with the marks that every raised one has: when, of what, and no cause yet.
pub open spec fn raised_at(inc: IncidentModel, now: Timestamp, metric: MetricId) -> bool {
    inc.ts == now && inc.metric == metric && inc.cause is None
}

/// 1 where what is reported changed, else 0.
pub open spec fn turns(before: Debouncer, after: Debouncer) -> nat {
    if before.state != after.state {
        1
    } else {
        0
    }
}

/// The bound that an incident quotes is the one it crossed.
pub open spec fn quotes(inc: IncidentModel, t: Thresholds) -> bool {
    inc.threshold == (match inc.severity {
        Health::Crit => Some(t.crit),
        Health::Warn => Some(t.warn),
        Health::Good => None,
    })
}

/// An echo is recorded with the target it went to, and with no other. One that came back
/// extends the latency history and counts as answered; one that timed out extends no history,
/// counts as lost, and is as bad as latency gets. The latency is held against the bounds of the
/// target's role, the jitter of the history against those of jitter, and the loss of the window
/// against those of loss. Every reported change of one of the three raises one incident, with
/// the new severity, and nothing else raises any.
#[verifier::spinoff_prover]
#[verifier::rlimit(40)]
pub proof fn law_an_echo(
    m: AppModel,
    now: Timestamp,
    target: String,
    rtt_ms: Option<Reading>,
    other: Seq<char>,
)
    requires
        ordered(m.targets),
    ensures
        ({
            let cfg = m.config.thresholds;
            let f = folded(m, now, Sample::Latency { target, rtt_ms });
            let t = held_or(m.targets, target@, fresh_target(false, cfg));
            let bounds = if t.is_gateway {
                cfg.latency_gateway
            } else {
                cfg.latency_internet
            };
            &&& f.0 == (AppModel { targets: f.0.targets, ..m })
            &&& other != target@ ==> lookup(f.0.targets, other) == lookup(m.targets, other)
            &&& lookup(f.0.targets, target@) matches Some(u) && {
                &&& u.is_gateway == t.is_gateway
                &&& u.loss.items.last() == (rtt_ms is Some)
                &&& rtt_ms is None ==> u.latency_ms == t.latency_ms && u.latency_health
                    == debounced(t.latency_health, now, Health::Crit)
                &&& rtt_ms matches Some(r) ==> u.latency_ms.items.last() == r && u.latency_health
                    == debounced(t.latency_health, now, bounds.health_of(r as int))
                &&& u.loss_history.items.last() == loss_of(u.loss.items)
                &&& u.loss_health == debounced(
                    t.loss_health,
                    now,
                    cfg.loss.health_of(loss_of(u.loss.items) as int),
                )
                &&& u.latency_ms.items.len() < 2 ==> u.jitter_health == t.jitter_health
                &&& u.latency_ms.items.len() >= 2 ==> u.jitter_health == debounced(
                    t.jitter_health,
                    now,
                    cfg.jitter.health_of(jitter_of(u.latency_ms.items)->0 as int),
                )
                &&& f.1.len() == turns(t.latency_health, u.latency_health) + turns(
                    t.jitter_health,
                    u.jitter_health,
                ) + turns(t.loss_health, u.loss_health)
                &&& forall|i: int|
                    0 <= i < f.1.len() ==> {
                        let inc = #[trigger] f.1[i];
                        &&& inc.target == Some(target@)
                        &&& raised_at(inc, now, inc.metric)
                        &&& match inc.metric {
                            MetricId::Latency => {
                                &&& turns(t.latency_health, u.latency_health) == 1
                                &&& inc.severity == u.latency_health.state
                                &&& inc.value == rtt_ms
                                &&& rtt_ms is Some ==> quotes(inc, bounds) && inc.unit == "ms"@
                                &&& rtt_ms is None ==> inc.threshold is None && inc.message
                                    == "latency probe timed out ("@ + target@ + ")"@
                                &&& i == 0
                            },
                            MetricId::Jitter => {
                                &&& turns(t.jitter_health, u.jitter_health) == 1
                                &&& inc.severity == u.jitter_health.state
                                &&& inc.value == jitter_of(u.latency_ms.items)
                                &&& quotes(inc, cfg.jitter) && inc.unit == "ms"@
                            },
                            MetricId::Loss => {
                                &&& turns(t.loss_health, u.loss_health) == 1
                                &&& inc.severity == u.loss_health.state
                                &&& inc.value == Some(loss_of(u.loss.items))
                                &&& quotes(inc, cfg.loss) && inc.unit == "%"@
                                &&& i == f.1.len() - 1
                            },
                            _ => false,
                        }
                    }
            }
        }),
{
    let cfg = m.config.thresholds;
    let t = held_or(m.targets, target@, fresh_target(false, cfg));
    law_upsert(
        m.targets,
        target@,
        crate::app::observe::pinged(t, cfg, now, rtt_ms),
        other,
    );
}

/// A lookup is recorded with its resolver alone. One that was answered, with addresses or
/// without, extends the history and is held against the bounds of DNS; silence extends nothing
/// and is as bad as it gets. A reported change raises one incident of it: a recovery, a
/// failure, or the time and the bound that it crossed.
pub proof fn law_a_lookup(
    m: AppModel,
    now: Timestamp,
    resolver: String,
    answer: Answer,
    other: Seq<char>,
)
    requires
        ordered(m.resolvers),
    ensures
        ({
            let cfg = m.config.thresholds;
            let f = folded(m, now, Sample::Dns { resolver, answer });
            let r = held_or(m.resolvers, resolver@, fresh_resolver(cfg));
            &&& f.0 == (AppModel { resolvers: f.0.resolvers, ..m })
            &&& other != resolver@ ==> lookup(f.0.resolvers, other) == lookup(m.resolvers, other)
            &&& lookup(f.0.resolvers, resolver@) matches Some(u) && {
                &&& u.integrity == r.integrity && u.integrity_health == r.integrity_health
                &&& u.last_ok <==> answer != Answer::Silence
                &&& answer == Answer::Silence ==> u.latency_ms == r.latency_ms && u.health
                    == debounced(r.health, now, Health::Crit)
                &&& forall|ms: Reading|
                    answer == Answer::Addresses(ms) || answer == Answer::Empty(ms) ==> {
                        &&& u.latency_ms == #[trigger] r.latency_ms.pushed(ms)
                        &&& u.health == debounced(r.health, now, cfg.dns.health_of(ms as int))
                    }
                &&& f.1.len() == turns(r.health, u.health)
                &&& f.1.len() == 1 ==> {
                    let inc = f.1[0];
                    &&& raised_at(inc, now, MetricId::Dns)
                    &&& inc.target == Some(resolver@)
                    &&& inc.severity == u.health.state
                    &&& inc.severity == Health::Good ==> inc.message == "dns recovered ("@
                        + resolver@ + ")"@ && inc.value is None
                    &&& inc.severity != Health::Good && answer == Answer::Silence ==> inc.message
                        == "dns failed ("@ + resolver@ + ")"@ && inc.value is None
                    &&& forall|ms: Reading|
                        inc.severity != Health::Good && (answer == Answer::Addresses(ms) || answer
                            == Answer::Empty(ms)) ==> {
                            &&& inc.value == Some(ms) && inc.unit == "ms"@ && quotes(inc, cfg.dns)
                            &&& inc.message == "dns"@ + " "@ + #[trigger] fixed0(ms as int) + "ms"@
                                + " ("@ + resolver@ + ")"@
                        }
                }
            }
        }),
{
    let cfg = m.config.thresholds;
    let r = held_or(m.resolvers, resolver@, fresh_resolver(cfg));
    law_upsert(
        m.resolvers,
        resolver@,
        crate::app::observe::looked_up(r, cfg, now, answer),
        other,
    );
}

/// A verdict on a resolver's honesty is recorded with that resolver alone and leaves its timing
/// be. Anything but honesty is a warning, never more; and a reported change raises one
/// incident.
pub proof fn law_an_honesty_check(
    m: AppModel,
    now: Timestamp,
    resolver: String,
    verdict: Integrity,
    other: Seq<char>,
)
    requires
        ordered(m.resolvers),
    ensures
        ({
            let cfg = m.config.thresholds;
            let f = folded(m, now, Sample::DnsIntegrity { resolver, verdict });
            let r = held_or(m.resolvers, resolver@, fresh_resolver(cfg));
            &&& f.0 == (AppModel { resolvers: f.0.resolvers, ..m })
            &&& other != resolver@ ==> lookup(f.0.resolvers, other) == lookup(m.resolvers, other)
            &&& lookup(f.0.resolvers, resolver@) matches Some(u) && {
                &&& u.health == r.health && u.latency_ms == r.latency_ms && u.last_ok == r.last_ok
                &&& u.integrity == verdict
                &&& verdict == Integrity::Honest ==> u.integrity_health == debounced(
                    r.integrity_health,
                    now,
                    Health::Good,
                )
                &&& verdict != Integrity::Honest ==> u.integrity_health == debounced(
                    r.integrity_health,
                    now,
                    Health::Warn,
                )
                &&& f.1.len() == turns(r.integrity_health, u.integrity_health)
                &&& f.1.len() == 1 ==> {
                    let inc = f.1[0];
                    &&& raised_at(inc, now, MetricId::DnsIntegrity)
                    &&& inc.target == Some(resolver@)
                    &&& inc.severity == u.integrity_health.state
                    &&& verdict == Integrity::Honest ==> inc.message
                        == "dns answers are honest again ("@ + resolver@ + ")"@
                    &&& verdict == Integrity::Hijacked ==> inc.message
                        == "dns answers for names it does not own ("@ + resolver@ + ")"@
                    &&& verdict == Integrity::Forged ==> inc.message == "dns answers are forged ("@
                        + resolver@ + ")"@
                }
            }
        }),
{
    let cfg = m.config.thresholds;
    let r = held_or(m.resolvers, resolver@, fresh_resolver(cfg));
    law_upsert(m.resolvers, resolver@, crate::app::observe::checked(r, now, verdict), other);
}

/// A check of an endpoint is recorded with that endpoint alone: reached is good, not reached is
/// as bad as it gets, and a reported change raises one incident that says which.
pub proof fn law_an_endpoint_check(
    m: AppModel,
    now: Timestamp,
    endpoint: String,
    ok: bool,
    other: Seq<char>,
)
    requires
        ordered(m.reachability),
    ensures
        ({
            let cfg = m.config.thresholds;
            let f = folded(m, now, Sample::Reachability { endpoint, ok });
            let r = held_or(
                m.reachability,
                endpoint@,
                ReachState { ok: true, health: or_fresh(None, cfg) },
            );
            &&& f.0 == (AppModel { reachability: f.0.reachability, ..m })
            &&& other != endpoint@ ==> lookup(f.0.reachability, other) == lookup(
                m.reachability,
                other,
            )
            &&& lookup(f.0.reachability, endpoint@) matches Some(u) && {
                &&& u.ok == ok
                &&& ok ==> u.health == debounced(r.health, now, Health::Good)
                &&& !ok ==> u.health == debounced(r.health, now, Health::Crit)
                &&& f.1.len() == turns(r.health, u.health)
                &&& f.1.len() == 1 ==> {
                    let inc = f.1[0];
                    &&& raised_at(inc, now, MetricId::Reachability)
                    &&& inc.target == Some(endpoint@)
                    &&& inc.severity == u.health.state
                    &&& ok ==> inc.message == endpoint@ + " reachable"@
                    &&& !ok ==> inc.message == endpoint@ + " unreachable"@
                }
            }
        }),
{
    let cfg = m.config.thresholds;
    let r = held_or(
        m.reachability,
        endpoint@,
        ReachState { ok: true, health: or_fresh(None, cfg) },
    );
    law_upsert(m.reachability, endpoint@, crate::app::observe::reached(r, now, ok), other);
}

/// A portal is shown from the moment it is reported until it is reported gone, and a check that
/// changes nothing reported changes nothing shown; seeing one is as bad as it gets.
pub proof fn law_a_portal_check(m: AppModel, now: Timestamp, detected: bool)
    ensures
        ({
            let cfg = m.config.thresholds;
            let f = folded(m, now, Sample::CaptivePortal { detected });
            let d = or_fresh(m.captive_health, cfg);
            &&& f.0 == (AppModel {
                captive_health: f.0.captive_health,
                captive_portal: f.0.captive_portal,
                ..m
            })
            &&& f.0.captive_health matches Some(e) && {
                &&& detected ==> e == debounced(d, now, Health::Crit)
                &&& !detected ==> e == debounced(d, now, Health::Good)
                &&& e.state == d.state ==> f.0.captive_portal == m.captive_portal && f.1.len() == 0
                &&& e.state != d.state ==> {
                    &&& f.0.captive_portal == detected
                    &&& f.1.len() == 1
                    &&& raised_at(f.1[0], now, MetricId::CaptivePortal)
                    &&& f.1[0].severity == e.state
                    &&& detected ==> f.1[0].message
                        == "captive portal detected (sign-in required)"@
                    &&& !detected ==> f.1[0].message == "captive portal cleared"@
                }
            }
        }),
{
}

/// A new public address is news and an old one is not: the first sighting and a repeated one
/// raise nothing, and a change raises one warning that names both addresses.
pub proof fn law_a_sighting_of_the_public_address(m: AppModel, now: Timestamp, ip: String)
    ensures
        ({
            let f = folded(m, now, Sample::PublicIp { ip });
            &&& f.0 == (AppModel { public_ip: Some(ip@), ..m })
            &&& m.public_ip is None || m.public_ip == Some(ip@) ==> f.1.len() == 0
            &&& m.public_ip is Some && m.public_ip != Some(ip@) ==> {
                &&& f.1.len() == 1
                &&& raised_at(f.1[0], now, MetricId::PublicIp)
                &&& f.1[0].severity == Health::Warn
                &&& f.1[0].message == "public IP changed "@ + m.public_ip->0 + " → "@ + ip@
            }
        }),
{
}

/// A passive reading extends the history of what was received with what was received, and that
/// of what was sent with what was sent, and raises nothing.
pub proof fn law_a_passive_rate(m: AppModel, now: Timestamp, rx_bps: Reading, tx_bps: Reading)
    ensures
        ({
            let f = folded(m, now, Sample::Throughput { rx_bps, tx_bps });
            &&& f.0 == (AppModel { throughput: f.0.throughput, ..m })
            &&& f.0.throughput == (crate::app::state::ThroughputModel {
                rx_bps: f.0.throughput.rx_bps,
                tx_bps: f.0.throughput.tx_bps,
                ..m.throughput
            })
            &&& f.0.throughput.rx_bps matches Some(s) && s.items.last() == rx_bps
            &&& f.0.throughput.tx_bps matches Some(s) && s.items.last() == tx_bps
            &&& f.1.len() == 0
        }),
{
}

/// A capacity is held against the bounds of throughput, and a reported change raises one
/// incident: a recovery, or the rate with the bound that it fell to.
pub proof fn law_a_capacity_probe(m: AppModel, now: Timestamp, mbps: Reading)
    ensures
        ({
            let cfg = m.config.thresholds;
            let f = folded(m, now, Sample::ThroughputProbe { mbps });
            let d = or_fresh(m.throughput.health, cfg);
            &&& f.0 == (AppModel { throughput: f.0.throughput, ..m })
            &&& f.0.throughput.last_mbps == Some(mbps)
            &&& f.0.throughput.capacity_mbps matches Some(s) && s.items.last() == mbps
            &&& f.0.throughput.bufferbloat_health == m.throughput.bufferbloat_health
            &&& f.0.throughput.health matches Some(e) && {
                &&& e == debounced(d, now, cfg.throughput.health_of(mbps as int))
                &&& f.1.len() == turns(d, e)
                &&& f.1.len() == 1 ==> {
                    let inc = f.1[0];
                    &&& raised_at(inc, now, MetricId::Throughput)
                    &&& inc.severity == e.state
                    &&& inc.severity == Health::Good ==> inc.message == "throughput recovered"@
                        && inc.value is None
                    &&& inc.severity != Health::Good ==> inc.value == Some(mbps) && inc.unit
                        == "Mbps"@ && quotes(inc, cfg.throughput) && inc.message == "throughput "@
                        + fixed0(mbps as int) + "Mbps below floor"@
                }
            }
        }),
{
}

/// Bufferbloat is what load adds to the latency, nothing where it adds none: that is what is
/// recorded, held against the bounds of bufferbloat and reported.
pub proof fn law_a_bloat_measurement(
    m: AppModel,
    now: Timestamp,
    idle_ms: Reading,
    loaded_ms: Reading,
)
    ensures
        ({
            let cfg = m.config.thresholds;
            let f = folded(m, now, Sample::Bufferbloat { idle_ms, loaded_ms });
            let d = or_fresh(m.throughput.bufferbloat_health, cfg);
            let added = if loaded_ms <= idle_ms {
                0
            } else if loaded_ms - idle_ms > i64::MAX {
                i64::MAX as int
            } else {
                loaded_ms - idle_ms
            };
            &&& f.0 == (AppModel { throughput: f.0.throughput, ..m })
            &&& f.0.throughput.idle_latency_ms == Some(idle_ms)
            &&& f.0.throughput.loaded_latency_ms == Some(loaded_ms)
            &&& f.0.throughput.added_latency_ms matches Some(s) && s.items.last() == added
            &&& f.0.throughput.health == m.throughput.health
            &&& f.0.throughput.bufferbloat_health matches Some(e) && {
                &&& e == debounced(d, now, cfg.bufferbloat.health_of(added))
                &&& f.1.len() == turns(d, e)
                &&& f.1.len() == 1 ==> {
                    let inc = f.1[0];
                    &&& raised_at(inc, now, MetricId::Bufferbloat)
                    &&& inc.severity == e.state
                    &&& inc.severity == Health::Good ==> inc.message == "bufferbloat cleared"@
                    &&& inc.severity != Health::Good ==> (inc.value matches Some(v) && v == added)
                        && inc.unit == "ms"@ && quotes(inc, cfg.bufferbloat) && inc.message
                        == "bufferbloat +"@ + fixed0(added) + "ms under load"@
                }
            }
        }),
{
}

/// A link reading with a signal is recorded and held against the bounds of the signal; one
/// without leaves signal, history and health as they were. Whatever else it says replaces what
/// was known, and what it leaves out stays.
pub proof fn law_a_link_reading(
    m: AppModel,
    now: Timestamp,
    rssi_dbm: Option<Reading>,
    noise_dbm: Option<Reading>,
    tx_rate: Option<Reading>,
    ssid: Option<String>,
)
    ensures
        ({
            let cfg = m.config.thresholds;
            let f = folded(m, now, Sample::Link { rssi_dbm, noise_dbm, tx_rate, ssid });
            let d = or_fresh(m.link.health, cfg);
            &&& f.0 == (AppModel { link: f.0.link, ..m })
            &&& noise_dbm is Some ==> f.0.link.noise_dbm == noise_dbm
            &&& noise_dbm is None ==> f.0.link.noise_dbm == m.link.noise_dbm
            &&& tx_rate is Some ==> f.0.link.tx_rate == tx_rate
            &&& tx_rate is None ==> f.0.link.tx_rate == m.link.tx_rate
            &&& ssid matches Some(s) ==> f.0.link.ssid == Some(s@)
            &&& ssid is None ==> f.0.link.ssid == m.link.ssid
            &&& rssi_dbm is None ==> {
                &&& f.0.link.rssi_dbm == m.link.rssi_dbm
                &&& f.0.link.rssi_history == m.link.rssi_history
                &&& f.0.link.noise_history == m.link.noise_history
                &&& f.0.link.health == m.link.health
                &&& f.1.len() == 0
            }
            &&& rssi_dbm matches Some(r) ==> {
                &&& f.0.link.rssi_dbm == Some(r)
                &&& f.0.link.rssi_history matches Some(s) && s.items.last() == r
                &&& noise_dbm matches Some(n) ==> (f.0.link.noise_history matches Some(s)
                    && s.items.last() == n)
                &&& f.0.link.health matches Some(e) && {
                    &&& e == debounced(d, now, cfg.rssi.health_of(r as int))
                    &&& f.1.len() == turns(d, e)
                    &&& f.1.len() == 1 ==> raised_at(f.1[0], now, MetricId::Link)
                        && f.1[0].severity == e.state && f.1[0].value == Some(r) && f.1[0].unit
                        == "dBm"@ && quotes(f.1[0], cfg.rssi) && f.1[0].target == Some("wifi"@)
                }
            }
        }),
{
}

/// Errors on the card, received and sent alike, are counted together and held against the
/// bounds of the card's errors.
pub proof fn law_an_error_count(m: AppModel, now: Timestamp, rx_errors: u64, tx_errors: u64)
    requires
        (rx_errors + tx_errors) * 1_000_000_000 <= i64::MAX,
    ensures
        ({
            let cfg = m.config.thresholds;
            let f = folded(m, now, Sample::InterfaceErrors { rx_errors, tx_errors });
            let d = or_fresh(m.iface.health, cfg);
            let errors = (rx_errors + tx_errors) * 1_000_000_000;
            &&& f.0 == (AppModel { iface: f.0.iface, ..m })
            &&& f.0.iface.rx_errors == Some(rx_errors) && f.0.iface.tx_errors == Some(tx_errors)
            &&& f.0.iface.health matches Some(e) && {
                &&& e == debounced(d, now, cfg.interface_errors.health_of(errors))
                &&& f.1.len() == turns(d, e)
                &&& f.1.len() == 1 ==> raised_at(f.1[0], now, MetricId::InterfaceErrors)
                    && f.1[0].severity == e.state && (f.1[0].value matches Some(v) && v == errors)
                    && quotes(f.1[0], cfg.interface_errors) && f.1[0].target == Some("nic"@)
                    && f.1[0].unit == ""@
            }
        }),
{
}

/// A handshake is recorded with its endpoint alone. One that completed extends the history and
/// is held against the bounds of handshakes; one that failed extends nothing and is as bad as
/// it gets. A reported change raises one incident: the time, or that it failed.
pub proof fn law_a_tcp_handshake(
    m: AppModel,
    now: Timestamp,
    endpoint: String,
    connect_ms: Option<Reading>,
    other: Seq<char>,
)
    requires
        ordered(m.tcp),
    ensures
        ({
            let cfg = m.config.thresholds;
            let f = folded(m, now, Sample::TcpHandshake { endpoint, connect_ms });
            let h = held_or(m.tcp, endpoint@, fresh_handshake(cfg));
            &&& f.0 == (AppModel { tcp: f.0.tcp, ..m })
            &&& other != endpoint@ ==> lookup(f.0.tcp, other) == lookup(m.tcp, other)
            &&& lookup(f.0.tcp, endpoint@) matches Some(u) && {
                &&& u.last_ok == (connect_ms is Some)
                &&& connect_ms is None ==> u.connect_ms == h.connect_ms && u.health == debounced(
                    h.health,
                    now,
                    Health::Crit,
                )
                &&& connect_ms matches Some(ms) ==> u.connect_ms == h.connect_ms.pushed(ms)
                    && u.health == debounced(h.health, now, cfg.tcp_handshake.health_of(ms as int))
                &&& f.1.len() == turns(h.health, u.health)
                &&& f.1.len() == 1 ==> {
                    let inc = f.1[0];
                    &&& raised_at(inc, now, MetricId::TcpHandshake)
                    &&& inc.target == Some(endpoint@)
                    &&& inc.severity == u.health.state
                    &&& inc.value == connect_ms
                    &&& connect_ms is Some ==> quotes(inc, cfg.tcp_handshake)
                    &&& connect_ms is None ==> inc.message == "tcp"@ + " handshake failed ("@
                        + endpoint@ + ")"@
                }
            }
        }),
{
    let cfg = m.config.thresholds;
    let h = held_or(m.tcp, endpoint@, fresh_handshake(cfg));
    law_upsert(m.tcp, endpoint@, crate::app::observe::shook(h, cfg, now, connect_ms), other);
}

/// A negotiation is recorded with its endpoint alone: its time as a handshake's, and what the
/// certificate has left where one was seen. A certificate with three days left or fewer is
/// critical, with fourteen or fewer worth a warning, and otherwise good; without one nothing is
/// said of it. Every reported change of either raises one incident.
#[verifier::spinoff_prover]
#[verifier::rlimit(40)]
pub proof fn law_a_negotiation(
    m: AppModel,
    now: Timestamp,
    endpoint: String,
    handshake_ms: Option<Reading>,
    expires_in_days: Option<i64>,
    other: Seq<char>,
)
    requires
        ordered(m.tls),
    ensures
        ({
            let cfg = m.config.thresholds;
            let f = folded(m, now, Sample::Tls { endpoint, handshake_ms, expires_in_days });
            let t = held_or(m.tls, endpoint@, fresh_tls(cfg));
            &&& f.0 == (AppModel { tls: f.0.tls, ..m })
            &&& other != endpoint@ ==> lookup(f.0.tls, other) == lookup(m.tls, other)
            &&& lookup(f.0.tls, endpoint@) matches Some(u) && {
                &&& u.handshake.last_ok == (handshake_ms is Some)
                &&& handshake_ms is None ==> u.handshake.connect_ms == t.handshake.connect_ms
                    && u.handshake.health == debounced(t.handshake.health, now, Health::Crit)
                &&& handshake_ms matches Some(ms) ==> u.handshake.connect_ms
                    == t.handshake.connect_ms.pushed(ms) && u.handshake.health == debounced(
                    t.handshake.health,
                    now,
                    cfg.tcp_handshake.health_of(ms as int),
                )
                &&& expires_in_days is None ==> u.expires_in_days == t.expires_in_days
                    && u.expiry_health == t.expiry_health
                &&& expires_in_days matches Some(d) ==> {
                    &&& u.expires_in_days == Some(d)
                    &&& d <= 3 ==> u.expiry_health == debounced(t.expiry_health, now, Health::Crit)
                    &&& 3 < d <= 14 ==> u.expiry_health == debounced(
                        t.expiry_health,
                        now,
                        Health::Warn,
                    )
                    &&& d > 14 ==> u.expiry_health == debounced(t.expiry_health, now, Health::Good)
                }
                &&& f.1.len() == turns(t.handshake.health, u.handshake.health) + turns(
                    t.expiry_health,
                    u.expiry_health,
                )
                &&& forall|i: int|
                    0 <= i < f.1.len() ==> {
                        let inc = #[trigger] f.1[i];
                        &&& inc.target == Some(endpoint@)
                        &&& raised_at(inc, now, inc.metric)
                        &&& match inc.metric {
                            MetricId::Tls => {
                                &&& turns(t.handshake.health, u.handshake.health) == 1
                                &&& inc.severity == u.handshake.health.state
                                &&& inc.value == handshake_ms
                            },
                            MetricId::Certificate => {
                                &&& turns(t.expiry_health, u.expiry_health) == 1
                                &&& inc.severity == u.expiry_health.state
                                &&& expires_in_days matches Some(d) && {
                                    &&& inc.severity == Health::Good ==> inc.message
                                        == "certificate renewed ("@ + endpoint@ + ")"@
                                    &&& inc.severity != Health::Good && d >= 0 ==> inc.message
                                        == "certificate expires in "@ + decimal(d as nat) + "d ("@
                                        + endpoint@ + ")"@
                                    &&& inc.severity != Health::Good && d < 0 ==> inc.message
                                        == "certificate expired "@ + decimal((-d) as nat)
                                        + "d ago ("@ + endpoint@ + ")"@
                                }
                            },
                            _ => false,
                        }
                    }
            }
        }),
{
    let cfg = m.config.thresholds;
    let t = held_or(m.tls, endpoint@, fresh_tls(cfg));
    law_upsert(
        m.tls,
        endpoint@,
        crate::app::observe::negotiated(t, cfg, now, handshake_ms, expires_in_days),
        other,
    );
}

/// A traced path replaces the last one. One that does not get through is as bad as it gets, one
/// that took another way is a warning, and any other is good; a reported change raises one
/// incident that says which.
pub proof fn law_a_traced_path(
    m: AppModel,
    now: Timestamp,
    target: String,
    hop_count: usize,
    reachable: bool,
    changed: bool,
    detail: Vec<Hop>,
)
    ensures
        ({
            let cfg = m.config.thresholds;
            let f = folded(
                m,
                now,
                Sample::Routing { target, hops: hop_count, reachable, changed, detail },
            );
            let d = or_fresh(m.routing.health, cfg);
            &&& f.0 == (AppModel { routing: f.0.routing, ..m })
            &&& f.0.routing.hops == hop_count && f.0.routing.reachable == reachable
                && f.0.routing.changed == changed && f.0.routing.seen && f.0.routing.detail == hops(
                detail@,
            )
            &&& f.0.routing.health matches Some(e) && {
                &&& !reachable ==> e == debounced(d, now, Health::Crit)
                &&& reachable && changed ==> e == debounced(d, now, Health::Warn)
                &&& reachable && !changed ==> e == debounced(d, now, Health::Good)
                &&& f.1.len() == turns(d, e)
                &&& f.1.len() == 1 ==> {
                    let inc = f.1[0];
                    &&& raised_at(inc, now, MetricId::Routing)
                    &&& inc.target == Some(target@)
                    &&& inc.severity == e.state
                    &&& !reachable ==> inc.message == "route to "@ + target@ + " unreachable"@
                    &&& reachable && changed ==> inc.message == "route to "@ + target@
                        + " changed ("@ + decimal(hop_count as nat) + " hops)"@
                    &&& reachable && !changed ==> inc.message == "route to "@ + target@
                        + " stable ("@ + decimal(hop_count as nat) + " hops)"@
                }
            }
        }),
{
}

/// What an incident of a measured value says: a recovery that it recovered, and anything else
/// the metric, the value and its unit, and the target.
pub proof fn law_a_measured_incident_says_what_was_measured(
    now: Timestamp,
    metric: MetricId,
    target: Seq<char>,
    sev: Health,
    value: Reading,
    unit: Seq<char>,
    t: Thresholds,
)
    ensures
        ({
            let inc = scalar_report(now, metric, target, sev, value, unit, t);
            &&& raised_at(inc, now, metric) && inc.severity == sev && inc.target == Some(target)
            &&& inc.value == Some(value) && inc.unit == unit && quotes(inc, t)
            &&& sev == Health::Good ==> inc.message == metric_label(metric) + " recovered ("@
                + target + ")"@
            &&& sev != Health::Good ==> inc.message == metric_label(metric) + " "@ + fixed0(
                value as int,
            ) + unit + " ("@ + target + ")"@
        }),
{
}

// ---------------------------------------------------------------------------------------
// Noise
// ---------------------------------------------------------------------------------------

/// What is reported of a swing: the incident itself while the metric is steady; at the swing
/// that makes it flap, one warning about the instability in its place; and nothing while it
/// flaps.
pub proof fn law_swings_of_a_flapping_metric_are_held_back(
    st: FlapModel,
    a: AlertConfig,
    now: Timestamp,
    inc: IncidentModel,
)
    ensures
        ({
            let out = swing_report(st, a, now, inc);
            let after = observed(st.detector, now, true);
            &&& !after.flapping ==> out == seq![inc]
            &&& after.flapping && st.detector.flapping ==> out.len() == 0
            &&& after.flapping && !st.detector.flapping ==> out.len() == 1 && {
                &&& out[0].severity == Health::Warn
                &&& out[0].metric == inc.metric
                &&& out[0].ts == now
                &&& inc.target is Some ==> out[0].target == inc.target
                &&& out[0].message == metric_label(inc.metric) + " flapping ("@ + out[0].target->0
                    + "): "@ + decimal(after.transitions.len()) + " changes in "@ + fixed0(
                    a.flap_window_secs as int,
                ) + "s"@
            }
        }),
{
}

/// What closes an episode of flapping: the swing that was held back last, as it was but for the
/// time and a word on the flapping; where none was held back, that the noise stopped.
pub proof fn law_the_last_swing_is_not_lost(
    now: Timestamp,
    key: crate::app::state::FlapKeyModel,
    last: Option<IncidentModel>,
)
    ensures
        ({
            let out = settle_report(now, key, last);
            &&& out.ts == now
            &&& last matches Some(inc) ==> {
                &&& out.metric == inc.metric && out.severity == inc.severity
                &&& out.value == inc.value && out.unit == inc.unit
                &&& out.threshold == inc.threshold && out.target == inc.target
                &&& out.cause == inc.cause
                &&& inc.message.is_prefix_of(out.message)
            }
            &&& last is None ==> out.metric == key.metric && out.severity == Health::Good
                && out.target == Some(key.target)
        }),
{
    match last {
        Some(inc) => {
            let out = settle_report(now, key, last);
            assert(out.message.take(inc.message.len() as int) =~= inc.message);
        },
        None => {},
    }
}

/// A swing that is held back is remembered, so that the last of them can be reported; one that
/// is reported is not.
pub proof fn law_held_back_swings_are_remembered(
    st: FlapModel,
    now: Timestamp,
    inc: IncidentModel,
)
    ensures
        ({
            let after = swung(st, now, inc);
            &&& after.detector == observed(st.detector, now, true)
            &&& st.detector.flapping && after.detector.flapping ==> after.last_suppressed
                == Some(inc)
            &&& !(st.detector.flapping && after.detector.flapping) ==> after.last_suppressed
                == st.last_suppressed
        }),
{
}

/// The same alert within the cooldown is dropped, and after it, or with another metric, target
/// or severity, it is not: of one alert on its own, it is reported exactly where no like was
/// reported less than the cooldown ago.
pub proof fn law_only_a_fresh_repetition_is_dropped(
    recent: Seq<(AlertKeyModel, Timestamp)>,
    now: Timestamp,
    cooldown: int,
    inc: IncidentModel,
    key: AlertKeyModel,
    last: Timestamp,
)
    requires
        key.metric == inc.metric,
        key.severity == inc.severity,
        inc.target matches Some(t) ==> key.target == t,
        inc.target is None ==> key.target.len() == 0,
    ensures
        lookup(recent, key) is None ==> deduped(recent, now, cooldown, seq![inc]) == seq![inc],
        lookup(recent, key) == Some(last) && last <= now && now - last < cooldown ==> deduped(
            recent,
            now,
            cooldown,
            seq![inc],
        ).len() == 0,
        lookup(recent, key) == Some(last) && now - last >= cooldown ==> deduped(
            recent,
            now,
            cooldown,
            seq![inc],
        ) == seq![inc],
        lookup(recent, key) == Some(last) && last > now ==> deduped(
            recent,
            now,
            cooldown,
            seq![inc],
        ) == seq![inc],
{
    let one = seq![inc];
    assert(one.drop_last() =~= Seq::<IncidentModel>::empty());
    assert(crate::app::noise::target_or_empty(inc.target) =~= key.target);
    assert(deduped(recent, now, cooldown, one.drop_last()) =~= Seq::<IncidentModel>::empty());
    assert(Seq::<IncidentModel>::empty().push(inc) =~= one);
}

/// The newest incident stands first in the feed, the others follow in their order, and only
/// the oldest leave.
pub proof fn law_the_newest_incident_comes_first(
    events: Seq<IncidentModel>,
    max: nat,
    inc: IncidentModel,
    i: int,
)
    requires
        max > 0,
        events.len() <= max,
    ensures
        fed(events, max, inc)[0] == inc,
        0 < i < fed(events, max, inc).len() ==> fed(events, max, inc)[i] == events[i - 1],
        fed(events, max, inc).len() == (if events.len() < max {
            events.len() + 1
        } else {
            max
        }),
{
}

/// What time alone settles is what flapped and has not swung within the window; that closes
/// the episode, and anything else leaves it as it is.
pub proof fn law_only_a_quiet_window_settles(st: FlapModel, now: Timestamp)
    requires
        in_time_order(st.detector.transitions),
        st.detector.transitions.len() > 0 ==> st.detector.transitions.last() <= now,
        st.detector.window >= 0,
        st.detector.flaps >= 2,
    ensures
        settles(st, now) <==> st.detector.flapping && since(
            st.detector.transitions,
            now - st.detector.window,
        ) == 0,
        settles(st, now) ==> !aged_one(st, now).detector.flapping && aged_one(
            st,
            now,
        ).last_suppressed is None,
        !settles(st, now) ==> aged_one(st, now).last_suppressed == st.last_suppressed,
{
    law_enough_swings_in_the_window_are_flapping(st.detector, now, false);
}

/// How many of the metrics time has settled.
pub open spec fn settled_count(s: Seq<(FlapKeyModel, FlapModel)>, now: Timestamp) -> nat
    decreases s.len(),
{
    if s.len() == 0 {
        0
    } else {
        settled_count(s.drop_last(), now) + (if settles(s.last().1, now) {
            1nat
        } else {
            0nat
        })
    }
}

/// Every metric that time settles is reported, once each.
pub proof fn law_every_settled_metric_is_reported(
    s: Seq<(FlapKeyModel, FlapModel)>,
    now: Timestamp,
    i: int,
)
    requires
        0 <= i < s.len(),
    ensures
        settles(s[i].1, now) ==> settlements(s, now).contains(
            settle_report(now, s[i].0, s[i].1.last_suppressed),
        ),
        settlements(s, now).len() == settled_count(s, now),
    decreases s.len(),
{
    let before = settlements(s.drop_last(), now);
    let report = settle_report(now, s[i].0, s[i].1.last_suppressed);
    if s.len() > 1 {
        law_every_settled_metric_is_reported(
            s.drop_last(),
            now,
            if i < s.len() - 1 {
                i
            } else {
                0
            },
        );
    } else {
        assert(before.len() == 0 && settled_count(s.drop_last(), now) == 0);
    }
    let all = settlements(s, now);
    if i < s.len() - 1 {
        assert(s.drop_last()[i] == s[i]);
        if settles(s[i].1, now) {
            let k = choose|k: int| 0 <= k < before.len() && before[k] == report;
            assert(all[k] == report);
        }
    } else if settles(s[i].1, now) {
        assert(all[before.len() as int] == report);
    }
}

/// A metric that has not swung yet is steady, and flaps after as many swings, in as long a
/// window, as is configured; what is fine as milliseconds is kept.
pub proof fn law_a_steady_metric_has_not_swung(a: AlertConfig)
    ensures
        fresh_flaps(a).detector.transitions.len() == 0,
        !fresh_flaps(a).detector.flapping,
        fresh_flaps(a).last_suppressed is None,
        fresh_flaps(a).detector.flaps == a.flap_count,
        a.flap_window_secs >= 0 ==> fresh_flaps(a).detector.window <= a.flap_window_secs
            < fresh_flaps(a).detector.window + 1_000_000,
        a.flap_window_secs >= 0 ==> fresh_flaps(a).detector.window % 1_000_000 == 0,
        a.flap_window_secs < 0 ==> fresh_flaps(a).detector.window == 0,
{
}

/// A swing counts for the metric and the target that it is about, and for no other.
pub proof fn law_swings_are_counted_apart(
    s: Seq<(FlapKeyModel, FlapModel)>,
    a: AlertConfig,
    now: Timestamp,
    inc: IncidentModel,
    own: FlapKeyModel,
    other: FlapKeyModel,
)
    requires
        ordered(s),
        own.metric == inc.metric,
        inc.target matches Some(t) ==> own.target == t,
        inc.target is None ==> own.target.len() == 0,
    ensures
        other != own ==> lookup(swings(s, a, now, seq![inc]), other) == lookup(s, other),
        lookup(swings(s, a, now, seq![inc]), own) matches Some(st) && st.detector == observed(
            (match lookup(s, own) {
                Some(x) => x,
                None => fresh_flaps(a),
            }).detector,
            now,
            true,
        ),
{
    let one = seq![inc];
    assert(one.drop_last() =~= Seq::<IncidentModel>::empty());
    assert(crate::app::noise::target_or_empty(inc.target) =~= own.target);
    assert(crate::app::noise::flap_key(inc) == own);
    assert(swings(s, a, now, one.drop_last()) == s);
    law_upsert(s, own, swung(flaps_of(s, a, inc), now, inc), other);
}

/// A lone incident of a steady metric goes all the way: where nothing flaps, the metric has
/// not swung before and nothing like it was reported, what one reading raises is reported, with
/// the cause that it is an echo of, and stands on top of the feed.
#[verifier::spinoff_prover]
#[verifier::rlimit(40)]
pub proof fn law_lone_news_is_reported(m: AppModel, now: Timestamp, sample: Sample)
    requires
        folded(m, now, sample).1.len() == 1,
        folded(m, now, sample).0.flaps.len() == 0,
        folded(m, now, sample).0.recent_alerts.len() == 0,
        folded(m, now, sample).0.config.alerts.flap_count >= 2,
        folded(m, now, sample).0.max_events > 0,
    ensures
        ({
            let f = folded(m, now, sample);
            &&& reports(m, now, sample) == seq![attributed(f.0, f.1)[0]]
            &&& sampled(m, now, sample).events.len() > 0
            &&& sampled(m, now, sample).events[0] == attributed(f.0, f.1)[0]
        }),
{
    let f = folded(m, now, sample);
    let a = f.0.config.alerts;
    let v = attributed(f.0, f.1);
    let inc = v[0];
    assert(v =~= seq![inc]);
    assert(v.drop_last() =~= Seq::<IncidentModel>::empty());
    assert(settlements(f.0.flaps, now) =~= Seq::<IncidentModel>::empty());
    let none = aged(f.0.flaps, now);
    assert(none.len() == 0);
    assert(lookup(none, crate::app::noise::flap_key(inc)) is None);
    let d = fresh_flaps(a).detector;
    assert(!observed(d, now, true).flapping) by {
        law_enough_swings_in_the_window_are_flapping(d, now, true);
    }
    assert(swing_reports(none, a, now, v.drop_last()) =~= Seq::<IncidentModel>::empty());
    assert(swing_reports(none, a, now, v) =~= seq![inc]);
    assert(unflapped(f.0.flaps, a, now, v) =~= seq![inc]);
    let cooldown = dwell_span(a.dedup_secs) as int;
    assert(lookup(f.0.recent_alerts, crate::app::noise::alert_key(inc)) is None);
    let one = seq![inc];
    assert(one.drop_last() =~= Seq::<IncidentModel>::empty());
    assert(deduped(f.0.recent_alerts, now, cooldown, one.drop_last()) =~= Seq::<
        IncidentModel,
    >::empty());
    assert(deduped(f.0.recent_alerts, now, cooldown, one) =~= one);
    assert(reports(m, now, sample) =~= one);
    assert(fed_all(f.0.events, f.0.max_events as nat, one.drop_last()) =~= f.0.events);
}

/// A failing log is reported once, in the feed and as a warning, with what went wrong.
pub proof fn law_a_failing_log_is_reported(m: AppModel, now: Timestamp, err: Seq<char>)
    requires
        m.log_error is None,
        m.max_events > 0,
    ensures
        ({
            let after = log_failed(m, now, err);
            &&& after == (AppModel { log_error: Some(err), events: after.events, ..m })
            &&& after.events.len() > 0
            &&& raised_at(after.events[0], now, MetricId::Log)
            &&& after.events[0].severity == Health::Warn
            &&& after.events[0].message == "incident log unwritable, history is not being saved: "@
                + err
        }),
{
}

// ---------------------------------------------------------------------------------------
// Rolling up
// ---------------------------------------------------------------------------------------

/// A panel is at least as bad as everything that it shows.
#[verifier::spinoff_prover]
#[verifier::rlimit(40)]
pub proof fn law_a_panel_hides_nothing(m: AppModel, i: int)
    ensures
        ({
            let pings = severity(panel(m, MetricId::Latency));
            let names = severity(panel(m, MetricId::Dns));
            let flow = severity(panel(m, MetricId::Throughput));
            let link = severity(panel(m, MetricId::Link));
            let transport = severity(panel(m, MetricId::TcpHandshake));
            &&& 0 <= i < m.targets.len() ==> pings >= severity(
                m.targets[i].1.latency_health.state,
            ) && pings >= severity(m.targets[i].1.jitter_health.state) && severity(
                panel(m, MetricId::Loss),
            ) >= severity(m.targets[i].1.loss_health.state)
            &&& 0 <= i < m.resolvers.len() ==> names >= severity(m.resolvers[i].1.health.state)
                && names >= severity(m.resolvers[i].1.integrity_health.state)
            &&& m.throughput.health matches Some(d) ==> flow >= severity(d.state)
            &&& m.throughput.bufferbloat_health matches Some(d) ==> flow >= severity(d.state)
            &&& m.routing.health matches Some(d) ==> panel(m, MetricId::Routing) == d.state
            &&& m.routing.health is None ==> panel(m, MetricId::Routing) == Health::Good
            &&& m.link.health matches Some(d) ==> link >= severity(d.state)
            &&& 0 <= i < m.reachability.len() ==> link >= severity(
                m.reachability[i].1.health.state,
            )
            &&& m.captive_health matches Some(d) ==> link >= severity(d.state)
            &&& m.iface.health matches Some(d) ==> link >= severity(d.state)
            &&& 0 <= i < m.tcp.len() ==> transport >= severity(m.tcp[i].1.health.state)
            &&& 0 <= i < m.tls.len() ==> transport >= severity(
                m.tls[i].1.handshake.health.state,
            ) && transport >= severity(m.tls[i].1.expiry_health.state)
        }),
{
    lemma_worst_in_is_worst(latency_states(m.targets));
    lemma_worst_in_is_worst(loss_states(m.targets));
    lemma_worst_in_is_worst(resolver_states(m.resolvers));
    lemma_worst_in_is_worst(reach_states(m.reachability));
    lemma_worst_in_is_worst(tcp_states(m.tcp));
    lemma_worst_in_is_worst(tls_states(m.tls));
    if 0 <= i < m.targets.len() {
        assert(severity(latency_states(m.targets)[i]) <= severity(panel(m, MetricId::Latency)));
        assert(severity(loss_states(m.targets)[i]) <= severity(panel(m, MetricId::Loss)));
    }
    if 0 <= i < m.resolvers.len() {
        assert(severity(resolver_states(m.resolvers)[i]) <= severity(panel(m, MetricId::Dns)));
    }
    if 0 <= i < m.reachability.len() {
        assert(severity(reach_states(m.reachability)[i]) <= severity(panel(m, MetricId::Link)));
    }
    if 0 <= i < m.tcp.len() {
        assert(severity(tcp_states(m.tcp)[i]) <= severity(panel(m, MetricId::TcpHandshake)));
    }
    if 0 <= i < m.tls.len() {
        assert(severity(tls_states(m.tls)[i]) <= severity(panel(m, MetricId::TcpHandshake)));
    }
}

/// A panel that is not good shows something that bad, and metrics that share a panel share its
/// health.
#[verifier::spinoff_prover]
#[verifier::rlimit(40)]
pub proof fn law_a_panel_makes_nothing_up(m: AppModel)
    ensures
        ({
            let h = panel(m, MetricId::Latency);
            &&& h != Health::Good ==> exists|i: int|
                0 <= i < m.targets.len() && ((#[trigger] m.targets[i]).1.latency_health.state == h
                    || m.targets[i].1.jitter_health.state == h)
            &&& panel(m, MetricId::Jitter) == h
        }),
        ({
            let h = panel(m, MetricId::Loss);
            h != Health::Good ==> exists|i: int|
                0 <= i < m.targets.len() && (#[trigger] m.targets[i]).1.loss_health.state == h
        }),
        ({
            let h = panel(m, MetricId::Dns);
            &&& h != Health::Good ==> exists|i: int|
                0 <= i < m.resolvers.len() && ((#[trigger] m.resolvers[i]).1.health.state == h
                    || m.resolvers[i].1.integrity_health.state == h)
            &&& panel(m, MetricId::DnsIntegrity) == h
        }),
        ({
            let h = panel(m, MetricId::Throughput);
            &&& h != Health::Good ==> (m.throughput.health is Some && m.throughput.health->0.state
                == h) || (m.throughput.bufferbloat_health is Some
                && m.throughput.bufferbloat_health->0.state == h)
            &&& panel(m, MetricId::Bufferbloat) == h
        }),
        ({
            let h = panel(m, MetricId::Link);
            &&& h != Health::Good ==> (m.link.health is Some && m.link.health->0.state == h) || (
            m.captive_health is Some && m.captive_health->0.state == h) || (m.iface.health is Some
                && m.iface.health->0.state == h) || exists|i: int|
                0 <= i < m.reachability.len() && (#[trigger] m.reachability[i]).1.health.state == h
            &&& panel(m, MetricId::Reachability) == h
            &&& panel(m, MetricId::CaptivePortal) == h
            &&& panel(m, MetricId::InterfaceErrors) == h
        }),
        ({
            let h = panel(m, MetricId::TcpHandshake);
            &&& h != Health::Good ==> (exists|i: int|
                0 <= i < m.tcp.len() && (#[trigger] m.tcp[i]).1.health.state == h) || (exists|
                i: int,
            |
                0 <= i < m.tls.len() && ((#[trigger] m.tls[i]).1.handshake.health.state == h
                    || m.tls[i].1.expiry_health.state == h))
            &&& panel(m, MetricId::Tls) == h
            &&& panel(m, MetricId::Certificate) == h
        }),
{
    lemma_worst_in_is_worst(latency_states(m.targets));
    lemma_worst_in_is_worst(loss_states(m.targets));
    lemma_worst_in_is_worst(resolver_states(m.resolvers));
    lemma_worst_in_is_worst(reach_states(m.reachability));
    lemma_worst_in_is_worst(tcp_states(m.tcp));
    lemma_worst_in_is_worst(tls_states(m.tls));
    let s = latency_states(m.targets);
    if s.contains(panel(m, MetricId::Latency)) {
        let k = choose|k: int| 0 <= k < s.len() && s[k] == panel(m, MetricId::Latency);
        assert(m.targets[k].1 == m.targets[k].1);
    }
    let s = loss_states(m.targets);
    if s.contains(panel(m, MetricId::Loss)) {
        let k = choose|k: int| 0 <= k < s.len() && s[k] == panel(m, MetricId::Loss);
        assert(m.targets[k].1 == m.targets[k].1);
    }
    let s = resolver_states(m.resolvers);
    if s.contains(panel(m, MetricId::Dns)) {
        let k = choose|k: int| 0 <= k < s.len() && s[k] == panel(m, MetricId::Dns);
        assert(m.resolvers[k].1 == m.resolvers[k].1);
    }
    let s = reach_states(m.reachability);
    if s.contains(panel(m, MetricId::Link)) {
        let k = choose|k: int| 0 <= k < s.len() && s[k] == panel(m, MetricId::Link);
        assert(m.reachability[k].1 == m.reachability[k].1);
    }
    let s = tcp_states(m.tcp);
    if s.contains(panel(m, MetricId::TcpHandshake)) {
        let k = choose|k: int| 0 <= k < s.len() && s[k] == panel(m, MetricId::TcpHandshake);
        assert(m.tcp[k].1 == m.tcp[k].1);
    }
    let s = tls_states(m.tls);
    if s.contains(panel(m, MetricId::TcpHandshake)) {
        let k = choose|k: int| 0 <= k < s.len() && s[k] == panel(m, MetricId::TcpHandshake);
        assert(m.tls[k].1 == m.tls[k].1);
    }
}

/// A minute is sixty seconds.
pub proof fn law_a_minute_is_sixty_seconds(now: Timestamp)
    ensures
        minute_of(now) * 60_000_000_000 <= now < (minute_of(now) + 1) * 60_000_000_000,
{
}

/// What a tick does to the strip: within the minute of the last bucket that bucket takes on
/// the worse health and the others stay; a later minute gets a bucket of its own with the
/// health of the moment, right after buckets that say nothing for the minutes between.
pub proof fn law_a_tick_marks_the_minute(b: Bounded<Minute>, now: Timestamp, h: Health, i: int)
    requires
        b.wf(),
        b.cap > 0,
        b.items.len() > 0,
    ensures
        ({
            let last = b.items.last();
            let after = ticked(b, now, h);
            &&& last.minute >= minute_of(now) ==> {
                &&& after.items.len() == b.items.len()
                &&& 0 <= i < b.items.len() - 1 ==> after.items[i] == b.items[i]
                &&& after.items.last().minute == last.minute
                &&& last.health is None ==> after.items.last().health == Some(h)
                &&& last.health matches Some(p) ==> (after.items.last().health == Some(p)
                    || after.items.last().health == Some(h)) && (after.items.last().health
                    matches Some(x) && severity(x) >= severity(p) && severity(x) >= severity(h))
            }
            &&& last.minute < minute_of(now) ==> {
                &&& after.items.last() == (Minute {
                    minute: minute_of(now) as i64,
                    health: Some(h),
                })
                &&& last.minute + 1 == minute_of(now) && b.items.len() < b.cap ==> after.items
                    == b.items.push(Minute { minute: minute_of(now) as i64, health: Some(h) })
            }
        }),
{
    let last = b.items.last();
    if last.minute < minute_of(now) {
        assert(minute_of(now) as i64 == minute_of(now)) by {
            law_a_minute_is_sixty_seconds(now);
        }
        let n = gap_len(last.minute as int, minute_of(now));
        let g = with_gap(b, minute_of(now), n, n);
        lemma_gap_keeps_cap(b, minute_of(now), n, n);
    }
}

proof fn lemma_gap_keeps_cap(b: Bounded<Minute>, minute: int, n: int, k: int)
    requires
        b.wf(),
        b.cap > 0,
    ensures
        with_gap(b, minute, n, k).cap == b.cap,
        with_gap(b, minute, n, k).wf(),
    decreases k,
{
    if k > 0 {
        lemma_gap_keeps_cap(b, minute, n, k - 1);
    }
}

/// Every minute of the strip is counted once, and the uptime is the share of the good ones
/// among those that were watched.
pub proof fn law_uptime_is_the_share_of_good_minutes(s: Seq<Minute>, m: Minute, h: Option<Health>)
    ensures
        minutes_in(Seq::empty(), h) == 0,
        minutes_in(s.push(m), h) == minutes_in(s, h) + (if m.health == h {
            1nat
        } else {
            0nat
        }),
        minutes_in(s, Some(Health::Good)) + minutes_in(s, Some(Health::Warn)) + minutes_in(
            s,
            Some(Health::Crit),
        ) + minutes_in(s, None) == s.len(),
        ({
            let good = minutes_in(s, Some(Health::Good));
            let known = s.len() - minutes_in(s, None);
            &&& known == 0 ==> uptime(s) == 100_000_000_000
            &&& known > 0 ==> uptime(s) * known <= good * 100_000_000_000 < (uptime(s) + 1) * known
        }),
    decreases s.len(),
{
    assert(s.push(m).drop_last() =~= s);
    lemma_minutes_add_up(s);
    let good = minutes_in(s, Some(Health::Good));
    let known = (s.len() - minutes_in(s, None)) as nat;
    if known > 0 {
        lemma_percent_bounds(good, known);
        let a = good * 100_000_000_000;
        vstd::arithmetic::div_mod::lemma_fundamental_div_mod(a as int, known as int);
        let q = a as int / known as int;
        assert(known * q == q * known) by (nonlinear_arith);
        assert((q + 1) * known == q * known + known) by (nonlinear_arith);
        assert(q == uptime(s));
    }
}

proof fn lemma_minutes_add_up(s: Seq<Minute>)
    ensures
        minutes_in(s, Some(Health::Good)) + minutes_in(s, Some(Health::Warn)) + minutes_in(
            s,
            Some(Health::Crit),
        ) + minutes_in(s, None) == s.len(),
    decreases s.len(),
{
    if s.len() > 0 {
        lemma_minutes_add_up(s.drop_last());
        match s.last().health {
            Some(h) => match h {
                Health::Good => {},
                Health::Warn => {},
                Health::Crit => {},
            },
            None => {},
        }
    }
}

// ---------------------------------------------------------------------------------------
// Starting out
// ---------------------------------------------------------------------------------------

/// What nothing is known of yet is good, has been good for good, and remembers as much as is
/// configured.
pub proof fn law_nothing_known_is_good(t: ThresholdConfig, is_gateway: bool)
    ensures
        ({
            let d = or_fresh(None, t);
            let target = fresh_target(is_gateway, t);
            &&& d.state == Health::Good && d.pending is None
            &&& d.trip_after == dwell_span(t.trip_after_secs) && d.clear_after == dwell_span(
                t.clear_after_secs,
            )
            &&& target.latency_health == d && target.jitter_health == d && target.loss_health == d
            &&& target.is_gateway == is_gateway
            &&& target.latency_ms.items.len() == 0 && target.loss.items.len() == 0
            &&& target.loss_history.items.len() == 0
            &&& t.history_len > 0 ==> target.latency_ms.cap == t.history_len
                && target.loss_history.cap == t.history_len
            &&& t.loss_window > 0 ==> target.loss.cap == t.loss_window
            &&& fresh_resolver(t).health == d && fresh_resolver(t).integrity_health == d
            &&& fresh_resolver(t).last_ok && fresh_resolver(t).integrity == Integrity::Honest
            &&& fresh_handshake(t).health == d && fresh_handshake(t).last_ok
            &&& fresh_tls(t).handshake == fresh_handshake(t) && fresh_tls(t).expiry_health == d
            &&& fresh_tls(t).expires_in_days is None
        }),
{
}

/// Seconds become spans of whole milliseconds, none of them negative.
pub proof fn law_spans_are_whole_milliseconds(secs: Reading)
    ensures
        secs < 0 ==> dwell_span(secs) == 0,
        secs >= 0 ==> dwell_span(secs) <= secs < dwell_span(secs) + 1_000_000,
        dwell_span(secs) % 1_000_000 == 0,
{
}

/// The configured targets, and no others, are watched from the start: the hosts as hosts, the
/// gateway as the gateway.
pub proof fn law_the_configured_targets_are_watched(config: Config, name: Seq<char>)
    ensures
        ({
            let hosts = strings(config.targets.internet@);
            let found = lookup(configured_targets(config), name);
            &&& found is Some <==> hosts.contains(name) || text_of(config.targets.gateway) == Some(
                name,
            )
            &&& found matches Some(t) ==> (t.is_gateway <==> text_of(config.targets.gateway)
                == Some(name))
        }),
{
    let hosts = strings(config.targets.internet@);
    lemma_hosts(config, hosts, name);
    match text_of(config.targets.gateway) {
        Some(gw) => {
            let before = hosts_registered(config, hosts);
            let t = match lookup(before, gw) {
                Some(t) => t,
                None => fresh_target(true, config.thresholds),
            };
            law_upsert(
                before,
                gw,
                TargetModel { is_gateway: true, ..t },
                name,
            );
        },
        None => {},
    }
}

proof fn lemma_hosts(config: Config, hosts: Seq<Seq<char>>, name: Seq<char>)
    ensures
        ordered(hosts_registered(config, hosts)),
        lookup(hosts_registered(config, hosts), name) is Some <==> hosts.contains(name),
        lookup(hosts_registered(config, hosts), name) matches Some(t) ==> !t.is_gateway,
    decreases hosts.len(),
{
    if hosts.len() > 0 {
        let init = hosts.drop_last();
        lemma_hosts(config, init, name);
        let before = hosts_registered(config, init);
        let t = match lookup(before, hosts.last()) {
            Some(t) => t,
            None => fresh_target(false, config.thresholds),
        };
        law_upsert(
            before,
            hosts.last(),
            TargetModel { is_gateway: false, ..t },
            name,
        );
        if hosts.contains(name) {
            let k = choose|k: int| 0 <= k < hosts.len() && hosts[k] == name;
            if k < hosts.len() - 1 {
                assert(init[k] == name);
            }
        }
        if init.contains(name) {
            let k = choose|k: int| 0 <= k < init.len() && init[k] == name;
            assert(hosts[k] == name);
        }
        assert(hosts[hosts.len() - 1] == hosts.last());
    }
}

/// What is held already is built on, and only what is not is made anew.
pub proof fn law_what_is_known_is_built_on(
    targets: Seq<(Seq<char>, TargetModel)>,
    name: Seq<char>,
    fresh: TargetModel,
    d: Debouncer,
    s: Bounded<Reading>,
    cap: usize,
    t: ThresholdConfig,
)
    ensures
        lookup(targets, name) matches Some(v) ==> held_or(targets, name, fresh) == v,
        lookup(targets, name) is None ==> held_or(targets, name, fresh) == fresh,
        or_fresh(Some(d), t) == d,
        or_empty(Some(s), cap) == s,
        or_empty(None, cap).items.len() == 0,
        cap > 0 ==> or_empty(None, cap).cap == cap,
        reported(Some(d)) == d.state,
        reported(None) == Health::Good,
{
}

/// A target that is registered again keeps all that was measured of it.
pub proof fn law_registering_again_keeps_the_history(
    m: AppModel,
    addr: Seq<char>,
    is_gateway: bool,
    known: TargetModel,
)
    requires
        ordered(m.targets),
        lookup(m.targets, addr) == Some(known),
    ensures
        lookup(target_registered(m.targets, m.config, addr, is_gateway), addr) == Some(
            TargetModel { is_gateway, ..known },
        ),
{
    law_upsert(m.targets, addr, TargetModel { is_gateway, ..known }, addr);
}

/// The header is as bad as the worst metric, and no worse than any.
#[verifier::spinoff_prover]
#[verifier::rlimit(40)]
pub proof fn law_the_header_is_as_bad_as_the_worst_metric(m: AppModel, metric: MetricId)
    ensures
        severity(panel(m, metric)) <= severity(overall(m)),
        overall(m) != Health::Good ==> exists|x: MetricId| #[trigger] panel(m, x) == overall(m),
{
    let p = panels(m);
    lemma_worst_in_is_worst(p);
    let h = overall(m);
    assert(severity(p[0]) <= severity(h));
    assert(severity(p[1]) <= severity(h));
    assert(severity(p[2]) <= severity(h));
    assert(severity(p[3]) <= severity(h));
    assert(severity(p[4]) <= severity(h));
    assert(severity(p[5]) <= severity(h));
    assert(severity(p[6]) <= severity(h));
    if h != Health::Good {
        let k = choose|k: int| 0 <= k < p.len() && p[k] == h;
        let x = if k == 0 {
            MetricId::Latency
        } else if k == 1 {
            MetricId::Loss
        } else if k == 2 {
            MetricId::Dns
        } else if k == 3 {
            MetricId::Throughput
        } else if k == 4 {
            MetricId::Routing
        } else if k == 5 {
            MetricId::Link
        } else {
            MetricId::TcpHandshake
        };
        assert(panel(m, x) == p[k]);
    }
}

/// The first tick opens the strip.
pub proof fn law_the_first_tick_opens_the_strip(b: Bounded<Minute>, now: Timestamp, h: Health)
    requires
        b.items.len() == 0,
        b.cap > 0,
    ensures
        ticked(b, now, h).items == seq![Minute { minute: minute_of(now) as i64, health: Some(h) }],
{
}

/// Minutes that nobody watched are unknown: between the last bucket and the minute of a later
/// tick, every bucket says nothing.
pub proof fn law_unwatched_minutes_are_unknown(
    b: Bounded<Minute>,
    now: Timestamp,
    h: Health,
    i: int,
)
    requires
        b.wf(),
        b.items.len() > 0,
        one_bucket_per_minute(b.items),
        0 <= i < ticked(b, now, h).items.len(),
        b.items.last().minute < ticked(b, now, h).items[i].minute < minute_of(now),
    ensures
        ticked(b, now, h).items[i].health is None,
{
    let last = b.items.last();
    let minute = minute_of(now);
    assert(minute as i64 == minute) by {
        law_a_minute_is_sixty_seconds(now);
    }
    if last.minute < minute {
        let n = gap_len(last.minute as int, minute);
        let g = with_gap(b, minute, n, n);
        lemma_gap_is_unknown(b, minute, n, n, last.minute as int);
        let t = ticked(b, now, h).items;
        if i < t.len() - 1 {
            if g.items.len() == g.cap {
                assert(t[i] == g.items[i + 1]);
            } else {
                assert(t[i] == g.items[i]);
            }
        }
    } else {
        let t = ticked(b, now, h).items;
        if i < t.len() - 1 {
            assert(t[i] == b.items[i]);
            assert(b.items[b.items.len() - 1].minute == b.items[i].minute + (b.items.len() - 1
                - i));
        }
    }
}

proof fn lemma_gap_is_unknown(b: Bounded<Minute>, minute: int, n: int, k: int, last: int)
    requires
        b.wf(),
        forall|i: int| 0 <= i < b.items.len() ==> (#[trigger] b.items[i]).minute <= last,
    ensures
        ({
            let g = with_gap(b, minute, n, k);
            &&& g.wf() && g.cap == b.cap
            &&& forall|i: int|
                0 <= i < g.items.len() && (#[trigger] g.items[i]).minute > last
                    ==> g.items[i].health is None
        }),
    decreases k,
{
    if k > 0 {
        lemma_gap_is_unknown(b, minute, n, k - 1, last);
        let u = with_gap(b, minute, n, k - 1);
        let g = with_gap(b, minute, n, k);
        assert forall|i: int| 0 <= i < g.items.len() && (#[trigger] g.items[i]).minute
            > last implies g.items[i].health is None by {
            if i < g.items.len() - 1 {
                if u.items.len() == u.cap {
                    assert(g.items[i] == u.items[i + 1]);
                } else {
                    assert(g.items[i] == u.items[i]);
                }
            }
        }
    }
}

} // verus!
