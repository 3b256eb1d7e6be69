//! The parts of the dashboard state: what is kept per target, resolver, endpoint and panel.

use vstd::prelude::*;

use crate::config::{dwell_span, ThresholdConfig};
use crate::health::{settled, Debouncer, FlapDetector, Flaps, Health, Thresholds};
use crate::history::{Bounded, LossWindow, Series};
use crate::incidents::{Incident, IncidentModel};
use crate::map::{MapKey, Ordered};
use crate::metrics::dns::Integrity;
use crate::metrics::{hops, metric_rank, Hop, HopModel, MetricId};
use crate::text::{
    comes_before, lemma_precedes_irreflexive, lemma_precedes_total, lemma_precedes_transitive,
    precedes, text_of,
};
use crate::units::Reading;

verus! {

/// A debouncer at rest in good health, with the configured dwells.
pub open spec fn fresh_debouncer(t: ThresholdConfig) -> Debouncer {
    settled(Health::Good, dwell_span(t.trip_after_secs), dwell_span(t.clear_after_secs))
}

/// A debouncer at rest in good health, with the configured dwells.
pub fn new_debouncer(t: &ThresholdConfig) -> (d: Debouncer)
    ensures
        d == fresh_debouncer(*t),
{
    Debouncer::new(Health::Good, t.trip_after(), t.clear_after())
}

/// A debouncer that is made when it is first needed.
pub open spec fn or_fresh(d: Option<Debouncer>, t: ThresholdConfig) -> Debouncer {
    match d {
        Some(x) => x,
        None => fresh_debouncer(t),
    }
}

/// The reported health of a debouncer that may not have been needed yet.
pub open spec fn reported(d: Option<Debouncer>) -> Health {
    match d {
        Some(x) => x.state,
        None => Health::Good,
    }
}

/// The reported health of a debouncer that may not have been needed yet.
pub fn reported_health(d: &Option<Debouncer>) -> (h: Health)
    ensures
        h == reported(*d),
{
    match d {
        Some(x) => x.current(),
        None => Health::Good,
    }
}

/// A series that is made when it is first needed.
pub open spec fn or_empty(s: Option<Bounded<Reading>>, cap: usize) -> Bounded<Reading> {
    match s {
        Some(x) => x,
        None => Bounded::fresh(cap),
    }
}

/// The contents of a series that may not have been needed yet.
pub open spec fn series_model(s: Option<Series>) -> Option<Bounded<Reading>> {
    match s {
        Some(x) => Some(x@),
        None => None,
    }
}

/// Push `v` onto a series, making it first where needed.
pub fn push_series(s: &mut Option<Series>, cap: usize, v: Reading)
    ensures
        series_model(*final(s)) == Some(or_empty(series_model(*old(s)), cap).pushed(v)),
{
    match s {
        Some(series) => {
            series.push(v);
        },
        None => {
            let mut series = Series::new(cap);
            series.push(v);
            *s = Some(series);
        },
    }
}

// ---------------------------------------------------------------------------------------
// Ping targets
// ---------------------------------------------------------------------------------------

/// Per-ping-target rolling state and debounced health streams.
pub struct TargetState {
    pub is_gateway: bool,
    pub latency_ms: Series,
    pub loss: LossWindow,
    /// Rolling history of the loss-window percentage, for the loss line graph.
    pub loss_history: Series,
    pub latency_health: Debouncer,
    pub jitter_health: Debouncer,
    pub loss_health: Debouncer,
}

/// What a [`TargetState`] holds.
#[verifier::ext_equal]
pub ghost struct TargetModel {
    pub is_gateway: bool,
    pub latency_ms: Bounded<Reading>,
    pub loss: Bounded<bool>,
    pub loss_history: Bounded<Reading>,
    pub latency_health: Debouncer,
    pub jitter_health: Debouncer,
    pub loss_health: Debouncer,
}

impl View for TargetState {
    type V = TargetModel;

    open spec fn view(&self) -> TargetModel {
        TargetModel {
            is_gateway: self.is_gateway,
            latency_ms: self.latency_ms@,
            loss: self.loss@,
            loss_history: self.loss_history@,
            latency_health: self.latency_health,
            jitter_health: self.jitter_health,
            loss_health: self.loss_health,
        }
    }
}

/// A target nothing is known of yet.
pub open spec fn fresh_target(is_gateway: bool, t: ThresholdConfig) -> TargetModel {
    TargetModel {
        is_gateway,
        latency_ms: Bounded::fresh(t.history_len),
        loss: Bounded::fresh(t.loss_window),
        loss_history: Bounded::fresh(t.history_len),
        latency_health: fresh_debouncer(t),
        jitter_health: fresh_debouncer(t),
        loss_health: fresh_debouncer(t),
    }
}

/// The latency thresholds of a target: those of its role.
pub open spec fn latency_thresholds_of(is_gateway: bool, t: ThresholdConfig) -> Thresholds {
    if is_gateway {
        t.latency_gateway
    } else {
        t.latency_internet
    }
}

impl TargetState {
    pub fn new(is_gateway: bool, t: &ThresholdConfig) -> (s: TargetState)
        ensures
            s@ == fresh_target(is_gateway, *t),
    {
        TargetState {
            is_gateway,
            latency_ms: Series::new(t.history_len),
            loss: LossWindow::new(t.loss_window),
            loss_history: Series::new(t.history_len),
            latency_health: new_debouncer(t),
            jitter_health: new_debouncer(t),
            loss_health: new_debouncer(t),
        }
    }

    pub fn latency_thresholds(&self, t: &ThresholdConfig) -> (r: Thresholds)
        ensures
            r == latency_thresholds_of(self@.is_gateway, *t),
    {
        if self.is_gateway {
            t.latency_gateway
        } else {
            t.latency_internet
        }
    }

    pub fn latency_health_current(&self) -> (h: Health)
        ensures
            h == self@.latency_health.state,
    {
        self.latency_health.current()
    }

    pub fn jitter_health_current(&self) -> (h: Health)
        ensures
            h == self@.jitter_health.state,
    {
        self.jitter_health.current()
    }

    pub fn loss_health_current(&self) -> (h: Health)
        ensures
            h == self@.loss_health.state,
    {
        self.loss_health.current()
    }
}

// ---------------------------------------------------------------------------------------
// Resolvers and endpoints
// ---------------------------------------------------------------------------------------

/// Per-DNS-resolver rolling state.
pub struct ResolverState {
    pub latency_ms: Series,
    pub last_ok: bool,
    pub health: Debouncer,
    /// The latest honesty verdict.
    pub integrity: Integrity,
    pub integrity_health: Debouncer,
}

/// What a [`ResolverState`] holds.
#[verifier::ext_equal]
pub ghost struct ResolverModel {
    pub latency_ms: Bounded<Reading>,
    pub last_ok: bool,
    pub health: Debouncer,
    pub integrity: Integrity,
    pub integrity_health: Debouncer,
}

impl View for ResolverState {
    type V = ResolverModel;

    open spec fn view(&self) -> ResolverModel {
        ResolverModel {
            latency_ms: self.latency_ms@,
            last_ok: self.last_ok,
            health: self.health,
            integrity: self.integrity,
            integrity_health: self.integrity_health,
        }
    }
}

/// A resolver nothing is known of yet.
pub open spec fn fresh_resolver(t: ThresholdConfig) -> ResolverModel {
    ResolverModel {
        latency_ms: Bounded::fresh(t.history_len),
        last_ok: true,
        health: fresh_debouncer(t),
        integrity: Integrity::Honest,
        integrity_health: fresh_debouncer(t),
    }
}

impl ResolverState {
    pub fn new(t: &ThresholdConfig) -> (s: ResolverState)
        ensures
            s@ == fresh_resolver(*t),
    {
        ResolverState {
            latency_ms: Series::new(t.history_len),
            last_ok: true,
            health: new_debouncer(t),
            integrity: Integrity::Honest,
            integrity_health: new_debouncer(t),
        }
    }

    /// Current debounced health of this resolver (read by the diagnosis engine).
    pub fn health_current(&self) -> (h: Health)
        ensures
            h == self@.health.state,
    {
        self.health.current()
    }

    /// Current debounced honesty of this resolver (read by the diagnosis engine).
    pub fn integrity_health_current(&self) -> (h: Health)
        ensures
            h == self@.integrity_health.state,
    {
        self.integrity_health.current()
    }
}

/// Per-endpoint reachability state.
#[derive(Debug, Clone, Copy, PartialEq, Eq, Structural)]
pub struct ReachState {
    pub ok: bool,
    pub health: Debouncer,
}

/// Per-endpoint handshake state.
pub struct HandshakeState {
    pub connect_ms: Series,
    pub last_ok: bool,
    pub health: Debouncer,
}

/// What a [`HandshakeState`] holds.
#[verifier::ext_equal]
pub ghost struct HandshakeModel {
    pub connect_ms: Bounded<Reading>,
    pub last_ok: bool,
    pub health: Debouncer,
}

impl View for HandshakeState {
    type V = HandshakeModel;

    open spec fn view(&self) -> HandshakeModel {
        HandshakeModel {
            connect_ms: self.connect_ms@,
            last_ok: self.last_ok,
            health: self.health,
        }
    }
}

/// An endpoint nothing is known of yet.
pub open spec fn fresh_handshake(t: ThresholdConfig) -> HandshakeModel {
    HandshakeModel {
        connect_ms: Bounded::fresh(t.history_len),
        last_ok: true,
        health: fresh_debouncer(t),
    }
}

impl HandshakeState {
    pub fn new(t: &ThresholdConfig) -> (s: HandshakeState)
        ensures
            s@ == fresh_handshake(*t),
    {
        HandshakeState {
            connect_ms: Series::new(t.history_len),
            last_ok: true,
            health: new_debouncer(t),
        }
    }

    /// Current debounced health of this endpoint (read by the diagnosis engine).
    pub fn health_current(&self) -> (h: Health)
        ensures
            h == self@.health.state,
    {
        self.health.current()
    }
}

/// Per-endpoint TLS state: the negotiation, and what the certificate has left.
pub struct TlsState {
    pub handshake: HandshakeState,
    pub expires_in_days: Option<i64>,
    pub expiry_health: Debouncer,
}

/// What a [`TlsState`] holds.
#[verifier::ext_equal]
pub ghost struct TlsModel {
    pub handshake: HandshakeModel,
    pub expires_in_days: Option<i64>,
    pub expiry_health: Debouncer,
}

impl View for TlsState {
    type V = TlsModel;

    open spec fn view(&self) -> TlsModel {
        TlsModel {
            handshake: self.handshake@,
            expires_in_days: self.expires_in_days,
            expiry_health: self.expiry_health,
        }
    }
}

/// An endpoint nothing is known of yet.
pub open spec fn fresh_tls(t: ThresholdConfig) -> TlsModel {
    TlsModel {
        handshake: fresh_handshake(t),
        expires_in_days: None,
        expiry_health: fresh_debouncer(t),
    }
}

impl TlsState {
    pub fn new(t: &ThresholdConfig) -> (s: TlsState)
        ensures
            s@ == fresh_tls(*t),
    {
        TlsState {
            handshake: HandshakeState::new(t),
            expires_in_days: None,
            expiry_health: new_debouncer(t),
        }
    }

    /// Current debounced health of the negotiation (read by the diagnosis engine).
    pub fn health_current(&self) -> (h: Health)
        ensures
            h == self@.handshake.health.state,
    {
        self.handshake.health.current()
    }

    /// Current debounced health of the certificate's expiry (read by the diagnosis engine).
    pub fn expiry_health_current(&self) -> (h: Health)
        ensures
            h == self@.expiry_health.state,
    {
        self.expiry_health.current()
    }
}

// ---------------------------------------------------------------------------------------
// Throughput, link, routing, interface
// ---------------------------------------------------------------------------------------

/// Throughput state: passive rx/tx history, the last capacity-probe result, and the last
/// bufferbloat (latency idle-vs-loaded) reading.
pub struct ThroughputState {
    pub rx_bps: Option<Series>,
    pub tx_bps: Option<Series>,
    pub last_mbps: Option<Reading>,
    /// Capacity-probe results over time. Kept apart from `rx_bps`/`tx_bps` because the
    /// probe runs on a minutes-long cadence and cannot share their per-second axis.
    pub capacity_mbps: Option<Series>,
    pub idle_latency_ms: Option<Reading>,
    pub loaded_latency_ms: Option<Reading>,
    /// Latency added under load, per bufferbloat measurement. History because bloat is
    /// usually intermittent: the latest reading routinely misses it.
    pub added_latency_ms: Option<Series>,
    pub health: Option<Debouncer>,
    pub bufferbloat_health: Option<Debouncer>,
}

/// What a [`ThroughputState`] holds.
#[verifier::ext_equal]
pub ghost struct ThroughputModel {
    pub rx_bps: Option<Bounded<Reading>>,
    pub tx_bps: Option<Bounded<Reading>>,
    pub last_mbps: Option<Reading>,
    pub capacity_mbps: Option<Bounded<Reading>>,
    pub idle_latency_ms: Option<Reading>,
    pub loaded_latency_ms: Option<Reading>,
    pub added_latency_ms: Option<Bounded<Reading>>,
    pub health: Option<Debouncer>,
    pub bufferbloat_health: Option<Debouncer>,
}

impl View for ThroughputState {
    type V = ThroughputModel;

    open spec fn view(&self) -> ThroughputModel {
        ThroughputModel {
            rx_bps: series_model(self.rx_bps),
            tx_bps: series_model(self.tx_bps),
            last_mbps: self.last_mbps,
            capacity_mbps: series_model(self.capacity_mbps),
            idle_latency_ms: self.idle_latency_ms,
            loaded_latency_ms: self.loaded_latency_ms,
            added_latency_ms: series_model(self.added_latency_ms),
            health: self.health,
            bufferbloat_health: self.bufferbloat_health,
        }
    }
}

/// No throughput reading yet.
pub open spec fn fresh_throughput() -> ThroughputModel {
    ThroughputModel {
        rx_bps: None,
        tx_bps: None,
        last_mbps: None,
        capacity_mbps: None,
        idle_latency_ms: None,
        loaded_latency_ms: None,
        added_latency_ms: None,
        health: None,
        bufferbloat_health: None,
    }
}

impl ThroughputState {
    pub fn new() -> (s: ThroughputState)
        ensures
            s@ == fresh_throughput(),
    {
        ThroughputState {
            rx_bps: None,
            tx_bps: None,
            last_mbps: None,
            capacity_mbps: None,
            idle_latency_ms: None,
            loaded_latency_ms: None,
            added_latency_ms: None,
            health: None,
            bufferbloat_health: None,
        }
    }

    /// Current debounced bufferbloat health (read by the diagnosis engine).
    pub fn bufferbloat_health_current(&self) -> (h: Health)
        ensures
            h == reported(self@.bufferbloat_health),
    {
        reported_health(&self.bufferbloat_health)
    }
}

/// Wireless link state.
pub struct LinkState {
    pub rssi_dbm: Option<Reading>,
    pub noise_dbm: Option<Reading>,
    pub tx_rate: Option<Reading>,
    pub ssid: Option<String>,
    /// Signal and noise floor over time, in dBm. A radio decaying over ten minutes looks
    /// entirely plausible at every individual reading; only the trend gives it away.
    pub rssi_history: Option<Series>,
    pub noise_history: Option<Series>,
    pub health: Option<Debouncer>,
}

/// What a [`LinkState`] holds.
#[verifier::ext_equal]
pub ghost struct LinkModel {
    pub rssi_dbm: Option<Reading>,
    pub noise_dbm: Option<Reading>,
    pub tx_rate: Option<Reading>,
    pub ssid: Option<Seq<char>>,
    pub rssi_history: Option<Bounded<Reading>>,
    pub noise_history: Option<Bounded<Reading>>,
    pub health: Option<Debouncer>,
}

impl View for LinkState {
    type V = LinkModel;

    open spec fn view(&self) -> LinkModel {
        LinkModel {
            rssi_dbm: self.rssi_dbm,
            noise_dbm: self.noise_dbm,
            tx_rate: self.tx_rate,
            ssid: text_of(self.ssid),
            rssi_history: series_model(self.rssi_history),
            noise_history: series_model(self.noise_history),
            health: self.health,
        }
    }
}

/// No link reading yet.
pub open spec fn fresh_link() -> LinkModel {
    LinkModel {
        rssi_dbm: None,
        noise_dbm: None,
        tx_rate: None,
        ssid: None,
        rssi_history: None,
        noise_history: None,
        health: None,
    }
}

impl LinkState {
    pub fn new() -> (s: LinkState)
        ensures
            s@ == fresh_link(),
    {
        LinkState {
            rssi_dbm: None,
            noise_dbm: None,
            tx_rate: None,
            ssid: None,
            rssi_history: None,
            noise_history: None,
            health: None,
        }
    }
}

/// Routing/path state for the routing target.
pub struct RoutingState {
    pub hops: usize,
    pub reachable: bool,
    pub changed: bool,
    pub seen: bool,
    /// Per-hop detail from the last traceroute (address, best RTT, probe loss).
    pub detail: Vec<Hop>,
    pub health: Option<Debouncer>,
}

/// What a [`RoutingState`] holds.
#[verifier::ext_equal]
pub ghost struct RoutingModel {
    pub hops: usize,
    pub reachable: bool,
    pub changed: bool,
    pub seen: bool,
    pub detail: Seq<HopModel>,
    pub health: Option<Debouncer>,
}

impl View for RoutingState {
    type V = RoutingModel;

    open spec fn view(&self) -> RoutingModel {
        RoutingModel {
            hops: self.hops,
            reachable: self.reachable,
            changed: self.changed,
            seen: self.seen,
            detail: hops(self.detail@),
            health: self.health,
        }
    }
}

/// No path traced yet.
pub open spec fn fresh_routing() -> RoutingModel {
    RoutingModel {
        hops: 0,
        reachable: false,
        changed: false,
        seen: false,
        detail: Seq::empty(),
        health: None,
    }
}

impl RoutingState {
    pub fn new() -> (s: RoutingState)
        ensures
            s@ == fresh_routing(),
    {
        let s = RoutingState {
            hops: 0,
            reachable: false,
            changed: false,
            seen: false,
            detail: Vec::new(),
            health: None,
        };
        assert(s@ =~= fresh_routing());
        s
    }
}

/// Error counters of the local network card over the last interval.
#[derive(Debug, Clone, Copy, PartialEq, Eq, Structural)]
pub struct IfaceState {
    pub rx_errors: Option<u64>,
    pub tx_errors: Option<u64>,
    pub health: Option<Debouncer>,
}

impl IfaceState {
    pub fn new() -> (s: IfaceState)
        ensures
            s == (IfaceState { rx_errors: None, tx_errors: None, health: None }),
    {
        IfaceState { rx_errors: None, tx_errors: None, health: None }
    }

    /// Current debounced health of the card (read by the diagnosis engine).
    pub fn health_current(&self) -> (h: Health)
        ensures
            h == reported(self.health),
    {
        reported_health(&self.health)
    }
}

// ---------------------------------------------------------------------------------------
// Noise
// ---------------------------------------------------------------------------------------

/// What an alert is about: a metric of a target.
pub struct FlapKey {
    pub metric: MetricId,
    pub target: String,
}

/// The model of a [`FlapKey`].
pub ghost struct FlapKeyModel {
    pub metric: MetricId,
    pub target: Seq<char>,
}

impl View for FlapKey {
    type V = FlapKeyModel;

    open spec fn view(&self) -> FlapKeyModel {
        FlapKeyModel { metric: self.metric, target: self.target@ }
    }
}

impl Ordered for FlapKeyModel {
    open spec fn before(self, other: Self) -> bool {
        metric_rank(self.metric) < metric_rank(other.metric) || (self.metric == other.metric
            && precedes(self.target, other.target))
    }

    proof fn irreflexive(a: Self) {
        lemma_precedes_irreflexive(a.target);
    }

    proof fn transitive(a: Self, b: Self, c: Self) {
        if a.metric == b.metric && b.metric == c.metric {
            lemma_precedes_transitive(a.target, b.target, c.target);
        }
    }

    proof fn total(a: Self, b: Self) {
        lemma_precedes_total(a.target, b.target);
    }
}

impl MapKey for FlapKey {
    fn is_before(&self, other: &Self) -> (r: bool) {
        self.metric.rank() < other.metric.rank() || (self.metric == other.metric && comes_before(
            self.target.as_str(),
            other.target.as_str(),
        ))
    }
}

/// What an alert says: a severity of a metric of a target.
pub struct AlertKey {
    pub metric: MetricId,
    pub target: String,
    pub severity: Health,
}

/// The model of an [`AlertKey`].
pub ghost struct AlertKeyModel {
    pub metric: MetricId,
    pub target: Seq<char>,
    pub severity: Health,
}

impl View for AlertKey {
    type V = AlertKeyModel;

    open spec fn view(&self) -> AlertKeyModel {
        AlertKeyModel { metric: self.metric, target: self.target@, severity: self.severity }
    }
}

impl Ordered for AlertKeyModel {
    open spec fn before(self, other: Self) -> bool {
        metric_rank(self.metric) < metric_rank(other.metric) || (self.metric == other.metric && (
        precedes(self.target, other.target) || (self.target == other.target
            && crate::health::severity(self.severity) < crate::health::severity(other.severity))))
    }

    proof fn irreflexive(a: Self) {
        lemma_precedes_irreflexive(a.target);
    }

    proof fn transitive(a: Self, b: Self, c: Self) {
        if a.metric == b.metric && b.metric == c.metric {
            if precedes(a.target, b.target) && precedes(b.target, c.target) {
                lemma_precedes_transitive(a.target, b.target, c.target);
            }
        }
    }

    proof fn total(a: Self, b: Self) {
        lemma_precedes_total(a.target, b.target);
    }
}

impl MapKey for AlertKey {
    fn is_before(&self, other: &Self) -> (r: bool) {
        self.metric.rank() < other.metric.rank() || (self.metric == other.metric && (comes_before(
            self.target.as_str(),
            other.target.as_str(),
        ) || (crate::text::same_text(self.target.as_str(), other.target.as_str())
            && self.severity.level() < other.severity.level())))
    }
}

/// Instability bookkeeping for one metric of one target.
pub struct FlapState {
    pub detector: FlapDetector,
    /// The most recent transition held back while flapping, re-reported on settle so the feed
    /// says where the metric actually landed rather than just going quiet.
    pub last_suppressed: Option<Incident>,
}

/// What a [`FlapState`] holds.
#[verifier::ext_equal]
pub ghost struct FlapModel {
    pub detector: Flaps,
    pub last_suppressed: Option<IncidentModel>,
}

/// The model of an optional incident.
pub open spec fn incident_model(i: Option<Incident>) -> Option<IncidentModel> {
    match i {
        Some(x) => Some(x@),
        None => None,
    }
}

impl View for FlapState {
    type V = FlapModel;

    open spec fn view(&self) -> FlapModel {
        FlapModel {
            detector: self.detector@,
            last_suppressed: incident_model(self.last_suppressed),
        }
    }
}

/// One minute of the availability strip: its number since the Unix epoch, and the worst
/// health seen in it, where anybody was watching.
#[derive(Debug, Clone, Copy, PartialEq, Eq, Structural)]
pub struct Minute {
    pub minute: i64,
    pub health: Option<Health>,
}

/// Metrics come in their order, then targets in theirs, and then the milder alert before the
/// worse one.
pub proof fn law_keys_are_ordered_by_metric_and_target(a: AlertKeyModel, b: AlertKeyModel)
    ensures
        metric_rank(a.metric) < metric_rank(b.metric) ==> a.before(b) && !b.before(a),
        a.metric == b.metric && precedes(a.target, b.target) ==> a.before(b) && !b.before(a),
        a.metric == b.metric && a.target == b.target ==> (a.before(b) <==> crate::health::severity(
            a.severity,
        ) < crate::health::severity(b.severity)),
        ({
            let x = FlapKeyModel { metric: a.metric, target: a.target };
            let y = FlapKeyModel { metric: b.metric, target: b.target };
            &&& metric_rank(a.metric) < metric_rank(b.metric) ==> x.before(y) && !y.before(x)
            &&& a.metric == b.metric ==> (x.before(y) <==> precedes(a.target, b.target))
        }),
{
    lemma_precedes_irreflexive(a.target);
    if precedes(a.target, b.target) && precedes(b.target, a.target) {
        lemma_precedes_transitive(a.target, b.target, a.target);
    }
}

} // verus!
