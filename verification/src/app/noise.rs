//! From raised incidents to reported ones.
//!
//! Folding a reading raises incidents. Each is tagged with the upstream fault that already
//! accounts for it, then the noise is taken out: a metric that keeps swinging is reported as
//! unstable instead of swing by swing, and an alert identical to one just reported is dropped.

use vstd::prelude::*;

use crate::app::fold::folded;
use crate::app::report::{flapping_incident, flapping_report, settle_incident, settle_report};
use crate::app::rollup::{lemma_overall_ignores_the_feed, overall, ticked};
use crate::app::state::{
    incident_model, AlertKey, AlertKeyModel, FlapKey, FlapKeyModel, FlapModel, FlapState,
};
use crate::app::{AppModel, AppState};
use crate::config::{dwell_span, AlertConfig};
use crate::diagnosis::{blamed, diagnosed, explains, primary_layer, Layer};
use crate::health::{observed, FlapDetector, Flaps, Health};
use crate::incidents::{event, incidents, Incident, IncidentModel};
use crate::map::{
    lemma_models, lemma_models_upsert, lemma_slot, lemma_with_default, lookup, models, upsert,
};
use crate::metrics::{MetricId, Sample};
use crate::projection::signals_of;
use crate::text::text_of;
use crate::units::{Span, Timestamp};

verus! {

// ---------------------------------------------------------------------------------------
// Attribution
// ---------------------------------------------------------------------------------------

/// `addr` is a registered target, and the gateway.
pub open spec fn is_gateway(m: AppModel, addr: Option<Seq<char>>) -> bool {
    match addr {
        Some(a) => match lookup(m.targets, a) {
            Some(t) => t.is_gateway,
            None => false,
        },
        None => false,
    }
}

/// Which segment of the path an incident is a symptom of.
pub open spec fn layer_of(m: AppModel, inc: IncidentModel) -> Option<Layer> {
    match inc.metric {
        MetricId::Latency | MetricId::Loss | MetricId::Jitter => Some(
            if is_gateway(m, inc.target) {
                Layer::Gateway
            } else {
                Layer::Isp
            },
        ),
        MetricId::Link => Some(Layer::Wifi),
        MetricId::InterfaceErrors => Some(Layer::Nic),
        MetricId::Reachability
        | MetricId::Routing
        | MetricId::Throughput
        | MetricId::Bufferbloat
        | MetricId::CaptivePortal
        | MetricId::PublicIp
        | MetricId::TcpHandshake
        | MetricId::Tls => Some(Layer::Isp),
        MetricId::Dns | MetricId::DnsIntegrity => Some(Layer::Dns),
        MetricId::Certificate | MetricId::Log => None,
    }
}

/// An incident tagged with the layer to blame, where that layer lies upstream of it.
/// Recoveries are left alone.
pub open spec fn tagged(m: AppModel, primary: Option<Layer>, inc: IncidentModel) -> IncidentModel {
    match (primary, layer_of(m, inc)) {
        (Some(p), Some(l)) => if inc.severity != Health::Good && explains(p, l) {
            IncidentModel { cause: Some(p), ..inc }
        } else {
            inc
        },
        _ => inc,
    }
}

/// Each incident tagged with the upstream layer that already accounts for it.
pub open spec fn attributed(m: AppModel, v: Seq<IncidentModel>) -> Seq<IncidentModel> {
    Seq::new(v.len(), |i: int| tagged(m, blamed(diagnosed(signals_of(m))), v[i]))
}

// ---------------------------------------------------------------------------------------
// Flapping
// ---------------------------------------------------------------------------------------

/// What an incident is about.
pub open spec fn flap_key(inc: IncidentModel) -> FlapKeyModel {
    FlapKeyModel { metric: inc.metric, target: target_or_empty(inc.target) }
}

/// The target of an incident, empty where it has none.
pub open spec fn target_or_empty(t: Option<Seq<char>>) -> Seq<char> {
    match t {
        Some(x) => x,
        None => Seq::empty(),
    }
}

/// Instability bookkeeping for a metric that has not transitioned yet.
pub open spec fn fresh_flaps(a: AlertConfig) -> FlapModel {
    FlapModel {
        detector: Flaps {
            transitions: Seq::empty(),
            flaps: a.flap_count as nat,
            window: dwell_span(a.flap_window_secs) as int,
            flapping: false,
        },
        last_suppressed: None,
    }
}

/// Time alone has settled a metric: it was flapping, and no swing is left in the window.
pub open spec fn settles(st: FlapModel, now: Timestamp) -> bool {
    st.detector.flapping && !observed(st.detector, now, false).flapping
}

/// A metric's bookkeeping after its old swings have aged out.
pub open spec fn aged_one(st: FlapModel, now: Timestamp) -> FlapModel {
    FlapModel {
        detector: observed(st.detector, now, false),
        last_suppressed: if settles(st, now) {
            None
        } else {
            st.last_suppressed
        },
    }
}

/// Every metric's bookkeeping after the old swings have aged out.
pub open spec fn aged(s: Seq<(FlapKeyModel, FlapModel)>, now: Timestamp) -> Seq<
    (FlapKeyModel, FlapModel),
> {
    Seq::new(s.len(), |i: int| (s[i].0, aged_one(s[i].1, now)))
}

/// What is reported of the metrics that time has settled, in key order.
pub open spec fn settlements(s: Seq<(FlapKeyModel, FlapModel)>, now: Timestamp) -> Seq<
    IncidentModel,
>
    decreases s.len(),
{
    if s.len() == 0 {
        Seq::empty()
    } else {
        let before = settlements(s.drop_last(), now);
        if settles(s.last().1, now) {
            before.push(settle_report(now, s.last().0, s.last().1.last_suppressed))
        } else {
            before
        }
    }
}

/// What a metric's bookkeeping is after it raised `inc`.
pub open spec fn swung(st: FlapModel, now: Timestamp, inc: IncidentModel) -> FlapModel {
    let d = observed(st.detector, now, true);
    FlapModel {
        detector: d,
        last_suppressed: if d.flapping && st.detector.flapping {
            Some(inc)
        } else {
            st.last_suppressed
        },
    }
}

/// What is reported when a metric raises `inc`: the incident, the instability at the swing
/// that reveals it, and nothing while the metric is known to be unstable.
pub open spec fn swing_report(
    st: FlapModel,
    a: AlertConfig,
    now: Timestamp,
    inc: IncidentModel,
) -> Seq<IncidentModel> {
    let d = observed(st.detector, now, true);
    if d.flapping && !st.detector.flapping {
        seq![flapping_report(now, flap_key(inc), d, a)]
    } else if d.flapping {
        Seq::empty()
    } else {
        seq![inc]
    }
}

/// The bookkeeping of the metric that `inc` is about.
pub open spec fn flaps_of(
    s: Seq<(FlapKeyModel, FlapModel)>,
    a: AlertConfig,
    inc: IncidentModel,
) -> FlapModel {
    match lookup(s, flap_key(inc)) {
        Some(st) => st,
        None => fresh_flaps(a),
    }
}

/// All bookkeeping after the incidents of `v` were raised one after the other.
pub open spec fn swings(
    s: Seq<(FlapKeyModel, FlapModel)>,
    a: AlertConfig,
    now: Timestamp,
    v: Seq<IncidentModel>,
) -> Seq<(FlapKeyModel, FlapModel)>
    decreases v.len(),
{
    if v.len() == 0 {
        s
    } else {
        let before = swings(s, a, now, v.drop_last());
        upsert(before, flap_key(v.last()), swung(flaps_of(before, a, v.last()), now, v.last()))
    }
}

/// What is reported of the incidents of `v`, raised one after the other.
pub open spec fn swing_reports(
    s: Seq<(FlapKeyModel, FlapModel)>,
    a: AlertConfig,
    now: Timestamp,
    v: Seq<IncidentModel>,
) -> Seq<IncidentModel>
    decreases v.len(),
{
    if v.len() == 0 {
        Seq::empty()
    } else {
        let before = swings(s, a, now, v.drop_last());
        swing_reports(s, a, now, v.drop_last()) + swing_report(
            flaps_of(before, a, v.last()),
            a,
            now,
            v.last(),
        )
    }
}

// ---------------------------------------------------------------------------------------
// Repetition
// ---------------------------------------------------------------------------------------

/// What an incident says.
pub open spec fn alert_key(inc: IncidentModel) -> AlertKeyModel {
    AlertKeyModel {
        metric: inc.metric,
        target: target_or_empty(inc.target),
        severity: inc.severity,
    }
}

/// An alert reported at `last` still silences its like at `now`. One stamped in the future,
/// left behind by a clock corrected backwards, silences nothing.
pub open spec fn cooling(last: Timestamp, now: Timestamp, cooldown: int) -> bool {
    last <= now && now - last < cooldown
}

/// `inc` says what was just said.
pub open spec fn repeats(
    recent: Seq<(AlertKeyModel, Timestamp)>,
    now: Timestamp,
    cooldown: int,
    inc: IncidentModel,
) -> bool {
    lookup(recent, alert_key(inc)) matches Some(last) && cooling(last, now, cooldown)
}

/// When each alert was last reported, after those of `v` that repeat nothing were.
pub open spec fn alerted(
    recent: Seq<(AlertKeyModel, Timestamp)>,
    now: Timestamp,
    cooldown: int,
    v: Seq<IncidentModel>,
) -> Seq<(AlertKeyModel, Timestamp)>
    decreases v.len(),
{
    if v.len() == 0 {
        recent
    } else {
        let before = alerted(recent, now, cooldown, v.drop_last());
        if repeats(before, now, cooldown, v.last()) {
            before
        } else {
            upsert(before, alert_key(v.last()), now)
        }
    }
}

/// The incidents of `v` that do not repeat one that was just reported.
pub open spec fn deduped(
    recent: Seq<(AlertKeyModel, Timestamp)>,
    now: Timestamp,
    cooldown: int,
    v: Seq<IncidentModel>,
) -> Seq<IncidentModel>
    decreases v.len(),
{
    if v.len() == 0 {
        Seq::empty()
    } else {
        let before = alerted(recent, now, cooldown, v.drop_last());
        let kept = deduped(recent, now, cooldown, v.drop_last());
        if repeats(before, now, cooldown, v.last()) {
            kept
        } else {
            kept.push(v.last())
        }
    }
}

/// The alerts that can still silence another.
pub open spec fn still_cooling(
    recent: Seq<(AlertKeyModel, Timestamp)>,
    now: Timestamp,
    cooldown: int,
) -> Seq<(AlertKeyModel, Timestamp)>
    decreases recent.len(),
{
    if recent.len() == 0 {
        recent
    } else {
        let before = still_cooling(recent.drop_last(), now, cooldown);
        if cooling(recent.last().1, now, cooldown) {
            before.push(recent.last())
        } else {
            before
        }
    }
}

/// What is left once flapping is collapsed: what time settled, then the swings.
pub open spec fn unflapped(
    flaps: Seq<(FlapKeyModel, FlapModel)>,
    a: AlertConfig,
    now: Timestamp,
    v: Seq<IncidentModel>,
) -> Seq<IncidentModel> {
    settlements(flaps, now) + swing_reports(aged(flaps, now), a, now, v)
}

/// The state after the noise was taken out of the incidents `v`.
pub open spec fn quieted(m: AppModel, now: Timestamp, v: Seq<IncidentModel>) -> AppModel {
    let a = m.config.alerts;
    let cooldown = dwell_span(a.dedup_secs) as int;
    let candidates = unflapped(m.flaps, a, now, v);
    AppModel {
        flaps: swings(aged(m.flaps, now), a, now, v),
        recent_alerts: still_cooling(
            alerted(m.recent_alerts, now, cooldown, candidates),
            now,
            cooldown,
        ),
        ..m
    }
}

/// What is left of the incidents `v` once the noise is taken out.
pub open spec fn signal_in(m: AppModel, now: Timestamp, v: Seq<IncidentModel>) -> Seq<
    IncidentModel,
> {
    let a = m.config.alerts;
    deduped(
        m.recent_alerts,
        now,
        dwell_span(a.dedup_secs) as int,
        unflapped(m.flaps, a, now, v),
    )
}

// ---------------------------------------------------------------------------------------
// The feed
// ---------------------------------------------------------------------------------------

/// The feed, newest first, after `inc` came in; it keeps at most `max`.
pub open spec fn fed(events: Seq<IncidentModel>, max: nat, inc: IncidentModel) -> Seq<
    IncidentModel,
> {
    let all = seq![inc] + events;
    if all.len() > max {
        all.take(max as int)
    } else {
        all
    }
}

/// The feed after each incident of `v` came in.
pub open spec fn fed_all(events: Seq<IncidentModel>, max: nat, v: Seq<IncidentModel>) -> Seq<
    IncidentModel,
>
    decreases v.len(),
{
    if v.len() == 0 {
        events
    } else {
        fed(fed_all(events, max, v.drop_last()), max, v.last())
    }
}

/// What is reported of the incidents `v` that were raised in the state `m`.
pub open spec fn aired(m: AppModel, now: Timestamp, v: Seq<IncidentModel>) -> Seq<IncidentModel> {
    signal_in(m, now, attributed(m, v))
}

/// The state after the incidents `v` were raised in it: the noise bookkeeping, the feed and
/// the minute they fell into.
pub open spec fn absorbed(m: AppModel, now: Timestamp, v: Seq<IncidentModel>) -> AppModel {
    let q = quieted(m, now, attributed(m, v));
    AppModel {
        events: fed_all(q.events, q.max_events as nat, aired(m, now, v)),
        availability: ticked(q.availability, now, overall(q)),
        ..q
    }
}

/// What folding a reading in reports.
pub open spec fn reports(m: AppModel, now: Timestamp, sample: Sample) -> Seq<IncidentModel> {
    let f = folded(m, now, sample);
    aired(f.0, now, f.1)
}

/// The state after folding a reading in and taking up what it raised.
pub open spec fn sampled(m: AppModel, now: Timestamp, sample: Sample) -> AppModel {
    let f = folded(m, now, sample);
    absorbed(f.0, now, f.1)
}

/// The state after the incident log could not be written.
pub open spec fn log_failed(m: AppModel, now: Timestamp, err: Seq<char>) -> AppModel {
    if m.log_error is Some {
        m
    } else {
        AppModel {
            log_error: Some(err),
            events: fed(
                m.events,
                m.max_events as nat,
                event(
                    now,
                    MetricId::Log,
                    Health::Warn,
                    "incident log unwritable, history is not being saved: "@ + err,
                ),
            ),
            ..m
        }
    }
}

impl FlapState {
    pub fn new(alerts: &AlertConfig) -> (s: FlapState)
        ensures
            s@ == fresh_flaps(*alerts),
    {
        FlapState {
            detector: FlapDetector::new(alerts.flap_count, alerts.flap_window()),
            last_suppressed: None,
        }
    }

    /// Age old swings out; the incident to report where that settled the metric.
    fn age(&mut self, key: &FlapKey, now: Timestamp) -> (r: Option<Incident>)
        ensures
            final(self)@ == aged_one(old(self)@, now),
            incident_model(r) == (if settles(old(self)@, now) {
                Some(settle_report(now, key@, old(self)@.last_suppressed))
            } else {
                None
            }),
    {
        match self.detector.observe(now, false) {
            Some(false) => {
                let last = self.last_suppressed.take();
                Some(settle_incident(now, key, last))
            },
            _ => None,
        }
    }

    /// Record that the metric raised `inc`; what to report of it.
    fn swing(&mut self, alerts: &AlertConfig, now: Timestamp, key: &FlapKey, inc: Incident) -> (r:
        Option<Incident>)
        requires
            key@ == flap_key(inc@),
        ensures
            final(self)@ == swung(old(self)@, now, inc@),
            (match incident_model(r) {
                Some(i) => seq![i],
                None => Seq::empty(),
            }) == swing_report(old(self)@, *alerts, now, inc@),
    {
        match self.detector.observe(now, true) {
            Some(true) => Some(flapping_incident(now, key, &self.detector, alerts)),
            _ => if self.detector.is_flapping() {
                // Held back, not discarded: when the metric settles this is what says where
                // it actually ended up.
                self.last_suppressed = Some(inc);
                None
            } else {
                Some(inc)
            },
        }
    }
}

/// A copy of the target of an incident, empty where it has none.
fn target_text(t: &Option<String>) -> (s: String)
    ensures
        s@ == target_or_empty(text_of(*t)),
{
    match t {
        Some(x) => x.clone(),
        None => String::new(),
    }
}

impl AppState {
    /// Which segment of the path an incident is a symptom of.
    ///
    /// Ping metrics against a non-gateway target map to the ISP rather than to
    /// [`Layer::Remote`], even though a single bad host is a remote problem: those pings are
    /// the *evidence* for an ISP verdict, and an incident must never be dimmed by the
    /// conclusion it produced. `None` leaves the incident uncorrelated.
    pub fn incident_layer(&self, inc: &Incident) -> (l: Option<Layer>)
        ensures
            l == layer_of(self@, inc@),
    {
        match inc.metric {
            MetricId::Latency | MetricId::Loss | MetricId::Jitter => {
                let gateway = match &inc.target {
                    Some(t) => {
                        proof {
                            lemma_models(self.targets@, t@);
                        }
                        match self.targets.get(t) {
                            Some(state) => state.is_gateway,
                            None => false,
                        }
                    },
                    None => false,
                };
                if gateway {
                    Some(Layer::Gateway)
                } else {
                    Some(Layer::Isp)
                }
            },
            MetricId::Link => Some(Layer::Wifi),
            MetricId::InterfaceErrors => Some(Layer::Nic),
            MetricId::Reachability
            | MetricId::Routing
            | MetricId::Throughput
            | MetricId::Bufferbloat
            // A portal, a WAN address and a handshake all localize to the ISP, so none can be
            // dimmed by the verdict it fed.
            | MetricId::CaptivePortal
            | MetricId::PublicIp
            | MetricId::TcpHandshake
            | MetricId::Tls => Some(Layer::Isp),
            MetricId::Dns | MetricId::DnsIntegrity => Some(Layer::Dns),
            // A certificate expires whatever the path does, and the dashboard complaining
            // about its own log has no place on the network.
            MetricId::Certificate | MetricId::Log => None,
        }
    }

    /// Tag each newly-raised incident with the upstream layer that already accounts for it.
    ///
    /// Runs *after* the reading was folded in, so the attribution reflects the state the
    /// incident was born into rather than the one before it. Nothing is dropped: the tag only
    /// tells the display to render the echo quietly.
    ///
    /// Recoveries are left alone: a metric coming back is its own news whatever else is
    /// still broken, and dimming it would hide the one line that says things are improving.
    pub fn attribute(&self, raised: &mut Vec<Incident>)
        ensures
            incidents(final(raised)@) == attributed(self@, incidents(old(raised)@)),
    {
        let ghost all = incidents(raised@);
        let n: usize = raised.len();
        let mut any = false;
        for i in 0..n
            invariant
                n == raised@.len(),
                any == exists|j: int| 0 <= j < i && (#[trigger] raised@[j]).severity != Health::Good,
        {
            if raised[i].severity != Health::Good {
                assert(raised@[i as int].severity != Health::Good);
                any = true;
            }
        }
        // One diagnosis per fold that raised something, never one per incident: the ruleset
        // walks every target and resolver, and nothing about it moves between two incidents
        // out of the same reading.
        let primary = if any {
            primary_layer(self)
        } else {
            None
        };
        proof {
            if !any {
                assert forall|j: int| 0 <= j < n implies (#[trigger] all[j]).severity
                    == Health::Good by {
                    assert(raised@[j].severity == all[j].severity);
                }
            }
        }
        let ghost blame = blamed(diagnosed(signals_of(self@)));
        for i in 0..n
            invariant
                n == raised@.len(),
                n == all.len(),
                any ==> primary == blame,
                !any ==> primary is None && forall|j: int|
                    0 <= j < n ==> (#[trigger] all[j]).severity == Health::Good,
                forall|j: int|
                    0 <= j < i ==> (#[trigger] raised@[j])@ == tagged(self@, blame, all[j]),
                forall|j: int| i <= j < n ==> (#[trigger] raised@[j])@ == all[j],
        {
            assert(raised@[i as int]@ == all[i as int]);
            match primary {
                Some(p) => {
                    let layer = self.incident_layer(&raised[i]);
                    match layer {
                        Some(l) => if raised[i].severity != Health::Good && p.explains(l) {
                            let inc = raised[i].clone().caused_by(p);
                            raised.set(i, inc);
                        },
                        None => {},
                    }
                },
                None => {},
            }
        }
        assert(incidents(raised@) =~= attributed(self@, all));
    }

    /// Age out swings across *every* tracked metric, not just the one this fold touched:
    /// settling happens through the passage of time, and a metric that has gone quiet has no
    /// readings of its own left to notice it with.
    fn age_flaps(&mut self, now: Timestamp) -> (out: Vec<Incident>)
        ensures
            final(self)@ == (AppModel { flaps: aged(old(self)@.flaps, now), ..old(self)@ }),
            incidents(out@) == settlements(old(self)@.flaps, now),
    {
        let ghost before = self@;
        let ghost all = models(self.flaps@);
        let mut out: Vec<Incident> = Vec::new();
        let n: usize = self.flaps.len();
        assert(all.take(0) =~= Seq::empty());
        assert(incidents(out@) =~= Seq::empty());
        for i in 0..n
            invariant
                n == all.len(),
                n == self.flaps@.len(),
                all == before.flaps,
                self@ == (AppModel { flaps: models(self.flaps@), ..before }),
                forall|j: int|
                    #![trigger self.flaps@[j]]
                    0 <= j < i ==> self.flaps@[j].0 == all[j].0 && self.flaps@[j].1@ == aged_one(
                        all[j].1,
                        now,
                    ),
                forall|j: int|
                    #![trigger self.flaps@[j]]
                    i <= j < n ==> self.flaps@[j].0 == all[j].0 && self.flaps@[j].1@ == all[j].1,
                incidents(out@) == settlements(all.take(i as int), now),
        {
            let ghost mid = self.flaps@;
            assert(mid[i as int].1@ == all[i as int].1);
            let key = FlapKey {
                metric: self.flaps.key_at(i).metric,
                target: self.flaps.key_at(i).target.clone(),
            };
            assert(key@ == all[i as int].0);
            let r = self.flaps.value_at_mut(i).age(&key, now);
            assert(all.take(i + 1).drop_last() =~= all.take(i as int));
            assert(all.take(i + 1).last() == all[i as int]);
            match r {
                Some(inc) => {
                    let ghost sofar = out@;
                    out.push(inc);
                    assert(incidents(out@) =~= incidents(sofar).push(inc@));
                },
                None => {},
            }
            assert forall|j: int| #![trigger self.flaps@[j]] 0 <= j < n && j != i implies
                self.flaps@[j] == mid[j] by {}
        }
        assert(all.take(n as int) =~= all);
        assert(models(self.flaps@) =~= aged(all, now));
        out
    }

    /// Record the swings of `raised`, one after the other, and keep what is to be reported.
    fn collapse_swings(&mut self, now: Timestamp, raised: Vec<Incident>, out: &mut Vec<Incident>)
        ensures
            final(self)@ == (AppModel {
                flaps: swings(old(self)@.flaps, old(self)@.config.alerts, now, incidents(raised@)),
                ..old(self)@
            }),
            incidents(final(out)@) == incidents(old(out)@) + swing_reports(
                old(self)@.flaps,
                old(self)@.config.alerts,
                now,
                incidents(raised@),
            ),
    {
        let ghost before = self@;
        let ghost first = incidents(out@);
        let ghost all = incidents(raised@);
        let alerts = self.config.alerts;
        let n: usize = raised.len();
        assert(all.take(0) =~= Seq::empty());
        assert(incidents(out@) =~= first + swing_reports(before.flaps, alerts, now, all.take(0)));
        for i in 0..n
            invariant
                n == raised@.len(),
                all == incidents(raised@),
                alerts == before.config.alerts,
                self@ == (AppModel {
                    flaps: swings(before.flaps, alerts, now, all.take(i as int)),
                    ..before
                }),
                incidents(out@) == first + swing_reports(
                    before.flaps,
                    alerts,
                    now,
                    all.take(i as int),
                ),
        {
            let inc = raised[i].clone();
            let ghost model = inc@;
            let ghost entries = self.flaps@;
            let ghost sofar = out@;
            proof {
                assert(all.take(i + 1).drop_last() =~= all.take(i as int));
                assert(all.take(i + 1).last() == model);
                lemma_models(entries, flap_key(model));
                lemma_slot(entries, flap_key(model));
            }
            let key = FlapKey { metric: inc.metric, target: target_text(&inc.target) };
            let name = FlapKey { metric: inc.metric, target: target_text(&inc.target) };
            let fresh = FlapState::new(&alerts);
            let p: usize = self.flaps.entry(key, fresh);
            let ghost mid = self.flaps@;
            proof {
                lemma_with_default(entries, flap_key(model), fresh, fresh);
            }
            let r = self.flaps.value_at_mut(p).swing(&alerts, now, &name, inc);
            proof {
                let v = self.flaps@[p as int].1;
                lemma_with_default(entries, flap_key(model), fresh, v);
                lemma_models_upsert(entries, flap_key(model), v);
                assert(self.flaps@ =~= mid.update(p as int, (flap_key(model), v)));
            }
            let ghost told = incident_model(r);
            match r {
                Some(x) => {
                    out.push(x);
                    assert(incidents(out@) =~= incidents(sofar).push(x@));
                    assert(incidents(out@) =~= incidents(sofar) + seq![x@]);
                },
                None => {
                    assert(incidents(out@) =~= incidents(sofar) + Seq::empty());
                },
            }
            assert(incidents(out@) =~= first + swing_reports(
                before.flaps,
                alerts,
                now,
                all.take(i + 1),
            ));
        }
        assert(all.take(n as int) =~= all);
    }

    /// Drop the alerts that were just reported, and note when the others were.
    fn drop_repeats(&mut self, now: Timestamp, candidates: Vec<Incident>) -> (out: Vec<Incident>)
        ensures
            ({
                let recent = old(self)@.recent_alerts;
                let cooldown = dwell_span(old(self)@.config.alerts.dedup_secs) as int;
                let v = incidents(candidates@);
                &&& final(self)@ == (AppModel {
                    recent_alerts: still_cooling(
                        alerted(recent, now, cooldown, v),
                        now,
                        cooldown,
                    ),
                    ..old(self)@
                })
                &&& incidents(out@) == deduped(recent, now, cooldown, v)
            }),
    {
        let ghost before = self@;
        let ghost recent = self.recent_alerts@;
        let ghost all = incidents(candidates@);
        let cooldown: Span = self.config.alerts.dedup_window();
        let mut out: Vec<Incident> = Vec::new();
        let n: usize = candidates.len();
        assert(all.take(0) =~= Seq::empty());
        assert(incidents(out@) =~= Seq::empty());
        for i in 0..n
            invariant
                n == candidates@.len(),
                all == incidents(candidates@),
                recent == before.recent_alerts,
                self@ == (AppModel {
                    recent_alerts: alerted(recent, now, cooldown as int, all.take(i as int)),
                    ..before
                }),
                incidents(out@) == deduped(recent, now, cooldown as int, all.take(i as int)),
        {
            let inc = candidates[i].clone();
            let ghost model = inc@;
            let ghost sofar = out@;
            assert(all.take(i + 1).drop_last() =~= all.take(i as int));
            assert(all.take(i + 1).last() == model);
            let key = AlertKey {
                metric: inc.metric,
                target: target_text(&inc.target),
                severity: inc.severity,
            };
            let repeated = match self.recent_alerts.get(&key) {
                Some(last) => is_cooling(*last, now, cooldown),
                None => false,
            };
            if !repeated {
                self.recent_alerts.insert(key, now);
                out.push(inc);
                assert(incidents(out@) =~= incidents(sofar).push(model));
            }
        }
        assert(all.take(n as int) =~= all);
        self.forget_cold_alerts(now, cooldown);
        out
    }

    /// An entry older than the cooldown can never suppress anything again, so the table stays
    /// bounded by the number of alerts inside one window.
    fn forget_cold_alerts(&mut self, now: Timestamp, cooldown: Span)
        ensures
            final(self)@ == (AppModel {
                recent_alerts: still_cooling(old(self)@.recent_alerts, now, cooldown as int),
                ..old(self)@
            }),
    {
        let ghost before = self@;
        let ghost all = self.recent_alerts@;
        let n: usize = self.recent_alerts.len();
        let mut kept: usize = 0;
        assert(all.take(0) =~= Seq::empty());
        assert(all.skip(0) =~= all);
        assert(still_cooling(all.take(0), now, cooldown as int) + all.skip(0) =~= all);
        for i in 0..n
            invariant
                n == all.len(),
                kept <= i,
                kept == still_cooling(all.take(i as int), now, cooldown as int).len(),
                self@ == (AppModel {
                    recent_alerts: still_cooling(all.take(i as int), now, cooldown as int)
                        + all.skip(i as int),
                    ..before
                }),
        {
            let ghost past = still_cooling(all.take(i as int), now, cooldown as int);
            let ghost mid = self.recent_alerts@;
            assert(all.take(i + 1).drop_last() =~= all.take(i as int));
            assert(all.take(i + 1).last() == all[i as int]);
            assert(mid[kept as int] == all[i as int]);
            if is_cooling(*self.recent_alerts.value_at(kept), now, cooldown) {
                kept = kept + 1;
                assert(past + all.skip(i as int) =~= past.push(all[i as int]) + all.skip(i + 1));
            } else {
                self.recent_alerts.remove_at(kept);
                assert(mid.remove(kept as int) =~= past + all.skip(i + 1));
            }
        }
        assert(all.take(n as int) =~= all);
        assert(still_cooling(all, now, cooldown as int) + all.skip(n as int) =~= still_cooling(
            all,
            now,
            cooldown as int,
        ));
    }

    /// Collapse the noise out of a fold's incidents before they reach the feed and the log.
    ///
    /// Two independent mechanisms, deliberately kept apart because they answer different
    /// questions at different ranges. Flap detection is long-range and about *a metric*: once
    /// one has swung too often it stops reporting the swings and reports the instability
    /// instead. Dedup is short-range and about *an alert*: the identical line, twice, inside a
    /// few seconds, is once.
    ///
    /// Correlated incidents are deliberately left in: [`attribute`](Self::attribute) already
    /// decided the right treatment for those is to dim them, not to drop them.
    pub fn filter_noise(&mut self, now: Timestamp, raised: Vec<Incident>) -> (out: Vec<Incident>)
        ensures
            final(self)@ == quieted(old(self)@, now, incidents(raised@)),
            incidents(out@) == signal_in(old(self)@, now, incidents(raised@)),
    {
        let mut candidates = self.age_flaps(now);
        self.collapse_swings(now, raised, &mut candidates);
        self.drop_repeats(now, candidates)
    }

    /// Put an incident at the head of the feed, and let the oldest ones go.
    pub fn push_event(&mut self, incident: Incident)
        ensures
            final(self)@ == (AppModel {
                events: fed(old(self)@.events, old(self)@.max_events as nat, incident@),
                ..old(self)@
            }),
    {
        let ghost before = self@;
        let ghost all = seq![incident@] + before.events;
        let ghost feed = self.events@;
        self.events.push_front(incident);
        assert(incidents(self.events@) =~= all);
        assert(all.take(all.len() as int) =~= all);
        while self.events.len() > self.max_events
            invariant
                self@ == (AppModel { events: incidents(self.events@), ..before }),
                self.events@.len() <= all.len(),
                self.events@.len() == all.len() || self.events@.len() >= before.max_events,
                incidents(self.events@) == all.take(self.events@.len() as int),
            decreases self.events@.len(),
        {
            let ghost mid = self.events@;
            self.events.pop_back();
            assert(self.events@ =~= mid.drop_last());
            assert(incidents(self.events@) =~= all.take(self.events@.len() as int));
        }
    }

    /// Record that writing to the incident log failed.
    ///
    /// Only the *first* failure is reported: the causes (full disk, read-only volume,
    /// revoked permissions) are all sticky, so re-reporting would emit one event per
    /// incident forever and bury the network problems the feed exists to show.
    pub fn note_log_error(&mut self, now: Timestamp, err: &str)
        ensures
            final(self)@ == log_failed(old(self)@, now, err@),
    {
        if self.log_error.is_some() {
            return;
        }
        self.log_error = Some(err.to_owned());
        let mut message = "incident log unwritable, history is not being saved: ".to_owned();
        message.append(err);
        self.push_event(Incident::new(now, MetricId::Log, Health::Warn, message));
    }

    /// Put each incident at the head of the feed in turn.
    fn feed(&mut self, out: &Vec<Incident>)
        ensures
            final(self)@ == (AppModel {
                events: fed_all(
                    old(self)@.events,
                    old(self)@.max_events as nat,
                    incidents(out@),
                ),
                ..old(self)@
            }),
    {
        let ghost before = self@;
        let ghost all = incidents(out@);
        let n: usize = out.len();
        assert(all.take(0) =~= Seq::empty());
        for i in 0..n
            invariant
                n == out@.len(),
                all == incidents(out@),
                self@ == (AppModel {
                    events: fed_all(before.events, before.max_events as nat, all.take(i as int)),
                    ..before
                }),
        {
            assert(all.take(i + 1).drop_last() =~= all.take(i as int));
            self.push_event(out[i].clone());
        }
        assert(all.take(n as int) =~= all);
    }

    /// Take up what a fold raised, returning the incidents to report.
    #[verifier::spinoff_prover]
    #[verifier::rlimit(40)]
    fn absorb(&mut self, now: Timestamp, raised: Vec<Incident>) -> (out: Vec<Incident>)
        ensures
            final(self)@ == absorbed(old(self)@, now, incidents(raised@)),
            incidents(out@) == aired(old(self)@, now, incidents(raised@)),
    {
        let mut raised = raised;
        self.attribute(&mut raised);
        let out = self.filter_noise(now, raised);
        let ghost quiet = self@;
        self.feed(&out);
        proof {
            lemma_overall_ignores_the_feed(quiet, self@);
        }
        // After the fold, so the minute reflects the reading just applied. Ticking here as
        // well as from the render loop keeps the strip alive on headless paths, where
        // nothing ever renders.
        self.tick(now);
        out
    }

    /// Fold one reading into the state, returning the incidents to report. They are also put
    /// at the head of the in-memory feed.
    #[verifier::spinoff_prover]
    #[verifier::rlimit(40)]
    pub fn apply_sample(&mut self, now: Timestamp, sample: Sample) -> (out: Vec<Incident>)
        ensures
            final(self)@ == sampled(old(self)@, now, sample),
            incidents(out@) == reports(old(self)@, now, sample),
    {
        let raised = self.fold(now, sample);
        self.absorb(now, raised)
    }
}

/// Whether an alert reported at `last` still silences its like at `now`.
fn is_cooling(last: Timestamp, now: Timestamp, cooldown: Span) -> (b: bool)
    ensures
        b == cooling(last, now, cooldown as int),
{
    last <= now && now as i128 - (last as i128) < cooldown as i128
}

} // verus!
