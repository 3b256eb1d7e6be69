//! What holds of the dashboard state at every moment, and what the reducer promises of
//! incidents.

use vstd::prelude::*;

use crate::app::actions::{acted, max_scroll, Action};
use crate::app::fold::folded;
use crate::app::noise::{
    absorbed, aged, aired, alert_key, alerted, attributed, cooling, fed_all, flap_key, flaps_of,
    layer_of, log_failed, quieted, repeats, reports, sampled, still_cooling, swing_report, swings, swung,
};
use crate::app::rollup::{
    lemma_overall_ignores_the_feed, law_strip_has_one_bucket_per_minute, minute_of,
    one_bucket_per_minute, overall, panel, panels, ticked,
};
use crate::app::state::{reported, AlertKeyModel, FlapKeyModel, FlapModel, TargetModel};
use crate::app::{
    blank, configured_targets, hosts_registered, target_registered, targets_among, AppModel,
    AVAILABILITY_MINUTES,
};
use crate::config::{AlertConfig, Config};
use crate::diagnosis::{blamed, diagnosed, explains};
use crate::health::{
    commits, debounced_all, law_a_second_fault_takes_both_dwells, not_before, observed, settled,
    stays_put, Debouncer, Health,
};
use crate::incidents::IncidentModel;
use crate::map::{law_upsert, lemma_has_is_membership, lemma_slot, lookup, ordered, upsert, Ordered};
use crate::metrics::{MetricId, Sample};
use crate::projection::signals_of;
use crate::text::{strings, text_of};
use crate::ui::theme::theme_index;
use crate::units::Timestamp;

verus! {

/// What holds of the state at every moment: every map has one entry per key in key order, the
/// feed is within its bound and never scrolled out of sight, the strip has one bucket per
/// minute and leaves no minute out, the picker highlights a theme of the catalog, and a portal
/// is shown exactly while one is reported.
pub open spec fn valid(m: AppModel) -> bool {
    &&& ordered(m.targets)
    &&& ordered(m.resolvers)
    &&& ordered(m.reachability)
    &&& ordered(m.tcp)
    &&& ordered(m.tls)
    &&& ordered(m.flaps)
    &&& ordered(m.recent_alerts)
    &&& m.events.len() <= m.max_events
    &&& m.events_scroll <= max_scroll(m)
    &&& m.availability.wf()
    &&& m.availability.cap == AVAILABILITY_MINUTES
    &&& one_bucket_per_minute(m.availability.items)
    &&& m.theme_picker matches Some(p) ==> p.index < 20
    &&& reported(m.captive_health) == (if m.captive_portal {
        Health::Crit
    } else {
        Health::Good
    })
}

proof fn lemma_upsert_ordered<K: Ordered, V>(s: Seq<(K, V)>, k: K, v: V)
    requires
        ordered(s),
    ensures
        ordered(upsert(s, k, v)),
{
    law_upsert(s, k, v, k);
}

proof fn lemma_hosts_ordered(config: Config, addrs: Seq<Seq<char>>)
    ensures
        ordered(hosts_registered(config, addrs)),
    decreases addrs.len(),
{
    if addrs.len() > 0 {
        lemma_hosts_ordered(config, addrs.drop_last());
        lemma_registering_keeps_order(
            hosts_registered(config, addrs.drop_last()),
            config,
            addrs.last(),
            false,
        );
    }
}

proof fn lemma_registering_keeps_order(
    targets: Seq<(Seq<char>, TargetModel)>,
    config: Config,
    addr: Seq<char>,
    is_gateway: bool,
)
    requires
        ordered(targets),
    ensures
        ordered(target_registered(targets, config, addr, is_gateway)),
{
    let t = match lookup(targets, addr) {
        Some(t) => t,
        None => crate::app::state::fresh_target(is_gateway, config.thresholds),
    };
    lemma_upsert_ordered(targets, addr, TargetModel { is_gateway, ..t });
}

/// A dashboard starts out valid.
pub proof fn law_a_new_state_is_valid(config: Config)
    ensures
        valid(AppModel { targets: configured_targets(config), ..blank(config) }),
{
    let hosts = hosts_registered(config, strings(config.targets.internet@));
    lemma_hosts_ordered(config, strings(config.targets.internet@));
    match text_of(config.targets.gateway) {
        Some(gw) => lemma_registering_keeps_order(hosts, config, gw, true),
        None => {},
    }
}

proof fn lemma_kept_targets(targets: Seq<(Seq<char>, TargetModel)>, names: Seq<Seq<char>>)
    requires
        ordered(targets),
    ensures
        ordered(targets_among(targets, names)),
        forall|i: int|
            0 <= i < targets_among(targets, names).len() ==> names.contains(
                (#[trigger] targets_among(targets, names)[i]).0,
            ) && targets.contains(targets_among(targets, names)[i]),
        forall|i: int|
            0 <= i < targets.len() && names.contains((#[trigger] targets[i]).0) ==> targets_among(
                targets,
                names,
            ).contains(targets[i]),
    decreases targets.len(),
{
    if targets.len() > 0 {
        let front = targets.drop_last();
        let before = targets_among(front, names);
        let after = targets_among(targets, names);
        lemma_kept_targets(front, names);
        assert forall|i: int| 0 <= i < after.len() implies names.contains(
            (#[trigger] after[i]).0,
        ) && targets.contains(after[i]) by {
            if i < before.len() {
                assert(after[i] == before[i]);
                let j = choose|j: int| 0 <= j < front.len() && front[j] == before[i];
                assert(targets[j] == after[i]);
            } else {
                assert(after[i] == targets.last());
            }
        }
        assert forall|i: int|
            0 <= i < targets.len() && names.contains((#[trigger] targets[i]).0) implies after.contains(
            targets[i],
        ) by {
            if i < front.len() {
                assert(front[i] == targets[i]);
                let j = choose|j: int| 0 <= j < before.len() && before[j] == front[i];
                assert(after[j] == targets[i]);
            } else {
                assert(after.last() == targets[i]);
            }
        }
        assert(ordered(after)) by {
            assert forall|i: int, j: int| 0 <= i < j < after.len() implies (
            #[trigger] after[i]).0.before((#[trigger] after[j]).0) by {
                if j < before.len() {
                    assert(before[i].0.before(before[j].0));
                } else {
                    let k = choose|k: int| 0 <= k < front.len() && front[k] == before[i];
                    assert(targets[k] == after[i]);
                }
            }
        }
    }
}

/// Keeping only the named targets keeps the state valid, drops every other target, and loses
/// none of the named ones.
pub proof fn law_retaining_targets(m: AppModel, names: Seq<Seq<char>>)
    requires
        valid(m),
    ensures
        valid(AppModel { targets: targets_among(m.targets, names), ..m }),
        forall|t: (Seq<char>, TargetModel)| #[trigger]
            targets_among(m.targets, names).contains(t) <==> m.targets.contains(t)
                && names.contains(t.0),
{
    lemma_kept_targets(m.targets, names);
    let kept = targets_among(m.targets, names);
    assert forall|t: (Seq<char>, TargetModel)| #[trigger]
        kept.contains(t) <==> m.targets.contains(t) && names.contains(t.0) by {
        if kept.contains(t) {
            let i = choose|i: int| 0 <= i < kept.len() && kept[i] == t;
            assert(kept[i] == t);
        }
        if m.targets.contains(t) && names.contains(t.0) {
            let i = choose|i: int| 0 <= i < m.targets.len() && m.targets[i] == t;
            assert(m.targets[i] == t);
        }
    }
}

/// Registering a target keeps the state valid and makes the address known, flagged as asked;
/// every other target is left alone.
pub proof fn law_registering_a_target(
    m: AppModel,
    addr: Seq<char>,
    is_gateway: bool,
    other: Seq<char>,
)
    requires
        valid(m),
    ensures
        valid(
            AppModel {
                targets: target_registered(m.targets, m.config, addr, is_gateway),
                ..m
            },
        ),
        lookup(target_registered(m.targets, m.config, addr, is_gateway), addr) matches Some(t)
            && t.is_gateway == is_gateway,
        other != addr ==> lookup(
            target_registered(m.targets, m.config, addr, is_gateway),
            other,
        ) == lookup(m.targets, other),
{
    let t = match lookup(m.targets, addr) {
        Some(t) => t,
        None => crate::app::state::fresh_target(is_gateway, m.config.thresholds),
    };
    law_upsert(m.targets, addr, TargetModel { is_gateway, ..t }, other);
}

/// A control action keeps the state valid.
#[verifier::spinoff_prover]
#[verifier::rlimit(40)]
pub proof fn law_actions_keep_the_state_valid(m: AppModel, action: Action)
    requires
        valid(m),
    ensures
        valid(acted(m, action)),
{
    if action == Action::OpenThemePicker {
        reveal(theme_index);
    }
}

// ---------------------------------------------------------------------------------------
// Folding
// ---------------------------------------------------------------------------------------

#[verifier::spinoff_prover]
#[verifier::rlimit(40)]
proof fn lemma_fold_keeps_valid(m: AppModel, now: Timestamp, sample: Sample)
    requires
        valid(m),
    ensures
        valid(folded(m, now, sample).0),
{
    let f = folded(m, now, sample).0;
    match sample {
        Sample::Latency { target, rtt_ms } => {
            let v = lookup(f.targets, target@);
            assert(ordered(f.targets)) by {
                let cfg = m.config.thresholds;
                let t = crate::app::fold::held_or(
                    m.targets,
                    target@,
                    crate::app::state::fresh_target(false, cfg),
                );
                lemma_upsert_ordered(
                    m.targets,
                    target@,
                    crate::app::observe::pinged(t, cfg, now, rtt_ms),
                );
            }
        },
        Sample::Dns { resolver, answer } => {
            let cfg = m.config.thresholds;
            let r = crate::app::fold::held_or(
                m.resolvers,
                resolver@,
                crate::app::state::fresh_resolver(cfg),
            );
            lemma_upsert_ordered(
                m.resolvers,
                resolver@,
                crate::app::observe::looked_up(r, cfg, now, answer),
            );
        },
        Sample::DnsIntegrity { resolver, verdict } => {
            let cfg = m.config.thresholds;
            let r = crate::app::fold::held_or(
                m.resolvers,
                resolver@,
                crate::app::state::fresh_resolver(cfg),
            );
            lemma_upsert_ordered(
                m.resolvers,
                resolver@,
                crate::app::observe::checked(r, now, verdict),
            );
        },
        Sample::Reachability { endpoint, ok } => {
            let cfg = m.config.thresholds;
            let r = crate::app::fold::held_or(
                m.reachability,
                endpoint@,
                crate::app::state::ReachState {
                    ok: true,
                    health: crate::app::state::fresh_debouncer(cfg),
                },
            );
            lemma_upsert_ordered(
                m.reachability,
                endpoint@,
                crate::app::observe::reached(r, now, ok),
            );
        },
        Sample::TcpHandshake { endpoint, connect_ms } => {
            let cfg = m.config.thresholds;
            let h = crate::app::fold::held_or(
                m.tcp,
                endpoint@,
                crate::app::state::fresh_handshake(cfg),
            );
            lemma_upsert_ordered(
                m.tcp,
                endpoint@,
                crate::app::observe::shook(h, cfg, now, connect_ms),
            );
        },
        Sample::Tls { endpoint, handshake_ms, expires_in_days } => {
            let cfg = m.config.thresholds;
            let t = crate::app::fold::held_or(m.tls, endpoint@, crate::app::state::fresh_tls(cfg));
            lemma_upsert_ordered(
                m.tls,
                endpoint@,
                crate::app::observe::negotiated(t, cfg, now, handshake_ms, expires_in_days),
            );
        },
        _ => {},
    }
}

proof fn lemma_swings_ordered(
    s: Seq<(FlapKeyModel, FlapModel)>,
    a: AlertConfig,
    now: Timestamp,
    v: Seq<IncidentModel>,
)
    requires
        ordered(s),
    ensures
        ordered(swings(s, a, now, v)),
    decreases v.len(),
{
    if v.len() > 0 {
        lemma_swings_ordered(s, a, now, v.drop_last());
        let before = swings(s, a, now, v.drop_last());
        lemma_upsert_ordered(
            before,
            flap_key(v.last()),
            swung(flaps_of(before, a, v.last()), now, v.last()),
        );
    }
}

proof fn lemma_aged_ordered(s: Seq<(FlapKeyModel, FlapModel)>, now: Timestamp)
    requires
        ordered(s),
    ensures
        ordered(aged(s, now)),
{
    let t = aged(s, now);
    assert forall|i: int, j: int| 0 <= i < j < t.len() implies (#[trigger] t[i]).0.before(
        (#[trigger] t[j]).0,
    ) by {
        assert(s[i].0.before(s[j].0));
    }
}

proof fn lemma_alerted_ordered(
    recent: Seq<(AlertKeyModel, Timestamp)>,
    now: Timestamp,
    cooldown: int,
    v: Seq<IncidentModel>,
)
    requires
        ordered(recent),
    ensures
        ordered(alerted(recent, now, cooldown, v)),
    decreases v.len(),
{
    if v.len() > 0 {
        lemma_alerted_ordered(recent, now, cooldown, v.drop_last());
        lemma_upsert_ordered(
            alerted(recent, now, cooldown, v.drop_last()),
            alert_key(v.last()),
            now,
        );
    }
}

/// What is kept is what still cools, in the same order.
proof fn lemma_still_cooling(
    recent: Seq<(AlertKeyModel, Timestamp)>,
    now: Timestamp,
    cooldown: int,
)
    requires
        ordered(recent),
    ensures
        ordered(still_cooling(recent, now, cooldown)),
        forall|x: (AlertKeyModel, Timestamp)| #[trigger]
            still_cooling(recent, now, cooldown).contains(x) <==> recent.contains(x) && cooling(
                x.1,
                now,
                cooldown,
            ),
    decreases recent.len(),
{
    if recent.len() > 0 {
        let init = recent.drop_last();
        assert forall|i: int, j: int| 0 <= i < j < init.len() implies (#[trigger] init[i]).0.before(
            (#[trigger] init[j]).0,
        ) by {
            assert(recent[i].0.before(recent[j].0));
        }
        lemma_still_cooling(init, now, cooldown);
        let before = still_cooling(init, now, cooldown);
        let after = still_cooling(recent, now, cooldown);
        let last = recent.last();
        assert forall|i: int, j: int| 0 <= i < j < after.len() implies (
        #[trigger] after[i]).0.before((#[trigger] after[j]).0) by {
            if j == before.len() {
                assert(before.contains(before[i]));
                let k = choose|k: int| 0 <= k < init.len() && init[k] == before[i];
                assert(recent[k].0.before(recent[recent.len() - 1].0));
            } else {
                assert(before[i].0.before(before[j].0));
            }
        }
        assert forall|x: (AlertKeyModel, Timestamp)| #[trigger] after.contains(x) <==> (
        recent.contains(x) && cooling(x.1, now, cooldown)) by {
            if after.contains(x) {
                let k = choose|k: int| 0 <= k < after.len() && after[k] == x;
                if k < before.len() {
                    assert(before[k] == x);
                    assert(before.contains(x));
                    let j = choose|j: int| 0 <= j < init.len() && init[j] == x;
                    assert(recent[j] == x);
                } else {
                    assert(recent[recent.len() - 1] == x);
                }
            }
            if recent.contains(x) && cooling(x.1, now, cooldown) {
                let k = choose|k: int| 0 <= k < recent.len() && recent[k] == x;
                if k < init.len() {
                    assert(init[k] == x);
                    assert(init.contains(x));
                    assert(before.contains(x));
                    let j = choose|j: int| 0 <= j < before.len() && before[j] == x;
                    assert(after[j] == x);
                } else {
                    assert(after[after.len() - 1] == x);
                }
            }
        }
    }
}

/// The feed never outgrows its bound, and never shrinks while it is within it.
pub proof fn law_the_feed_is_bounded(
    events: Seq<IncidentModel>,
    max: nat,
    v: Seq<IncidentModel>,
)
    requires
        events.len() <= max,
    ensures
        events.len() <= fed_all(events, max, v).len() <= max,
        v.len() > 0 && max > 0 ==> fed_all(events, max, v)[0] == v.last(),
    decreases v.len(),
{
    if v.len() > 0 {
        law_the_feed_is_bounded(events, max, v.drop_last());
    }
}

proof fn lemma_newest_first(events: Seq<IncidentModel>, max: nat, v: Seq<IncidentModel>, i: int)
    requires
        events.len() <= max,
        0 <= i < v.len(),
        i < max,
    ensures
        i < fed_all(events, max, v).len(),
        fed_all(events, max, v)[i] == v[v.len() - 1 - i],
    decreases v.len(),
{
    let init = v.drop_last();
    law_the_feed_is_bounded(events, max, init);
    if i > 0 {
        lemma_newest_first(events, max, init, i - 1);
        assert(init[init.len() - 1 - (i - 1)] == v[v.len() - 1 - i]);
    }
}

/// What goes to the log goes to the feed: the incidents that a reading gives the log are the
/// newest of the feed, the last of them on top, as many as the feed has room for.
pub proof fn law_what_is_logged_is_in_the_feed(
    m: AppModel,
    now: Timestamp,
    sample: Sample,
    i: int,
)
    requires
        valid(m),
        0 <= i < reports(m, now, sample).len(),
        i < m.max_events,
    ensures
        i < sampled(m, now, sample).events.len(),
        sampled(m, now, sample).events[i] == reports(m, now, sample)[reports(
            m,
            now,
            sample,
        ).len() - 1 - i],
{
    let f = folded(m, now, sample);
    assert(f.0.events == m.events && f.0.max_events == m.max_events);
    let q = quieted(f.0, now, attributed(f.0, f.1));
    lemma_newest_first(q.events, q.max_events as nat, aired(f.0, now, f.1), i);
}

proof fn lemma_absorbing_keeps_valid(m: AppModel, now: Timestamp, v: Seq<IncidentModel>)
    requires
        valid(m),
    ensures
        valid(absorbed(m, now, v)),
{
    let a = m.config.alerts;
    let cooldown = crate::config::dwell_span(a.dedup_secs) as int;
    let t = attributed(m, v);
    let q = quieted(m, now, t);
    lemma_aged_ordered(m.flaps, now);
    lemma_swings_ordered(aged(m.flaps, now), a, now, t);
    let candidates = crate::app::noise::unflapped(m.flaps, a, now, t);
    lemma_alerted_ordered(m.recent_alerts, now, cooldown, candidates);
    lemma_still_cooling(alerted(m.recent_alerts, now, cooldown, candidates), now, cooldown);
    law_the_feed_is_bounded(q.events, q.max_events as nat, aired(m, now, v));
    law_strip_has_one_bucket_per_minute(q.availability, now, overall(q));
}

/// Folding a reading in keeps the state valid.
#[verifier::spinoff_prover]
#[verifier::rlimit(40)]
pub proof fn law_sampling_keeps_the_state_valid(m: AppModel, now: Timestamp, sample: Sample)
    requires
        valid(m),
    ensures
        valid(sampled(m, now, sample)),
{
    lemma_fold_keeps_valid(m, now, sample);
    let f = folded(m, now, sample);
    lemma_absorbing_keeps_valid(f.0, now, f.1);
}

/// The clock ticking, and the log failing, keep the state valid.
pub proof fn law_ticking_and_log_errors_keep_the_state_valid(
    m: AppModel,
    now: Timestamp,
    err: Seq<char>,
)
    requires
        valid(m),
    ensures
        valid(AppModel { availability: ticked(m.availability, now, overall(m)), ..m }),
        valid(log_failed(m, now, err)),
{
    law_strip_has_one_bucket_per_minute(m.availability, now, overall(m));
}

// ---------------------------------------------------------------------------------------
// Incidents
// ---------------------------------------------------------------------------------------

/// Attribution drops nothing and changes nothing but the cause. A recovery is left alone, and
/// so is an incident at the blamed layer or upstream of it; a cause that is given is the
/// blamed layer, which lies upstream of the incident's own.
pub proof fn law_attribution_only_names_an_upstream_cause(
    m: AppModel,
    v: Seq<IncidentModel>,
    i: int,
)
    requires
        0 <= i < v.len(),
    ensures
        attributed(m, v).len() == v.len(),
        ({
            let t = attributed(m, v)[i];
            let primary = blamed(diagnosed(signals_of(m)));
            &&& (IncidentModel { cause: v[i].cause, ..t }) == v[i]
            &&& v[i].severity == Health::Good ==> t == v[i]
            &&& layer_of(m, v[i]) == primary ==> t == v[i]
            &&& t != v[i] ==> t.cause == primary && (primary matches Some(p) && (layer_of(
                m,
                v[i],
            ) matches Some(l) && explains(p, l)))
        }),
{
}

/// A metric is reported unstable once: after the swing that reveals it, and while the swings
/// stay in the window, a further swing is held back.
pub proof fn law_instability_is_reported_once(
    st: FlapModel,
    a: AlertConfig,
    first: Timestamp,
    one: IncidentModel,
    second: Timestamp,
    two: IncidentModel,
)
    requires
        !st.detector.flapping,
        observed(st.detector, first, true).flapping,
        observed(swung(st, first, one).detector, second, true).flapping,
    ensures
        swing_report(st, a, first, one).len() == 1,
        swing_report(st, a, first, one)[0].severity == Health::Warn,
        swing_report(swung(st, first, one), a, second, two) == Seq::<IncidentModel>::empty(),
        swung(swung(st, first, one), second, two).last_suppressed == Some(two),
{
}

/// An alert identical to one reported within the cooldown is a repeat, and is dropped.
pub proof fn law_an_identical_alert_in_the_cooldown_is_dropped(
    recent: Seq<(AlertKeyModel, Timestamp)>,
    cooldown: int,
    first: Timestamp,
    one: IncidentModel,
    second: Timestamp,
    two: IncidentModel,
)
    requires
        ordered(recent),
        alert_key(one) == alert_key(two),
        first <= second,
        second - first < cooldown,
        !repeats(recent, first, cooldown, one),
    ensures
        repeats(
            still_cooling(alerted(recent, first, cooldown, seq![one]), first, cooldown),
            second,
            cooldown,
            two,
        ),
        crate::app::noise::deduped(
            still_cooling(alerted(recent, first, cooldown, seq![one]), first, cooldown),
            second,
            cooldown,
            seq![two],
        ) == Seq::<IncidentModel>::empty(),
{
    reveal_with_fuel(alerted, 2);
    reveal_with_fuel(crate::app::noise::deduped, 2);
    let k = alert_key(one);
    assert(seq![one].drop_last() =~= Seq::empty());
    assert(seq![two].drop_last() =~= Seq::empty());
    let after = alerted(recent, first, cooldown, seq![one]);
    assert(after == upsert(recent, k, first));
    law_upsert(recent, k, first, k);
    lemma_slot(after, k);
    lemma_still_cooling(after, first, cooldown);
    let kept = still_cooling(after, first, cooldown);
    let p = crate::map::slot(after, k);
    assert(after.contains((k, first)));
    assert(kept.contains((k, first)));
    let i = choose|i: int| 0 <= i < kept.len() && kept[i] == (k, first);
    lemma_has_is_membership(kept, k);
    lemma_slot(kept, k);
    let j = crate::map::slot(kept, k);
    if i < j {
        assert(kept[i].0.before(kept[j].0));
        AlertKeyModel::irreflexive(k);
    } else if j < i {
        assert(kept[j].0.before(kept[i].0));
        AlertKeyModel::irreflexive(k);
    }
}

/// An alert older than the cooldown can never silence anything again, so nothing is lost by
/// forgetting it.
pub proof fn law_a_cooled_alert_stays_cool(
    last: Timestamp,
    now: Timestamp,
    later: Timestamp,
    cooldown: int,
)
    requires
        last <= now <= later,
        !cooling(last, now, cooldown),
    ensures
        !cooling(last, later, cooldown),
{
}

/// The table of alerts stays small: it holds only those that can still silence another.
pub proof fn law_only_cooling_alerts_are_remembered(
    m: AppModel,
    now: Timestamp,
    v: Seq<IncidentModel>,
    i: int,
)
    requires
        0 <= i < quieted(m, now, v).recent_alerts.len(),
    ensures
        cooling(
            quieted(m, now, v).recent_alerts[i].1,
            now,
            crate::config::dwell_span(m.config.alerts.dedup_secs) as int,
        ),
{
    let a = m.config.alerts;
    let span = crate::config::dwell_span(a.dedup_secs) as int;
    let before = alerted(
        m.recent_alerts,
        now,
        span,
        crate::app::noise::unflapped(m.flaps, a, now, v),
    );
    lemma_kept_alerts_are_cooling(before, now, span, i);
}

proof fn lemma_kept_alerts_are_cooling(
    recent: Seq<(AlertKeyModel, Timestamp)>,
    now: Timestamp,
    cooldown: int,
    i: int,
)
    requires
        0 <= i < still_cooling(recent, now, cooldown).len(),
    ensures
        cooling(still_cooling(recent, now, cooldown)[i].1, now, cooldown),
    decreases recent.len(),
{
    if recent.len() > 0 {
        let before = still_cooling(recent.drop_last(), now, cooldown);
        if i < before.len() {
            lemma_kept_alerts_are_cooling(recent.drop_last(), now, cooldown, i);
        }
    }
}

/// A cooldown no longer than the two dwells together swallows no second, genuine failure:
/// where a metric broke, recovered and broke again, the second report repeats nothing.
pub proof fn law_the_cooldown_swallows_no_second_fault(
    recent: Seq<(AlertKeyModel, Timestamp)>,
    cooldown: int,
    fault: Debouncer,
    first: Timestamp,
    v: Seq<(Timestamp, Health)>,
    recovery: Timestamp,
    w: Seq<(Timestamp, Health)>,
    again: Timestamp,
    raw: Health,
    inc: IncidentModel,
)
    requires
        fault.pending is None,
        fault.state != Health::Good,
        raw != Health::Good,
        not_before(v, first),
        first <= recovery,
        stays_put(fault, v),
        commits(debounced_all(fault, v), recovery, Health::Good),
        not_before(w, recovery),
        recovery <= again,
        stays_put(settled(Health::Good, fault.trip_after, fault.clear_after), w),
        commits(
            debounced_all(settled(Health::Good, fault.trip_after, fault.clear_after), w),
            again,
            raw,
        ),
        lookup(recent, alert_key(inc)) == Some(first),
        cooldown <= fault.clear_after + fault.trip_after,
    ensures
        !repeats(recent, again, cooldown, inc),
{
    law_a_second_fault_takes_both_dwells(fault, first, v, recovery, w, again, raw);
}

/// A changed address is worth a line, not a colour: it belongs to no panel that can turn red,
/// and moves no panel's health.
#[verifier::spinoff_prover]
#[verifier::rlimit(40)]
pub proof fn law_a_new_address_reddens_no_panel(
    m: AppModel,
    ip: Option<Seq<char>>,
    metric: MetricId,
)
    ensures
        panel(m, MetricId::PublicIp) == Health::Good,
        panel(AppModel { public_ip: ip, ..m }, metric) == panel(m, metric),
        overall(AppModel { public_ip: ip, ..m }) == overall(m),
{
    assert(panels(AppModel { public_ip: ip, ..m }) == panels(m));
}

/// A failing log is worth a line, not a colour either.
#[verifier::spinoff_prover]
#[verifier::rlimit(40)]
pub proof fn law_a_failing_log_reddens_no_panel(m: AppModel, now: Timestamp, err: Seq<char>)
    ensures
        panel(m, MetricId::Log) == Health::Good,
        overall(log_failed(m, now, err)) == overall(m),
{
    lemma_overall_ignores_the_feed(m, log_failed(m, now, err));
}

/// Only the first failure of the log is reported.
pub proof fn law_log_errors_are_reported_once(
    m: AppModel,
    first: Timestamp,
    one: Seq<char>,
    second: Timestamp,
    two: Seq<char>,
)
    ensures
        log_failed(log_failed(m, first, one), second, two) == log_failed(m, first, one),
{
}

/// Every reading marks its minute: the strip's last bucket is that minute or a later one, and
/// is no better than the state the reading left behind.
#[verifier::spinoff_prover]
#[verifier::rlimit(40)]
pub proof fn law_a_reading_marks_its_minute(m: AppModel, now: Timestamp, sample: Sample)
    ensures
        ({
            let after = sampled(m, now, sample);
            let last = after.availability.items.last();
            &&& after.availability.items.len() > 0
            &&& last.minute >= minute_of(now)
            &&& last.health matches Some(h) && crate::health::severity(h)
                >= crate::health::severity(overall(after))
        }),
{
    let f = folded(m, now, sample);
    let q = quieted(f.0, now, attributed(f.0, f.1));
    crate::app::rollup::law_a_minute_never_regresses(q.availability, now, overall(q));
    lemma_overall_ignores_the_feed(q, sampled(m, now, sample));
}

} // verus!
