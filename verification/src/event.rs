//! What the event loop decides: which key means what, how the dashboard starts, what an
//! input does to it, and what the one-shot mode prints.
//!
//! Waiting for keys, timers and probes, and drawing, are left to the program around the
//! library; it hands each input to [`step`] and writes what comes back to the incident log.

use vstd::prelude::*;

use crate::app::actions::{acted, Action};
use crate::app::noise::{reports, sampled};
use crate::app::rollup::{overall, panel, ticked};
use crate::app::state::{ResolverModel, TargetModel};
use crate::app::{blank, configured_targets, target_registered, AppModel, AppState};
use crate::config::Config;
use crate::diagnosis::{diagnose, diagnosed, layer_tag, verdicts, Diagnosis, Verdict};
use crate::format::{fixed0, left_aligned, push_fixed0, push_left_aligned};
use crate::health::Health;
use crate::history::{last_of, loss_of};
use crate::incidents::{copy_text, incidents, Incident, IncidentModel};
use crate::map::lookup;
use crate::metrics::{metric_label, MetricId, Sample};
use crate::net::{names_a_tunnel, over_vpn, RouteInfo, RouteModel};
use crate::projection::signals_of;
use crate::text::{push_text, strings};
use crate::ui::panels::{or_zero, value_or_zero};
use crate::units::{clamped, Reading, Timestamp};

verus! {

// ---------------------------------------------------------------------------------------
// Keys
// ---------------------------------------------------------------------------------------

/// The keys that the dashboard tells apart.
#[derive(Debug, Clone, Copy, PartialEq, Eq, Structural)]
pub enum KeyCode {
    Char(char),
    Esc,
    Up,
    Down,
    PageUp,
    PageDown,
    Other,
}

/// A key press.
#[derive(Debug, Clone, Copy, PartialEq, Eq, Structural)]
pub struct Key {
    pub code: KeyCode,
    pub ctrl: bool,
}

/// What a key press means.
pub open spec fn binding(key: Key) -> Option<Action> {
    match key.code {
        KeyCode::Char(c) => if c == 'c' && key.ctrl {
            Some(Action::Quit)
        } else if c == 'q' {
            Some(Action::Quit)
        } else if c == 'p' {
            Some(Action::TogglePause)
        } else if c == 'c' {
            Some(Action::ClearEvents)
        } else if c == 'r' {
            Some(Action::ForceRefresh)
        } else if c == 't' {
            Some(Action::CycleTheme)
        } else if c == '?' {
            Some(Action::ToggleHelp)
        } else if c == 'k' {
            Some(Action::ScrollUp)
        } else if c == 'j' {
            Some(Action::ScrollDown)
        } else {
            None
        },
        KeyCode::Esc => Some(Action::Quit),
        KeyCode::Up => Some(Action::ScrollUp),
        KeyCode::Down => Some(Action::ScrollDown),
        KeyCode::PageUp => Some(Action::ScrollPageUp),
        KeyCode::PageDown => Some(Action::ScrollPageDown),
        KeyCode::Other => None,
    }
}

/// Map a key press to a control [`Action`], or `None` if unbound.
pub fn map_key(key: Key) -> (a: Option<Action>)
    ensures
        a == binding(key),
{
    // Ctrl-C always quits, regardless of the plain 'c' binding below.
    if key.ctrl && key.code == KeyCode::Char('c') {
        return Some(Action::Quit);
    }
    match key.code {
        KeyCode::Char('q') | KeyCode::Esc => Some(Action::Quit),
        KeyCode::Char('p') => Some(Action::TogglePause),
        KeyCode::Char('c') => Some(Action::ClearEvents),
        KeyCode::Char('r') => Some(Action::ForceRefresh),
        KeyCode::Char('t') => Some(Action::CycleTheme),
        KeyCode::Char('?') => Some(Action::ToggleHelp),
        KeyCode::Up | KeyCode::Char('k') => Some(Action::ScrollUp),
        KeyCode::Down | KeyCode::Char('j') => Some(Action::ScrollDown),
        KeyCode::PageUp => Some(Action::ScrollPageUp),
        KeyCode::PageDown => Some(Action::ScrollPageDown),
        _ => None,
    }
}

// ---------------------------------------------------------------------------------------
// Starting
// ---------------------------------------------------------------------------------------

/// The detected gateway, where it is to be pinged: detection is on, and none is configured.
pub open spec fn gateway_to_ping(config: Config, route: RouteModel) -> Option<Seq<char>> {
    if config.targets.gateway_auto && config.targets.gateway is None {
        route.gateway
    } else {
        None
    }
}

/// The state after the default route was detected.
pub open spec fn routed(m: AppModel, route: RouteModel) -> AppModel {
    AppModel {
        targets: match gateway_to_ping(m.config, route) {
            Some(gw) => target_registered(m.targets, m.config, gw, true),
            None => m.targets,
        },
        interface: crate::app::observe::newer(route.interface, m.interface),
        mtu: crate::app::observe::newer(route.mtu, m.mtu),
        vpn: over_vpn(route),
        ..m
    }
}

/// The state that a dashboard starts in.
pub open spec fn started(config: Config, route: Option<RouteModel>) -> AppModel {
    let fresh = AppModel { targets: configured_targets(config), ..blank(config) };
    match route {
        Some(r) => routed(fresh, r),
        None => fresh,
    }
}

/// What is known of the default route, where it was found.
pub open spec fn route_model(r: Option<RouteInfo>) -> Option<RouteModel> {
    match r {
        Some(x) => Some(x@),
        None => None,
    }
}

/// Build the state, register the detected gateway as a stricter-threshold ping target, and
/// record the interface, MTU and VPN facts.
pub fn start(config: Config, route: Option<RouteInfo>) -> (s: AppState)
    ensures
        s@ == started(config, route_model(route)),
{
    let mut s = AppState::new(config);
    match route {
        Some(info) => {
            if s.config.targets.gateway_auto && s.config.targets.gateway.is_none() {
                match copy_text(&info.gateway) {
                    Some(gw) => s.register_target(gw, true),
                    None => {},
                }
            }
            s.apply_route_info(&info);
        },
        None => {},
    }
    s
}

/// The targets to ping, in order.
pub open spec fn addresses(s: Seq<(Seq<char>, TargetModel)>) -> Seq<Seq<char>> {
    Seq::new(s.len(), |i: int| s[i].0)
}

/// The targets to ping, in order.
pub fn target_names(state: &AppState) -> (v: Vec<String>)
    ensures
        strings(v@) == addresses(state@.targets),
{
    let n: usize = state.targets.len();
    let mut v: Vec<String> = Vec::new();
    for i in 0..n
        invariant
            n == state.targets@.len(),
            strings(v@) == addresses(state@.targets).take(i as int),
    {
        push_text(&mut v, state.targets.key_at(i).clone());
        assert(strings(v@) =~= addresses(state@.targets).take(i + 1));
    }
    assert(strings(v@) =~= addresses(state@.targets));
    v
}

/// How long a probe may take, in milliseconds: `limit`, or its interval where that is shorter,
/// so that a slow target can't stretch a tick past its interval and desync the panel.
pub fn probe_timeout(limit: u64, interval: u64) -> (ms: u64)
    ensures
        ms == (if limit <= interval {
            limit
        } else {
            interval
        }),
{
    if limit <= interval {
        limit
    } else {
        interval
    }
}

// ---------------------------------------------------------------------------------------
// Inputs
// ---------------------------------------------------------------------------------------

/// Something that happens to a running dashboard.
pub enum Input {
    /// It is time to draw.
    Render { now: Timestamp },
    /// A key was pressed.
    Press { key: Key },
    /// A probe took a reading.
    Reading { now: Timestamp, sample: Sample },
}

/// The state after an input. Readings that come in while the dashboard is paused are dropped.
pub open spec fn stepped(m: AppModel, input: Input) -> AppModel {
    match input {
        Input::Render { now } => AppModel {
            availability: ticked(m.availability, now, overall(m)),
            ..m
        },
        Input::Press { key } => match binding(key) {
            Some(a) => acted(m, a),
            None => m,
        },
        Input::Reading { now, sample } => if m.paused {
            m
        } else {
            sampled(m, now, sample)
        },
    }
}

/// What an input gives the incident log.
pub open spec fn to_log(m: AppModel, input: Input) -> Seq<IncidentModel> {
    match input {
        Input::Reading { now, sample } => if m.paused {
            Seq::empty()
        } else {
            reports(m, now, sample)
        },
        _ => Seq::empty(),
    }
}

/// Take up an input, returning the incidents to write to the log.
pub fn step(state: &mut AppState, input: Input) -> (log: Vec<Incident>)
    ensures
        final(state)@ == stepped(old(state)@, input),
        incidents(log@) == to_log(old(state)@, input),
{
    let none: Vec<Incident> = Vec::new();
    assert(incidents(none@) =~= Seq::empty());
    match input {
        Input::Render { now } => {
            state.tick(now);
            none
        },
        Input::Press { key } => {
            match map_key(key) {
                Some(a) => state.apply_action(a),
                None => {},
            }
            none
        },
        Input::Reading { now, sample } => {
            if state.paused {
                none
            } else {
                state.apply_sample(now, sample)
            }
        },
    }
}

/// While the dashboard is paused, a reading changes nothing and logs nothing.
pub proof fn law_a_paused_dashboard_takes_no_readings(m: AppModel, now: Timestamp, sample: Sample)
    requires
        m.paused,
    ensures
        stepped(m, Input::Reading { now, sample }) == m,
        to_log(m, Input::Reading { now, sample }) == Seq::<IncidentModel>::empty(),
{
}

/// A dashboard is valid from its start on, whatever happens to it.
#[verifier::spinoff_prover]
#[verifier::rlimit(40)]
pub proof fn law_a_running_dashboard_stays_valid(
    config: Config,
    route: Option<RouteModel>,
    m: AppModel,
    input: Input,
)
    requires
        crate::app::validity::valid(m),
    ensures
        crate::app::validity::valid(started(config, route)),
        crate::app::validity::valid(stepped(m, input)),
{
    crate::app::validity::law_a_new_state_is_valid(config);
    let fresh = AppModel { targets: configured_targets(config), ..blank(config) };
    match route {
        Some(r) => match gateway_to_ping(config, r) {
            Some(gw) => crate::app::validity::law_registering_a_target(fresh, gw, true, gw),
            None => {},
        },
        None => {},
    }
    match input {
        Input::Render { now } => {
            crate::app::validity::law_ticking_and_log_errors_keep_the_state_valid(
                m,
                now,
                Seq::empty(),
            );
        },
        Input::Press { key } => match binding(key) {
            Some(a) => crate::app::validity::law_actions_keep_the_state_valid(m, a),
            None => {},
        },
        Input::Reading { now, sample } => {
            crate::app::validity::law_sampling_keeps_the_state_valid(m, now, sample);
        },
    }
}

// ---------------------------------------------------------------------------------------
// One shot
// ---------------------------------------------------------------------------------------

/// A health state in one word.
pub open spec fn badge_of(h: Health) -> Seq<char> {
    match h {
        Health::Good => "OK"@,
        Health::Warn => "WARN"@,
        Health::Crit => "CRIT"@,
    }
}

/// A health state in one word.
pub fn badge(h: Health) -> (s: &'static str)
    ensures
        s@ == badge_of(h),
{
    match h {
        Health::Good => "OK",
        Health::Warn => "WARN",
        Health::Crit => "CRIT",
    }
}

/// One verdict.
pub open spec fn verdict_text(v: Verdict) -> Seq<char> {
    "  diag ["@ + (match v.layer {
        Some(l) => layer_tag(l),
        None => "ok"@,
    }) + "] "@ + v.headline
}

/// One panel's health.
pub open spec fn panel_text(m: AppModel, metric: MetricId) -> Seq<char> {
    "  "@ + left_aligned(metric_label(metric), 12) + " "@ + badge_of(panel(m, metric))
}

/// One target's latency and loss.
pub open spec fn ping_text(name: Seq<char>, t: TargetModel) -> Seq<char> {
    "  ping "@ + left_aligned(name, 16) + " "@ + fixed0(or_zero(last_of(t.latency_ms.items)))
        + "ms  loss "@ + fixed0(loss_of(t.loss.items) as int) + "%"@
}

/// One resolver's latest answer.
pub open spec fn lookup_text(name: Seq<char>, r: ResolverModel) -> Seq<char> {
    let head = "  dns  "@ + left_aligned(name, 16) + " "@;
    if r.last_ok {
        head + fixed0(or_zero(last_of(r.latency_ms.items))) + "ms"@
    } else {
        head + "FAIL"@
    }
}

/// The lines that the one-shot mode prints.
pub open spec fn summary(m: AppModel) -> Seq<Seq<char>> {
    let v = diagnosed(signals_of(m));
    seq!["NetPulse — one-shot probe  (overall: "@ + badge_of(overall(m)) + ")"@] + Seq::new(
        v.len(),
        |i: int| verdict_text(v[i]),
    ) + seq![
        panel_text(m, MetricId::Latency),
        panel_text(m, MetricId::Loss),
        panel_text(m, MetricId::Dns),
        panel_text(m, MetricId::Routing),
        panel_text(m, MetricId::Throughput),
        panel_text(m, MetricId::Link),
    ] + Seq::new(m.targets.len(), |i: int| ping_text(m.targets[i].0, m.targets[i].1)) + Seq::new(
        m.resolvers.len(),
        |i: int| lookup_text(m.resolvers[i].0, m.resolvers[i].1),
    )
}

fn verdict_line(d: &Diagnosis) -> (s: String)
    ensures
        s@ == verdict_text(d@),
{
    let mut s = "  diag [".to_owned();
    match d.layer {
        Some(l) => s.append(l.tag()),
        None => s.append("ok"),
    }
    s.append("] ");
    s.append(d.headline.as_str());
    s
}

fn panel_line(state: &AppState, metric: MetricId) -> (s: String)
    ensures
        s@ == panel_text(state@, metric),
{
    let mut s = "  ".to_owned();
    push_left_aligned(&mut s, metric.label(), 12);
    s.append(" ");
    s.append(badge(state.panel_health(metric)));
    s
}

fn ping_line(state: &AppState, i: usize) -> (s: String)
    requires
        i < state.targets@.len(),
    ensures
        s@ == ping_text(state@.targets[i as int].0, state@.targets[i as int].1),
{
    let t = state.targets.value_at(i);
    let mut s = "  ping ".to_owned();
    push_left_aligned(&mut s, state.targets.key_at(i).as_str(), 16);
    s.append(" ");
    push_fixed0(&mut s, value_or_zero(t.latency_ms.latest()));
    s.append("ms  loss ");
    push_fixed0(&mut s, t.loss.loss_pct());
    s.append("%");
    s
}

fn lookup_line(state: &AppState, i: usize) -> (s: String)
    requires
        i < state.resolvers@.len(),
    ensures
        s@ == lookup_text(state@.resolvers[i as int].0, state@.resolvers[i as int].1),
{
    let r = state.resolvers.value_at(i);
    let mut s = "  dns  ".to_owned();
    push_left_aligned(&mut s, state.resolvers.key_at(i).as_str(), 16);
    s.append(" ");
    if r.last_ok {
        push_fixed0(&mut s, value_or_zero(r.latency_ms.latest()));
        s.append("ms");
    } else {
        s.append("FAIL");
    }
    s
}

fn push_verdicts(v: &mut Vec<String>, state: &AppState)
    ensures
        ({
            let d = diagnosed(signals_of(state@));
            strings(final(v)@) == strings(old(v)@) + Seq::new(d.len(), |i: int| verdict_text(d[i]))
        }),
{
    let list = diagnose(state);
    let ghost before = strings(v@);
    let ghost d = verdicts(list@);
    let ghost all = Seq::new(d.len(), |i: int| verdict_text(d[i]));
    let n: usize = list.len();
    assert(before + all.take(0) =~= before);
    for i in 0..n
        invariant
            n == list@.len(),
            d == verdicts(list@),
            all == Seq::new(d.len(), |i: int| verdict_text(d[i])),
            strings(v@) == before + all.take(i as int),
    {
        assert(d[i as int] == list@[i as int]@);
        push_text(v, verdict_line(&list[i]));
        assert(strings(v@) =~= before + all.take(i + 1));
    }
    assert(all.take(n as int) =~= all);
}

fn push_pings(v: &mut Vec<String>, state: &AppState)
    ensures
        ({
            let t = state@.targets;
            strings(final(v)@) == strings(old(v)@) + Seq::new(
                t.len(),
                |i: int| ping_text(t[i].0, t[i].1),
            )
        }),
{
    let ghost before = strings(v@);
    let ghost t = state@.targets;
    let ghost all = Seq::new(t.len(), |i: int| ping_text(t[i].0, t[i].1));
    let n: usize = state.targets.len();
    assert(before + all.take(0) =~= before);
    for i in 0..n
        invariant
            n == state.targets@.len(),
            t == state@.targets,
            all == Seq::new(t.len(), |i: int| ping_text(t[i].0, t[i].1)),
            strings(v@) == before + all.take(i as int),
    {
        push_text(v, ping_line(state, i));
        assert(strings(v@) =~= before + all.take(i + 1));
    }
    assert(all.take(n as int) =~= all);
}

fn push_lookups(v: &mut Vec<String>, state: &AppState)
    ensures
        ({
            let r = state@.resolvers;
            strings(final(v)@) == strings(old(v)@) + Seq::new(
                r.len(),
                |i: int| lookup_text(r[i].0, r[i].1),
            )
        }),
{
    let ghost before = strings(v@);
    let ghost r = state@.resolvers;
    let ghost all = Seq::new(r.len(), |i: int| lookup_text(r[i].0, r[i].1));
    let n: usize = state.resolvers.len();
    assert(before + all.take(0) =~= before);
    for i in 0..n
        invariant
            n == state.resolvers@.len(),
            r == state@.resolvers,
            all == Seq::new(r.len(), |i: int| lookup_text(r[i].0, r[i].1)),
            strings(v@) == before + all.take(i as int),
    {
        push_text(v, lookup_line(state, i));
        assert(strings(v@) =~= before + all.take(i + 1));
    }
    assert(all.take(n as int) =~= all);
}

/// The lines that the one-shot mode prints: the overall health, the verdicts, the health of
/// each panel, and the latest reading of each target and resolver.
pub fn summary_lines(state: &AppState) -> (v: Vec<String>)
    ensures
        strings(v@) == summary(state@),
{
    let mut v: Vec<String> = Vec::new();
    assert(strings(v@) =~= Seq::empty());
    let mut head = "NetPulse — one-shot probe  (overall: ".to_owned();
    head.append(badge(state.overall_health()));
    head.append(")");
    push_text(&mut v, head);
    push_verdicts(&mut v, state);
    let ghost before = strings(v@);
    push_text(&mut v, panel_line(state, MetricId::Latency));
    push_text(&mut v, panel_line(state, MetricId::Loss));
    push_text(&mut v, panel_line(state, MetricId::Dns));
    push_text(&mut v, panel_line(state, MetricId::Routing));
    push_text(&mut v, panel_line(state, MetricId::Throughput));
    push_text(&mut v, panel_line(state, MetricId::Link));
    assert(strings(v@) =~= before + seq![
        panel_text(state@, MetricId::Latency),
        panel_text(state@, MetricId::Loss),
        panel_text(state@, MetricId::Dns),
        panel_text(state@, MetricId::Routing),
        panel_text(state@, MetricId::Throughput),
        panel_text(state@, MetricId::Link),
    ]);
    push_pings(&mut v, state);
    push_lookups(&mut v, state);
    v
}

// ---------------------------------------------------------------------------------------
// Demo
// ---------------------------------------------------------------------------------------

/// A synthetic round-trip time: a base per target, a wobble on top of it, an occasional drop
/// and an occasional spike.
pub open spec fn demo_rtt(round: u64, i: usize, wobble: Reading) -> Option<Reading> {
    let tick = round + i;
    if tick % 53 == 0 {
        None
    } else {
        Some(
            clamped(
                10_000_000_000 + i * 6_000_000_000 + wobble + (if tick % 37 == 0 {
                    220_000_000_000int
                } else {
                    0
                }),
            ) as Reading,
        )
    }
}

/// The reading of the `i`-th target in a round of the demo, used where no real ping can be
/// sent. `wobble` is the smooth part of its curve.
pub fn demo_sample(target: String, round: u64, i: usize, wobble: Reading) -> (s: Sample)
    ensures
        s matches Sample::Latency { target: t, rtt_ms } && t == target && rtt_ms == demo_rtt(
            round,
            i,
            wobble,
        ),
{
    let tick: u128 = round as u128 + i as u128;
    if tick % 53 == 0 {
        return Sample::Latency { target, rtt_ms: None };
    }
    let spike: i128 = if tick % 37 == 0 {
        220_000_000_000
    } else {
        0
    };
    let rtt: i128 = 10_000_000_000 + i as i128 * 6_000_000_000 + wobble as i128 + spike;
    let held: Reading = if rtt > i64::MAX as i128 {
        i64::MAX
    } else if rtt < i64::MIN as i128 {
        i64::MIN
    } else {
        rtt as i64
    };
    Sample::Latency { target, rtt_ms: Some(held) }
}

// ---------------------------------------------------------------------------------------
// Laws
// ---------------------------------------------------------------------------------------

/// Which keys do what: quitting has three, scrolling has two ways, a plain `c` clears and one
/// with control held quits, and no other character does anything.
pub proof fn law_keys_do_what_they_are_bound_to(key: Key)
    ensures
        ({
            let quits = key.code == KeyCode::Esc || key.code == KeyCode::Char('q') || (key.code
                == KeyCode::Char('c') && key.ctrl);
            let act = binding(key);
            &&& act == Some(Action::Quit) <==> quits
            &&& act == Some(Action::ClearEvents) <==> key.code == KeyCode::Char('c') && !key.ctrl
            &&& act == Some(Action::TogglePause) <==> key.code == KeyCode::Char('p')
            &&& act == Some(Action::ForceRefresh) <==> key.code == KeyCode::Char('r')
            &&& act == Some(Action::CycleTheme) <==> key.code == KeyCode::Char('t')
            &&& act == Some(Action::ToggleHelp) <==> key.code == KeyCode::Char('?')
            &&& act == Some(Action::ScrollUp) <==> key.code == KeyCode::Up || key.code
                == KeyCode::Char('k')
            &&& act == Some(Action::ScrollDown) <==> key.code == KeyCode::Down || key.code
                == KeyCode::Char('j')
            &&& act == Some(Action::ScrollPageUp) <==> key.code == KeyCode::PageUp
            &&& act == Some(Action::ScrollPageDown) <==> key.code == KeyCode::PageDown
        }),
{
}

/// A detected gateway is pinged exactly where detection is on and none was configured; and
/// what is detected of the interface is recorded.
pub proof fn law_the_detected_gateway_is_watched(
    config: Config,
    route: RouteModel,
    gateway: Seq<char>,
)
    requires
        route.gateway == Some(gateway),
    ensures
        ({
            let s = started(config, Some(route));
            &&& config.targets.gateway_auto && config.targets.gateway is None ==> (lookup(
                s.targets,
                gateway,
            ) matches Some(t) && t.is_gateway)
            &&& !config.targets.gateway_auto || config.targets.gateway is Some ==> s.targets
                == configured_targets(config)
            &&& route.interface is Some ==> s.interface == route.interface
            &&& route.mtu is Some ==> s.mtu == route.mtu
            &&& s.vpn <==> route.interface is Some && names_a_tunnel(route.interface->0)
        }),
{
    crate::app::validity::law_a_new_state_is_valid(config);
    crate::app::validity::law_registering_a_target(
        AppModel { targets: configured_targets(config), ..blank(config) },
        gateway,
        true,
        gateway,
    );
}

/// What the inputs do: drawing only marks the minute, an unbound key nothing, and a reading
/// that is taken gives the log what it reports.
pub proof fn law_inputs_do_what_they_say(
    m: AppModel,
    now: Timestamp,
    key: Key,
    sample: Sample,
)
    ensures
        stepped(m, Input::Render { now }) == (AppModel {
            availability: stepped(m, Input::Render { now }).availability,
            ..m
        }),
        to_log(m, Input::Render { now }).len() == 0,
        to_log(m, Input::Press { key }).len() == 0,
        binding(key) is None ==> stepped(m, Input::Press { key }) == m,
        !m.paused ==> to_log(m, Input::Reading { now, sample }) == reports(m, now, sample),
        !m.paused ==> stepped(m, Input::Reading { now, sample }) == sampled(m, now, sample),
{
}

/// The one-shot report: the overall health on the first line, then every verdict in its order,
/// six panels, every target and every resolver, each on a line of its own.
pub proof fn law_the_report_leaves_nothing_out(m: AppModel, i: int)
    ensures
        ({
            let d = diagnosed(signals_of(m));
            let lines = summary(m);
            &&& lines.len() == 7 + d.len() + m.targets.len() + m.resolvers.len()
            &&& lines[0] == "NetPulse — one-shot probe  (overall: "@ + badge_of(overall(m)) + ")"@
            &&& 0 <= i < d.len() ==> d[i].headline.is_suffix_of(lines[1 + i])
            &&& 0 <= i < m.targets.len() ==> lines[7 + d.len() + i] == ping_text(
                m.targets[i].0,
                m.targets[i].1,
            )
            &&& 0 <= i < m.resolvers.len() ==> lines[7 + d.len() + m.targets.len() + i]
                == lookup_text(m.resolvers[i].0, m.resolvers[i].1)
        }),
{
    let d = diagnosed(signals_of(m));
    let lines = summary(m);
    if 0 <= i < d.len() {
        let line = lines[1 + i];
        assert(line == verdict_text(d[i]));
        assert(line.skip(line.len() - d[i].headline.len()) =~= d[i].headline);
    }
}

/// What the report says of a target and of a resolver: the latest time, none being nought, and
/// the loss; and that the last lookup failed where it did.
pub proof fn law_the_report_gives_the_latest_readings(
    name: Seq<char>,
    t: TargetModel,
    r: ResolverModel,
    last: Reading,
)
    ensures
        t.latency_ms.items.len() > 0 && t.latency_ms.items.last() == last ==> ping_text(name, t)
            == "  ping "@ + left_aligned(name, 16) + " "@ + fixed0(last as int) + "ms  loss "@
            + fixed0(loss_of(t.loss.items) as int) + "%"@,
        !r.last_ok ==> lookup_text(name, r) == "  dns  "@ + left_aligned(name, 16) + " "@
            + "FAIL"@,
        r.last_ok && r.latency_ms.items.len() > 0 && r.latency_ms.items.last() == last
            ==> lookup_text(name, r) == "  dns  "@ + left_aligned(name, 16) + " "@ + fixed0(
            last as int,
        ) + "ms"@,
{
}

/// A demo drops every fifty-third reading and spikes on every thirty-seventh other one, by two
/// hundred and twenty milliseconds; targets lie six milliseconds apart.
pub proof fn law_the_demo_drops_and_spikes(round: u64, i: usize, wobble: Reading)
    requires
        i < 1_000,
        -1_000_000_000_000 < wobble < 1_000_000_000_000,
    ensures
        demo_rtt(round, i, wobble) is None <==> (round + i) % 53 == 0,
        demo_rtt(round, i, wobble) matches Some(v) ==> {
            &&& (round + i) % 37 != 0 ==> v == 10_000_000_000 + i * 6_000_000_000 + wobble
            &&& (round + i) % 37 == 0 ==> v == 230_000_000_000 + i * 6_000_000_000 + wobble
        },
{
}

/// A verdict's line names the layer that is to blame, and a panel's line its health in a word.
pub proof fn law_the_report_names_layer_and_health(m: AppModel, v: Verdict, metric: MetricId)
    ensures
        v.layer matches Some(l) ==> verdict_text(v) == "  diag ["@ + layer_tag(l) + "] "@
            + v.headline,
        v.layer is None ==> verdict_text(v) == "  diag ["@ + "ok"@ + "] "@ + v.headline,
        panel(m, metric) == Health::Good ==> panel_text(m, metric) == "  "@ + left_aligned(
            metric_label(metric),
            12,
        ) + " "@ + "OK"@,
        panel(m, metric) == Health::Warn ==> panel_text(m, metric) == "  "@ + left_aligned(
            metric_label(metric),
            12,
        ) + " "@ + "WARN"@,
        panel(m, metric) == Health::Crit ==> panel_text(m, metric) == "  "@ + left_aligned(
            metric_label(metric),
            12,
        ) + " "@ + "CRIT"@,
{
}

/// A dashboard starts knowing nothing: no reading, no incident, nothing flapping or cooling,
/// and nothing open; the strip is empty and everything is good.
pub proof fn law_a_dashboard_starts_knowing_nothing(config: Config)
    ensures
        ({
            let m = started(config, None);
            &&& m.targets == configured_targets(config)
            &&& m.resolvers.len() == 0 && m.reachability.len() == 0 && m.tcp.len() == 0
                && m.tls.len() == 0
            &&& m.events.len() == 0 && m.events_scroll == 0 && m.flaps.len() == 0
                && m.recent_alerts.len() == 0
            &&& m.availability.items.len() == 0
            &&& !m.captive_portal && m.public_ip is None && m.log_error is None && !m.vpn
            &&& !m.paused && !m.should_quit && !m.show_help && m.theme_picker is None
            &&& m.link.rssi_dbm is None && m.throughput.last_mbps is None && !m.routing.seen
            &&& m.config == config
        }),
{
}

} // verus!
