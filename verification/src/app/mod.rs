//! Application state and the pure reducer.
//!
//! [`AppState`] owns all dashboard state. [`AppState::apply_sample`] folds a probe reading
//! in: it updates history, re-evaluates debounced health, and emits an incident on any
//! confirmed transition. [`AppState::apply_action`] handles control input. Everything here is
//! pure and synchronous: the caller supplies the timestamp, so the reducer is fully
//! deterministic.

use std::collections::VecDeque;

use vstd::prelude::*;

use crate::app::state::{
    fresh_link, fresh_routing, fresh_target, fresh_throughput, AlertKey, AlertKeyModel, FlapKey,
    FlapKeyModel, FlapModel, FlapState, HandshakeModel, HandshakeState, IfaceState, LinkModel,
    LinkState, Minute, ReachState, ResolverModel, ResolverState, RoutingModel, RoutingState,
    TargetModel, TargetState, ThroughputModel, ThroughputState, TlsModel, TlsState,
};
use crate::config::Config;
use crate::health::Debouncer;
use crate::history::{Bounded, RingBuffer};
use crate::incidents::{copy_text, incidents, Incident, IncidentModel};
use crate::map::{
    lemma_models, lemma_models_upsert, lemma_slot, lemma_with_default, lookup, models, upsert,
    OrderedMap,
};
use crate::text::{same_text, strings, text_of};
use crate::ui::theme::{resolved_palette, Palette, Theme};
use crate::units::Timestamp;

pub mod actions;
pub mod fold;
pub mod laws;
pub mod noise;
pub mod observe;
pub mod report;
pub mod rollup;
pub mod state;
pub mod validity;

verus! {

/// Minutes of history the availability strip retains: a little under four hours at a glance.
pub const AVAILABILITY_MINUTES: usize = 220;

/// How many incidents the in-memory feed keeps.
pub const MAX_EVENTS: usize = 200;

/// Live state of the theme-picker overlay (open only while there is one).
#[derive(Debug, Clone, Copy, PartialEq, Eq)]
pub struct ThemePicker {
    /// Position in the catalog of the highlighted (live-previewed) theme.
    pub index: usize,
    /// Theme active before the picker opened, restored on cancel.
    pub original: Theme,
}

/// What a [`ThemePicker`] holds.
pub ghost struct PickerModel {
    pub index: usize,
    pub original: Palette,
}

impl View for ThemePicker {
    type V = PickerModel;

    open spec fn view(&self) -> PickerModel {
        PickerModel { index: self.index, original: self.original@ }
    }
}

/// The picker, where it is open.
pub open spec fn picker_model(p: Option<ThemePicker>) -> Option<PickerModel> {
    match p {
        Some(x) => Some(x@),
        None => None,
    }
}

/// All dashboard state.
pub struct AppState {
    pub config: Config,
    /// Active color theme, resolved from `config.ui.theme`, changed by control actions.
    pub theme: Theme,
    pub targets: OrderedMap<String, TargetState>,
    pub resolvers: OrderedMap<String, ResolverState>,
    pub reachability: OrderedMap<String, ReachState>,
    pub tcp: OrderedMap<String, HandshakeState>,
    pub tls: OrderedMap<String, TlsState>,
    pub throughput: ThroughputState,
    pub link: LinkState,
    pub routing: RoutingState,
    pub iface: IfaceState,
    /// Whether a captive portal is currently intercepting web traffic.
    pub captive_portal: bool,
    /// Debounce for the captive-portal verdict, so one intercepted request can't put
    /// "sign-in required" on screen. Made when the first check comes in.
    pub captive_health: Option<Debouncer>,
    /// Public/WAN IP, for ISP/WAN-change detection.
    pub public_ip: Option<String>,
    /// Default-route interface, its MTU, and whether it runs over a VPN.
    pub interface: Option<String>,
    pub mtu: Option<u32>,
    pub vpn: bool,
    /// Reported incidents, newest first.
    pub events: VecDeque<Incident>,
    pub max_events: usize,
    /// Instability bookkeeping, one entry per metric and target that has ever transitioned.
    /// Ordered so that the settle incidents a single fold emits come out in the same order
    /// every run.
    pub flaps: OrderedMap<FlapKey, FlapState>,
    /// When each alert was last reported, for the dedup cooldown.
    pub recent_alerts: OrderedMap<AlertKey, Timestamp>,
    /// First incident-log write failure, kept so the header can say the on-disk history is
    /// no longer being recorded.
    pub log_error: Option<String>,
    /// One bucket per wall-clock minute holding the worst health observed in it, oldest
    /// first.
    pub availability: RingBuffer<Minute>,
    /// How many newest incidents are scrolled past in the events feed.
    pub events_scroll: usize,
    /// Whether the keybinding help overlay is showing.
    pub show_help: bool,
    /// The theme picker overlay, while it is open.
    pub theme_picker: Option<ThemePicker>,
    pub paused: bool,
    pub should_quit: bool,
}

/// What an [`AppState`] holds.
#[verifier::ext_equal]
pub ghost struct AppModel {
    pub config: Config,
    pub theme: Palette,
    pub targets: Seq<(Seq<char>, TargetModel)>,
    pub resolvers: Seq<(Seq<char>, ResolverModel)>,
    pub reachability: Seq<(Seq<char>, ReachState)>,
    pub tcp: Seq<(Seq<char>, HandshakeModel)>,
    pub tls: Seq<(Seq<char>, TlsModel)>,
    pub throughput: ThroughputModel,
    pub link: LinkModel,
    pub routing: RoutingModel,
    pub iface: IfaceState,
    pub captive_portal: bool,
    pub captive_health: Option<Debouncer>,
    pub public_ip: Option<Seq<char>>,
    pub interface: Option<Seq<char>>,
    pub mtu: Option<u32>,
    pub vpn: bool,
    pub events: Seq<IncidentModel>,
    pub max_events: usize,
    pub flaps: Seq<(FlapKeyModel, FlapModel)>,
    pub recent_alerts: Seq<(AlertKeyModel, Timestamp)>,
    pub log_error: Option<Seq<char>>,
    pub availability: Bounded<Minute>,
    pub events_scroll: usize,
    pub show_help: bool,
    pub theme_picker: Option<PickerModel>,
    pub paused: bool,
    pub should_quit: bool,
}

impl View for AppState {
    type V = AppModel;

    open spec fn view(&self) -> AppModel {
        AppModel {
            config: self.config,
            theme: self.theme@,
            targets: models(self.targets@),
            resolvers: models(self.resolvers@),
            reachability: self.reachability@,
            tcp: models(self.tcp@),
            tls: models(self.tls@),
            throughput: self.throughput@,
            link: self.link@,
            routing: self.routing@,
            iface: self.iface,
            captive_portal: self.captive_portal,
            captive_health: self.captive_health,
            public_ip: text_of(self.public_ip),
            interface: text_of(self.interface),
            mtu: self.mtu,
            vpn: self.vpn,
            events: incidents(self.events@),
            max_events: self.max_events,
            flaps: models(self.flaps@),
            recent_alerts: self.recent_alerts@,
            log_error: text_of(self.log_error),
            availability: self.availability@,
            events_scroll: self.events_scroll,
            show_help: self.show_help,
            theme_picker: picker_model(self.theme_picker),
            paused: self.paused,
            should_quit: self.should_quit,
        }
    }
}

/// The state of a dashboard that nothing has been measured for and no target registered with.
pub open spec fn blank(config: Config) -> AppModel {
    AppModel {
        config,
        theme: resolved_palette(config.ui.theme@),
        targets: Seq::empty(),
        resolvers: Seq::empty(),
        reachability: Seq::empty(),
        tcp: Seq::empty(),
        tls: Seq::empty(),
        throughput: fresh_throughput(),
        link: fresh_link(),
        routing: fresh_routing(),
        iface: IfaceState { rx_errors: None, tx_errors: None, health: None },
        captive_portal: false,
        captive_health: None,
        public_ip: None,
        interface: None,
        mtu: None,
        vpn: false,
        events: Seq::empty(),
        max_events: MAX_EVENTS,
        flaps: Seq::empty(),
        recent_alerts: Seq::empty(),
        log_error: None,
        availability: Bounded::fresh(AVAILABILITY_MINUTES),
        events_scroll: 0,
        show_help: false,
        theme_picker: None,
        paused: false,
        should_quit: false,
    }
}

/// The targets after registering (or re-flagging) `addr`.
pub open spec fn target_registered(
    targets: Seq<(Seq<char>, TargetModel)>,
    config: Config,
    addr: Seq<char>,
    is_gateway: bool,
) -> Seq<(Seq<char>, TargetModel)> {
    let t = match lookup(targets, addr) {
        Some(t) => t,
        None => fresh_target(is_gateway, config.thresholds),
    };
    upsert(targets, addr, TargetModel { is_gateway, ..t })
}

/// The targets after registering each of `addrs` as an internet host.
pub open spec fn hosts_registered(config: Config, addrs: Seq<Seq<char>>) -> Seq<
    (Seq<char>, TargetModel),
>
    decreases addrs.len(),
{
    if addrs.len() == 0 {
        Seq::empty()
    } else {
        target_registered(hosts_registered(config, addrs.drop_last()), config, addrs.last(), false)
    }
}

/// The targets that a configuration asks for: the internet hosts, and the gateway where one
/// is given.
pub open spec fn configured_targets(config: Config) -> Seq<(Seq<char>, TargetModel)> {
    let hosts = hosts_registered(config, strings(config.targets.internet@));
    match text_of(config.targets.gateway) {
        Some(gw) => target_registered(hosts, config, gw, true),
        None => hosts,
    }
}

/// The targets whose address is among `names`, in order.
pub open spec fn targets_among(
    targets: Seq<(Seq<char>, TargetModel)>,
    names: Seq<Seq<char>>,
) -> Seq<(Seq<char>, TargetModel)>
    decreases targets.len(),
{
    if targets.len() == 0 {
        targets
    } else {
        let before = targets_among(targets.drop_last(), names);
        if names.contains(targets.last().0) {
            before.push(targets.last())
        } else {
            before
        }
    }
}

fn is_among(name: &str, names: &Vec<String>) -> (b: bool)
    ensures
        b == strings(names@).contains(name@),
{
    for i in 0..names.len()
        invariant
            forall|j: int| 0 <= j < i ==> (#[trigger] names@[j])@ != name@,
    {
        if same_text(names[i].as_str(), name) {
            assert(strings(names@)[i as int] == name@);
            return true;
        }
    }
    assert forall|j: int| 0 <= j < strings(names@).len() implies strings(names@)[j] != name@ by {
        assert(names@[j]@ == strings(names@)[j]);
    }
    false
}

impl AppState {
    /// Keep only the targets in `names`: those that a probe will actually ping. A target that
    /// nothing measures would stay on screen without ever getting a reading.
    pub fn retain_targets(&mut self, names: &Vec<String>)
        ensures
            final(self)@ == (AppModel {
                targets: targets_among(old(self)@.targets, strings(names@)),
                ..old(self)@
            }),
    {
        let ghost before = self@;
        let ghost all = models(self.targets@);
        let ghost listed = strings(names@);
        let n: usize = self.targets.len();
        let mut kept: usize = 0;
        assert(all.take(0) =~= Seq::empty());
        assert(targets_among(all.take(0), listed) + all.skip(0) =~= all);
        for i in 0..n
            invariant
                n == all.len(),
                listed == strings(names@),
                kept <= i,
                kept == targets_among(all.take(i as int), listed).len(),
                self@ == (AppModel {
                    targets: targets_among(all.take(i as int), listed) + all.skip(i as int),
                    ..before
                }),
        {
            let ghost past = targets_among(all.take(i as int), listed);
            let ghost mid = self.targets@;
            assert(all.take(i + 1).drop_last() =~= all.take(i as int));
            assert(all.take(i + 1).last() == all[i as int]);
            assert(models(mid) == past + all.skip(i as int));
            assert(models(mid).len() == mid.len());
            assert(models(mid)[kept as int] == all[i as int]);
            assert(mid[kept as int].0 == all[i as int].0);
            if is_among(self.targets.key_at(kept).as_str(), names) {
                kept = kept + 1;
                assert(past + all.skip(i as int) =~= past.push(all[i as int]) + all.skip(i + 1));
            } else {
                self.targets.remove_at(kept);
                assert(models(mid.remove(kept as int)) =~= models(mid).remove(kept as int));
                assert(models(mid).remove(kept as int) =~= past + all.skip(i + 1));
            }
        }
        assert(all.take(n as int) =~= all);
        assert(targets_among(all, listed) + all.skip(n as int) =~= targets_among(all, listed));
    }

    /// Build state from config, pre-registering the configured ping targets.
    pub fn new(config: Config) -> (s: AppState)
        ensures
            s@ == (AppModel { targets: configured_targets(config), ..blank(config) }),
    {
        let theme = Theme::resolve(config.ui.theme.as_str());
        let mut s = AppState {
            config,
            theme,
            targets: OrderedMap::new(),
            resolvers: OrderedMap::new(),
            reachability: OrderedMap::new(),
            tcp: OrderedMap::new(),
            tls: OrderedMap::new(),
            throughput: ThroughputState::new(),
            link: LinkState::new(),
            routing: RoutingState::new(),
            iface: IfaceState::new(),
            captive_portal: false,
            captive_health: None,
            public_ip: None,
            interface: None,
            mtu: None,
            vpn: false,
            events: VecDeque::new(),
            max_events: MAX_EVENTS,
            flaps: OrderedMap::new(),
            recent_alerts: OrderedMap::new(),
            log_error: None,
            availability: RingBuffer::new(AVAILABILITY_MINUTES),
            events_scroll: 0,
            show_help: false,
            theme_picker: None,
            paused: false,
            should_quit: false,
        };
        assert(s@ =~= blank(config));
        let n: usize = s.config.targets.internet.len();
        let ghost addrs = strings(config.targets.internet@);
        assert(addrs.take(0) =~= Seq::<Seq<char>>::empty());
        for i in 0..n
            invariant
                n == config.targets.internet@.len(),
                addrs == strings(config.targets.internet@),
                s@ == (AppModel {
                    targets: hosts_registered(config, addrs.take(i as int)),
                    ..blank(config)
                }),
        {
            let addr = s.config.targets.internet[i].clone();
            assert(addrs.take(i + 1).drop_last() =~= addrs.take(i as int));
            s.register_target(addr, false);
        }
        assert(addrs.take(n as int) =~= addrs);
        match copy_text(&s.config.targets.gateway) {
            Some(gw) => s.register_target(gw, true),
            None => {},
        }
        s
    }

    /// Register (or re-flag) a ping target. Used at startup and after gateway detection.
    pub fn register_target(&mut self, addr: String, is_gateway: bool)
        ensures
            final(self)@ == (AppModel {
                targets: target_registered(
                    old(self)@.targets,
                    old(self)@.config,
                    addr@,
                    is_gateway,
                ),
                ..old(self)@
            }),
    {
        let ghost before = self.targets@;
        let fresh = TargetState::new(is_gateway, &self.config.thresholds);
        proof {
            lemma_models(before, addr@);
            lemma_slot(before, addr@);
        }
        let p: usize = self.targets.entry(addr, fresh);
        let ghost mid = self.targets@;
        let t = self.targets.value_at_mut(p);
        t.is_gateway = is_gateway;
        proof {
            let v = self.targets@[p as int].1;
            lemma_with_default(before, addr@, fresh, v);
            lemma_models_upsert(before, addr@, v);
            assert(self.targets@ =~= mid.update(p as int, (addr@, v)));
        }
    }
}

} // verus!
