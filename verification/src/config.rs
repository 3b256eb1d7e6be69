//! Configuration: strongly-typed settings with complete built-in defaults so the app runs
//! with zero config.

use vstd::prelude::*;

use crate::health::{Direction, Health, Thresholds};
use crate::history::floor_div;
use crate::text::{strings, text_of};
use crate::units::{Reading, Span};

verus! {

/// Top-level configuration.
#[derive(Debug, Clone, PartialEq, Eq)]
pub struct Config {
    pub targets: Targets,
    pub resolvers: Vec<Resolver>,
    pub cadence: Cadence,
    pub thresholds: ThresholdConfig,
    pub throughput: ThroughputConfig,
    pub alerts: AlertConfig,
    pub ui: UiConfig,
    /// Deprecated keys found in the loaded file, for the caller to report: it describes the
    /// file that was read, not a setting.
    pub deprecated_keys: Vec<String>,
}

/// Ping / routing targets.
#[derive(Debug, Clone, PartialEq, Eq)]
pub struct Targets {
    /// Auto-detect the default gateway at startup.
    pub gateway_auto: bool,
    /// Manual gateway override (used when `gateway_auto` is false or detection fails).
    pub gateway: Option<String>,
    /// Internet hosts pinged for latency/loss (e.g. `1.1.1.1`, `8.8.8.8`).
    ///
    /// IPv6 literals belong here alongside the v4 ones: they are dropped on a host with no v6
    /// route rather than reported as loss.
    pub internet: Vec<String>,
    /// Stable target for the routing / traceroute probe.
    pub routing_target: String,
    /// Maximum TTL the path probe walks before giving up.
    pub max_hops: usize,
}

impl Default for Targets {
    fn default() -> (t: Targets)
        ensures
            t.gateway_auto,
            t.gateway is None,
            strings(t.internet@) == seq![
                "1.1.1.1"@,
                "8.8.8.8"@,
                "2606:4700:4700::1111"@,
                "2001:4860:4860::8888"@,
            ],
            t.routing_target@ == "1.1.1.1"@,
            t.max_hops == 15,
    {
        let mut internet: Vec<String> = Vec::new();
        internet.push("1.1.1.1".to_owned());
        internet.push("8.8.8.8".to_owned());
        // The v6 side of the same two operators, so a difference between the stacks is a
        // difference in the path and not in who is at the far end of it.
        internet.push("2606:4700:4700::1111".to_owned());
        internet.push("2001:4860:4860::8888".to_owned());
        assert(strings(internet@) =~= seq![
            "1.1.1.1"@,
            "8.8.8.8"@,
            "2606:4700:4700::1111"@,
            "2001:4860:4860::8888"@,
        ]);
        Targets {
            gateway_auto: true,
            gateway: None,
            internet,
            routing_target: "1.1.1.1".to_owned(),
            max_hops: 15,
        }
    }
}

/// A DNS resolver to benchmark.
#[derive(Debug, Clone, PartialEq, Eq)]
pub struct Resolver {
    /// Display name, e.g. `system`, `cloudflare`, `google`.
    pub name: String,
    /// Resolver IP; `None` uses the OS-configured resolver.
    pub addr: Option<String>,
}

/// The names and addresses of a list of resolvers.
pub open spec fn resolver_texts(v: Seq<Resolver>) -> Seq<(Seq<char>, Option<Seq<char>>)> {
    Seq::new(v.len(), |i: int| (v[i].name@, text_of(v[i].addr)))
}

/// The resolvers benchmarked out of the box: the system's, and two public ones.
pub open spec fn stock_resolvers() -> Seq<(Seq<char>, Option<Seq<char>>)> {
    seq![
        ("system"@, None),
        ("cloudflare"@, Some("1.1.1.1"@)),
        ("google"@, Some("8.8.8.8"@)),
    ]
}

/// The resolvers benchmarked out of the box.
pub fn default_resolvers() -> (v: Vec<Resolver>)
    ensures
        resolver_texts(v@) == stock_resolvers(),
{
    let mut v: Vec<Resolver> = Vec::new();
    v.push(Resolver { name: "system".to_owned(), addr: None });
    v.push(Resolver { name: "cloudflare".to_owned(), addr: Some("1.1.1.1".to_owned()) });
    v.push(Resolver { name: "google".to_owned(), addr: Some("8.8.8.8".to_owned()) });
    assert(resolver_texts(v@) =~= stock_resolvers());
    v
}

/// Probe cadences, in milliseconds.
#[derive(Debug, Clone, Copy, PartialEq, Eq, Structural)]
pub struct Cadence {
    pub ping_ms: u64,
    pub dns_ms: u64,
    /// DNS honesty checks. Minutes apart on purpose: hijacking is a configuration, not a
    /// weather condition.
    pub dns_integrity_ms: u64,
    pub routing_ms: u64,
    pub throughput_passive_ms: u64,
    pub throughput_probe_ms: u64,
    pub reachability_ms: u64,
    pub link_ms: u64,
    /// TCP handshake timing. Slower than ping: it opens a real connection on a remote host.
    pub tcp_ms: u64,
    /// NIC error counters. Errors are counted per interval, so a short one makes every burst
    /// look small.
    pub interface_ms: u64,
    pub public_ip_ms: u64,
    pub render_ms: u64,
}

/// The cadences out of the box.
pub open spec fn stock_cadence() -> Cadence {
    Cadence {
        ping_ms: 1000,
        dns_ms: 5000,
        dns_integrity_ms: 120_000,
        routing_ms: 60_000,
        throughput_passive_ms: 1000,
        throughput_probe_ms: 300_000,
        reachability_ms: 15_000,
        link_ms: 15_000,
        tcp_ms: 20_000,
        interface_ms: 10_000,
        public_ip_ms: 300_000,
        render_ms: 200,
    }
}

impl Default for Cadence {
    fn default() -> (c: Cadence)
        ensures
            c == stock_cadence(),
    {
        Cadence {
            ping_ms: 1000,
            dns_ms: 5000,
            dns_integrity_ms: 120_000,
            routing_ms: 60_000,
            throughput_passive_ms: 1000,
            throughput_probe_ms: 300_000,
            reachability_ms: 15_000,
            link_ms: 15_000,
            tcp_ms: 20_000,
            interface_ms: 10_000,
            public_ip_ms: 300_000,
            render_ms: 200,
        }
    }
}

impl Cadence {
    /// The ping cadence, in milliseconds.
    pub fn ping(&self) -> (ms: u64)
        ensures
            ms == self.ping_ms,
    {
        self.ping_ms
    }

    /// The render cadence, in milliseconds.
    pub fn render(&self) -> (ms: u64)
        ensures
            ms == self.render_ms,
    {
        self.render_ms
    }
}

/// Warn/crit thresholds and window sizes.
#[derive(Debug, Clone, Copy, PartialEq, Eq, Structural)]
pub struct ThresholdConfig {
    pub latency_internet: Thresholds,
    pub latency_gateway: Thresholds,
    pub jitter: Thresholds,
    pub loss: Thresholds,
    pub dns: Thresholds,
    pub rssi: Thresholds,
    /// Wi-Fi signal-to-noise ratio in dB (higher is better).
    pub snr: Thresholds,
    /// Added latency under load (bufferbloat) in ms (higher is worse).
    pub bufferbloat: Thresholds,
    /// Measured link capacity in Mbps (lower is worse).
    pub throughput: Thresholds,
    /// TCP handshake time in ms (higher is worse). Looser than the ping thresholds on
    /// purpose: a handshake is a full round trip plus the far end's accept queue.
    pub tcp_handshake: Thresholds,
    /// NIC errors seen in one probe interval (higher is worse). A healthy interface reports
    /// exactly zero, so the warn level sits at 1.
    pub interface_errors: Thresholds,
    /// How long a degradation must persist before it is reported, in seconds.
    pub trip_after_secs: Reading,
    /// How long a recovery must hold before it is reported, in seconds. Longer than
    /// `trip_after_secs` on purpose; see [`crate::health::Debouncer`].
    pub clear_after_secs: Reading,
    /// **Deprecated**: superseded by `trip_after_secs`/`clear_after_secs`. Still accepted so
    /// existing configs keep working, but it cannot be converted: a sample count means a
    /// different duration on every probe. Dropped on load.
    pub debounce_samples: Option<usize>,
    /// Number of ping outcomes retained for the loss window.
    pub loss_window: usize,
    /// Number of points retained per history series (chart width).
    pub history_len: usize,
}

/// Thresholds where crossing upward is bad, in whole units.
pub open spec fn upward(warn: int, crit: int) -> Thresholds {
    Thresholds {
        warn: (warn * 1_000_000_000) as i64,
        crit: (crit * 1_000_000_000) as i64,
        direction: Direction::HigherIsWorse,
    }
}

/// Thresholds where dropping is bad, in whole units.
pub open spec fn downward(warn: int, crit: int) -> Thresholds {
    Thresholds {
        warn: (warn * 1_000_000_000) as i64,
        crit: (crit * 1_000_000_000) as i64,
        direction: Direction::LowerIsWorse,
    }
}

/// The thresholds out of the box.
pub open spec fn stock_thresholds() -> ThresholdConfig {
    ThresholdConfig {
        latency_internet: upward(80, 150),
        latency_gateway: upward(15, 50),
        jitter: upward(15, 40),
        loss: upward(1, 5),
        dns: upward(100, 300),
        rssi: downward(-70, -80),
        snr: downward(20, 10),
        bufferbloat: upward(100, 300),
        throughput: downward(100, 25),
        tcp_handshake: upward(250, 1000),
        interface_errors: upward(1, 10),
        trip_after_secs: 3_000_000_000,
        clear_after_secs: 15_000_000_000,
        debounce_samples: None,
        loss_window: 60,
        history_len: 120,
    }
}

impl Default for ThresholdConfig {
    fn default() -> (t: ThresholdConfig)
        ensures
            t == stock_thresholds(),
    {
        ThresholdConfig {
            latency_internet: Thresholds::higher_is_worse(80_000_000_000, 150_000_000_000),
            latency_gateway: Thresholds::higher_is_worse(15_000_000_000, 50_000_000_000),
            jitter: Thresholds::higher_is_worse(15_000_000_000, 40_000_000_000),
            loss: Thresholds::higher_is_worse(1_000_000_000, 5_000_000_000),
            dns: Thresholds::higher_is_worse(100_000_000_000, 300_000_000_000),
            rssi: Thresholds::lower_is_worse(-70_000_000_000, -80_000_000_000),
            snr: Thresholds::lower_is_worse(20_000_000_000, 10_000_000_000),
            bufferbloat: Thresholds::higher_is_worse(100_000_000_000, 300_000_000_000),
            throughput: Thresholds::lower_is_worse(100_000_000_000, 25_000_000_000),
            tcp_handshake: Thresholds::higher_is_worse(250_000_000_000, 1_000_000_000_000),
            interface_errors: Thresholds::higher_is_worse(1_000_000_000, 10_000_000_000),
            trip_after_secs: 3_000_000_000,
            clear_after_secs: 15_000_000_000,
            debounce_samples: None,
            loss_window: 60,
            history_len: 120,
        }
    }
}

/// Seconds (in billionths) as a span at millisecond resolution. Negative values clamp to
/// zero: a "negative dwell" is a typo, and treating it as "commit immediately" is the
/// reading that cannot surprise anyone.
pub open spec fn dwell_span(secs: Reading) -> Span {
    if secs < 0 {
        0
    } else {
        (secs as int / 1_000_000 * 1_000_000) as i64
    }
}

/// Seconds as a span at millisecond resolution.
pub fn secs_to_duration(secs: Reading) -> (d: Span)
    ensures
        d == dwell_span(secs),
        d >= 0,
{
    if secs < 0 {
        0
    } else {
        secs / 1_000_000 * 1_000_000
    }
}

impl ThresholdConfig {
    /// Dwell before a degradation is committed.
    pub fn trip_after(&self) -> (d: Span)
        ensures
            d == dwell_span(self.trip_after_secs),
    {
        secs_to_duration(self.trip_after_secs)
    }

    /// Dwell before a recovery is committed.
    pub fn clear_after(&self) -> (d: Span)
        ensures
            d == dwell_span(self.clear_after_secs),
    {
        secs_to_duration(self.clear_after_secs)
    }
}

/// Noise controls for the event feed and the incident log.
///
/// These sit downstream of the debounce: debouncing decides whether a change is *real*,
/// these decide whether reporting it again tells the reader anything new.
#[derive(Debug, Clone, Copy, PartialEq, Eq, Structural)]
pub struct AlertConfig {
    /// Committed transitions within `flap_window_secs` before a metric is called unstable
    /// and its individual swings are collapsed into one "flapping" incident. Below 2 the
    /// detector is disabled.
    pub flap_count: usize,
    /// The window flap transitions are counted over, in seconds.
    pub flap_window_secs: Reading,
    /// Drop an incident identical to one already reported (same metric, target and
    /// severity) within this many seconds.
    ///
    /// Kept below `trip_after_secs + clear_after_secs` on purpose: a debounced metric cannot
    /// break, recover and break again faster than that.
    pub dedup_secs: Reading,
}

/// The noise controls out of the box.
pub open spec fn stock_alerts() -> AlertConfig {
    AlertConfig {
        flap_count: 4,
        flap_window_secs: 120_000_000_000,
        dedup_secs: 10_000_000_000,
    }
}

impl Default for AlertConfig {
    fn default() -> (a: AlertConfig)
        ensures
            a == stock_alerts(),
    {
        AlertConfig {
            flap_count: 4,
            flap_window_secs: 120_000_000_000,
            dedup_secs: 10_000_000_000,
        }
    }
}

impl AlertConfig {
    /// Window flap transitions are counted over.
    pub fn flap_window(&self) -> (d: Span)
        ensures
            d == dwell_span(self.flap_window_secs),
    {
        secs_to_duration(self.flap_window_secs)
    }

    /// Cooldown before an identical alert may be reported again.
    pub fn dedup_window(&self) -> (d: Span)
        ensures
            d == dwell_span(self.dedup_secs),
    {
        secs_to_duration(self.dedup_secs)
    }
}

/// Throughput probe settings.
#[derive(Debug, Clone, PartialEq, Eq)]
pub struct ThroughputConfig {
    /// Endpoint for the active capacity probe. The transfer size is part of the URL, so
    /// there is no separate byte-count knob to keep in sync with it.
    pub probe_url: String,
    /// **Deprecated**: superseded by `thresholds.throughput`, which can also express a
    /// critical bound. On load it seeds `thresholds.throughput` (see
    /// [`Config::migrate_deprecated`]) and is then dropped.
    pub floor_mbps: Option<Reading>,
}

impl Default for ThroughputConfig {
    fn default() -> (t: ThroughputConfig)
        ensures
            t.probe_url@ == "https://speed.cloudflare.com/__down?bytes=3000000"@,
            t.floor_mbps is None,
    {
        ThroughputConfig {
            probe_url: "https://speed.cloudflare.com/__down?bytes=3000000".to_owned(),
            floor_mbps: None,
        }
    }
}

/// UI/theme toggles.
#[derive(Debug, Clone, PartialEq, Eq)]
pub struct UiConfig {
    pub color: bool,
    /// Color theme name; one of the built-in catalog. Unknown names fall back to `default`.
    pub theme: String,
}

impl Default for UiConfig {
    fn default() -> (u: UiConfig)
        ensures
            u.color,
            u.theme@ == "neon_sunset"@,
    {
        UiConfig { color: true, theme: "neon_sunset".to_owned() }
    }
}

impl Default for Config {
    fn default() -> (c: Config)
        ensures
            call_ensures(Targets::default, (), c.targets),
            resolver_texts(c.resolvers@) == stock_resolvers(),
            c.cadence == stock_cadence(),
            c.thresholds == stock_thresholds(),
            call_ensures(ThroughputConfig::default, (), c.throughput),
            c.alerts == stock_alerts(),
            call_ensures(UiConfig::default, (), c.ui),
            c.deprecated_keys@.len() == 0,
    {
        Config {
            targets: Targets::default(),
            resolvers: default_resolvers(),
            cadence: Cadence::default(),
            thresholds: ThresholdConfig::default(),
            throughput: ThroughputConfig::default(),
            alerts: AlertConfig::default(),
            ui: UiConfig::default(),
            deprecated_keys: Vec::new(),
        }
    }
}

/// The report of a retired `throughput.floor_mbps`.
pub open spec fn floor_report() -> Seq<char> {
    "throughput.floor_mbps (migrated into thresholds.throughput)"@
}

/// The report of a retired `thresholds.debounce_samples`.
pub open spec fn debounce_report() -> Seq<char> {
    "thresholds.debounce_samples (ignored — use trip_after_secs / clear_after_secs)"@
}

/// The throughput thresholds that a retired floor amounts to: it warns at the floor, and is
/// critical at a quarter of it or at the stock bound, whichever is lower.
pub open spec fn floor_thresholds(floor: Reading) -> Thresholds {
    let quarter = floor as int / 4;
    let stock = stock_thresholds().throughput.crit;
    Thresholds {
        warn: floor,
        crit: if stock <= quarter {
            stock
        } else {
            quarter as i64
        },
        direction: Direction::LowerIsWorse,
    }
}

/// The thresholds of a config once its retired keys are folded into them. A floor counts
/// only where the throughput thresholds were not themselves configured, `explicit`.
pub open spec fn migrated(
    t: ThresholdConfig,
    floor: Option<Reading>,
    explicit: bool,
) -> ThresholdConfig {
    ThresholdConfig {
        throughput: match floor {
            Some(f) if !explicit => floor_thresholds(f),
            _ => t.throughput,
        },
        debounce_samples: None,
        ..t
    }
}

impl Config {
    /// Fold deprecated keys into the fields that replaced them, then clear them so they do
    /// not round-trip back out.
    ///
    /// `throughput.floor_mbps` only ever expressed a *warn* bound, so it seeds `warn` and
    /// drags `crit` underneath it: leaving the stock crit in place would classify every
    /// merely-slow reading under a low floor as critical. An explicitly configured
    /// `thresholds.throughput` always wins: `explicit` says that it was configured, whatever
    /// its values.
    ///
    /// `thresholds.debounce_samples` is dropped rather than converted, and recorded in
    /// [`Config::deprecated_keys`] so the caller can say so.
    pub fn migrate_deprecated(&mut self, explicit: bool)
        ensures
            final(self).throughput.floor_mbps is None,
            final(self).thresholds == migrated(
                old(self).thresholds,
                old(self).throughput.floor_mbps,
                explicit,
            ),
            strings(final(self).deprecated_keys@) == strings(old(self).deprecated_keys@) + (
            if old(self).throughput.floor_mbps is Some {
                seq![floor_report()]
            } else {
                seq![]
            }) + (if old(self).thresholds.debounce_samples is Some {
                seq![debounce_report()]
            } else {
                seq![]
            }),
            final(self).targets == old(self).targets,
            final(self).resolvers == old(self).resolvers,
            final(self).cadence == old(self).cadence,
            final(self).alerts == old(self).alerts,
            final(self).ui == old(self).ui,
            final(self).throughput.probe_url == old(self).throughput.probe_url,
    {
        let stock = ThresholdConfig::default().throughput;
        let ghost k0 = self.deprecated_keys@;
        match self.throughput.floor_mbps {
            Some(floor) => {
                self.throughput.floor_mbps = None;
                self.deprecated_keys.push(
                    "throughput.floor_mbps (migrated into thresholds.throughput)".to_owned(),
                );
                assert(strings(self.deprecated_keys@) =~= strings(k0) + seq![floor_report()]);
                if !explicit {
                    let quarter: i64 = floor_div(floor as i128, 4) as i64;
                    let crit: i64 = if stock.crit <= quarter {
                        stock.crit
                    } else {
                        quarter
                    };
                    self.thresholds.throughput = Thresholds::lower_is_worse(floor, crit);
                }
            },
            None => {
                assert(strings(self.deprecated_keys@) =~= strings(k0) + seq![]);
            },
        }
        let ghost k1 = self.deprecated_keys@;
        if self.thresholds.debounce_samples.is_some() {
            self.thresholds.debounce_samples = None;
            self.deprecated_keys.push(
                "thresholds.debounce_samples (ignored — use trip_after_secs / clear_after_secs)".to_owned(),
            );
            assert(strings(self.deprecated_keys@) =~= strings(k1) + seq![debounce_report()]);
        } else {
            assert(strings(self.deprecated_keys@) =~= strings(k1) + seq![]);
        }
    }

    /// One human-readable line per retired key found in the file at `path`.
    ///
    /// Reported rather than migrated in silence: a setting that stopped doing what its name
    /// says is worse than one that is gone, and the only person who can fix the file is the
    /// one who wrote it.
    pub fn deprecation_warnings(&self, path: &str) -> (v: Vec<String>)
        ensures
            v@.len() == self.deprecated_keys@.len(),
            forall|i: int|
                0 <= i < v@.len() ==> (#[trigger] v@[i])@ == "warning: "@ + self.deprecated_keys@[i]@
                    + " in "@ + path@,
    {
        let mut v: Vec<String> = Vec::new();
        for i in 0..self.deprecated_keys.len()
            invariant
                v@.len() == i,
                forall|j: int|
                    0 <= j < i ==> (#[trigger] v@[j])@ == "warning: "@
                        + self.deprecated_keys@[j]@ + " in "@ + path@,
        {
            let mut line = "warning: ".to_owned();
            line.append(self.deprecated_keys[i].as_str());
            line.append(" in ");
            line.append(path);
            v.push(line);
        }
        v
    }
}

/// Throughput thresholds that were configured win over a retired floor, whatever their
/// values; without a floor they stay as they are; and migrating a config that was migrated
/// before changes nothing.
pub proof fn law_migration_respects_what_was_configured(
    t: ThresholdConfig,
    floor: Option<Reading>,
    explicit: bool,
    again: bool,
)
    ensures
        migrated(t, floor, true).throughput == t.throughput,
        migrated(t, None, explicit).throughput == t.throughput,
        migrated(migrated(t, floor, explicit), None, again) == migrated(t, floor, explicit),
{
}

/// A migrated floor never classifies a merely-warning value as critical: the critical bound
/// lies strictly below a positive floor.
pub proof fn law_a_migrated_floor_keeps_crit_below_warn(floor: Reading)
    requires
        floor > 0,
    ensures
        floor_thresholds(floor).crit < floor_thresholds(floor).warn,
{
}

/// A retired floor warns below itself, and is critical at a quarter of itself or at twenty-five
/// megabits, whichever is less: that is how any capacity is judged by it.
pub proof fn law_a_migrated_floor_judges_capacity(
    t: ThresholdConfig,
    floor: Reading,
    v: Reading,
)
    requires
        floor > 0,
    ensures
        ({
            let judged = migrated(t, Some(floor), false).throughput.health_of(v as int);
            let critical = 4 * v <= floor && v <= 25_000_000_000;
            &&& judged == Health::Crit <==> critical
            &&& judged == Health::Warn <==> v <= floor && !critical
        }),
{
}

/// Migrating changes nothing but the throughput bounds, and retires the sample count.
pub proof fn law_migration_keeps_the_rest(
    t: ThresholdConfig,
    floor: Option<Reading>,
    explicit: bool,
)
    ensures
        ({
            let m = migrated(t, floor, explicit);
            &&& m.debounce_samples is None
            &&& m == (ThresholdConfig { throughput: m.throughput, debounce_samples: None, ..t })
        }),
{
}

/// How a reading is judged out of the box, in billionths of its unit: bad from the first of
/// two bounds on, and critical from the second on.
pub proof fn law_readings_are_judged_out_of_the_box(v: Reading)
    ensures
        ({
            let t = stock_thresholds();
            &&& rises(t.latency_internet, v as int, 80, 150)
            &&& rises(t.latency_gateway, v as int, 15, 50)
            &&& rises(t.jitter, v as int, 15, 40)
            &&& rises(t.loss, v as int, 1, 5)
            &&& rises(t.dns, v as int, 100, 300)
            &&& rises(t.bufferbloat, v as int, 100, 300)
            &&& rises(t.tcp_handshake, v as int, 250, 1000)
            &&& rises(t.interface_errors, v as int, 1, 10)
            &&& drops(t.rssi, v as int, -70, -80)
            &&& drops(t.snr, v as int, 20, 10)
            &&& drops(t.throughput, v as int, 100, 25)
            &&& dwell_span(t.trip_after_secs) == 3 * 1_000_000_000
            &&& dwell_span(t.clear_after_secs) == 15 * 1_000_000_000
            &&& t.loss_window == 60 && t.history_len == 120
        }),
{
}

/// The reading is bad from `warn` whole units on upwards, and critical from `crit` on.
pub open spec fn rises(t: Thresholds, v: int, warn: int, crit: int) -> bool {
    &&& t.health_of(v) == Health::Crit <==> v >= crit * 1_000_000_000
    &&& t.health_of(v) == Health::Good <==> v < warn * 1_000_000_000
}

/// The reading is bad from `warn` whole units on downwards, and critical from `crit` on.
pub open spec fn drops(t: Thresholds, v: int, warn: int, crit: int) -> bool {
    &&& t.health_of(v) == Health::Crit <==> v <= crit * 1_000_000_000
    &&& t.health_of(v) == Health::Good <==> v > warn * 1_000_000_000
}

/// Noise control out of the box: four swings within two minutes are flapping, and the same
/// alert within ten seconds is dropped.
pub proof fn law_noise_is_controlled_out_of_the_box()
    ensures
        stock_alerts().flap_count == 4,
        dwell_span(stock_alerts().flap_window_secs) == 2 * 60 * 1_000_000_000,
        dwell_span(stock_alerts().dedup_secs) == 10 * 1_000_000_000,
{
}

/// Probes out of the box, in whole seconds: pings every second, lookups every five, and none
/// more often than the dashboard is drawn.
pub proof fn law_probes_run_at_their_pace_out_of_the_box()
    ensures
        ({
            let c = stock_cadence();
            &&& c.ping_ms == 1_000 && c.throughput_passive_ms == 1_000
            &&& c.dns_ms == 5_000 && c.interface_ms == 10_000
            &&& c.reachability_ms == 15_000 && c.link_ms == 15_000 && c.tcp_ms == 20_000
            &&& c.routing_ms == 60_000 && c.dns_integrity_ms == 120_000
            &&& c.throughput_probe_ms == 300_000 && c.public_ip_ms == 300_000
            &&& c.render_ms == 200
        }),
{
}

} // verus!
