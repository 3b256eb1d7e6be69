//! Rolling health up: per panel, overall, and minute by minute.

use vstd::prelude::*;

use crate::app::state::{
    reported, reported_health, HandshakeModel, Minute, ReachState, ResolverModel, TargetModel,
    TlsModel,
};
use crate::app::{AppModel, AppState, AVAILABILITY_MINUTES};
use crate::health::{worse, worst_in, Health};
use crate::history::{percent, percentage, Bounded};
use crate::metrics::MetricId;
use crate::units::{Reading, Timestamp, MINUTE};

verus! {

/// The latency-and-jitter health of each target.
pub open spec fn latency_states(s: Seq<(Seq<char>, TargetModel)>) -> Seq<Health> {
    Seq::new(s.len(), |i: int| worse(s[i].1.latency_health.state, s[i].1.jitter_health.state))
}

/// The loss health of each target.
pub open spec fn loss_states(s: Seq<(Seq<char>, TargetModel)>) -> Seq<Health> {
    Seq::new(s.len(), |i: int| s[i].1.loss_health.state)
}

/// The health of each resolver: its timing or its honesty, whichever is worse.
pub open spec fn resolver_states(s: Seq<(Seq<char>, ResolverModel)>) -> Seq<Health> {
    Seq::new(s.len(), |i: int| worse(s[i].1.health.state, s[i].1.integrity_health.state))
}

/// The health of each endpoint.
pub open spec fn reach_states(s: Seq<(Seq<char>, ReachState)>) -> Seq<Health> {
    Seq::new(s.len(), |i: int| s[i].1.health.state)
}

/// The health of each TCP endpoint.
pub open spec fn tcp_states(s: Seq<(Seq<char>, HandshakeModel)>) -> Seq<Health> {
    Seq::new(s.len(), |i: int| s[i].1.health.state)
}

/// The health of each TLS endpoint: its negotiation or its certificate, whichever is worse.
pub open spec fn tls_states(s: Seq<(Seq<char>, TlsModel)>) -> Seq<Health> {
    Seq::new(s.len(), |i: int| worse(s[i].1.handshake.health.state, s[i].1.expiry_health.state))
}

/// The health of the panel that shows a metric.
pub open spec fn panel(m: AppModel, metric: MetricId) -> Health {
    match metric {
        MetricId::Latency | MetricId::Jitter => worst_in(latency_states(m.targets)),
        MetricId::Loss => worst_in(loss_states(m.targets)),
        MetricId::Dns | MetricId::DnsIntegrity => worst_in(resolver_states(m.resolvers)),
        MetricId::Throughput | MetricId::Bufferbloat => worse(
            reported(m.throughput.health),
            reported(m.throughput.bufferbloat_health),
        ),
        MetricId::Routing => reported(m.routing.health),
        MetricId::Link
        | MetricId::Reachability
        | MetricId::CaptivePortal
        | MetricId::InterfaceErrors => worse(
            worse(
                worse(reported(m.link.health), worst_in(reach_states(m.reachability))),
                reported(m.captive_health),
            ),
            reported(m.iface.health),
        ),
        MetricId::TcpHandshake | MetricId::Tls | MetricId::Certificate => worse(
            worst_in(tcp_states(m.tcp)),
            worst_in(tls_states(m.tls)),
        ),
        MetricId::PublicIp | MetricId::Log => Health::Good,
    }
}

/// The health of each panel, in the order of the rollup.
pub open spec fn panels(m: AppModel) -> Seq<Health> {
    seq![
        panel(m, MetricId::Latency),
        panel(m, MetricId::Loss),
        panel(m, MetricId::Dns),
        panel(m, MetricId::Throughput),
        panel(m, MetricId::Routing),
        panel(m, MetricId::Link),
        panel(m, MetricId::TcpHandshake),
    ]
}

/// The worst health across all panels.
pub open spec fn overall(m: AppModel) -> Health {
    worst_in(panels(m))
}

/// The feed and the noise bookkeeping have no part in the overall health.
#[verifier::spinoff_prover]
#[verifier::rlimit(40)]
pub proof fn lemma_overall_ignores_the_feed(a: AppModel, b: AppModel)
    requires
        b == (AppModel {
            events: b.events,
            flaps: b.flaps,
            recent_alerts: b.recent_alerts,
            availability: b.availability,
            log_error: b.log_error,
            ..a
        }),
    ensures
        overall(a) == overall(b),
{
    assert(panels(a) == panels(b));
}

impl AppState {
    fn worst_latency(&self) -> (h: Health)
        ensures
            h == worst_in(latency_states(self@.targets)),
    {
        let ghost states = latency_states(self@.targets);
        let mut h = Health::Good;
        let n: usize = self.targets.len();
        for i in 0..n
            invariant
                n == self.targets@.len(),
                states == latency_states(self@.targets),
                h == worst_in(states.take(i as int)),
        {
            assert(states.take(i + 1).drop_last() =~= states.take(i as int));
            let t = self.targets.value_at(i);
            h = h.worst(t.latency_health_current().worst(t.jitter_health_current()));
        }
        assert(states.take(states.len() as int) =~= states);
        h
    }

    fn worst_loss(&self) -> (h: Health)
        ensures
            h == worst_in(loss_states(self@.targets)),
    {
        let ghost states = loss_states(self@.targets);
        let mut h = Health::Good;
        let n: usize = self.targets.len();
        for i in 0..n
            invariant
                n == self.targets@.len(),
                states == loss_states(self@.targets),
                h == worst_in(states.take(i as int)),
        {
            assert(states.take(i + 1).drop_last() =~= states.take(i as int));
            h = h.worst(self.targets.value_at(i).loss_health_current());
        }
        assert(states.take(states.len() as int) =~= states);
        h
    }

    fn worst_resolver(&self) -> (h: Health)
        ensures
            h == worst_in(resolver_states(self@.resolvers)),
    {
        let ghost states = resolver_states(self@.resolvers);
        let mut h = Health::Good;
        let n: usize = self.resolvers.len();
        for i in 0..n
            invariant
                n == self.resolvers@.len(),
                states == resolver_states(self@.resolvers),
                h == worst_in(states.take(i as int)),
        {
            assert(states.take(i + 1).drop_last() =~= states.take(i as int));
            let r = self.resolvers.value_at(i);
            h = h.worst(r.health_current().worst(r.integrity_health_current()));
        }
        assert(states.take(states.len() as int) =~= states);
        h
    }

    /// Worst reported health of an endpoint.
    pub(crate) fn worst_endpoint(&self) -> (h: Health)
        ensures
            h == worst_in(reach_states(self@.reachability)),
    {
        let ghost states = reach_states(self@.reachability);
        let mut h = Health::Good;
        let n: usize = self.reachability.len();
        for i in 0..n
            invariant
                n == self.reachability@.len(),
                states == reach_states(self@.reachability),
                h == worst_in(states.take(i as int)),
        {
            assert(states.take(i + 1).drop_last() =~= states.take(i as int));
            h = h.worst(self.reachability.value_at(i).health.current());
        }
        assert(states.take(states.len() as int) =~= states);
        h
    }

    fn worst_tcp(&self) -> (h: Health)
        ensures
            h == worst_in(tcp_states(self@.tcp)),
    {
        let ghost states = tcp_states(self@.tcp);
        let mut h = Health::Good;
        let n: usize = self.tcp.len();
        for i in 0..n
            invariant
                n == self.tcp@.len(),
                states == tcp_states(self@.tcp),
                h == worst_in(states.take(i as int)),
        {
            assert(states.take(i + 1).drop_last() =~= states.take(i as int));
            h = h.worst(self.tcp.value_at(i).health_current());
        }
        assert(states.take(states.len() as int) =~= states);
        h
    }

    fn worst_tls(&self) -> (h: Health)
        ensures
            h == worst_in(tls_states(self@.tls)),
    {
        let ghost states = tls_states(self@.tls);
        let mut h = Health::Good;
        let n: usize = self.tls.len();
        for i in 0..n
            invariant
                n == self.tls@.len(),
                states == tls_states(self@.tls),
                h == worst_in(states.take(i as int)),
        {
            assert(states.take(i + 1).drop_last() =~= states.take(i as int));
            let t = self.tls.value_at(i);
            h = h.worst(t.health_current().worst(t.expiry_health_current()));
        }
        assert(states.take(states.len() as int) =~= states);
        h
    }

    /// Health of a dashboard panel, rolled up across its constituent streams.
    pub fn panel_health(&self, metric: MetricId) -> (h: Health)
        ensures
            h == panel(self@, metric),
    {
        match metric {
            MetricId::Latency | MetricId::Jitter => self.worst_latency(),
            MetricId::Loss => self.worst_loss(),
            MetricId::Dns | MetricId::DnsIntegrity => self.worst_resolver(),
            // Capacity and bufferbloat share the Throughput panel: a link can be "up and
            // fast" yet unusable under load, so the border must reflect the worse of the two.
            MetricId::Throughput | MetricId::Bufferbloat => reported_health(
                &self.throughput.health,
            ).worst(self.throughput.bufferbloat_health_current()),
            MetricId::Routing => reported_health(&self.routing.health),
            // The "Link & Reachability" panel combines the wireless link, all endpoints, the
            // captive-portal verdict (a sign-in wall is a total loss of web access even while
            // every endpoint below HTTP answers) and the network card's own errors.
            MetricId::Link
            | MetricId::Reachability
            | MetricId::CaptivePortal
            | MetricId::InterfaceErrors => reported_health(&self.link.health).worst(
                self.worst_endpoint(),
            ).worst(reported_health(&self.captive_health)).worst(self.iface.health_current()),
            MetricId::TcpHandshake | MetricId::Tls | MetricId::Certificate => self.worst_tcp().worst(
                self.worst_tls(),
            ),
            // A new WAN address is news, not a fault: nothing is broken, so nothing goes red.
            // Same for the dashboard's own log: the network is fine, the disk isn't, and the
            // header badge is where that belongs.
            MetricId::PublicIp | MetricId::Log => Health::Good,
        }
    }

    /// Worst health across all panels (drives the header banner).
    pub fn overall_health(&self) -> (h: Health)
        ensures
            h == overall(self@),
    {
        let states = [
            self.panel_health(MetricId::Latency),
            self.panel_health(MetricId::Loss),
            self.panel_health(MetricId::Dns),
            self.panel_health(MetricId::Throughput),
            self.panel_health(MetricId::Routing),
            self.panel_health(MetricId::Link),
            self.panel_health(MetricId::TcpHandshake),
        ];
        assert(states@ =~= panels(self@));
        Health::worst_of(&states)
    }
}

// ---------------------------------------------------------------------------------------
// Availability
// ---------------------------------------------------------------------------------------

/// The number of the minute that an instant lies in, counted from the Unix epoch.
pub open spec fn minute_of(now: Timestamp) -> int {
    now as int / 60_000_000_000
}

/// The number of the minute that an instant lies in.
pub fn minute_number(now: Timestamp) -> (m: i64)
    ensures
        m == minute_of(now),
{
    crate::history::floor_div(now as i128, MINUTE as i128) as i64
}

/// The first `k` of the `n` unwatched minutes before `minute`, pushed onto `b`.
pub open spec fn with_gap(b: Bounded<Minute>, minute: int, n: int, k: int) -> Bounded<Minute>
    decreases k,
{
    if k <= 0 {
        b
    } else {
        gap_step(with_gap(b, minute, n, k - 1), minute - (n - (k - 1)))
    }
}

/// `b` with one more unwatched minute.
pub open spec fn gap_step(b: Bounded<Minute>, minute: int) -> Bounded<Minute> {
    b.pushed(Minute { minute: minute as i64, health: None })
}

/// How many unwatched minutes lie between the last recorded minute and `minute`, at most a
/// whole strip of them: waking after a week is one full strip.
pub open spec fn gap_len(last: int, minute: int) -> int {
    let missing = minute - last - 1;
    if missing < 0 {
        0
    } else if missing > AVAILABILITY_MINUTES {
        AVAILABILITY_MINUTES as int
    } else {
        missing
    }
}

/// The strip after the minute of `now` has been seen in health `h`: within the last recorded
/// minute (or for a clock that stepped backwards) the worse health stays, and minutes nobody
/// observed are unknown, not healthy.
pub open spec fn ticked(b: Bounded<Minute>, now: Timestamp, h: Health) -> Bounded<Minute> {
    let minute = minute_of(now);
    if b.items.len() == 0 {
        b.pushed(Minute { minute: minute as i64, health: Some(h) })
    } else {
        let last = b.items.last();
        if last.minute >= minute {
            Bounded {
                items: b.items.drop_last().push(
                    Minute {
                        minute: last.minute,
                        health: Some(
                            match last.health {
                                Some(prev) => worse(prev, h),
                                None => h,
                            },
                        ),
                    },
                ),
                ..b
            }
        } else {
            let n = gap_len(last.minute as int, minute);
            with_gap(b, minute, n, n).pushed(
                Minute { minute: minute as i64, health: Some(h) },
            )
        }
    }
}

impl AppState {
    /// Advance the availability strip to `now`.
    ///
    /// Called from both the reducer and the render loop: samples alone would leave the strip
    /// frozen during a total outage (no samples arrive to fold), and renders alone would
    /// leave it empty on headless paths. Within a minute it is no more than a worst-of merge.
    pub fn tick(&mut self, now: Timestamp)
        ensures
            final(self)@ == (AppModel {
                availability: ticked(old(self)@.availability, now, overall(old(self)@)),
                ..old(self)@
            }),
    {
        let minute: i64 = minute_number(now);
        let health = self.overall_health();
        let ghost b = self.availability@;
        let last: Option<Minute> = match self.availability.latest() {
            Some(m) => Some(*m),
            None => None,
        };
        match last {
            Some(last) => {
                if last.minute >= minute {
                    // Same minute (or a clock that stepped backwards): merge, never regress.
                    let merged = match last.health {
                        Some(prev) => prev.worst(health),
                        None => health,
                    };
                    self.availability.set_latest(
                        Minute { minute: last.minute, health: Some(merged) },
                    );
                } else {
                    // Minutes nobody observed are unknown, not healthy: back-filling them as
                    // good would invent uptime across a laptop sleep.
                    let wide: i128 = minute as i128 - last.minute as i128 - 1;
                    let missing: i64 = if wide > AVAILABILITY_MINUTES as i128 {
                        AVAILABILITY_MINUTES as i64
                    } else {
                        wide as i64
                    };
                    let ghost others = AppModel { availability: b, ..self@ };
                    let mut k: i64 = 0;
                    while k < missing
                        invariant
                            0 <= k <= missing <= AVAILABILITY_MINUTES,
                            missing == gap_len(last.minute as int, minute as int),
                            last.minute < minute,
                            b.items.len() > 0,
                            b.items.last() == last,
                            self@ == (AppModel {
                                availability: with_gap(
                                    b,
                                    minute as int,
                                    missing as int,
                                    k as int,
                                ),
                                ..others
                            }),
                        decreases missing - k,
                    {
                        self.availability.push(
                            Minute { minute: minute - (missing - k), health: None },
                        );
                        k = k + 1;
                    }
                    self.availability.push(Minute { minute, health: Some(health) });
                }
            },
            None => {
                self.availability.push(Minute { minute, health: Some(health) });
            },
        }
    }
}

/// One bucket per minute, and none left out: each bucket is the minute after the one before.
pub open spec fn one_bucket_per_minute(s: Seq<Minute>) -> bool {
    forall|i: int, j: int|
        0 <= i < j < s.len() ==> (#[trigger] s[j]).minute == (#[trigger] s[i]).minute + (j - i)
}

proof fn lemma_pushed_follows(b: Bounded<Minute>, m: Minute)
    requires
        one_bucket_per_minute(b.items),
        b.items.len() > 0 ==> b.items.last().minute + 1 == m.minute,
    ensures
        one_bucket_per_minute(b.pushed(m).items),
{
    let t = b.pushed(m).items;
    let shift = if b.items.len() == b.cap && b.cap > 0 {
        1int
    } else {
        0int
    };
    assert forall|i: int, j: int| 0 <= i < j < t.len() implies (#[trigger] t[j]).minute == (
    #[trigger] t[i]).minute + (j - i) by {
        let n = b.items.len();
        assert(t[i] == b.items[i + shift]);
        if j == t.len() - 1 {
            if i + shift < n - 1 {
                assert(b.items[n - 1].minute == b.items[i + shift].minute + (n - 1 - i - shift));
            }
        } else {
            assert(t[j] == b.items[j + shift]);
        }
    }
}

/// The unwatched minutes that were pushed last stand at the end, one after another.
proof fn lemma_gap(b: Bounded<Minute>, minute: int, n: int, k: int)
    requires
        b.wf(),
        0 <= k <= n,
        k <= b.cap,
        i64::MIN <= minute - n,
        minute <= i64::MAX,
    ensures
        ({
            let t = with_gap(b, minute, n, k);
            &&& t.cap == b.cap
            &&& t.wf()
            &&& t.items.len() >= k
            &&& t.items.len() >= b.items.len()
            &&& forall|i: int|
                t.items.len() - k <= i < t.items.len() ==> (#[trigger] t.items[i]).minute == minute
                    - n + k - (t.items.len() - i)
        }),
    decreases k,
{
    if k > 0 {
        lemma_gap(b, minute, n, k - 1);
        let u = with_gap(b, minute, n, k - 1);
        let t = with_gap(b, minute, n, k);
        assert forall|i: int| t.items.len() - k <= i < t.items.len() implies (
        #[trigger] t.items[i]).minute == minute - n + k - (t.items.len() - i) by {
            if i < t.items.len() - 1 {
                let shift = u.items.len() + 1 - t.items.len();
                assert(t.items[i] == u.items[i + shift]);
            }
        }
    }
}

/// Where the gap begins right after the last bucket, the buckets go on without a break.
proof fn lemma_gap_follows(b: Bounded<Minute>, minute: int, n: int, k: int)
    requires
        b.wf(),
        one_bucket_per_minute(b.items),
        b.items.len() > 0,
        b.items.last().minute + 1 == minute - n,
        0 <= k <= n,
        n <= b.cap,
        minute <= i64::MAX,
    ensures
        one_bucket_per_minute(with_gap(b, minute, n, k).items),
        with_gap(b, minute, n, k).items.len() > 0,
        with_gap(b, minute, n, k).items.last().minute == minute - n + k - 1,
    decreases k,
{
    if k > 0 {
        lemma_gap_follows(b, minute, n, k - 1);
        let m = Minute { minute: (minute - (n - (k - 1))) as i64, health: None };
        lemma_pushed_follows(with_gap(b, minute, n, k - 1), m);
    }
}

/// The strip holds one bucket per minute, each the minute after the one before, and no more
/// than it has room for, whatever instants it is advanced to.
pub proof fn law_strip_has_one_bucket_per_minute(b: Bounded<Minute>, now: Timestamp, h: Health)
    requires
        one_bucket_per_minute(b.items),
        b.wf(),
        b.cap == AVAILABILITY_MINUTES,
    ensures
        one_bucket_per_minute(ticked(b, now, h).items),
        ticked(b, now, h).wf(),
        ticked(b, now, h).cap == b.cap,
{
    let minute = minute_of(now);
    let m = Minute { minute: minute as i64, health: Some(h) };
    if b.items.len() == 0 {
        lemma_pushed_follows(b, m);
    } else if b.items.last().minute >= minute {
        let t = ticked(b, now, h).items;
        assert forall|i: int, j: int| 0 <= i < j < t.len() implies (#[trigger] t[j]).minute == (
        #[trigger] t[i]).minute + (j - i) by {
            assert(t[i].minute == b.items[i].minute);
            assert(t[j].minute == b.items[j].minute);
        }
    } else {
        let n = gap_len(b.items.last().minute as int, minute);
        let gap = with_gap(b, minute, n, n);
        lemma_gap(b, minute, n, n);
        if b.items.last().minute + 1 == minute - n {
            lemma_gap_follows(b, minute, n, n);
        } else {
            assert(gap.items.len() == n);
            assert forall|i: int, j: int| 0 <= i < j < n implies (
            #[trigger] gap.items[j]).minute == (#[trigger] gap.items[i]).minute + (j - i) by {}
        }
        lemma_pushed_follows(gap, m);
    }
}

/// Advancing the strip twice within one minute, in the same health, is advancing it once.
pub proof fn law_ticking_is_idempotent_within_a_minute(
    b: Bounded<Minute>,
    first: Timestamp,
    second: Timestamp,
    h: Health,
)
    requires
        minute_of(first) == minute_of(second),
    ensures
        ticked(ticked(b, first, h), second, h) == ticked(b, first, h),
{
    let once = ticked(b, first, h);
    assert(once.items.len() > 0);
    assert(once.items.last().minute >= minute_of(second));
    assert(once.items.drop_last().push(once.items.last()) =~= once.items);
    assert(ticked(once, second, h) =~= once);
}

/// A minute once seen in some health never looks better later on: the latest bucket is at
/// least as bad as the health it was last advanced in.
pub proof fn law_a_minute_never_regresses(b: Bounded<Minute>, now: Timestamp, h: Health)
    ensures
        ticked(b, now, h).items.last().health matches Some(seen) && crate::health::severity(seen)
            >= crate::health::severity(h),
{
}

/// Minute counts behind the availability strip's headline.
///
/// `unknown` minutes are left out of `uptime_pct` on purpose: the dashboard cannot vouch for
/// time it was not running, and counting it either way would be a guess.
#[derive(Debug, Clone, Copy, PartialEq, Eq, Structural)]
pub struct AvailabilityRollup {
    pub ok: usize,
    pub degraded: usize,
    pub down: usize,
    pub unknown: usize,
    pub uptime_pct: Reading,
}

/// How many minutes of the strip were seen in health `h` (or not seen at all).
pub open spec fn minutes_in(s: Seq<Minute>, h: Option<Health>) -> nat
    decreases s.len(),
{
    if s.len() == 0 {
        0
    } else {
        minutes_in(s.drop_last(), h) + (if s.last().health == h {
            1nat
        } else {
            0nat
        })
    }
}

/// The share of the watched minutes that were good; all of them where none was watched.
pub open spec fn uptime(s: Seq<Minute>) -> Reading {
    let good = minutes_in(s, Some(Health::Good));
    let known = good + minutes_in(s, Some(Health::Warn)) + minutes_in(s, Some(Health::Crit));
    if known > 0 {
        percent(good, known)
    } else {
        100_000_000_000
    }
}

impl AppState {
    /// Summarize the availability strip for the panel headline.
    pub fn availability_rollup(&self) -> (r: AvailabilityRollup)
        ensures
            r.ok == minutes_in(self@.availability.items, Some(Health::Good)),
            r.degraded == minutes_in(self@.availability.items, Some(Health::Warn)),
            r.down == minutes_in(self@.availability.items, Some(Health::Crit)),
            r.unknown == minutes_in(self@.availability.items, None),
            r.uptime_pct == uptime(self@.availability.items),
    {
        let mut r = AvailabilityRollup {
            ok: 0,
            degraded: 0,
            down: 0,
            unknown: 0,
            uptime_pct: 100_000_000_000,
        };
        let n: usize = self.availability.len();
        let ghost items = self@.availability.items;
        for i in 0..n
            invariant
                n == items.len(),
                items == self@.availability.items,
                r.ok == minutes_in(items.take(i as int), Some(Health::Good)),
                r.degraded == minutes_in(items.take(i as int), Some(Health::Warn)),
                r.down == minutes_in(items.take(i as int), Some(Health::Crit)),
                r.unknown == minutes_in(items.take(i as int), None),
                r.ok + r.degraded + r.down + r.unknown == i,
                r.uptime_pct == 100_000_000_000,
        {
            assert(items.take(i + 1).drop_last() =~= items.take(i as int));
            match self.availability.get(i) {
                Some(m) => {
                    match m.health {
                        Some(Health::Good) => {
                            r.ok = r.ok + 1;
                        },
                        Some(Health::Warn) => {
                            r.degraded = r.degraded + 1;
                        },
                        Some(Health::Crit) => {
                            r.down = r.down + 1;
                        },
                        None => {
                            r.unknown = r.unknown + 1;
                        },
                    }
                },
                None => {},
            }
        }
        assert(items.take(n as int) =~= items);
        let known: usize = r.ok + r.degraded + r.down;
        if known > 0 {
            r.uptime_pct = percentage(r.ok, known);
        }
        r
    }
}

/// Minutes nobody watched count neither for nor against the uptime.
pub proof fn law_unwatched_minutes_do_not_count(s: Seq<Minute>, minute: i64)
    ensures
        uptime(s.push(Minute { minute, health: None })) == uptime(s),
{
    assert(s.push(Minute { minute, health: None }).drop_last() =~= s);
}

/// The header is only as calm as its worst panel: no panel's health is worse than the
/// overall one, and the overall one is that of some panel.
pub proof fn law_overall_is_the_worst_panel(m: AppModel)
    ensures
        crate::health::is_worst_of(overall(m), panels(m)),
{
    crate::health::lemma_worst_in_is_worst(panels(m));
}

} // verus!
