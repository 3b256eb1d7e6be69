//! Health classification for metrics.
//!
//! [`Health`] is the three-level severity used everywhere (borders, header rollup, incident
//! severity). [`Thresholds`] classifies a reading against warn/crit bounds, [`Debouncer`]
//! smooths a stream of classifications and [`FlapDetector`] spots a metric that keeps
//! changing its mind.

use std::collections::VecDeque;

use vstd::prelude::*;

use crate::units::{Reading, Span, Timestamp};

verus! {

/// Health state of a single metric, ordered `Good < Warn < Crit` so the worst state of a
/// set is simply the maximum.
#[derive(Debug, Clone, Copy, PartialEq, Eq, PartialOrd, Ord, Structural)]
pub enum Health {
    Good,
    Warn,
    Crit,
}

/// Severity as a number; the order of [`Health`].
pub open spec fn severity(h: Health) -> int {
    match h {
        Health::Good => 0,
        Health::Warn => 1,
        Health::Crit => 2,
    }
}

/// The more severe of two states.
pub open spec fn worse(a: Health, b: Health) -> Health {
    if severity(a) >= severity(b) {
        a
    } else {
        b
    }
}

/// `h` is the maximum of `states`, and [`Health::Good`] where there are none.
pub open spec fn is_worst_of(h: Health, states: Seq<Health>) -> bool {
    &&& forall|i: int| 0 <= i < states.len() ==> severity(#[trigger] states[i]) <= severity(h)
    &&& h == Health::Good || states.contains(h)
}

/// The maximum of `states`, folded from [`Health::Good`].
pub open spec fn worst_in(states: Seq<Health>) -> Health
    decreases states.len(),
{
    if states.len() == 0 {
        Health::Good
    } else {
        worse(worst_in(states.drop_last()), states.last())
    }
}

impl Health {
    /// Severity as a number, best first.
    pub fn level(self) -> (n: u8)
        ensures
            n == severity(self),
    {
        match self {
            Health::Good => 0,
            Health::Warn => 1,
            Health::Crit => 2,
        }
    }

    /// The more severe of two states.
    pub fn worst(self, other: Health) -> (h: Health)
        ensures
            h == worse(self, other),
            severity(h) >= severity(self),
            severity(h) >= severity(other),
            h == self || h == other,
    {
        if self.level() >= other.level() {
            self
        } else {
            other
        }
    }

    /// Roll a set of states up into the single worst one. An empty set is [`Health::Good`].
    pub fn worst_of(states: &[Health]) -> (h: Health)
        ensures
            is_worst_of(h, states@),
            h == worst_in(states@),
    {
        let mut h = Health::Good;
        for i in 0..states.len()
            invariant
                h == worst_in(states@.take(i as int)),
        {
            assert(states@.take(i + 1).drop_last() =~= states@.take(i as int));
            h = h.worst(states[i]);
        }
        assert(states@.take(states@.len() as int) =~= states@);
        proof {
            lemma_worst_in_is_worst(states@);
        }
        h
    }
}

/// [`worst_in`] is the maximum of its argument.
pub proof fn lemma_worst_in_is_worst(states: Seq<Health>)
    ensures
        is_worst_of(worst_in(states), states),
    decreases states.len(),
{
    if states.len() > 0 {
        let init = states.drop_last();
        lemma_worst_in_is_worst(init);
        let h = worst_in(states);
        assert forall|i: int| 0 <= i < states.len() implies severity(#[trigger] states[i])
            <= severity(h) by {
            if i < init.len() {
                assert(states[i] == init[i]);
            }
        }
        if h != Health::Good {
            if h == states.last() {
                assert(states[states.len() - 1] == h);
            } else {
                let k = choose|k: int| 0 <= k < init.len() && init[k] == h;
                assert(states[k] == h);
            }
        }
    }
}

/// Taking the worse state is commutative, associative and idempotent, with
/// [`Health::Good`] as its unit: a rollup does not depend on the order or the grouping of
/// what it rolls up.
pub proof fn law_worst_is_a_semilattice(a: Health, b: Health, c: Health)
    ensures
        worse(a, b) == worse(b, a),
        worse(worse(a, b), c) == worse(a, worse(b, c)),
        worse(a, a) == a,
        worse(Health::Good, a) == a,
{
}

/// Rolling up two groups and taking the worse result is rolling up both at once.
pub proof fn law_worst_of_splits(a: Seq<Health>, b: Seq<Health>)
    ensures
        worst_in(a + b) == worse(worst_in(a), worst_in(b)),
    decreases b.len(),
{
    if b.len() == 0 {
        assert(a + b =~= a);
    } else {
        assert((a + b).drop_last() =~= a + b.drop_last());
        law_worst_of_splits(a, b.drop_last());
    }
}

/// Which direction of a metric's value is "bad".
#[derive(Debug, Clone, Copy, PartialEq, Eq, Structural)]
pub enum Direction {
    /// Larger is worse: latency, jitter, loss, DNS resolution time.
    HigherIsWorse,
    /// Smaller is worse: throughput, Wi-Fi RSSI.
    LowerIsWorse,
}

/// Warn/crit thresholds for a scalar metric.
#[derive(Debug, Clone, Copy, PartialEq, Eq, Structural)]
pub struct Thresholds {
    pub warn: Reading,
    pub crit: Reading,
    pub direction: Direction,
}

impl Thresholds {
    /// `value` has reached `bound`, on the bad side of it.
    pub open spec fn reaches(self, value: int, bound: int) -> bool {
        match self.direction {
            Direction::HigherIsWorse => value >= bound,
            Direction::LowerIsWorse => value <= bound,
        }
    }

    /// The health of `value`: the bounds are inclusive and `crit` is looked at first.
    pub open spec fn health_of(self, value: int) -> Health {
        if self.reaches(value, self.crit as int) {
            Health::Crit
        } else if self.reaches(value, self.warn as int) {
            Health::Warn
        } else {
            Health::Good
        }
    }

    /// Thresholds where crossing upward is bad.
    pub fn higher_is_worse(warn: Reading, crit: Reading) -> (t: Thresholds)
        ensures
            t == (Thresholds { warn, crit, direction: Direction::HigherIsWorse }),
    {
        Thresholds { warn, crit, direction: Direction::HigherIsWorse }
    }

    /// Thresholds where dropping is bad.
    pub fn lower_is_worse(warn: Reading, crit: Reading) -> (t: Thresholds)
        ensures
            t == (Thresholds { warn, crit, direction: Direction::LowerIsWorse }),
    {
        Thresholds { warn, crit, direction: Direction::LowerIsWorse }
    }

    /// Classify `value`. Bounds are **inclusive**: reaching `warn` is [`Health::Warn`],
    /// reaching `crit` is [`Health::Crit`].
    pub fn evaluate(&self, value: Reading) -> (h: Health)
        ensures
            h == self.health_of(value as int),
    {
        match self.direction {
            Direction::HigherIsWorse => {
                if value >= self.crit {
                    Health::Crit
                } else if value >= self.warn {
                    Health::Warn
                } else {
                    Health::Good
                }
            },
            Direction::LowerIsWorse => {
                if value <= self.crit {
                    Health::Crit
                } else if value <= self.warn {
                    Health::Warn
                } else {
                    Health::Good
                }
            },
        }
    }
}

/// A reading that moves in the bad direction never looks healthier.
pub proof fn law_classification_is_monotone(t: Thresholds, better: Reading, worse_value: Reading)
    requires
        t.reaches(worse_value as int, better as int),
    ensures
        severity(t.health_of(better as int)) <= severity(t.health_of(worse_value as int)),
{
}

/// Debounces a stream of raw [`Health`] classifications so the *reported* state only
/// changes once a differing value has persisted for a minimum **duration**.
///
/// Time, not a sample count: a count means something different on every probe. Three
/// consecutive samples is 3 seconds of ping but 45 seconds of Wi-Fi polling, so one knob
/// could never mean the same thing twice.
///
/// The two dwells are asymmetric on purpose. Tripping is fast, because a fault you are
/// slow to report is a fault you notice from a user complaint instead. Clearing is slow,
/// because a link that dips healthy for a moment mid-flap is not fixed.
#[derive(Debug, Clone, Copy, PartialEq, Eq, Structural)]
pub struct Debouncer {
    pub state: Health,
    /// The change being waited on, if any.
    pub pending: Option<Pending>,
    pub trip_after: Span,
    pub clear_after: Span,
}

/// A differing state that has not persisted for long enough yet, and when its run began.
#[derive(Debug, Clone, Copy, PartialEq, Eq, Structural)]
pub struct Pending {
    pub candidate: Health,
    pub since: Timestamp,
}

/// The start of the run that a differing reading at `now` belongs to: a reading on the
/// same side of the committed state continues the run, any other begins one at `now`. A
/// clock set back never leaves the start in the future.
pub open spec fn run_start(d: Debouncer, now: Timestamp, raw: Health) -> Timestamp {
    match d.pending {
        Some(p) if (severity(p.candidate) > severity(d.state)) == (severity(raw) > severity(
            d.state,
        )) => if p.since <= now {
            p.since
        } else {
            now
        },
        _ => now,
    }
}

/// How long `raw` has to persist before `d` reports it.
pub open spec fn dwell(d: Debouncer, raw: Health) -> Span {
    if severity(raw) > severity(d.state) {
        d.trip_after
    } else {
        d.clear_after
    }
}

/// `d` reports `raw` on seeing it at `now`.
pub open spec fn commits(d: Debouncer, now: Timestamp, raw: Health) -> bool {
    raw != d.state && now - run_start(d, now, raw) >= dwell(d, raw)
}

/// The debouncer after a raw classification at `now`.
pub open spec fn debounced(d: Debouncer, now: Timestamp, raw: Health) -> Debouncer {
    if raw == d.state {
        Debouncer { pending: None, ..d }
    } else if commits(d, now, raw) {
        Debouncer { state: raw, pending: None, ..d }
    } else {
        Debouncer { pending: Some(Pending { candidate: raw, since: run_start(d, now, raw) }), ..d }
    }
}

/// A debouncer at rest in `state`.
pub open spec fn settled(state: Health, trip_after: Span, clear_after: Span) -> Debouncer {
    Debouncer { state, pending: None, trip_after, clear_after }
}

impl Debouncer {
    /// Start in `initial`, requiring a worse state to persist for `trip_after` and a
    /// better one for `clear_after` before it is committed.
    pub fn new(initial: Health, trip_after: Span, clear_after: Span) -> (d: Debouncer)
        ensures
            d == settled(initial, trip_after, clear_after),
    {
        Debouncer { state: initial, pending: None, trip_after, clear_after }
    }

    /// The currently reported (committed) state.
    pub fn current(&self) -> (h: Health)
        ensures
            h == self.state,
    {
        self.state
    }

    /// Feed one raw classification observed at `now`. Returns `Some(new_state)` on a
    /// confirmed transition, otherwise `None`.
    pub fn update(&mut self, now: Timestamp, raw: Health) -> (change: Option<Health>)
        ensures
            *final(self) == debounced(*old(self), now, raw),
            change == (if commits(*old(self), now, raw) {
                Some(raw)
            } else {
                None
            }),
    {
        if raw == self.state {
            // Back to (or still at) the committed state: abandon any pending change.
            self.pending = None;
            return None;
        }
        let worsening = raw.level() > self.state.level();
        let since: Timestamp = match self.pending {
            // Still on the same side of the committed state: a fault that deepened, or a
            // recovery that stalled part-way. The run began when the state first differed,
            // so getting worse (or less bad) must not buy a fresh grace period.
            Some(p) => if (p.candidate.level() > self.state.level()) == worsening {
                // A clock corrected backwards would otherwise strand `since` in the
                // future, where no later sample could ever satisfy the dwell.
                if p.since <= now {
                    p.since
                } else {
                    now
                }
            } else {
                now
            },
            None => now,
        };
        let dwell: Span = if worsening {
            self.trip_after
        } else {
            self.clear_after
        };
        if now as i128 - since as i128 >= dwell as i128 {
            self.state = raw;
            self.pending = None;
            Some(raw)
        } else {
            self.pending = Some(Pending { candidate: raw, since });
            None
        }
    }
}

/// A committed state only ever changes once the differing run has lasted its dwell, and a
/// reading equal to the committed state abandons whatever was pending.
pub proof fn law_debouncer_never_commits_early(d: Debouncer, now: Timestamp, raw: Health)
    ensures
        debounced(d, now, raw).state != d.state ==> debounced(d, now, raw).state == raw && now
            - run_start(d, now, raw) >= dwell(d, raw),
        raw == d.state ==> debounced(d, now, raw) == settled(d.state, d.trip_after, d.clear_after),
{
}

/// With zero dwells every differing reading is reported at once.
pub proof fn law_zero_dwell_commits_at_once(d: Debouncer, now: Timestamp, raw: Health)
    requires
        d.trip_after == 0,
        d.clear_after == 0,
        raw != d.state,
    ensures
        commits(d, now, raw),
{
}

/// A fault that deepens (or a recovery that stalls part-way) keeps the start of its run: two
/// readings on the same side of the committed state, in time order, measure the dwell from
/// the first.
pub proof fn law_same_side_keeps_the_clock(
    d: Debouncer,
    first: Timestamp,
    a: Health,
    second: Timestamp,
    b: Health,
)
    requires
        d.pending is None,
        a != d.state,
        b != d.state,
        (severity(a) > severity(d.state)) == (severity(b) > severity(d.state)),
        first <= second,
        !commits(d, first, a),
    ensures
        run_start(debounced(d, first, a), second, b) == first,
{
}

/// A run that changes side starts over.
pub proof fn law_changing_side_restarts_the_clock(
    d: Debouncer,
    first: Timestamp,
    a: Health,
    second: Timestamp,
    b: Health,
)
    requires
        a != d.state,
        b != d.state,
        (severity(a) > severity(d.state)) != (severity(b) > severity(d.state)),
        !commits(d, first, a),
    ensures
        run_start(debounced(d, first, a), second, b) == second,
{
}

/// The debouncer after a run of readings.
pub open spec fn debounced_all(d: Debouncer, v: Seq<(Timestamp, Health)>) -> Debouncer
    decreases v.len(),
{
    if v.len() == 0 {
        d
    } else {
        debounced(debounced_all(d, v.drop_last()), v.last().0, v.last().1)
    }
}

/// None of the readings changes what is reported.
pub open spec fn stays_put(d: Debouncer, v: Seq<(Timestamp, Health)>) -> bool {
    forall|k: int| 0 <= k <= v.len() ==> (#[trigger] debounced_all(d, v.take(k))).state == d.state
}

/// No reading of the run was taken before `from`.
pub open spec fn not_before(v: Seq<(Timestamp, Health)>, from: Timestamp) -> bool {
    forall|i: int| 0 <= i < v.len() ==> from <= (#[trigger] v[i]).0
}

proof fn lemma_runs_start_late(d: Debouncer, from: Timestamp, v: Seq<(Timestamp, Health)>)
    requires
        d.pending is None,
        not_before(v, from),
        stays_put(d, v),
    ensures
        debounced_all(d, v).state == d.state,
        debounced_all(d, v).trip_after == d.trip_after,
        debounced_all(d, v).clear_after == d.clear_after,
        debounced_all(d, v).pending matches Some(p) ==> from <= p.since,
    decreases v.len(),
{
    assert(v.take(v.len() as int) =~= v);
    if v.len() > 0 {
        let init = v.drop_last();
        assert forall|i: int| 0 <= i < init.len() implies from <= (#[trigger] init[i]).0 by {
            assert(init[i] == v[i]);
        }
        assert forall|k: int| 0 <= k <= init.len() implies (#[trigger] debounced_all(
            d,
            init.take(k),
        )).state == d.state by {
            assert(init.take(k) =~= v.take(k));
        }
        lemma_runs_start_late(d, from, init);
        assert(v[v.len() - 1] == v.last());
    }
}

/// A change takes its dwell: once a debouncer is at rest, whatever readings come in, it
/// reports nothing new before the dwell of the change has passed.
pub proof fn law_a_change_takes_its_dwell(
    d: Debouncer,
    from: Timestamp,
    v: Seq<(Timestamp, Health)>,
    now: Timestamp,
    raw: Health,
)
    requires
        d.pending is None,
        not_before(v, from),
        from <= now,
        stays_put(d, v),
        commits(debounced_all(d, v), now, raw),
    ensures
        now - from >= dwell(d, raw),
{
    lemma_runs_start_late(d, from, v);
}

/// A metric cannot break, recover and break again faster than the two dwells together: from
/// one fault being reported to the next one, with a recovery in between, at least that much
/// time passes.
pub proof fn law_a_second_fault_takes_both_dwells(
    fault: Debouncer,
    first: Timestamp,
    v: Seq<(Timestamp, Health)>,
    recovery: Timestamp,
    w: Seq<(Timestamp, Health)>,
    again: Timestamp,
    raw: Health,
)
    requires
        fault.pending is None,
        fault.state != Health::Good,
        raw != Health::Good,
        not_before(v, first),
        first <= recovery,
        stays_put(fault, v),
        commits(debounced_all(fault, v), recovery, Health::Good),
        not_before(w, recovery),
        recovery <= again,
        stays_put(settled(Health::Good, fault.trip_after, fault.clear_after), w),
        commits(
            debounced_all(settled(Health::Good, fault.trip_after, fault.clear_after), w),
            again,
            raw,
        ),
    ensures
        again - first >= fault.clear_after + fault.trip_after,
{
    law_a_change_takes_its_dwell(fault, first, v, recovery, Health::Good);
    law_a_change_takes_its_dwell(
        settled(Health::Good, fault.trip_after, fault.clear_after),
        recovery,
        w,
        again,
        raw,
    );
}

/// Spots a metric that keeps changing its mind.
///
/// The [`Debouncer`] stops one bad reading from raising an alert, but it has nothing to say
/// about a link that genuinely trips and clears every ten seconds. That produces a stream of
/// perfectly correct incidents which together convey one fact, "this is unstable", and
/// bury everything else in the feed while doing it.
///
/// Once `flaps` committed transitions land inside `window`, the detector says so, and the
/// caller reports that instead of the individual swings. It settles again when the window
/// empties, which needs the passage of time, not a transition.
pub struct FlapDetector {
    /// Transition instants inside the window, oldest first.
    transitions: VecDeque<Timestamp>,
    flaps: usize,
    window: Span,
    flapping: bool,
}

/// What a [`FlapDetector`] holds.
#[verifier::ext_equal]
pub ghost struct Flaps {
    pub transitions: Seq<Timestamp>,
    pub flaps: nat,
    pub window: int,
    pub flapping: bool,
}

impl View for FlapDetector {
    type V = Flaps;

    closed spec fn view(&self) -> Flaps {
        Flaps {
            transitions: self.transitions@,
            flaps: self.flaps as nat,
            window: self.window as int,
            flapping: self.flapping,
        }
    }
}

/// `s` without the leading instants that lie before `cutoff`.
pub open spec fn unexpired(s: Seq<Timestamp>, cutoff: int) -> Seq<Timestamp>
    decreases s.len(),
{
    if s.len() > 0 && s[0] < cutoff {
        unexpired(s.drop_first(), cutoff)
    } else {
        s
    }
}

/// The detector after an observation at `now`: enough transitions in the window start the
/// flapping, and only a window without any ends it.
pub open spec fn observed(f: Flaps, now: Timestamp, transitioned: bool) -> Flaps {
    let seen = if transitioned {
        f.transitions.push(now)
    } else {
        f.transitions
    };
    let kept = unexpired(seen, now - f.window);
    Flaps {
        transitions: kept,
        flapping: f.flaps >= 2 && if f.flapping {
            kept.len() > 0
        } else {
            kept.len() >= f.flaps
        },
        ..f
    }
}

impl FlapDetector {
    /// Report flapping once `flaps` transitions fall within `window`. A `flaps` under 2 is
    /// treated as *disabled*: "every transition is a flap" would silence the whole feed.
    pub fn new(flaps: usize, window: Span) -> (f: FlapDetector)
        ensures
            f@ == (Flaps {
                transitions: Seq::<Timestamp>::empty(),
                flaps: flaps as nat,
                window: window as int,
                flapping: false,
            }),
    {
        FlapDetector { transitions: VecDeque::new(), flaps, window, flapping: false }
    }

    /// Whether the metric is currently considered unstable.
    pub fn is_flapping(&self) -> (b: bool)
        ensures
            b == self@.flapping,
    {
        self.flapping
    }

    /// Transitions currently inside the window: what the "is flapping" incident reports.
    pub fn recent(&self) -> (n: usize)
        ensures
            n == self@.transitions.len(),
    {
        self.transitions.len()
    }

    /// Record whether a transition happened at `now`, expiring any that have aged out.
    ///
    /// Returns `Some(true)` the moment the metric starts flapping and `Some(false)` the
    /// moment it settles; `None` when the verdict is unchanged. Callers should pass
    /// `false` on every fold so a quiet metric can settle.
    pub fn observe(&mut self, now: Timestamp, transitioned: bool) -> (change: Option<bool>)
        ensures
            final(self)@ == observed(old(self)@, now, transitioned),
            change == (if final(self)@.flapping == old(self)@.flapping {
                None
            } else {
                Some(final(self)@.flapping)
            }),
    {
        if transitioned {
            self.transitions.push_back(now);
        }
        let ghost seen = self.transitions@;
        let cutoff: i128 = now as i128 - self.window as i128;
        while self.transitions.len() > 0 && (self.transitions[0] as i128) < cutoff
            invariant
                unexpired(self.transitions@, cutoff as int) == unexpired(seen, cutoff as int),
                self.flaps == old(self).flaps,
                self.window == old(self).window,
                self.flapping == old(self).flapping,
            decreases self.transitions@.len(),
        {
            let ghost before = self.transitions@;
            self.transitions.pop_front();
            assert(self.transitions@ =~= before.drop_first());
        }
        let flapping = self.flaps >= 2 && if self.flapping {
            self.transitions.len() > 0
        } else {
            self.transitions.len() >= self.flaps
        };
        if flapping == self.flapping {
            return None;
        }
        self.flapping = flapping;
        Some(flapping)
    }
}

/// A threshold under two transitions disables the detector: it never reports flapping.
pub proof fn law_flap_detection_below_two_is_disabled(f: Flaps, now: Timestamp, transitioned: bool)
    requires
        f.flaps < 2,
    ensures
        !observed(f, now, transitioned).flapping,
{
}

/// A metric that has gone quiet settles: once every recorded transition lies before the
/// window, an observation empties the record and the metric no longer counts as flapping.
pub proof fn law_quiet_metric_settles(f: Flaps, now: Timestamp)
    requires
        forall|i: int|
            0 <= i < f.transitions.len() ==> (#[trigger] f.transitions[i]) < now - f.window,
    ensures
        observed(f, now, false).transitions.len() == 0,
        !observed(f, now, false).flapping,
{
    lemma_all_expire(f.transitions, now - f.window);
}

/// Flapping lasts until the window empties: while a recorded transition is inside it, the
/// metric has not settled, however few are left.
pub proof fn law_flapping_lasts_until_the_window_empties(
    f: Flaps,
    now: Timestamp,
    transitioned: bool,
    i: int,
)
    requires
        f.flapping,
        f.flaps >= 2,
        0 <= i < f.transitions.len(),
        f.transitions[i] >= now - f.window,
    ensures
        observed(f, now, transitioned).flapping,
{
    let seen = if transitioned {
        f.transitions.push(now)
    } else {
        f.transitions
    };
    assert(seen[i] == f.transitions[i]);
    lemma_recent_are_kept(seen, now - f.window, i);
}

proof fn lemma_recent_are_kept(s: Seq<Timestamp>, cutoff: int, i: int)
    requires
        0 <= i < s.len(),
        s[i] >= cutoff,
    ensures
        unexpired(s, cutoff).len() > 0,
    decreases s.len(),
{
    if s[0] < cutoff {
        assert(s.drop_first()[i - 1] == s[i]);
        lemma_recent_are_kept(s.drop_first(), cutoff, i - 1);
    }
}

proof fn lemma_all_expire(s: Seq<Timestamp>, cutoff: int)
    requires
        forall|i: int| 0 <= i < s.len() ==> (#[trigger] s[i]) < cutoff,
    ensures
        unexpired(s, cutoff).len() == 0,
    decreases s.len(),
{
    if s.len() > 0 {
        assert forall|i: int| 0 <= i < s.drop_first().len() implies (#[trigger] s.drop_first()[i])
            < cutoff by {
            assert(s.drop_first()[i] == s[i + 1]);
        }
        lemma_all_expire(s.drop_first(), cutoff);
    }
}

// ---------------------------------------------------------------------------------------
// What the verdicts mean
// ---------------------------------------------------------------------------------------

/// Critical is worse than warning, and warning than good; the worse of two is one of them,
/// and no milder than either.
pub proof fn law_critical_is_worst(a: Health, b: Health)
    ensures
        severity(Health::Good) < severity(Health::Warn) < severity(Health::Crit),
        worse(a, Health::Crit) == Health::Crit,
        worse(Health::Good, Health::Warn) == Health::Warn,
        worse(a, b) == Health::Good <==> a == Health::Good && b == Health::Good,
        worse(a, b) == Health::Crit <==> a == Health::Crit || b == Health::Crit,
{
}

/// One bad state makes the rollup bad: it is critical where some state is, good where all
/// are, and a warning otherwise.
pub proof fn law_a_rollup_is_its_worst_state(states: Seq<Health>)
    ensures
        worst_in(states) == Health::Crit <==> exists|i: int|
            0 <= i < states.len() && #[trigger] states[i] == Health::Crit,
        worst_in(states) == Health::Good <==> forall|i: int|
            0 <= i < states.len() ==> #[trigger] states[i] == Health::Good,
{
    lemma_worst_in_is_worst(states);
    if worst_in(states) != Health::Good {
        let i = choose|i: int| 0 <= i < states.len() && states[i] == worst_in(states);
        assert(states[i] == worst_in(states));
    }
}

/// A bound is reached on touching it. Where more is worse a reading is critical from the
/// critical bound up, and at least a warning from the warning bound up; where less is worse,
/// from the bounds down. A reading short of both bounds is good.
pub proof fn law_bounds_are_inclusive(t: Thresholds, v: Reading)
    ensures
        t.direction == Direction::HigherIsWorse ==> {
            &&& v >= t.crit <==> t.health_of(v as int) == Health::Crit
            &&& v >= t.warn ==> t.health_of(v as int) != Health::Good
            &&& v < t.crit && v >= t.warn ==> t.health_of(v as int) == Health::Warn
            &&& v < t.crit && v < t.warn ==> t.health_of(v as int) == Health::Good
        },
        t.direction == Direction::LowerIsWorse ==> {
            &&& v <= t.crit <==> t.health_of(v as int) == Health::Crit
            &&& v <= t.warn ==> t.health_of(v as int) != Health::Good
            &&& v > t.crit && v <= t.warn ==> t.health_of(v as int) == Health::Warn
            &&& v > t.crit && v > t.warn ==> t.health_of(v as int) == Health::Good
        },
{
}

/// From rest, a state that is seen twice is reported at the second sight exactly when it has
/// lasted long enough: the trip dwell where it is worse than what is reported, the clear dwell
/// where it is better. Until then the old state stands.
pub proof fn law_a_state_is_reported_once_it_has_lasted(
    d: Debouncer,
    first: Timestamp,
    second: Timestamp,
    raw: Health,
)
    requires
        d.pending is None,
        raw != d.state,
        first <= second,
        d.trip_after > 0,
        d.clear_after > 0,
    ensures
        ({
            let once = debounced(d, first, raw);
            let twice = debounced(once, second, raw);
            let worsening = severity(raw) > severity(d.state);
            &&& once.state == d.state
            &&& worsening && second - first >= d.trip_after ==> twice.state == raw
            &&& worsening && second - first < d.trip_after ==> twice.state == d.state
            &&& !worsening && second - first >= d.clear_after ==> twice.state == raw
            &&& !worsening && second - first < d.clear_after ==> twice.state == d.state
        }),
{
}

/// A relapse starts the wait over: a reading that agrees with what is reported, between two
/// that differ from it, leaves the later one to wait from its own instant.
pub proof fn law_an_interruption_starts_the_wait_over(
    d: Debouncer,
    first: Timestamp,
    between: Timestamp,
    second: Timestamp,
    raw: Health,
)
    requires
        raw != d.state,
        !commits(d, first, raw),
        d.trip_after > 0,
        d.clear_after > 0,
    ensures
        ({
            let relapsed = debounced(debounced(d, first, raw), between, d.state);
            &&& relapsed.state == d.state
            &&& debounced(relapsed, second, raw).state == d.state
        }),
{
}

/// The dwells of a debouncer never change, and it never reports a state that was not fed.
pub proof fn law_a_debouncer_reports_only_what_it_saw(d: Debouncer, now: Timestamp, raw: Health)
    ensures
        debounced(d, now, raw).trip_after == d.trip_after,
        debounced(d, now, raw).clear_after == d.clear_after,
        debounced(d, now, raw).state == d.state || debounced(d, now, raw).state == raw,
        debounced(d, now, raw).state == d.state <==> raw == d.state || !commits(d, now, raw),
{
}

/// The instants ascend.
pub open spec fn in_time_order(s: Seq<Timestamp>) -> bool {
    forall|i: int, j: int| 0 <= i <= j < s.len() ==> #[trigger] s[i] <= #[trigger] s[j]
}

/// How many of the instants lie at `cutoff` or after it.
pub open spec fn since(s: Seq<Timestamp>, cutoff: int) -> nat
    decreases s.len(),
{
    if s.len() == 0 {
        0
    } else {
        since(s.drop_last(), cutoff) + (if s.last() >= cutoff {
            1nat
        } else {
            0nat
        })
    }
}

proof fn lemma_since_first(s: Seq<Timestamp>, cutoff: int)
    requires
        s.len() > 0,
    ensures
        since(s, cutoff) == since(s.drop_first(), cutoff) + (if s[0] >= cutoff {
            1nat
        } else {
            0nat
        }),
    decreases s.len(),
{
    if s.len() == 1 {
        assert(s.drop_last() =~= Seq::<Timestamp>::empty());
        assert(s.drop_first() =~= Seq::<Timestamp>::empty());
    } else {
        lemma_since_first(s.drop_last(), cutoff);
        assert(s.drop_last().drop_first() =~= s.drop_first().drop_last());
    }
}

proof fn lemma_unexpired_counts(s: Seq<Timestamp>, cutoff: int)
    requires
        in_time_order(s),
    ensures
        unexpired(s, cutoff).len() == since(s, cutoff),
        in_time_order(unexpired(s, cutoff)),
        forall|i: int| 0 <= i < unexpired(s, cutoff).len() ==> #[trigger] unexpired(s, cutoff)[i]
            >= cutoff,
    decreases s.len(),
{
    if s.len() > 0 {
        if s[0] < cutoff {
            lemma_since_first(s, cutoff);
            lemma_unexpired_counts(s.drop_first(), cutoff);
        } else {
            lemma_all_since(s, cutoff);
        }
    }
}

proof fn lemma_all_since(s: Seq<Timestamp>, cutoff: int)
    requires
        forall|i: int| 0 <= i < s.len() ==> #[trigger] s[i] >= cutoff,
    ensures
        since(s, cutoff) == s.len(),
    decreases s.len(),
{
    if s.len() > 0 {
        assert forall|i: int| 0 <= i < s.drop_last().len() implies #[trigger] s.drop_last()[i]
            >= cutoff by {
            assert(s.drop_last()[i] == s[i]);
        }
        lemma_all_since(s.drop_last(), cutoff);
    }
}

/// A metric that was steady flaps from the moment on which as many swings as it takes lie in
/// the window that ends now, the one just seen among them, and not before; and what stays
/// recorded are exactly the swings in the window.
pub proof fn law_enough_swings_in_the_window_are_flapping(
    f: Flaps,
    now: Timestamp,
    transitioned: bool,
)
    requires
        in_time_order(f.transitions),
        f.transitions.len() > 0 ==> f.transitions.last() <= now,
        f.window >= 0,
    ensures
        ({
            let swings = since(f.transitions, now - f.window) + (if transitioned {
                1nat
            } else {
                0nat
            });
            let after = observed(f, now, transitioned);
            &&& after.transitions.len() == swings
            &&& f.flaps >= 2 && !f.flapping ==> (after.flapping <==> swings >= f.flaps)
            &&& f.flaps >= 2 && f.flapping ==> (after.flapping <==> swings > 0)
            &&& in_time_order(after.transitions)
            &&& transitioned ==> after.transitions.last() == now
            &&& after.flaps == f.flaps && after.window == f.window
        }),
{
    let seen = if transitioned {
        f.transitions.push(now)
    } else {
        f.transitions
    };
    assert(f.transitions.push(now).drop_last() =~= f.transitions);
    lemma_unexpired_counts(seen, now - f.window);
    if transitioned {
        lemma_unexpired_last(seen, now - f.window);
    }
}

proof fn lemma_unexpired_last(s: Seq<Timestamp>, cutoff: int)
    requires
        s.len() > 0,
        s.last() >= cutoff,
    ensures
        unexpired(s, cutoff).len() > 0,
        unexpired(s, cutoff).last() == s.last(),
    decreases s.len(),
{
    if s[0] < cutoff {
        lemma_unexpired_last(s.drop_first(), cutoff);
    }
}

} // verus!
