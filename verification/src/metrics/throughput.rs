//! Throughput: the arithmetic of passive rates, capacity and bufferbloat measurements.

use vstd::prelude::*;

use crate::metrics::Sample;
use crate::units::{clamped, Reading, Span};

verus! {

/// Bytes per second, in billionths, rounded down; nothing over an interval that is not
/// positive.
pub open spec fn rate_of(bytes: u64, elapsed: Span) -> Reading {
    if elapsed <= 0 {
        0
    } else {
        clamped(bytes * 1_000_000_000_000_000_000 / elapsed as int) as i64
    }
}

/// Megabits per second, in billionths, rounded down; nothing over an interval that is not
/// positive.
pub open spec fn mbps_of(bytes: u64, elapsed: Span) -> Reading {
    if elapsed <= 0 {
        0
    } else {
        clamped(bytes * 8_000_000_000_000 / elapsed as int) as i64
    }
}

fn scaled_rate(bytes: u64, scale: u64, elapsed: Span) -> (r: Reading)
    requires
        elapsed > 0,
        scale <= 1_000_000_000_000_000_000,
    ensures
        r == clamped(bytes * scale / elapsed as int),
{
    proof {
        assert(0 <= bytes * scale <= u128::MAX) by (nonlinear_arith)
            requires
                bytes <= 0xffff_ffff_ffff_ffff,
                scale <= 1_000_000_000_000_000_000,
        ;
    }
    let q: u128 = bytes as u128 * scale as u128 / elapsed as u128;
    if q > i64::MAX as u128 {
        i64::MAX
    } else {
        q as i64
    }
}

/// Bytes observed over the time they were observed in, in bytes per second.
///
/// A non-positive interval reports 0 rather than infinity: two refreshes landing in the same
/// instant mean the rate is *unknown*, and a spike to infinity would poison the rolling
/// series it lands in for as long as the window is deep.
pub fn rate_bps(bytes: u64, elapsed: Span) -> (r: Reading)
    ensures
        r == rate_of(bytes, elapsed),
{
    if elapsed <= 0 {
        0
    } else {
        scaled_rate(bytes, 1_000_000_000_000_000_000, elapsed)
    }
}

/// Convert a completed download into a Mbps estimate. Guards against a zero/negative elapsed
/// time so a same-instant read can't divide by zero.
pub fn mbps_from_download(bytes: u64, elapsed: Span) -> (r: Reading)
    ensures
        r == mbps_of(bytes, elapsed),
{
    if elapsed <= 0 {
        0
    } else {
        scaled_rate(bytes, 8_000_000_000_000, elapsed)
    }
}

/// The bytes received (first) and sent (second) over all interfaces, held to a counter.
pub open spec fn byte_totals(v: Seq<(u64, u64)>) -> (int, int)
    decreases v.len(),
{
    if v.len() == 0 {
        (0, 0)
    } else {
        let t = byte_totals(v.drop_last());
        (t.0 + v.last().0, t.1 + v.last().1)
    }
}

/// The reading that a refresh of the byte counters yields: what all interfaces moved since
/// the last one, over the time that really passed.
pub fn throughput_sample(counters: &Vec<(u64, u64)>, elapsed: Span) -> (s: Sample)
    ensures
        s == (Sample::Throughput {
            rx_bps: rate_of(
                crate::metrics::iface::held_count(byte_totals(counters@).0) as u64,
                elapsed,
            ),
            tx_bps: rate_of(
                crate::metrics::iface::held_count(byte_totals(counters@).1) as u64,
                elapsed,
            ),
        }),
{
    let mut rx: u64 = 0;
    let mut tx: u64 = 0;
    for i in 0..counters.len()
        invariant
            rx == crate::metrics::iface::held_count(byte_totals(counters@.take(i as int)).0),
            tx == crate::metrics::iface::held_count(byte_totals(counters@.take(i as int)).1),
    {
        assert(counters@.take(i + 1).drop_last() =~= counters@.take(i as int));
        rx = rx.saturating_add(counters[i].0);
        tx = tx.saturating_add(counters[i].1);
    }
    assert(counters@.take(counters@.len() as int) =~= counters@);
    Sample::Throughput { rx_bps: rate_bps(rx, elapsed), tx_bps: rate_bps(tx, elapsed) }
}

/// The least of the round trips that came back.
pub open spec fn best_of(v: Seq<Option<Reading>>) -> Option<Reading>
    decreases v.len(),
{
    if v.len() == 0 {
        None
    } else {
        match (best_of(v.drop_last()), v.last()) {
            (Some(a), Some(b)) => Some(
                if b < a {
                    b
                } else {
                    a
                },
            ),
            (Some(a), None) => Some(a),
            (None, r) => r,
        }
    }
}

/// The greatest of the round trips that came back.
pub open spec fn worst_of_trips(v: Seq<Option<Reading>>) -> Option<Reading>
    decreases v.len(),
{
    if v.len() == 0 {
        None
    } else {
        match (worst_of_trips(v.drop_last()), v.last()) {
            (Some(a), Some(b)) => Some(
                if b > a {
                    b
                } else {
                    a
                },
            ),
            (Some(a), None) => Some(a),
            (None, r) => r,
        }
    }
}

fn best_trip(v: &Vec<Option<Reading>>) -> (r: Option<Reading>)
    ensures
        r == best_of(v@),
{
    let mut best: Option<Reading> = None;
    for i in 0..v.len()
        invariant
            best == best_of(v@.take(i as int)),
    {
        assert(v@.take(i + 1).drop_last() =~= v@.take(i as int));
        best = match (best, v[i]) {
            (Some(a), Some(b)) => Some(
                if b < a {
                    b
                } else {
                    a
                },
            ),
            (Some(a), None) => Some(a),
            (None, r) => r,
        };
    }
    assert(v@.take(v@.len() as int) =~= v@);
    best
}

fn worst_trip(v: &Vec<Option<Reading>>) -> (r: Option<Reading>)
    ensures
        r == worst_of_trips(v@),
{
    let mut worst: Option<Reading> = None;
    for i in 0..v.len()
        invariant
            worst == worst_of_trips(v@.take(i as int)),
    {
        assert(v@.take(i + 1).drop_last() =~= v@.take(i as int));
        worst = match (worst, v[i]) {
            (Some(a), Some(b)) => Some(
                if b > a {
                    b
                } else {
                    a
                },
            ),
            (Some(a), None) => Some(a),
            (None, r) => r,
        };
    }
    assert(v@.take(v@.len() as int) =~= v@);
    worst
}

/// The readings of one capacity probe.
pub open spec fn capacity_readings(
    mbps: Option<Reading>,
    idle: Seq<Option<Reading>>,
    loaded: Seq<Option<Reading>>,
) -> Seq<Sample> {
    let capacity = match mbps {
        Some(m) => seq![Sample::ThroughputProbe { mbps: m }],
        None => Seq::empty(),
    };
    let bloat = match (best_of(idle), worst_of_trips(loaded)) {
        (Some(i), Some(l)) => seq![Sample::Bufferbloat { idle_ms: i, loaded_ms: l }],
        _ => Seq::empty(),
    };
    capacity + bloat
}

/// The readings of one capacity probe: the download's Mbps where it completed, and the
/// bufferbloat where both a round trip before it (the best counts) and one during it (the
/// worst counts) came back.
pub fn capacity_samples(
    mbps: Option<Reading>,
    idle: &Vec<Option<Reading>>,
    loaded: &Vec<Option<Reading>>,
) -> (v: Vec<Sample>)
    ensures
        v@ == capacity_readings(mbps, idle@, loaded@),
{
    let mut v: Vec<Sample> = Vec::new();
    match mbps {
        Some(m) => v.push(Sample::ThroughputProbe { mbps: m }),
        None => {},
    }
    match (best_trip(idle), worst_trip(loaded)) {
        (Some(i), Some(l)) => v.push(Sample::Bufferbloat { idle_ms: i, loaded_ms: l }),
        _ => {},
    }
    assert(v@ =~= capacity_readings(mbps, idle@, loaded@));
    v
}

// ---------------------------------------------------------------------------------------
// Laws
// ---------------------------------------------------------------------------------------

/// `ms` came back among the round trips.
pub open spec fn came_back(v: Seq<Option<Reading>>, ms: Reading) -> bool {
    exists|i: int| 0 <= i < v.len() && #[trigger] v[i] == Some(ms)
}

proof fn lemma_extreme_trips(v: Seq<Option<Reading>>)
    ensures
        match best_of(v) {
            Some(b) => came_back(v, b) && forall|ms: Reading| #[trigger]
                came_back(v, ms) ==> b <= ms,
            None => forall|i: int| 0 <= i < v.len() ==> #[trigger] v[i] is None,
        },
        match worst_of_trips(v) {
            Some(w) => came_back(v, w) && forall|ms: Reading| #[trigger]
                came_back(v, ms) ==> ms <= w,
            None => forall|i: int| 0 <= i < v.len() ==> #[trigger] v[i] is None,
        },
    decreases v.len(),
{
    if v.len() > 0 {
        let init = v.drop_last();
        lemma_extreme_trips(init);
        assert(v[v.len() - 1] == v.last());
        assert forall|ms: Reading| came_back(v, ms) <==> (#[trigger] came_back(init, ms)
            || v.last() == Some(ms)) by {
            if came_back(v, ms) {
                let i = choose|i: int| 0 <= i < v.len() && #[trigger] v[i] == Some(ms);
                if i < init.len() {
                    assert(init[i] == Some(ms));
                }
            }
            if came_back(init, ms) {
                let i = choose|i: int| 0 <= i < init.len() && #[trigger] init[i] == Some(ms);
                assert(v[i] == Some(ms));
            }
        }
        assert forall|ms: Reading| #[trigger] came_back(v, ms) implies came_back(init, ms)
            || v.last() == Some(ms) by {}
        if best_of(v) is Some {
            assert(came_back(init, best_of(v)->0) || v.last() == best_of(v));
        }
        if worst_of_trips(v) is Some {
            assert(came_back(init, worst_of_trips(v)->0) || v.last() == worst_of_trips(v));
        }
        if best_of(v) is None {
            assert forall|i: int| 0 <= i < v.len() implies #[trigger] v[i] is None by {
                if i < init.len() {
                    assert(init[i] is None);
                }
            }
        }
        if worst_of_trips(v) is None {
            assert forall|i: int| 0 <= i < v.len() implies #[trigger] v[i] is None by {
                if i < init.len() {
                    assert(init[i] is None);
                }
            }
        }
    }
}

/// Bufferbloat sets the worst round trip under load against the best one before it. The
/// loaded time is one that came back and none that came back is greater; the idle time is one
/// that came back and none that came back is smaller. There is such a reading, once, exactly
/// where a round trip of each kind came back; and there is a capacity, the one measured,
/// exactly where the download completed.
pub proof fn law_bloat_is_the_worst_loaded_trip_against_the_best_idle_one(
    mbps: Option<Reading>,
    idle: Seq<Option<Reading>>,
    loaded: Seq<Option<Reading>>,
)
    ensures
        ({
            let out = capacity_readings(mbps, idle, loaded);
            let measured = (exists|a: Reading| came_back(idle, a)) && (exists|b: Reading|
                came_back(loaded, b));
            &&& forall|i: int|
                0 <= i < out.len() ==> match #[trigger] out[i] {
                    Sample::Bufferbloat { idle_ms, loaded_ms } => {
                        &&& i == out.len() - 1
                        &&& came_back(idle, idle_ms)
                        &&& came_back(loaded, loaded_ms)
                        &&& forall|ms: Reading| #[trigger] came_back(idle, ms) ==> idle_ms <= ms
                        &&& forall|ms: Reading| #[trigger]
                            came_back(loaded, ms) ==> ms <= loaded_ms
                    },
                    Sample::ThroughputProbe { mbps: m } => i == 0 && mbps == Some(m),
                    _ => false,
                }
            &&& measured <==> out.len() > 0 && out.last() is Bufferbloat
            &&& mbps is Some <==> out.len() > 0 && out[0] is ThroughputProbe
            &&& out.len() == (if mbps is Some {
                1int
            } else {
                0
            }) + (if measured {
                1int
            } else {
                0
            })
        }),
{
    lemma_extreme_trips(idle);
    lemma_extreme_trips(loaded);
    if exists|a: Reading| came_back(idle, a) {
        let a = choose|a: Reading| came_back(idle, a);
        assert(best_of(idle) is Some);
    }
    if exists|a: Reading| came_back(loaded, a) {
        let a = choose|a: Reading| came_back(loaded, a);
        assert(worst_of_trips(loaded) is Some);
    }
}

/// A rate is what it says: over a positive time, the rate times the time is the bytes moved,
/// up to the rounding of the last place, as long as it fits a reading. Over no time at all
/// nothing is claimed.
pub proof fn law_a_rate_times_its_time_is_the_bytes(bytes: u64, elapsed: Span)
    ensures
        elapsed <= 0 ==> rate_of(bytes, elapsed) == 0 && mbps_of(bytes, elapsed) == 0,
        elapsed > 0 && rate_of(bytes, elapsed) < i64::MAX ==> {
            // Bytes per second in billionths, times nanoseconds.
            &&& rate_of(bytes, elapsed) * elapsed <= bytes * 1_000_000_000_000_000_000
            &&& bytes * 1_000_000_000_000_000_000 < (rate_of(bytes, elapsed) + 1) * elapsed
        },
        elapsed > 0 && mbps_of(bytes, elapsed) < i64::MAX ==> {
            // Megabits per second in billionths: eight bits a byte, a million bits a megabit.
            &&& mbps_of(bytes, elapsed) * elapsed * 1_000_000 <= bytes * 8
                * 1_000_000_000_000_000_000
            &&& bytes * 8 * 1_000_000_000_000_000_000 < (mbps_of(bytes, elapsed) + 1) * elapsed
                * 1_000_000
        },
        rate_of(bytes, elapsed) >= 0,
        mbps_of(bytes, elapsed) >= 0,
{
    if elapsed > 0 {
        let e = elapsed as int;
        let a = bytes * 1_000_000_000_000_000_000;
        let b = bytes * 8_000_000_000_000;
        vstd::arithmetic::div_mod::lemma_fundamental_div_mod(a, e);
        vstd::arithmetic::div_mod::lemma_fundamental_div_mod(b, e);
        vstd::arithmetic::div_mod::lemma_div_pos_is_pos(a, e);
        vstd::arithmetic::div_mod::lemma_div_pos_is_pos(b, e);
        let q = a / e;
        let p = b / e;
        assert(e * q == q * e) by (nonlinear_arith);
        assert(e * p == p * e) by (nonlinear_arith);
        assert((q + 1) * e == q * e + e) by (nonlinear_arith);
        assert((p + 1) * e == p * e + e) by (nonlinear_arith);
    }
}

/// More bytes in the same time is no slower, and the same bytes in more time no faster.
pub proof fn law_rates_follow_bytes_and_time(a: u64, b: u64, s: Span, t: Span)
    requires
        a <= b,
        0 < s <= t,
    ensures
        rate_of(a, t) <= rate_of(b, s),
        mbps_of(a, t) <= mbps_of(b, s),
{
    let x = a * 1_000_000_000_000_000_000;
    let y = b * 1_000_000_000_000_000_000;
    vstd::arithmetic::div_mod::lemma_div_is_ordered(x, y, t as int);
    vstd::arithmetic::div_mod::lemma_div_is_ordered_by_denominator(y, s as int, t as int);
    let x = a * 8_000_000_000_000;
    let y = b * 8_000_000_000_000;
    vstd::arithmetic::div_mod::lemma_div_is_ordered(x, y, t as int);
    vstd::arithmetic::div_mod::lemma_div_is_ordered_by_denominator(y, s as int, t as int);
}

/// Every interface counts once: one more adds what it received to what was received and what
/// it sent to what was sent, and the order of the interfaces does not matter.
pub proof fn law_every_interface_counts_once(v: Seq<(u64, u64)>, w: Seq<(u64, u64)>, c: (u64, u64))
    ensures
        byte_totals(Seq::empty()) == (0int, 0int),
        byte_totals(v.push(c)).0 == byte_totals(v).0 + c.0,
        byte_totals(v.push(c)).1 == byte_totals(v).1 + c.1,
        byte_totals(v + w) == byte_totals(w + v),
{
    assert(v.push(c).drop_last() =~= v);
    lemma_totals_add(v, w);
    lemma_totals_add(w, v);
}

proof fn lemma_totals_add(v: Seq<(u64, u64)>, w: Seq<(u64, u64)>)
    ensures
        byte_totals(v + w).0 == byte_totals(v).0 + byte_totals(w).0,
        byte_totals(v + w).1 == byte_totals(v).1 + byte_totals(w).1,
    decreases w.len(),
{
    if w.len() == 0 {
        assert(v + w =~= v);
    } else {
        lemma_totals_add(v, w.drop_last());
        assert((v + w).drop_last() =~= v + w.drop_last());
    }
}

} // verus!
