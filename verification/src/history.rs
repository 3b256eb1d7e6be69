//! Bounded history buffers and rolling statistics.
//!
//! [`RingBuffer`] is a fixed-capacity FIFO (oldest evicted on overflow). [`Series`] wraps
//! one for numeric metrics and exposes rolling min/avg/max/p95/jitter for the charts and
//! stat sidebars. [`LossWindow`] tracks answered/unanswered probes to derive packet loss.

use std::collections::vec_deque::Iter;
use std::collections::VecDeque;

use vstd::prelude::*;
use vstd::relations::{sorted_by, total_ordering};
use vstd::std_specs::iter::IteratorSpec;

use crate::units::{clamped, Reading};

verus! {

/// The contents of a bounded buffer, oldest first, and how many it may hold.
#[verifier::ext_equal]
pub ghost struct Bounded<T> {
    pub items: Seq<T>,
    pub cap: nat,
}

impl<T> Bounded<T> {
    /// An empty buffer for `cap` items, one at least.
    pub open spec fn fresh(cap: usize) -> Bounded<T> {
        Bounded {
            items: Seq::empty(),
            cap: if cap == 0 {
                1
            } else {
                cap as nat
            },
        }
    }

    /// The buffer after pushing `v`: at capacity the oldest item goes.
    pub open spec fn pushed(self, v: T) -> Bounded<T> {
        Bounded {
            items: if self.items.len() == self.cap && self.cap > 0 {
                self.items.drop_first().push(v)
            } else {
                self.items.push(v)
            },
            cap: self.cap,
        }
    }

    /// The buffer holds no more than it may, and may hold something.
    pub open spec fn wf(self) -> bool {
        1 <= self.cap && self.items.len() <= self.cap
    }
}

/// Fixed-capacity FIFO ring buffer; pushing at capacity evicts the oldest element.
pub struct RingBuffer<T> {
    buf: VecDeque<T>,
    cap: usize,
}

impl<T> View for RingBuffer<T> {
    type V = Bounded<T>;

    closed spec fn view(&self) -> Bounded<T> {
        Bounded { items: self.buf@, cap: self.cap as nat }
    }
}

impl<T> RingBuffer<T> {
    /// Create a buffer holding at most `cap` items (clamped to a minimum of 1).
    pub fn new(cap: usize) -> (r: RingBuffer<T>)
        ensures
            r@ == Bounded::<T>::fresh(cap),
    {
        RingBuffer {
            buf: VecDeque::new(),
            cap: if cap == 0 {
                1
            } else {
                cap
            },
        }
    }

    /// Append `v`, evicting the oldest element if already at capacity.
    pub fn push(&mut self, v: T)
        ensures
            final(self)@ == old(self)@.pushed(v),
            old(self)@.wf() ==> final(self)@.wf(),
    {
        if self.buf.len() == self.cap {
            self.buf.pop_front();
        }
        self.buf.push_back(v);
    }

    pub fn len(&self) -> (n: usize)
        ensures
            n == self@.items.len(),
    {
        self.buf.len()
    }

    pub fn is_empty(&self) -> (b: bool)
        ensures
            b == (self@.items.len() == 0),
    {
        self.buf.len() == 0
    }

    pub fn capacity(&self) -> (n: usize)
        ensures
            n == self@.cap,
    {
        self.cap
    }

    /// The most recently pushed element, if any.
    pub fn latest(&self) -> (v: Option<&T>)
        ensures
            v == (if self@.items.len() == 0 {
                None
            } else {
                Some(&self@.items.last())
            }),
    {
        let n: usize = self.buf.len();
        if n == 0 {
            None
        } else {
            Some(&self.buf[n - 1])
        }
    }

    /// Replace the most recently pushed element.
    pub fn set_latest(&mut self, v: T)
        ensures
            final(self)@.cap == old(self)@.cap,
            final(self)@.items == (if old(self)@.items.len() == 0 {
                old(self)@.items
            } else {
                old(self)@.items.drop_last().push(v)
            }),
    {
        if self.buf.len() > 0 {
            self.buf.pop_back();
            self.buf.push_back(v);
        }
    }

    /// The element at position `i`, oldest first.
    pub fn get(&self, i: usize) -> (v: Option<&T>)
        ensures
            v == (if i < self@.items.len() {
                Some(&self@.items[i as int])
            } else {
                None
            }),
    {
        if i < self.buf.len() {
            Some(&self.buf[i])
        } else {
            None
        }
    }

    /// Iterate oldest to newest.
    pub fn iter(&self) -> (it: Iter<'_, T>)
        ensures
            it.remaining() == self@.items.as_ref(),
    {
        self.buf.iter()
    }
}

/// Pushing `v` keeps the last `cap` items in order: an item leaves only when a newer one
/// takes its place, and then it is the oldest.
pub proof fn law_ring_keeps_the_newest<T>(b: Bounded<T>, v: T)
    requires
        b.wf(),
    ensures
        b.pushed(v).wf(),
        b.pushed(v).items.last() == v,
        b.items.len() < b.cap ==> b.pushed(v).items == b.items.push(v),
        b.items.len() == b.cap ==> b.pushed(v).items == b.items.push(v).drop_first(),
{
    if b.items.len() == b.cap {
        assert(b.items.drop_first().push(v) =~= b.items.push(v).drop_first());
    }
}

// ---------------------------------------------------------------------------------------
// Statistics
// ---------------------------------------------------------------------------------------

/// The sum of `s`.
pub open spec fn total(s: Seq<i64>) -> int
    decreases s.len(),
{
    if s.len() == 0 {
        0
    } else {
        total(s.drop_last()) + s.last()
    }
}

/// The distance between two readings.
pub open spec fn distance(a: int, b: int) -> int {
    if a >= b {
        a - b
    } else {
        b - a
    }
}

/// The sum of the distances between neighbours.
pub open spec fn travel(s: Seq<i64>) -> int
    decreases s.len(),
{
    if s.len() < 2 {
        0
    } else {
        travel(s.drop_last()) + distance(s[s.len() - 1] as int, s[s.len() - 2] as int)
    }
}

/// `m` is the least element of `s`.
pub open spec fn is_min(m: i64, s: Seq<i64>) -> bool {
    s.contains(m) && forall|i: int| 0 <= i < s.len() ==> m <= #[trigger] s[i]
}

/// `m` is the greatest element of `s`.
pub open spec fn is_max(m: i64, s: Seq<i64>) -> bool {
    s.contains(m) && forall|i: int| 0 <= i < s.len() ==> #[trigger] s[i] <= m
}

/// The least element, where there is one.
pub open spec fn min_of(s: Seq<i64>) -> Option<i64>
    decreases s.len(),
{
    if s.len() == 0 {
        None
    } else {
        match min_of(s.drop_last()) {
            Some(m) => Some(
                if s.last() < m {
                    s.last()
                } else {
                    m
                },
            ),
            None => Some(s.last()),
        }
    }
}

/// The greatest element, where there is one.
pub open spec fn max_of(s: Seq<i64>) -> Option<i64>
    decreases s.len(),
{
    if s.len() == 0 {
        None
    } else {
        match max_of(s.drop_last()) {
            Some(m) => Some(
                if s.last() > m {
                    s.last()
                } else {
                    m
                },
            ),
            None => Some(s.last()),
        }
    }
}

/// [`min_of`] is the least element and [`max_of`] the greatest.
pub proof fn law_extremes_are_elements(s: Seq<i64>)
    requires
        s.len() > 0,
    ensures
        min_of(s) matches Some(m) && is_min(m, s),
        max_of(s) matches Some(m) && is_max(m, s),
    decreases s.len(),
{
    let init = s.drop_last();
    assert(s[s.len() - 1] == s.last());
    if init.len() > 0 {
        law_extremes_are_elements(init);
        let lo = min_of(init)->0;
        let hi = max_of(init)->0;
        let i = choose|i: int| 0 <= i < init.len() && init[i] == lo;
        let j = choose|j: int| 0 <= j < init.len() && init[j] == hi;
        assert(s[i] == lo);
        assert(s[j] == hi);
        assert forall|k: int| 0 <= k < s.len() implies min_of(s)->0 <= #[trigger] s[k] && s[k]
            <= max_of(s)->0 by {
            if k < init.len() {
                assert(init[k] == s[k]);
            }
        }
    }
}

/// The numeric order, as a relation.
pub open spec fn ascending() -> spec_fn(i64, i64) -> bool {
    |a: i64, b: i64| a <= b
}

/// `s` in ascending order.
pub open spec fn sorted(s: Seq<i64>) -> Seq<i64> {
    s.sort_by(ascending())
}

/// The mean of a series, rounded down to a billionth.
pub open spec fn mean_of(s: Seq<i64>) -> Option<i64> {
    if s.len() == 0 {
        None
    } else {
        Some((total(s) / s.len() as int) as i64)
    }
}

/// The mean distance between neighbours, rounded down to a billionth and held to the range
/// of a reading; two readings at least.
pub open spec fn jitter_of(s: Seq<i64>) -> Option<i64> {
    if s.len() < 2 {
        None
    } else {
        Some(clamped(travel(s) / (s.len() - 1)) as i64)
    }
}

/// The position of the nearest-rank percentile in a sorted series of `n` readings, where `p`
/// is in billionths of a percent: `ceil(p / 100 * n)` counted from 1, held to the series.
pub open spec fn rank_of(p: int, n: int) -> int {
    let rank = (p * n + 99_999_999_999) / 100_000_000_000;
    if rank < 1 {
        0
    } else if rank > n {
        n - 1
    } else {
        rank - 1
    }
}

/// The nearest-rank percentile of a series.
pub open spec fn percentile_of(s: Seq<i64>, p: int) -> Option<i64> {
    if s.len() == 0 {
        None
    } else {
        Some(sorted(s)[rank_of(p, s.len() as int)])
    }
}

/// The last element, where there is one.
pub open spec fn last_of(s: Seq<i64>) -> Option<i64> {
    if s.len() == 0 {
        None
    } else {
        Some(s.last())
    }
}

proof fn lemma_total_bounds(s: Seq<i64>)
    ensures
        i64::MIN * s.len() <= total(s) <= i64::MAX * s.len(),
    decreases s.len(),
{
    if s.len() > 0 {
        lemma_total_bounds(s.drop_last());
        assert(i64::MIN * s.len() == i64::MIN * (s.len() - 1) + i64::MIN) by (nonlinear_arith);
        assert(i64::MAX * s.len() == i64::MAX * (s.len() - 1) + i64::MAX) by (nonlinear_arith);
    }
}

proof fn lemma_travel_bounds(s: Seq<i64>)
    requires
        s.len() > 0,
    ensures
        0 <= travel(s) <= u64::MAX * (s.len() - 1),
    decreases s.len(),
{
    if s.len() >= 2 {
        lemma_travel_bounds(s.drop_last());
        assert(u64::MAX * (s.len() - 1) == u64::MAX * (s.len() - 2) + u64::MAX)
            by (nonlinear_arith);
    }
}

proof fn lemma_sorted(s: Seq<i64>)
    ensures
        sorted(s).len() == s.len(),
        forall|v: i64| #[trigger] sorted(s).contains(v) ==> s.contains(v),
        forall|i: int, j: int|
            0 <= i < j < s.len() ==> (#[trigger] sorted(s)[i]) <= (#[trigger] sorted(s)[j]),
{
    s.lemma_sort_by_ensures(ascending());
    vstd::seq_lib::to_multiset_len(s);
    vstd::seq_lib::to_multiset_len(sorted(s));
    let t = sorted(s);
    assert forall|i: int, j: int| 0 <= i < j < t.len() implies (#[trigger] t[i]) <= (
    #[trigger] t[j]) by {
        assert(ascending()(t[i], t[j]));
    }
}

/// A percentile is one of the readings, and a higher percentile is never a lower reading.
pub proof fn law_percentiles_are_readings_in_order(s: Seq<i64>, p: int, q: int)
    requires
        s.len() > 0,
        p <= q,
    ensures
        percentile_of(s, p) matches Some(v) && s.contains(v),
        percentile_of(s, p)->0 <= percentile_of(s, q)->0,
{
    let n = s.len() as int;
    lemma_sorted(s);
    assert(p * n <= q * n) by (nonlinear_arith)
        requires
            p <= q,
            n > 0,
    ;
    let i = rank_of(p, n);
    let j = rank_of(q, n);
    assert(0 <= i <= j < n);
    assert(sorted(s).contains(sorted(s)[i]));
}

/// The mean lies between the extremes.
pub proof fn law_the_mean_lies_between_the_extremes(s: Seq<i64>)
    requires
        s.len() > 0,
    ensures
        min_of(s)->0 <= total(s) / s.len() as int <= max_of(s)->0,
{
    law_extremes_are_elements(s);
    let n = s.len() as int;
    let lo = min_of(s)->0 as int;
    let hi = max_of(s)->0 as int;
    lemma_total_between(s, lo, hi);
    let t = total(s);
    assert(lo <= t / n <= hi) by (nonlinear_arith)
        requires
            n > 0,
            lo * n <= t <= hi * n,
    ;
}

proof fn lemma_total_between(s: Seq<i64>, lo: int, hi: int)
    requires
        forall|i: int| 0 <= i < s.len() ==> lo <= #[trigger] s[i] <= hi,
    ensures
        lo * s.len() <= total(s) <= hi * s.len(),
    decreases s.len(),
{
    if s.len() > 0 {
        let init = s.drop_last();
        assert forall|i: int| 0 <= i < init.len() implies lo <= #[trigger] init[i] <= hi by {
            assert(init[i] == s[i]);
        }
        lemma_total_between(init, lo, hi);
        assert(s[s.len() - 1] == s.last());
        assert(lo * s.len() == lo * (s.len() - 1) + lo) by (nonlinear_arith);
        assert(hi * s.len() == hi * (s.len() - 1) + hi) by (nonlinear_arith);
    } else {
        assert(lo * 0 == 0 && hi * 0 == 0);
    }
}

/// A rolling window of readings with summary statistics.
pub struct Series {
    ring: RingBuffer<Reading>,
}

impl View for Series {
    type V = Bounded<Reading>;

    closed spec fn view(&self) -> Bounded<Reading> {
        self.ring@
    }
}

impl Series {
    pub fn new(cap: usize) -> (s: Series)
        ensures
            s@ == Bounded::<Reading>::fresh(cap),
    {
        Series { ring: RingBuffer::new(cap) }
    }

    pub fn push(&mut self, v: Reading)
        ensures
            final(self)@ == old(self)@.pushed(v),
    {
        self.ring.push(v);
    }

    pub fn len(&self) -> (n: usize)
        ensures
            n == self@.items.len(),
    {
        self.ring.len()
    }

    pub fn is_empty(&self) -> (b: bool)
        ensures
            b == (self@.items.len() == 0),
    {
        self.ring.is_empty()
    }

    pub fn latest(&self) -> (v: Option<Reading>)
        ensures
            v == last_of(self@.items),
    {
        match self.ring.latest() {
            Some(v) => Some(*v),
            None => None,
        }
    }

    /// Values oldest to newest (for feeding charts).
    pub fn values(&self) -> (v: Vec<Reading>)
        ensures
            v@ == self@.items,
    {
        let n: usize = self.ring.len();
        let mut v: Vec<Reading> = Vec::new();
        for i in 0..n
            invariant
                n == self@.items.len(),
                v@ == self@.items.take(i as int),
        {
            match self.ring.get(i) {
                Some(x) => {
                    v.push(*x);
                    assert(self@.items.take(i + 1) =~= self@.items.take(i as int).push(
                        self@.items[i as int],
                    ));
                },
                None => {},
            }
        }
        assert(self@.items.take(n as int) =~= self@.items);
        v
    }

    pub fn min(&self) -> (m: Option<Reading>)
        ensures
            m == min_of(self@.items),
    {
        let v = self.values();
        let n: usize = v.len();
        if n == 0 {
            return None;
        }
        let mut m: Reading = v[0];
        assert(v@.take(1).drop_last() =~= Seq::empty());
        assert(min_of(v@.take(1).drop_last()) is None);
        for i in 1..n
            invariant
                n == v@.len(),
                min_of(v@.take(i as int)) == Some(m),
        {
            assert(v@.take(i + 1).drop_last() =~= v@.take(i as int));
            if v[i] < m {
                m = v[i];
            }
        }
        assert(v@.take(n as int) =~= v@);
        Some(m)
    }

    pub fn max(&self) -> (m: Option<Reading>)
        ensures
            m == max_of(self@.items),
    {
        let v = self.values();
        let n: usize = v.len();
        if n == 0 {
            return None;
        }
        let mut m: Reading = v[0];
        assert(v@.take(1).drop_last() =~= Seq::empty());
        assert(max_of(v@.take(1).drop_last()) is None);
        for i in 1..n
            invariant
                n == v@.len(),
                max_of(v@.take(i as int)) == Some(m),
        {
            assert(v@.take(i + 1).drop_last() =~= v@.take(i as int));
            if v[i] > m {
                m = v[i];
            }
        }
        assert(v@.take(n as int) =~= v@);
        Some(m)
    }

    pub fn mean(&self) -> (m: Option<Reading>)
        ensures
            m == mean_of(self@.items),
    {
        let v = self.values();
        let n: usize = v.len();
        if n == 0 {
            return None;
        }
        let mut sum: i128 = 0;
        for i in 0..n
            invariant
                n == v@.len(),
                sum == total(v@.take(i as int)),
        {
            assert(v@.take(i + 1).drop_last() =~= v@.take(i as int));
            proof {
                lemma_total_bounds(v@.take(i + 1));
                lemma_wide_product(i + 1);
            }
            sum = sum + v[i] as i128;
        }
        assert(v@.take(n as int) =~= v@);
        proof {
            lemma_total_bounds(v@);
            lemma_mean_in_range(total(v@), n as int);
            lemma_wide_product(n as int);
        }
        Some(floor_div(sum, n as i128) as i64)
    }

    /// Nearest-rank percentile, `p` in billionths of a percent. `None` if empty.
    pub fn percentile(&self, p: Reading) -> (v: Option<Reading>)
        ensures
            v == percentile_of(self@.items, p as int),
    {
        let n: usize = self.ring.len();
        if n == 0 {
            return None;
        }
        let mut values = self.values();
        sort(&mut values);
        proof {
            assert(i64::MIN * n <= p * n <= i64::MAX * n) by (nonlinear_arith)
                requires
                    i64::MIN <= p <= i64::MAX,
                    n >= 0,
            ;
            lemma_wide_product(n as int);
        }
        let scaled: i128 = p as i128 * n as i128;
        let rank: i128 = floor_div(scaled + 99_999_999_999, 100_000_000_000);
        let idx: usize = if rank < 1 {
            0
        } else if rank > n as i128 {
            n - 1
        } else {
            (rank - 1) as usize
        };
        Some(values[idx])
    }

    /// Convenience for the 95th percentile.
    pub fn p95(&self) -> (v: Option<Reading>)
        ensures
            v == percentile_of(self@.items, 95_000_000_000),
    {
        self.percentile(95_000_000_000)
    }

    /// Mean absolute difference of consecutive samples. `None` with fewer than 2 samples.
    pub fn jitter(&self) -> (j: Option<Reading>)
        ensures
            j == jitter_of(self@.items),
    {
        let v = self.values();
        let n: usize = v.len();
        if n < 2 {
            return None;
        }
        let mut sum: u128 = 0;
        for i in 1..n
            invariant
                n == v@.len(),
                sum == travel(v@.take(i as int)),
        {
            assert(v@.take(i + 1).drop_last() =~= v@.take(i as int));
            proof {
                lemma_travel_bounds(v@.take(i + 1));
                lemma_wide_product(i + 1);
            }
            let step: u64 = apart(v[i], v[i - 1]);
            sum = sum + step as u128;
        }
        assert(v@.take(n as int) =~= v@);
        proof {
            lemma_travel_bounds(v@);
        }
        let mean: u128 = sum / ((n - 1) as u128);
        if mean > i64::MAX as u128 {
            Some(i64::MAX)
        } else {
            Some(mean as i64)
        }
    }
}

/// Products of a 64-bit reading and a length fit in 128 bits.
proof fn lemma_wide_product(n: int)
    requires
        0 <= n <= usize::MAX,
    ensures
        i64::MIN * n >= i128::MIN,
        i64::MAX * n + 99_999_999_999 <= i128::MAX,
        n > 0 ==> 0 <= u64::MAX * (n - 1) <= u128::MAX,
{
    assert(i64::MIN * n >= i128::MIN) by (nonlinear_arith)
        requires
            0 <= n <= 0xffff_ffff_ffff_ffff,
    ;
    assert(i64::MAX * n + 99_999_999_999 <= i128::MAX) by (nonlinear_arith)
        requires
            0 <= n <= 0xffff_ffff_ffff_ffff,
    ;
    if n > 0 {
        assert(0 <= u64::MAX * (n - 1) <= u128::MAX) by (nonlinear_arith)
            requires
                0 < n <= 0xffff_ffff_ffff_ffff,
        ;
    }
}

proof fn lemma_mean_in_range(sum: int, n: int)
    requires
        n > 0,
        i64::MIN * n <= sum <= i64::MAX * n,
    ensures
        i64::MIN <= sum / n <= i64::MAX,
{
    assert(i64::MIN <= sum / n <= i64::MAX) by (nonlinear_arith)
        requires
            n > 0,
            i64::MIN * n <= sum <= i64::MAX * n,
    ;
}

/// `a / b` rounded down.
pub fn floor_div(a: i128, b: i128) -> (q: i128)
    requires
        b > 0,
    ensures
        q == a / b,
{
    if a >= 0 {
        a / b
    } else {
        // -(a + 1) is at least 0 and cannot overflow.
        let m: i128 = -(a + 1);
        let k: i128 = m / b;
        proof {
            assert(a / b == -k - 1) by (nonlinear_arith)
                requires
                    b > 0,
                    m == -(a + 1),
                    m >= 0,
                    k == m / b,
            ;
            assert(k <= m) by (nonlinear_arith)
                requires
                    b > 0,
                    m >= 0,
                    k == m / b,
            ;
        }
        -k - 1
    }
}

/// The distance between two readings.
fn apart(a: Reading, b: Reading) -> (d: u64)
    ensures
        d == distance(a as int, b as int),
{
    if a >= b {
        (a as i128 - b as i128) as u64
    } else {
        (b as i128 - a as i128) as u64
    }
}

/// Sort readings in ascending order.
pub fn sort(v: &mut Vec<Reading>)
    ensures
        final(v)@ == sorted(old(v)@),
        final(v)@.len() == old(v)@.len(),
{
    let ghost before = v@;
    let n: usize = v.len();
    let mut i: usize = 0;
    while i < n
        invariant
            n == v@.len(),
            i <= n,
            v@.to_multiset() == before.to_multiset(),
            forall|a: int, b: int| 0 <= a <= b < i ==> v@[a] <= v@[b],
        decreases n - i,
    {
        let mut j: usize = i;
        while j > 0 && v[j - 1] > v[j]
            invariant
                n == v@.len(),
                j <= i < n,
                v@.to_multiset() == before.to_multiset(),
                forall|a: int, b: int|
                    0 <= a <= b <= i && a != j && b != j ==> v@[a] <= v@[b],
                forall|b: int| j < b <= i ==> v@[j as int] <= v@[b],
            decreases j,
        {
            let a: Reading = v[j - 1];
            let b: Reading = v[j];
            let ghost s0 = v@;
            v.set(j - 1, b);
            v.set(j, a);
            proof {
                lemma_swap_keeps_multiset(s0, j - 1, j as int);
                assert(v@ =~= s0.update(j - 1, s0[j as int]).update(j as int, s0[j - 1]));
            }
            j = j - 1;
        }
        assert forall|a: int, b: int| 0 <= a <= b < i + 1 implies v@[a] <= v@[b] by {
            if a == j || b == j {
                if b == j && a != j {
                    assert(v@[a] <= v@[j - 1]);
                }
            }
        }
        i = i + 1;
    }
    proof {
        assert(total_ordering(ascending())) by {
            assert(ascending()(0, 0));
        }
        assert(sorted_by(v@, ascending()));
        before.lemma_sort_by_ensures(ascending());
        vstd::seq_lib::lemma_sorted_unique(v@, sorted(before), ascending());
    }
}

proof fn lemma_swap_keeps_multiset(s: Seq<i64>, i: int, j: int)
    requires
        0 <= i < s.len(),
        0 <= j < s.len(),
        i != j,
    ensures
        s.update(i, s[j]).update(j, s[i]).to_multiset() == s.to_multiset(),
{
    let t = s.update(i, s[j]);
    broadcast use vstd::seq_lib::group_to_multiset_ensures;
    vstd::seq_lib::to_multiset_update(s, i, s[j]);
    vstd::seq_lib::to_multiset_update(t, j, s[i]);
    assert(t[j] == s[j]);
    assert(s.to_multiset().count(s[i]) > 0);
    assert(t.update(j, s[i]).to_multiset() =~= s.to_multiset());
}

// ---------------------------------------------------------------------------------------
// Loss
// ---------------------------------------------------------------------------------------

/// How many of the outcomes are unanswered.
pub open spec fn unanswered(s: Seq<bool>) -> nat
    decreases s.len(),
{
    if s.len() == 0 {
        0
    } else {
        unanswered(s.drop_last()) + (if s.last() {
            0nat
        } else {
            1nat
        })
    }
}

/// `part` of `whole` as a percentage, rounded down to a billionth of a percent.
pub open spec fn percent(part: nat, whole: nat) -> Reading {
    (part * 100_000_000_000 / whole) as i64
}

/// The loss of a window of outcomes: none in an empty one.
pub open spec fn loss_of(s: Seq<bool>) -> Reading {
    if s.len() == 0 {
        0
    } else {
        percent(unanswered(s), s.len())
    }
}

/// No more can be unanswered than there are.
pub proof fn lemma_unanswered_bound(s: Seq<bool>)
    ensures
        unanswered(s) <= s.len(),
    decreases s.len(),
{
    if s.len() > 0 {
        lemma_unanswered_bound(s.drop_last());
    }
}

pub proof fn lemma_percent_bounds(part: nat, whole: nat)
    requires
        part <= whole,
        whole > 0,
    ensures
        0 <= part * 100_000_000_000 / whole <= 100_000_000_000,
{
    assert(0 <= part * 100_000_000_000 / whole <= 100_000_000_000) by (nonlinear_arith)
        requires
            part <= whole,
            whole > 0,
    ;
}

/// `part` of `whole` as a percentage.
pub fn percentage(part: usize, whole: usize) -> (p: Reading)
    requires
        part <= whole,
        whole > 0,
    ensures
        p == percent(part as nat, whole as nat),
        0 <= p <= 100_000_000_000,
{
    proof {
        lemma_percent_bounds(part as nat, whole as nat);
        assert(part * 100_000_000_000 <= u128::MAX) by (nonlinear_arith)
            requires
                part <= 0xffff_ffff_ffff_ffff,
        ;
    }
    (part as u128 * 100_000_000_000 / whole as u128) as i64
}

/// Loss is a percentage: between none and all, none where every probe was answered and all
/// where none was.
pub proof fn law_loss_is_a_percentage(s: Seq<bool>)
    ensures
        0 <= loss_of(s) <= 100_000_000_000,
        (forall|i: int| 0 <= i < s.len() ==> s[i]) ==> loss_of(s) == 0,
        s.len() > 0 && (forall|i: int| 0 <= i < s.len() ==> !s[i]) ==> loss_of(s)
            == 100_000_000_000,
{
    lemma_unanswered_bound(s);
    if s.len() > 0 {
        lemma_percent_bounds(unanswered(s), s.len());
    }
    if forall|i: int| 0 <= i < s.len() ==> s[i] {
        lemma_all_answered(s);
    }
    if s.len() > 0 && (forall|i: int| 0 <= i < s.len() ==> !s[i]) {
        lemma_none_answered(s);
        let n = s.len();
        assert(n * 100_000_000_000 / n == 100_000_000_000) by (nonlinear_arith)
            requires
                n > 0,
        ;
    }
}

proof fn lemma_all_answered(s: Seq<bool>)
    requires
        forall|i: int| 0 <= i < s.len() ==> s[i],
    ensures
        unanswered(s) == 0,
    decreases s.len(),
{
    if s.len() > 0 {
        lemma_all_answered(s.drop_last());
    }
}

proof fn lemma_none_answered(s: Seq<bool>)
    requires
        forall|i: int| 0 <= i < s.len() ==> !s[i],
    ensures
        unanswered(s) == s.len(),
    decreases s.len(),
{
    if s.len() > 0 {
        lemma_none_answered(s.drop_last());
    }
}

/// Rolling window of probe outcomes used to compute packet loss.
pub struct LossWindow {
    ring: RingBuffer<bool>,
}

impl View for LossWindow {
    type V = Bounded<bool>;

    closed spec fn view(&self) -> Bounded<bool> {
        self.ring@
    }
}

impl LossWindow {
    pub fn new(cap: usize) -> (w: LossWindow)
        ensures
            w@ == Bounded::<bool>::fresh(cap),
    {
        LossWindow { ring: RingBuffer::new(cap) }
    }

    /// Record one probe: `true` if a reply was received, `false` if it timed out.
    pub fn record(&mut self, answered: bool)
        ensures
            final(self)@ == old(self)@.pushed(answered),
    {
        self.ring.push(answered);
    }

    pub fn len(&self) -> (n: usize)
        ensures
            n == self@.items.len(),
    {
        self.ring.len()
    }

    pub fn is_empty(&self) -> (b: bool)
        ensures
            b == (self@.items.len() == 0),
    {
        self.ring.is_empty()
    }

    /// Percentage of unanswered probes in the window. An empty window has none.
    pub fn loss_pct(&self) -> (p: Reading)
        ensures
            p == loss_of(self@.items),
            0 <= p <= 100_000_000_000,
    {
        let n: usize = self.ring.len();
        if n == 0 {
            return 0;
        }
        let mut lost: usize = 0;
        for i in 0..n
            invariant
                n == self@.items.len(),
                lost == unanswered(self@.items.take(i as int)),
                lost <= i,
        {
            assert(self@.items.take(i + 1).drop_last() =~= self@.items.take(i as int));
            match self.ring.get(i) {
                Some(answered) => if !*answered {
                    lost = lost + 1;
                },
                None => {},
            }
        }
        assert(self@.items.take(n as int) =~= self@.items);
        percentage(lost, n)
    }
}

// ---------------------------------------------------------------------------------------
// What the statistics are
// ---------------------------------------------------------------------------------------

/// The loss is the share of probes without an answer: one answered probe more never raises
/// it and one unanswered probe more never lowers it, and it counts every unanswered probe
/// once.
pub proof fn law_loss_counts_unanswered_probes(s: Seq<bool>)
    ensures
        unanswered(s.push(true)) == unanswered(s),
        unanswered(s.push(false)) == unanswered(s) + 1,
        unanswered(Seq::empty()) == 0,
        unanswered(s) <= s.len(),
        s.len() > 0 ==> loss_of(s) * s.len() <= unanswered(s) * 100_000_000_000 < (loss_of(s) + 1)
            * s.len(),
        loss_of(Seq::empty()) == 0,
{
    assert(s.push(true).drop_last() =~= s);
    assert(s.push(false).drop_last() =~= s);
    lemma_unanswered_bound(s);
    if s.len() > 0 {
        law_loss_is_a_percentage(s);
        let a = unanswered(s) * 100_000_000_000;
        let n = s.len() as int;
        vstd::arithmetic::div_mod::lemma_fundamental_div_mod(a as int, n);
        lemma_percent_bounds(unanswered(s), s.len());
        let q = a as int / n;
        assert(n * q == q * n) by (nonlinear_arith);
        assert((q + 1) * n == q * n + n) by (nonlinear_arith);
        assert(q == loss_of(s));
    }
}

/// The mean times the number of readings is their sum, up to the rounding of the last place;
/// and the sum counts every reading once.
pub proof fn law_the_mean_shares_the_sum_out(s: Seq<i64>, v: i64)
    ensures
        total(s.push(v)) == total(s) + v,
        total(Seq::empty()) == 0,
        mean_of(Seq::empty()) is None,
        s.len() > 0 ==> (mean_of(s) matches Some(m) && m * s.len() <= total(s) < (m + 1) * s.len()),
{
    assert(s.push(v).drop_last() =~= s);
    if s.len() > 0 {
        let n = s.len() as int;
        law_the_mean_lies_between_the_extremes(s);
        law_extremes_are_elements(s);
        vstd::arithmetic::div_mod::lemma_fundamental_div_mod(total(s), n);
        let q = total(s) / n;
        assert(n * q == q * n) by (nonlinear_arith);
        assert((q + 1) * n == q * n + n) by (nonlinear_arith);
    }
}

/// Jitter is how far apart neighbouring readings lie on average. Each pair of neighbours
/// counts once, whichever of the two is greater; a steady series has none; and a series of
/// one reading has no jitter to speak of.
pub proof fn law_jitter_is_the_mean_step(s: Seq<i64>, v: i64)
    ensures
        s.len() < 2 ==> jitter_of(s) is None,
        s.len() > 0 ==> travel(s.push(v)) == travel(s) + (if v >= s.last() {
            v - s.last()
        } else {
            s.last() - v
        }),
        travel(s) >= 0,
        s.len() >= 2 && jitter_of(s)->0 < i64::MAX ==> (jitter_of(s) matches Some(j) && j * (s.len()
            - 1) <= travel(s) < (j + 1) * (s.len() - 1)),
        s.len() >= 2 ==> jitter_of(s) is Some && jitter_of(s)->0 >= 0,
        s.len() >= 2 && (forall|i: int| 0 <= i < s.len() ==> #[trigger] s[i] == s[0]) ==> jitter_of(s)
            == Some(0i64),
{
    assert(s.push(v).drop_last() =~= s);
    if s.len() > 0 {
        lemma_travel_bounds(s);
    }
    if s.len() >= 2 {
        let n = s.len() - 1;
        let t = travel(s);
        vstd::arithmetic::div_mod::lemma_fundamental_div_mod(t, n);
        vstd::arithmetic::div_mod::lemma_div_pos_is_pos(t, n);
        let q = t / n;
        assert(n * q == q * n) by (nonlinear_arith);
        assert((q + 1) * n == q * n + n) by (nonlinear_arith);
        if forall|i: int| 0 <= i < s.len() ==> #[trigger] s[i] == s[0] {
            lemma_steady(s);
        }
    }
}

proof fn lemma_steady(s: Seq<i64>)
    requires
        s.len() > 0,
        forall|i: int| 0 <= i < s.len() ==> #[trigger] s[i] == s[0],
    ensures
        travel(s) == 0,
    decreases s.len(),
{
    if s.len() >= 2 {
        let init = s.drop_last();
        assert forall|i: int| 0 <= i < init.len() implies #[trigger] init[i] == init[0] by {
            assert(s[i] == s[0]);
        }
        lemma_steady(init);
        assert(s[s.len() - 1] == s[0] && s[s.len() - 2] == s[0]);
    }
}

/// How many readings are at most `v`.
pub open spec fn at_most(s: Seq<i64>, v: i64) -> nat
    decreases s.len(),
{
    if s.len() == 0 {
        0
    } else {
        at_most(s.drop_last(), v) + (if s.last() <= v {
            1nat
        } else {
            0nat
        })
    }
}

/// How many readings are below `v`.
pub open spec fn below(s: Seq<i64>, v: i64) -> nat
    decreases s.len(),
{
    if s.len() == 0 {
        0
    } else {
        below(s.drop_last(), v) + (if s.last() < v {
            1nat
        } else {
            0nat
        })
    }
}

proof fn lemma_counts_are_of_the_multiset(s: Seq<i64>, t: Seq<i64>, v: i64)
    requires
        s.to_multiset() == t.to_multiset(),
    ensures
        at_most(s, v) == at_most(t, v),
        below(s, v) == below(t, v),
    decreases s.len(),
{
    broadcast use vstd::seq_lib::group_to_multiset_ensures;

    assert(s.len() == s.to_multiset().len());
    assert(t.len() == t.to_multiset().len());
    if s.len() > 0 {
        let x = s.last();
        let init = s.drop_last();
        assert(init.push(x) =~= s);
        assert(s.contains(x));
        assert(t.to_multiset().contains(x));
        assert(t.contains(x));
        let k = choose|k: int| 0 <= k < t.len() && t[k] == x;
        let u = t.remove(k);
        assert(u.to_multiset() =~= t.to_multiset().remove(x));
        assert(init.to_multiset() =~= s.to_multiset().remove(x));
        lemma_counts_are_of_the_multiset(init, u, v);
        lemma_removed_counts(t, k, v);
    }
}

proof fn lemma_removed_counts(t: Seq<i64>, k: int, v: i64)
    requires
        0 <= k < t.len(),
    ensures
        at_most(t, v) == at_most(t.remove(k), v) + (if t[k] <= v {
            1nat
        } else {
            0nat
        }),
        below(t, v) == below(t.remove(k), v) + (if t[k] < v {
            1nat
        } else {
            0nat
        }),
    decreases t.len(),
{
    let u = t.remove(k);
    if k == t.len() - 1 {
        assert(u =~= t.drop_last());
    } else {
        lemma_removed_counts(t.drop_last(), k, v);
        assert(u.drop_last() =~= t.drop_last().remove(k));
        assert(u.last() == t.last());
    }
}

proof fn lemma_sorted_counts(t: Seq<i64>, r: int)
    requires
        0 <= r < t.len(),
        forall|i: int, j: int| 0 <= i <= j < t.len() ==> #[trigger] t[i] <= #[trigger] t[j],
    ensures
        at_most(t, t[r]) >= r + 1,
        below(t, t[r]) <= r,
    decreases t.len(),
{
    let init = t.drop_last();
    if r == t.len() - 1 {
        lemma_all_at_most(t, t[r]);
        lemma_below_bound(t, t[r]);
    } else {
        assert forall|i: int, j: int| 0 <= i <= j < init.len() implies #[trigger] init[i]
            <= #[trigger] init[j] by {
            assert(t[i] <= t[j]);
        }
        lemma_sorted_counts(init, r);
        assert(t[r] <= t[t.len() - 1]);
    }
}

proof fn lemma_all_at_most(t: Seq<i64>, v: i64)
    requires
        forall|i: int| 0 <= i < t.len() ==> #[trigger] t[i] <= v,
    ensures
        at_most(t, v) == t.len(),
    decreases t.len(),
{
    if t.len() > 0 {
        let init = t.drop_last();
        assert forall|i: int| 0 <= i < init.len() implies #[trigger] init[i] <= v by {
            assert(t[i] <= v);
        }
        lemma_all_at_most(init, v);
    }
}

proof fn lemma_below_bound(t: Seq<i64>, v: i64)
    requires
        t.len() > 0,
        t.last() >= v,
    ensures
        below(t, v) <= t.len() - 1,
{
    lemma_below_len(t.drop_last(), v);
}

proof fn lemma_below_len(t: Seq<i64>, v: i64)
    ensures
        below(t, v) <= t.len(),
    decreases t.len(),
{
    if t.len() > 0 {
        lemma_below_len(t.drop_last(), v);
    }
}

/// The percentile is what it says, by nearest rank: at least that share of the readings is no
/// greater than it, and less than that share of them is smaller. So the 95th percentile of a
/// series is a reading that 95 in 100 readings do not exceed.
pub proof fn law_a_percentile_covers_its_share(s: Seq<i64>, p: int)
    requires
        s.len() > 0,
        0 < p <= 100_000_000_000,
    ensures
        percentile_of(s, p) matches Some(v) && s.contains(v) && at_most(s, v) * 100_000_000_000 >= p
            * s.len() && below(s, v) * 100_000_000_000 < p * s.len(),
{
    let n = s.len() as int;
    let r = rank_of(p, n);
    let t = sorted(s);
    lemma_sorted(s);
    law_percentiles_are_readings_in_order(s, p, p);
    let x = p * n + 99_999_999_999;
    let rank = x / 100_000_000_000;
    assert(0 < p * n <= 100_000_000_000 * n) by (nonlinear_arith)
        requires
            0 < p <= 100_000_000_000,
            n > 0,
    ;
    assert(1 <= rank <= n);
    assert(r == rank - 1);
    assert forall|i: int, j: int| 0 <= i <= j < t.len() implies #[trigger] t[i]
        <= #[trigger] t[j] by {}
    s.lemma_sort_by_ensures(ascending());
    lemma_sorted_counts(t, r);
    lemma_counts_are_of_the_multiset(s, t, t[r]);
}

} // verus!
