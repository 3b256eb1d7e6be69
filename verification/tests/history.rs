//! Ring buffers, rolling statistics and loss windows.

use network_dash::history::{LossWindow, RingBuffer, Series};

/// A reading.
fn r(v: f64) -> i64 {
    (v * 1e9).round() as i64
}

fn approx(a: i64, b: f64) {
    let a = a as f64 / 1e9;
    assert!((a - b).abs() < 1e-9, "expected ~{b}, got {a}");
}

#[test]
fn ring_new_caps_minimum_one() {
    let rb: RingBuffer<i32> = RingBuffer::new(0);
    assert_eq!(rb.capacity(), 1);
}

#[test]
fn ring_push_evicts_oldest_and_preserves_order() {
    let mut rb = RingBuffer::new(3);
    rb.push(1);
    rb.push(2);
    rb.push(3);
    rb.push(4); // evicts 1
    assert_eq!(rb.len(), 3);
    assert_eq!(rb.iter().copied().collect::<Vec<_>>(), vec![2, 3, 4]);
    assert_eq!(rb.latest(), Some(&4));
}

#[test]
fn ring_empty_state() {
    let rb: RingBuffer<i32> = RingBuffer::new(2);
    assert!(rb.is_empty());
    assert_eq!(rb.latest(), None);
}

#[test]
fn series_stats_on_empty_are_none() {
    let s = Series::new(8);
    assert_eq!(s.min(), None);
    assert_eq!(s.max(), None);
    assert_eq!(s.mean(), None);
    assert_eq!(s.p95(), None);
    assert_eq!(s.jitter(), None);
}

#[test]
fn series_min_max_mean() {
    let mut s = Series::new(8);
    for v in [r(10.0), r(20.0), r(30.0)] {
        s.push(v);
    }
    approx(s.min().unwrap(), 10.0);
    approx(s.max().unwrap(), 30.0);
    approx(s.mean().unwrap(), 20.0);
    assert_eq!(s.values(), vec![r(10.0), r(20.0), r(30.0)]);
}

#[test]
fn series_percentile_nearest_rank() {
    let mut s = Series::new(200);
    for i in 1..=100 {
        s.push(r(i as f64));
    }
    approx(s.p95().unwrap(), 95.0);
    approx(s.percentile(r(0.0)).unwrap(), 1.0); // min
    approx(s.percentile(r(100.0)).unwrap(), 100.0); // max
}

#[test]
fn series_percentile_median_odd() {
    let mut s = Series::new(8);
    for v in [r(30.0), r(10.0), r(20.0)] {
        s.push(v);
    }
    approx(s.percentile(r(50.0)).unwrap(), 20.0);
}

#[test]
fn series_jitter_is_mean_abs_consecutive_diff() {
    let mut s = Series::new(8);
    for v in [r(10.0), r(12.0), r(10.0), r(14.0)] {
        s.push(v);
    }
    // diffs: |2|, |2|, |4| -> mean 8/3
    approx(s.jitter().unwrap(), 8.0 / 3.0);
}

#[test]
fn series_jitter_needs_two_samples() {
    let mut s = Series::new(8);
    s.push(r(5.0));
    assert_eq!(s.jitter(), None);
}

#[test]
fn loss_empty_is_zero() {
    let w = LossWindow::new(4);
    approx(w.loss_pct(), 0.0);
}

#[test]
fn loss_all_answered_is_zero() {
    let mut w = LossWindow::new(4);
    for _ in 0..4 {
        w.record(true);
    }
    approx(w.loss_pct(), 0.0);
}

#[test]
fn loss_half() {
    let mut w = LossWindow::new(4);
    w.record(true);
    w.record(false);
    w.record(true);
    w.record(false);
    approx(w.loss_pct(), 50.0);
}

#[test]
fn loss_window_evicts_old_outcomes() {
    let mut w = LossWindow::new(4);
    w.record(false); // will be evicted
    for _ in 0..4 {
        w.record(true);
    }
    assert_eq!(w.len(), 4);
    approx(w.loss_pct(), 0.0);
}

#[test]
fn a_ring_keeps_the_newest_items() {
    let mut rb = RingBuffer::new(4);
    for i in 0..100 {
        rb.push(i);
        let kept = rb.iter().copied().collect::<Vec<_>>();
        let expected = (0..=i).rev().take(4).collect::<Vec<_>>();
        assert_eq!(kept, expected.into_iter().rev().collect::<Vec<_>>());
    }
}

#[test]
fn loss_is_a_percentage_whatever_came_in() {
    let mut w = LossWindow::new(3);
    for i in 0..20 {
        w.record(i % 3 == 0);
        assert!((0..=r(100.0)).contains(&w.loss_pct()));
    }
    // One answered out of the last three.
    assert_eq!(w.loss_pct(), 66_666_666_666);
}

#[test]
fn extremes_are_elements_of_the_series() {
    let mut s = Series::new(3);
    for v in [r(9.0), -r(4.0), r(2.0), r(7.5)] {
        s.push(v);
    }
    // The 9 was evicted.
    assert_eq!(s.min(), Some(-r(4.0)));
    assert_eq!(s.max(), Some(r(7.5)));
}

#[test]
fn percentiles_are_readings_in_order_and_the_mean_lies_between() {
    let mut s = Series::new(16);
    for v in [30.0, -2.0, 7.5, 7.5, 110.0, 0.0] {
        s.push(r(v));
    }
    let values = s.values();
    let mut last = s.min().unwrap();
    for p in 0..=100 {
        let v = s.percentile(p * 1_000_000_000).unwrap();
        assert!(values.contains(&v));
        assert!(v >= last);
        last = v;
    }
    assert_eq!(Some(last), s.max());
    let mean = s.mean().unwrap();
    assert_eq!(mean, r(25.5));
    assert!(s.min().unwrap() <= mean && mean <= s.max().unwrap());
}
