//! What each panel shows.

use chrono::TimeZone;
use network_dash::app::actions::Action;
use network_dash::app::AppState;
use network_dash::config::Config;
use network_dash::diagnosis::Layer;
use network_dash::health::Health;
use network_dash::incidents::Incident;
use network_dash::metrics::dns::Answer;
use network_dash::metrics::{Hop, MetricId, Sample};
use network_dash::ui::charts::{chart_bounds, chart_span, LineSeries, Point};
use network_dash::ui::panels::{
    availability, clock_text, diagnosis, dns, events, footer, header, help_overlay, hop_bar,
    human_rate, latency, link, loss, routing, theme_picker_overlay, throughput, transport,
    truncate, wifi_signal,
};
use network_dash::ui::theme::{health_symbol, Color, Style, Theme};
use network_dash::ui::view::{centered_rect, metric_block, summary_and_chart, Area, Panel};

/// A reading.
fn r(v: f64) -> i64 {
    (v * 1e9).round() as i64
}

/// An instant.
fn at(y: i32, mo: u32, d: u32, h: u32, mi: u32, s: u32) -> i64 {
    chrono::Utc
        .with_ymd_and_hms(y, mo, d, h, mi, s)
        .unwrap()
        .timestamp_nanos_opt()
        .unwrap()
}

fn minutes(n: i64) -> i64 {
    n * 60_000_000_000
}

fn test_state() -> AppState {
    let mut c = Config::default();
    c.targets.internet = vec!["1.1.1.1".into()];
    c.targets.gateway = None;
    // Frozen clock in the render tests: no dwell, so a fed sample is committed at once.
    c.thresholds.trip_after_secs = r(0.0);
    c.thresholds.clear_after_secs = r(0.0);
    c.thresholds.loss_window = 4;
    AppState::new(c)
}

/// The text of a panel, its title first, one line each.
fn text(p: &Panel) -> String {
    let mut s = p.block.title.text();
    for l in &p.lines {
        s.push('\n');
        s.push_str(&l.text());
    }
    s
}

/// The colors of the traces and bands that a panel plots.
fn graph_colors(p: &Panel) -> Vec<Color> {
    p.charts
        .iter()
        .flat_map(|c| &c.series)
        .filter(|s| !s.points.is_empty())
        .map(|s| s.color)
        .collect()
}

fn fg(c: Color) -> Style {
    Style {
        fg: Some(c),
        bold: false,
    }
}

#[test]
fn loss_panel_draws_line_graph() {
    let mut state = test_state();
    let now = at(2026, 7, 20, 14, 0, 0);
    // Vary loss so the line isn't trivially flat.
    for ok in [true, false, true, true, false, true] {
        state.apply_sample(
            now,
            Sample::Latency {
                target: "1.1.1.1".into(),
                rtt_ms: if ok { Some(r(20.0)) } else { None },
            },
        );
    }
    let p = loss(&state, 14);
    assert!(!graph_colors(&p).is_empty(), "loss panel should draw a line graph");
}

#[test]
fn dns_panel_draws_line_graph() {
    let mut state = test_state();
    let now = at(2026, 7, 20, 14, 0, 0);
    for ms in [r(10.0), r(40.0), r(25.0), r(60.0), r(30.0)] {
        state.apply_sample(
            now,
            Sample::Dns {
                resolver: "system".into(),
                answer: Answer::Addresses(ms),
            },
        );
    }
    let p = dns(&state, 14);
    assert!(!graph_colors(&p).is_empty(), "dns panel should draw a line graph");
}

#[test]
fn throughput_panel_draws_line_graph() {
    let mut state = test_state();
    let now = at(2026, 7, 20, 14, 0, 0);
    for rx in [r(1.0e6), r(2.0e6), r(0.5e6), r(3.0e6), r(1.5e6)] {
        state.apply_sample(
            now,
            Sample::Throughput {
                rx_bps: rx,
                tx_bps: rx / 4,
            },
        );
    }
    let p = throughput(&state, 14);
    assert!(
        !graph_colors(&p).is_empty(),
        "throughput panel should draw a line graph"
    );
}

/// Feed `rtts` to `target`, registering it as an internet target.
fn feed_latency(state: &mut AppState, target: &str, rtts: &[i64]) {
    let now = at(2026, 7, 20, 14, 0, 0);
    for ms in rtts {
        state.apply_sample(
            now,
            Sample::Latency {
                target: target.into(),
                rtt_ms: Some(*ms),
            },
        );
    }
}

#[test]
fn latency_panel_graph_spans_full_width() {
    let mut state = test_state();
    // A handful of points, far fewer than the panel is wide: the axis ends with the last of
    // them, so the line goes from one edge of the plot to the other.
    feed_latency(
        &mut state,
        "1.1.1.1",
        &[r(10.0), r(40.0), r(25.0), r(60.0), r(30.0), r(45.0)],
    );
    let p = latency(&state, 14);
    assert_eq!(p.charts.len(), 1);
    let points = &p.charts[0].series[0].points;
    assert_eq!(points.len(), 6);
    assert_eq!(points[0].x, 0);
    assert_eq!(points[5].x, p.charts[0].x_max);
    assert_eq!(p.charts[0].x_max, 5);
}

#[test]
fn latency_panel_plots_every_target() {
    let mut state = test_state();
    feed_latency(
        &mut state,
        "1.1.1.1",
        &[r(20.0), r(24.0), r(22.0), r(26.0)],
    );
    feed_latency(
        &mut state,
        "8.8.8.8",
        &[r(40.0), r(44.0), r(42.0), r(46.0)],
    );
    let p = latency(&state, 15);

    let text = text(&p);
    assert!(text.contains("1.1.1.1"), "first target missing: {text}");
    assert!(
        text.contains("8.8.8.8"),
        "a second ping target was silently dropped from the panel: {text}"
    );
    // Two traces in two different series colours: one line for two targets would hide
    // exactly the asymmetry the panel exists to show.
    let colors = graph_colors(&p);
    assert!(
        colors.contains(&state.theme.series_color(0))
            && colors.contains(&state.theme.series_color(1)),
        "expected one trace per target, got colours {colors:?}"
    );
}

#[test]
fn latency_summary_reports_the_p95_not_just_the_mean() {
    let mut state = test_state();
    feed_latency(&mut state, "1.1.1.1", &[r(20.0), r(20.0), r(20.0), r(20.0), r(400.0)]);
    let p = latency(&state, 15);
    let text = text(&p);
    // The mean hides a single 400ms stall; the p95 is what an operator judges by.
    assert!(text.contains("p95"), "summary should report p95: {text}");
    assert!(text.contains("400"), "p95 should surface the tail: {text}");
}

#[test]
fn latency_panel_bands_the_thresholds_when_the_data_is_near_them() {
    let mut state = test_state();
    // Internet defaults: warn 80ms, crit 150ms. Data straddling both.
    feed_latency(&mut state, "1.1.1.1", &[r(60.0), r(120.0), r(90.0), r(180.0), r(110.0)]);
    let p = latency(&state, 15);
    let colors = graph_colors(&p);
    assert!(
        colors.contains(&state.theme.warn),
        "warn threshold band missing; a trace with no scale is just a squiggle: {colors:?}"
    );
    assert!(
        colors.contains(&state.theme.crit),
        "crit threshold band missing: {colors:?}"
    );
}

#[test]
fn latency_panel_omits_bands_the_data_is_nowhere_near() {
    let mut state = test_state();
    // A healthy 8ms link: drawing the 150ms crit line would squash the trace flat.
    feed_latency(&mut state, "1.1.1.1", &[r(8.0), r(9.0), r(7.0), r(10.0), r(8.0)]);
    let p = latency(&state, 15);
    let colors = graph_colors(&p);
    assert!(
        !colors.contains(&state.theme.crit),
        "crit band should stay off a chart scaled to 10ms: {colors:?}"
    );
    assert!(
        !colors.contains(&state.theme.warn),
        "warn band should stay off a chart scaled to 10ms: {colors:?}"
    );
}

/// Drive a state into a "system resolver failing, public resolvers fine, connectivity OK"
/// condition — the classic DNS-config problem the diagnosis engine should name.
fn dns_problem_state() -> AppState {
    let mut c = Config::default();
    c.targets.internet = vec!["1.1.1.1".into()];
    c.targets.gateway = Some("192.168.1.1".into());
    c.targets.gateway_auto = false;
    // Frozen clock in the render tests: no dwell, so a fed sample is committed at once.
    c.thresholds.trip_after_secs = r(0.0);
    c.thresholds.clear_after_secs = r(0.0);
    let mut state = AppState::new(c);
    let now = at(2026, 7, 22, 12, 0, 0);
    for _ in 0..2 {
        state.apply_sample(
            now,
            Sample::Latency {
                target: "192.168.1.1".into(),
                rtt_ms: Some(r(3.0)),
            },
        );
        state.apply_sample(
            now,
            Sample::Latency {
                target: "1.1.1.1".into(),
                rtt_ms: Some(r(20.0)),
            },
        );
        state.apply_sample(
            now,
            Sample::Dns {
                resolver: "system".into(),
                answer: Answer::Silence,
            },
        );
        state.apply_sample(
            now,
            Sample::Dns {
                resolver: "cloudflare".into(),
                answer: Answer::Addresses(r(15.0)),
            },
        );
        state.apply_sample(
            now,
            Sample::Dns {
                resolver: "google".into(),
                answer: Answer::Addresses(r(18.0)),
            },
        );
    }
    state
}

#[test]
fn diagnosis_panel_names_the_problem() {
    let state = dns_problem_state();
    let p = diagnosis(&state, 6);
    let text = text(&p);
    assert!(text.contains("DIAGNOSIS"), "panel title missing: {text}");
    assert!(text.contains("DNS"), "should name the DNS layer: {text}");
    assert!(
        text.to_lowercase().contains("configured") || text.to_lowercase().contains("public"),
        "should describe the configured-DNS problem: {text}"
    );
}

#[test]
fn diagnosis_panel_border_goes_red_on_a_crit_problem() {
    let state = dns_problem_state(); // failed lookup => Crit
    let p = diagnosis(&state, 6);
    assert_eq!(
        p.block.border.fg,
        Some(state.theme.crit),
        "crit diagnosis should paint the border with the active theme's crit color"
    );
}

#[test]
fn diagnosis_panel_healthy_reports_no_problems() {
    let state = test_state();
    let p = diagnosis(&state, 6);
    let text = text(&p);
    assert!(
        text.contains("No problems detected"),
        "healthy state should say so: {text}"
    );
}

#[test]
fn header_appends_the_top_verdict() {
    let state = dns_problem_state();
    let p = header(&state, 1);
    let text = text(&p);
    assert!(text.contains("NetPulse"), "header identity: {text}");
    assert!(
        text.to_lowercase().contains("dns"),
        "header should name the culprit, not just the severity word: {text}"
    );
}

#[test]
fn events_feed_shows_threshold_detail() {
    let mut state = test_state();
    let now = at(2026, 7, 20, 14, 0, 0);
    // Drive a latency crit so an incident with a threshold is logged.
    for _ in 0..3 {
        state.apply_sample(
            now,
            Sample::Latency {
                target: "1.1.1.1".into(),
                rtt_ms: Some(r(500.0)),
            },
        );
    }
    let p = events(&state, 6);
    assert!(
        text(&p).contains("thr"),
        "events should surface the crossed threshold"
    );
}

#[test]
fn header_badges_an_unwritable_incident_log() {
    let mut state = test_state();
    state.log_error = Some("no space left on device".into());
    let p = header(&state, 1);
    let text = text(&p);
    assert!(
        text.contains("LOG"),
        "a silently-unwritable log is worse than a noisy one: {text}"
    );
}

#[test]
fn healthy_header_has_no_log_badge() {
    let state = test_state();
    let p = header(&state, 1);
    assert!(!text(&p).contains("LOG"));
}

#[test]
fn header_shows_public_ip_when_known() {
    let mut state = test_state();
    state.public_ip = Some("203.0.113.7".into());
    let p = header(&state, 1);
    assert!(
        text(&p).contains("wan 203.0.113.7"),
        "header should show the WAN IP"
    );
}

#[test]
fn link_panel_shows_interface_mtu_and_vpn() {
    let mut state = test_state();
    state.interface = Some("utun3".into());
    state.mtu = Some(1400);
    state.vpn = true;
    let p = link(&state, 6);
    let text = text(&p);
    assert!(text.contains("utun3"), "should show interface: {text}");
    assert!(text.contains("MTU 1400"), "should show MTU: {text}");
    assert!(text.contains("VPN"), "should badge VPN: {text}");
}

#[test]
fn link_panel_stays_quiet_about_a_clean_nic() {
    let mut state = test_state();
    state.iface.rx_errors = Some(0);
    state.iface.tx_errors = Some(0);
    let p = link(&state, 6);
    let text = text(&p);
    assert!(
        !text.contains("err"),
        "zero errors is the normal case; a permanent 'err 0' is just noise: {text}"
    );
}

#[test]
fn link_panel_names_the_direction_of_nic_errors() {
    let mut state = test_state();
    state.iface.rx_errors = Some(7);
    state.iface.tx_errors = Some(2);
    let p = link(&state, 6);
    let text = text(&p);
    assert!(text.contains("err 7 rx"), "should show rx errors: {text}");
    assert!(text.contains("2 tx"), "should show tx errors: {text}");
}

/// Fold one handshake reading into a fresh state.
fn with_handshake(state: &mut AppState, endpoint: &str, connect_ms: Option<i64>) {
    state.apply_sample(
        at(2026, 7, 20, 14, 0, 0),
        Sample::TcpHandshake {
            endpoint: endpoint.into(),
            connect_ms,
        },
    );
}

#[test]
fn transport_panel_waits_for_data_rather_than_inventing_it() {
    let state = test_state();
    let p = transport(&state, 2);
    let text = text(&p);
    assert!(text.contains("tcp"), "the row is always labelled: {text}");
    assert!(
        !text.contains("ms"),
        "no probe has run, so there is no timing to show: {text}"
    );
}

#[test]
fn transport_panel_times_every_endpoint() {
    let mut state = test_state();
    with_handshake(&mut state, "cloudflare", Some(r(12.0)));
    with_handshake(&mut state, "google", Some(r(31.0)));
    let p = transport(&state, 2);
    let text = text(&p);
    assert!(text.contains("cloudflare 12ms"), "{text}");
    assert!(text.contains("google 31ms"), "{text}");
}

#[test]
fn transport_panel_says_refused_rather_than_showing_a_stale_time() {
    let mut state = test_state();
    with_handshake(&mut state, "google", Some(r(31.0)));
    with_handshake(&mut state, "google", None);
    let p = transport(&state, 2);
    let text = text(&p);
    assert!(text.contains("google refused"), "{text}");
    assert!(
        !text.contains("31ms"),
        "the last good time is not the current state: {text}"
    );
}

#[test]
fn a_refused_handshake_reddens_the_transport_border() {
    let mut state = test_state();
    with_handshake(&mut state, "google", None);
    let p = transport(&state, 2);
    assert_eq!(
        p.block.border.fg,
        Some(state.theme.crit),
        "the core visual contract: a broken transport shows on the border"
    );
}

#[test]
fn header_shows_healthy_by_default() {
    let state = test_state();
    let p = header(&state, 1);
    assert!(text(&p).contains("HEALTHY"));
}

#[test]
fn header_shows_problem_when_crit() {
    let mut state = test_state();
    let now = at(2026, 7, 20, 14, 0, 0);
    // debounce 1 => one drop (25% > crit 5%) commits Crit immediately.
    state.apply_sample(
        now,
        Sample::Latency {
            target: "1.1.1.1".into(),
            rtt_ms: None,
        },
    );
    assert_eq!(state.overall_health(), Health::Crit);
    let p = header(&state, 1);
    assert!(text(&p).contains("PROBLEM"));
}

#[test]
fn loss_panel_border_turns_red_when_crit() {
    let mut state = test_state();
    let now = at(2026, 7, 20, 14, 0, 0);
    state.apply_sample(
        now,
        Sample::Latency {
            target: "1.1.1.1".into(),
            rtt_ms: None,
        },
    );
    let p = loss(&state, 8);
    // top-left border corner should carry the active theme's crit color
    assert_eq!(p.block.border.fg, Some(state.theme.crit));
}

#[test]
fn dns_panel_shows_resolver_latency_and_fail() {
    let mut state = test_state();
    let now = at(2026, 7, 20, 14, 0, 0);
    state.apply_sample(
        now,
        Sample::Dns {
            resolver: "cloudflare".into(),
            answer: Answer::Addresses(r(19.0)),
        },
    );
    state.apply_sample(
        now,
        Sample::Dns {
            resolver: "google".into(),
            answer: Answer::Silence,
        },
    );
    let p = dns(&state, 6);
    let text = text(&p);
    assert!(text.contains("cloudflare"));
    assert!(text.contains("19ms"));
    assert!(text.contains("FAIL"));
}

#[test]
fn link_panel_shows_ssid_and_endpoints() {
    let mut state = test_state();
    let now = at(2026, 7, 20, 14, 0, 0);
    state.apply_sample(
        now,
        Sample::Link {
            rssi_dbm: Some(-r(45.0)),
            noise_dbm: Some(-r(90.0)),
            tx_rate: Some(r(866.0)),
            ssid: Some("MyNet".into()),
        },
    );
    state.apply_sample(
        now,
        Sample::Reachability {
            endpoint: "http".into(),
            ok: true,
        },
    );
    state.apply_sample(
        now,
        Sample::Reachability {
            endpoint: "ipv6".into(),
            ok: false,
        },
    );
    let p = link(&state, 6);
    let text = text(&p);
    assert!(text.contains("MyNet"));
    assert!(text.contains("-45 dBm"));
    // SNR (−45 − −90 = 45 dB) and negotiated rate are surfaced, not discarded.
    assert!(text.contains("SNR 45 dB"), "should show SNR: {text}");
    assert!(text.contains("866 Mbps"), "should show Tx rate: {text}");
    // Endpoints render together on a single compact row (band layout).
    let endpoints_share_a_row = p
        .lines
        .iter()
        .any(|l| l.text().contains("http") && l.text().contains("ipv6"));
    assert!(
        endpoints_share_a_row,
        "endpoints should share one row: {text}"
    );
}

/// Feed a run of Wi-Fi readings, holding tx rate and SSID constant.
fn feed_link(state: &mut AppState, readings: &[(i64, i64)]) {
    let now = at(2026, 7, 20, 14, 0, 0);
    for (rssi, noise) in readings {
        state.apply_sample(
            now,
            Sample::Link {
                rssi_dbm: Some(*rssi),
                noise_dbm: Some(*noise),
                tx_rate: Some(r(400.0)),
                ssid: Some("MyNet".into()),
            },
        );
    }
}

#[test]
fn wifi_panel_charts_signal_and_noise() {
    let mut state = test_state();
    feed_link(
        &mut state,
        &[
            (-r(45.0), -r(92.0)),
            (-r(51.0), -r(91.0)),
            (-r(58.0), -r(90.0)),
            (-r(62.0), -r(89.0)),
        ],
    );
    let p = wifi_signal(&state, 12);

    assert!(!graph_colors(&p).is_empty(), "wifi panel should plot signal history");
    // Two traces, not one: SNR is the vertical gap between them, so both must be drawn.
    let colors = graph_colors(&p);
    assert!(
        colors.contains(&state.theme.series_color(0)),
        "signal trace missing: {colors:?}"
    );
    assert!(
        colors.contains(&state.theme.series_color(1)),
        "noise trace missing: {colors:?}"
    );
    // The summary line survives the chart.
    let text = text(&p);
    assert!(text.contains("-62 dBm"), "current rssi missing: {text}");
}

#[test]
fn wifi_panel_bands_the_rssi_warn_threshold() {
    let mut state = test_state();
    // Decaying towards the warn bound (-70 dBm by default): the band belongs on screen.
    feed_link(
        &mut state,
        &[
            (-r(58.0), -r(92.0)),
            (-r(63.0), -r(92.0)),
            (-r(67.0), -r(92.0)),
            (-r(69.0), -r(92.0)),
        ],
    );
    let p = wifi_signal(&state, 12);
    assert!(
        graph_colors(&p).contains(&state.theme.warn),
        "a signal near the warn bound should be banded with it"
    );
}

#[test]
fn wifi_panel_without_a_radio_says_so_instead_of_charting() {
    let state = test_state();
    let p = wifi_signal(&state, 12);
    assert!(text(&p).contains("no wireless link"));
    assert!(graph_colors(&p).is_empty(), "nothing to chart without a radio");
}

#[test]
fn throughput_panel_charts_capacity_history() {
    let mut state = test_state();
    let now = at(2026, 7, 20, 14, 0, 0);
    for mbps in [r(420.0), r(400.0), r(380.0), r(120.0)] {
        state.apply_sample(now, Sample::ThroughputProbe { mbps });
    }
    let p = throughput(&state, 18);

    let text = text(&p);
    assert!(
        text.contains("capacity"),
        "capacity chart unlabelled: {text}"
    );
    // Capacity is plotted in its own colour — it cannot share rx/tx's axis, which is
    // bytes/sec on a 2-second cadence against a 5-minute probe.
    assert!(
        graph_colors(&p).contains(&state.theme.accent),
        "capacity history should be plotted"
    );
}

#[test]
fn throughput_summary_reports_the_bufferbloat_tail() {
    let mut state = test_state();
    let now = at(2026, 7, 20, 14, 0, 0);
    for (idle, loaded) in [(r(20.0), r(40.0)), (r(20.0), r(45.0)), (r(20.0), r(220.0))] {
        state.apply_sample(
            now,
            Sample::Bufferbloat {
                idle_ms: idle,
                loaded_ms: loaded,
            },
        );
    }
    let p = throughput(&state, 18);
    let text = text(&p);
    // The current reading alone hides an intermittent stall; the tail is the story.
    assert!(text.contains("+200ms"), "current delta missing: {text}");
    assert!(
        text.contains("p95 +200ms"),
        "bufferbloat tail missing: {text}"
    );
}

/// Drive `count` consecutive one-minute buckets, marking `down_at` as a total outage.
fn availability_state(count: i64, down_at: &[i64]) -> AppState {
    let mut state = test_state();
    let t0 = at(2026, 7, 20, 14, 0, 0);
    for m in 0..count {
        let at = t0 + minutes(m);
        if down_at.contains(&m) {
            for _ in 0..4 {
                state.apply_sample(
                    at,
                    Sample::Latency {
                        target: "1.1.1.1".into(),
                        rtt_ms: None,
                    },
                );
            }
        } else {
            for _ in 0..8 {
                state.apply_sample(
                    at,
                    Sample::Latency {
                        target: "1.1.1.1".into(),
                        rtt_ms: Some(r(12.0)),
                    },
                );
            }
        }
    }
    state
}

#[test]
fn availability_title_reports_the_uptime_rollup() {
    let state = availability_state(10, &[8, 9]);
    let p = availability(&state, 220, 1);
    let text = text(&p);
    assert!(text.contains("AVAILABILITY"), "{text}");
    assert!(
        text.contains("80.0%"),
        "8 of 10 minutes healthy should read as 80.0%: {text}"
    );
    assert!(
        text.contains("2m down"),
        "the headline should quantify the downtime: {text}"
    );
}

#[test]
fn hop_bar_scales_to_the_available_width() {
    assert_eq!(hop_bar(r(1.0), r(1.0), 10).chars().count(), 10);
    assert!(hop_bar(r(1.0), r(1.0), 10).chars().all(|c| c == '█'));
    assert_eq!(hop_bar(r(0.5), r(1.0), 10), "█████");
    assert_eq!(hop_bar(r(0.0), r(1.0), 10), "");
}

#[test]
fn hop_bar_never_rounds_a_real_reading_away() {
    // A hop at 2% of the worst still took time; an empty cell would read as "no data".
    assert_eq!(hop_bar(r(0.02), r(1.0), 10).chars().count(), 1);
}

/// Push one routing sample built from `(addr, rtt, loss)` triples.
fn feed_path(state: &mut AppState, hops: &[(&str, Option<i64>, i64)]) {
    let now = at(2026, 7, 20, 14, 0, 0);
    state.apply_sample(
        now,
        Sample::Routing {
            target: "1.1.1.1".into(),
            hops: hops.len(),
            reachable: true,
            changed: false,
            detail: hops
                .iter()
                .map(|(addr, rtt, loss)| Hop {
                    addr: (*addr).into(),
                    min_rtt_ms: *rtt,
                    loss_pct: *loss,
                })
                .collect(),
        },
    );
}

#[test]
fn routing_panel_marks_hops_that_never_answered() {
    let mut state = test_state();
    feed_path(
        &mut state,
        &[("192.168.1.1", Some(r(2.0)), r(0.0)), ("*", None, r(100.0))],
    );
    let p = routing(&state, 72, 15);
    let text = text(&p);
    assert!(
        text.contains("no reply"),
        "a silent hop is normal (ICMP-throttled routers), so say so rather than \
         drawing it as 0ms: {text}"
    );
}

#[test]
fn routing_panel_flags_a_lossy_hop() {
    let mut state = test_state();
    feed_path(
        &mut state,
        &[
            ("192.168.1.1", Some(r(2.0)), r(0.0)),
            ("10.0.0.1", Some(r(9.0)), r(40.0)),
        ],
    );
    let p = routing(&state, 72, 15);
    let row = p
        .lines
        .iter()
        .map(|l| l.text())
        .find(|l| l.contains("10.0.0.1"))
        .expect("lossy hop row");
    assert!(row.contains("40%"), "hop loss should be shown: {row}");
}

#[test]
fn routing_panel_truncates_a_long_path_and_says_how_much_it_dropped() {
    let mut state = test_state();
    let hops: Vec<(&str, Option<i64>, i64)> =
        (0..20).map(|_| ("10.0.0.1", Some(r(5.0)), r(0.0))).collect();
    feed_path(&mut state, &hops);
    // Only a handful of content rows: 8 minus the border and the two summary lines.
    let p = routing(&state, 72, 6);
    let text = text(&p);
    assert!(
        text.contains("more"),
        "a clipped path must admit it is clipped: {text}"
    );
}

#[test]
fn routing_panel_shows_hops_and_status() {
    let mut state = test_state();
    let now = at(2026, 7, 20, 14, 0, 0);
    state.apply_sample(
        now,
        Sample::Routing {
            target: "1.1.1.1".into(),
            hops: 8,
            reachable: true,
            changed: false,
            detail: vec![
                Hop {
                    addr: "192.168.1.1".into(),
                    min_rtt_ms: Some(r(1.0)),
                    loss_pct: r(0.0),
                },
                Hop {
                    addr: "1.1.1.1".into(),
                    min_rtt_ms: Some(r(12.0)),
                    loss_pct: r(0.0),
                },
            ],
        },
    );
    let p = routing(&state, 38, 6);
    let text = text(&p);
    assert!(text.contains("hops: 8"), "text: {text}");
    assert!(text.contains("stable"));
    // The final-hop RTT is surfaced now that we parse per-hop timings.
    assert!(text.contains("12ms"), "should show final-hop RTT: {text}");
}

#[test]
fn throughput_panel_shows_rates() {
    let mut state = test_state();
    let now = at(2026, 7, 20, 14, 0, 0);
    state.apply_sample(
        now,
        Sample::Throughput {
            rx_bps: r(2_000_000.0),
            tx_bps: r(500_000.0),
        },
    );
    let p = throughput(&state, 6);
    let text = text(&p);
    assert!(text.contains("2.0 MB/s"), "text: {text}");
    assert!(text.contains("500.0 KB/s"));
}

#[test]
fn events_mark_a_downstream_incident_as_an_echo() {
    let mut state = test_state();
    let ts = at(2026, 7, 20, 14, 0, 0);
    state.events.push_front(
        Incident::new(ts, MetricId::Dns, Health::Crit, "dns timed out (system)".into())
            .with_target("system")
            .caused_by(Layer::Gateway),
    );
    let p = events(&state, 3);
    let text = text(&p);
    assert!(
        text.contains("dns timed out"),
        "a downstream incident is dimmed, never dropped: {text}"
    );
    assert!(
        text.to_lowercase().contains("gateway"),
        "say what already explains it, or the dimming is a mystery: {text}"
    );
}

#[test]
fn events_panel_shows_placeholder_when_empty() {
    let state = test_state();
    let p = events(&state, 6);
    assert!(text(&p).contains("no incidents"));
}

#[test]
fn routing_panel_profiles_each_hop_with_a_bar() {
    let mut state = test_state();
    feed_path(
        &mut state,
        &[
            ("192.168.1.1", Some(r(2.0)), 0),
            ("10.0.0.1", Some(r(9.0)), 0),
            ("203.0.113.9", Some(r(40.0)), 0),
        ],
    );
    let p = routing(&state, 72, 15);
    let rows: Vec<String> = p.lines.iter().map(|l| l.text()).collect();

    let bar_len = |addr: &str| -> usize {
        rows.iter()
            .find(|r| r.contains(addr))
            .unwrap_or_else(|| panic!("no row for hop {addr}"))
            .chars()
            .filter(|c| {
                ('\u{2588}'..='\u{2589}').contains(c) || ('\u{258A}'..='\u{258F}').contains(c)
            })
            .count()
    };
    // The whole point of a path profile: see *where* the time is spent. The 40ms hop
    // must draw a visibly longer bar than the 2ms one.
    assert!(
        bar_len("203.0.113.9") > bar_len("10.0.0.1"),
        "hop bars should scale with RTT: {rows:#?}"
    );
    assert!(
        bar_len("10.0.0.1") > bar_len("192.168.1.1"),
        "hop bars should scale with RTT: {rows:#?}"
    );
}

#[test]
fn availability_strip_paints_a_cell_per_minute() {
    // Outage at the *end* of the window: a healthy minute following an outage is
    // itself partly unhealthy (the loss window drains over several samples), and
    // worst-of-minute records that honestly, which would muddy the count here.
    let state = availability_state(10, &[8, 9]);
    let p = availability(&state, 220, 1);
    let mut ok = 0;
    let mut down = 0;
    for c in &p.lines[0].spans {
        if c.text == "█" && c.style == fg(state.theme.ok) {
            ok += 1;
        }
        if c.text == "█" && c.style == fg(state.theme.crit) {
            down += 1;
        }
    }
    assert_eq!(down, 2, "two outage minutes should paint two red cells");
    assert_eq!(ok, 8, "the other eight minutes should paint healthy cells");
}

#[test]
fn availability_strip_puts_the_newest_minute_at_the_right_edge() {
    // The strip reads like a timeline: time flows left-to-right, and "now" is the end
    // you glance at. Left-aligning a part-full strip would put now in the middle.
    let state = availability_state(3, &[2]);
    let p = availability(&state, 38, 1);
    assert_eq!(p.lines[0].text().chars().count(), 38, "the strip fills its width");
    let last = p.lines[0].spans.last().unwrap();
    assert_eq!(last.text, "█");
    assert_eq!(
        last.style,
        fg(state.theme.crit),
        "the newest minute was an outage"
    );
}

#[test]
fn a_strip_longer_than_its_panel_keeps_the_newest_minutes() {
    let state = availability_state(10, &[9]);
    let p = availability(&state, 4, 1);
    // No padding, then the last four minutes.
    assert_eq!(p.lines[0].spans.len(), 5);
    assert_eq!(p.lines[0].spans[0].text, "");
    assert_eq!(p.lines[0].spans[4].style, fg(state.theme.crit));
    assert!(availability(&state, 0, 1).lines.is_empty());
}

#[test]
fn help_overlay_renders_when_toggled() {
    let state = test_state();
    let area = Area {
        x: 0,
        y: 0,
        width: 120,
        height: 40,
    };
    let o = help_overlay(&state, area);
    assert!(o.block.title.text().contains("HELP"));
    assert!(
        o.lines.iter().any(|l| l.text().contains("theme picker")),
        "overlay body should show keys"
    );
    assert_eq!(
        o.area,
        Area {
            x: 43,
            y: 15,
            width: 34,
            height: 10
        }
    );
}

#[test]
fn theme_picker_overlay_renders_when_open() {
    let mut state = test_state();
    let area = Area {
        x: 0,
        y: 0,
        width: 60,
        height: 30,
    };
    assert!(theme_picker_overlay(&state, area).is_none());
    state.apply_action(Action::OpenThemePicker);
    state.apply_action(Action::ThemePreviewDown); // move the highlight off the first row
    let o = theme_picker_overlay(&state, area).expect("the picker is open");
    assert!(o.block.title.text().contains("THEME"));
    let text: String = o.lines.iter().map(|l| l.text()).collect();
    assert!(
        text.contains("dracula") && text.contains("gruvbox"),
        "theme names should be listed: {text}"
    );
    assert!(
        text.contains("preview") && text.contains("revert"),
        "footer hint should show: {text}"
    );
    // The selected row is the only bold text.
    let bold: Vec<String> = o
        .lines
        .iter()
        .filter(|l| l.spans.iter().any(|s| s.style.bold))
        .map(|l| l.text())
        .collect();
    assert_eq!(bold.len(), 1, "selected theme row should be highlighted (bold)");
    assert!(bold[0].starts_with("▶ "), "{bold:?}");
    assert!(bold[0].ends_with(state.theme.name), "{bold:?}");
}

#[test]
fn a_downstream_incident_is_dimmer_than_the_fault_that_caused_it() {
    let mut state = test_state();
    let ts = at(2026, 7, 20, 14, 0, 0);
    // Newest first: the echo on row 0, the root cause on row 1.
    state.events.push_front(
        Incident::new(
            ts,
            MetricId::Loss,
            Health::Crit,
            "loss 100% (192.168.1.1)".into(),
        )
        .with_target("192.168.1.1"),
    );
    state.events.push_front(
        Incident::new(
            ts,
            MetricId::Dns,
            Health::Crit,
            "dns timed out (system)".into(),
        )
        .caused_by(Layer::Gateway),
    );
    let p = events(&state, 3);
    assert!(p.lines[1].text().contains("loss 100%"));

    // The severity glyph carries the alarm colour; the echo's must be muted instead.
    let sym = health_symbol(Health::Crit);
    let glyph = |y: usize| -> (usize, Style) {
        let mut x = 0;
        for s in &p.lines[y].spans {
            if s.text == sym {
                return (x, s.style);
            }
            x += s.text.chars().count();
        }
        panic!("no severity glyph on row {y}");
    };
    let (echo, root) = (glyph(0), glyph(1));
    assert_eq!(root.1, fg(state.theme.crit), "the real fault stays loud");
    assert_eq!(
        echo.1,
        fg(state.theme.muted),
        "an echo of a known fault must not shout as loudly as the fault"
    );
    assert!(
        echo.0 > root.0,
        "the echo should sit indented under the fault: {} vs {}",
        echo.0,
        root.0
    );
}

#[test]
fn header_title_uses_active_theme_accent() {
    let mut c = Config::default();
    c.targets.internet = vec!["1.1.1.1".into()];
    c.targets.gateway = None;
    c.ui.theme = "cybercity_night".into();
    let state = AppState::new(c);
    let p = header(&state, 1);
    let accent = Theme::resolve("cybercity_night").accent;
    assert_eq!(p.lines[0].spans[0].text, "NetPulse");
    assert_eq!(p.lines[0].spans[0].style.fg, Some(accent));
    // Sanity: this differs from the default theme's accent, so theming really took effect.
    assert_ne!(accent, Theme::default_theme().accent);
}

/// Render a frame and return the foreground color of its border.
fn border_corner_color(health: Health) -> Option<Color> {
    metric_block("PANEL", health, &Theme::default_theme()).border.fg
}

#[test]
fn crit_panel_renders_red_border() {
    assert_eq!(border_corner_color(Health::Crit), Some(Color::Red));
}

#[test]
fn warn_panel_renders_yellow_border() {
    assert_eq!(border_corner_color(Health::Warn), Some(Color::Yellow));
}

#[test]
fn ok_panel_border_is_not_alarming() {
    let c = border_corner_color(Health::Good);
    assert_ne!(c, Some(Color::Red));
    assert_ne!(c, Some(Color::Yellow));
}

#[test]
fn reference_line_is_flat_and_spans_the_x_range() {
    let line = LineSeries::reference(Color::Red, r(150.0), 47);
    assert_eq!(
        line.points,
        vec![
            Point {
                x: 0,
                y: r(150.0)
            },
            Point {
                x: 47,
                y: r(150.0)
            }
        ]
    );
    assert!(
        line.name.is_empty(),
        "a threshold band is chart furniture, not a data series: it must not be named"
    );
}

#[test]
fn reference_line_still_spans_a_single_point_chart() {
    // With one sample the axis is widened to [0,1]; the band has to match or it collapses
    // to a dot in the corner.
    assert_eq!(LineSeries::reference(Color::Red, r(5.0), 0).points[1].x, 1);
}

#[test]
fn charts_are_scaled_on_their_data() {
    let s = vec![
        LineSeries::from_values("a", Color::Red, &vec![r(3.0), r(9.0)]),
        LineSeries::from_values("b", Color::Blue, &vec![r(4.0), r(1.0), r(2.0)]),
    ];
    assert_eq!(chart_bounds(&s, r(5.0)), (2, r(9.0)));
    assert_eq!(chart_bounds(&s, r(50.0)), (2, r(50.0)));
    assert_eq!(chart_bounds(&vec![], r(5.0)), (0, r(5.0)));
    // Eight units of spread, and one of air on either side.
    let b = chart_span(&s, r(4.0));
    assert_eq!((b.low, b.high), (r(0.0), r(10.0)));
    // A steady signal is given the least span.
    let b = chart_span(&s, r(12.0));
    assert_eq!((b.low, b.high), (-r(2.0), r(12.0)));
    let b = chart_span(&vec![], r(12.0));
    assert_eq!((b.low, b.high), (r(0.0), r(12.0)));
}

#[test]
fn the_summary_and_the_chart_share_the_panel_as_a_terminal_would_lay_them_out() {
    for height in 0..40u16 {
        for rows in 0..8u16 {
            let inner = Area {
                x: 3,
                y: 5,
                width: 20,
                height,
            };
            let laid = ratatui::layout::Layout::default()
                .direction(ratatui::layout::Direction::Vertical)
                .constraints([
                    ratatui::layout::Constraint::Length(rows),
                    ratatui::layout::Constraint::Min(0),
                ])
                .split(ratatui::layout::Rect {
                    x: 3,
                    y: 5,
                    width: 20,
                    height,
                });
            let (summary, chart) = summary_and_chart(inner, rows);
            assert_eq!((summary.y, summary.height), (laid[0].y, laid[0].height));
            assert_eq!(chart.is_some(), laid[1].height >= 3);
            if let Some(c) = chart {
                assert_eq!((c.y, c.height), (laid[1].y, laid[1].height));
            }
        }
    }
}

#[test]
fn a_centered_rectangle_never_leaves_its_area() {
    let area = Area {
        x: 2,
        y: 1,
        width: 10,
        height: 5,
    };
    assert_eq!(
        centered_rect(area, 4, 2),
        Area {
            x: 5,
            y: 2,
            width: 4,
            height: 2
        }
    );
    assert_eq!(centered_rect(area, 40, 40), area);
}

#[test]
fn the_clock_of_the_feed_is_the_time_of_day() {
    for (h, m, s) in [(0, 0, 0), (14, 5, 9), (23, 59, 59)] {
        let ts = at(2026, 7, 20, h, m, s);
        let stamp = chrono::DateTime::from_timestamp_nanos(ts);
        assert_eq!(clock_text(ts), stamp.format("%H:%M:%S").to_string());
    }
    // Before the epoch, too.
    assert_eq!(clock_text(-1), "23:59:59");
    let ts = at(1965, 3, 4, 5, 6, 7);
    assert_eq!(clock_text(ts), "05:06:07");
}

#[test]
fn rates_are_shown_in_the_unit_that_fits() {
    assert_eq!(human_rate(r(999.0)), "999 B/s");
    assert_eq!(human_rate(r(1_000.0)), "1.0 KB/s");
    assert_eq!(human_rate(r(999_900.0)), "999.9 KB/s");
    assert_eq!(human_rate(r(1_250_000.0)), "1.2 MB/s");
}

#[test]
fn a_clipped_address_says_so() {
    assert_eq!(truncate("1.1.1.1", 17), "1.1.1.1");
    assert_eq!(truncate("2606:4700:4700::1111", 17), "2606:4700:4700::…");
    assert_eq!(truncate("abc", 0), "…");
}

#[test]
fn footer_lists_the_keys() {
    let l = footer(&test_state());
    assert_eq!(
        l.text(),
        " q quit · r refresh · p pause · c clear events · t theme · ? help "
    );
}

#[test]
fn the_latency_row_lines_its_columns_up() {
    let mut state = test_state();
    feed_latency(&mut state, "1.1.1.1", &[r(10.0), r(30.0)]);
    let p = latency(&state, 1);
    assert_eq!(
        p.lines[0].text(),
        "1.1.1.1           30ms  avg   20  p95   30  max   30  jit  20ms"
    );
    assert!(p.charts.is_empty(), "no room for a chart");
}

#[test]
fn a_slower_hop_never_gets_a_shorter_bar() {
    let mut before = 0;
    for ms in 0..=40 {
        let bar = hop_bar(r(ms as f64), r(40.0), 16).chars().count();
        assert!(bar >= before && bar <= 16, "{ms} ms gets {bar} cells");
        before = bar;
    }
    assert_eq!(before, 16);
}
