//! Where the panels go.

use network_dash::app::actions::Action;
use network_dash::app::AppState;
use network_dash::config::Config;
use network_dash::health::Health;
use network_dash::metrics::dns::Answer;
use network_dash::metrics::{Hop, Sample};
use network_dash::ui::screen::{
    chart_areas, fill, grid, halves, inner_area, place, render, thirds, Grid, Screen, Way,
};
use network_dash::ui::view::Area;

/// An instant.
const NOW: i64 = 1_784_556_000_000_000_000;

fn area(x: u16, y: u16, width: u16, height: u16) -> Area {
    Area { x, y, width, height }
}

fn test_state() -> AppState {
    let mut c = Config::default();
    c.targets.internet = vec!["1.1.1.1".into()];
    c.targets.gateway = None;
    AppState::new(c)
}

fn r(v: f64) -> i64 {
    (v * 1e9).round() as i64
}

/// A state with something in every panel.
fn populated_state() -> AppState {
    let mut c = Config::default();
    c.targets.internet = vec!["1.1.1.1".into(), "8.8.8.8".into()];
    c.targets.gateway = Some("192.168.1.1".into());
    c.thresholds.trip_after_secs = 0;
    c.thresholds.clear_after_secs = 0;
    c.thresholds.loss_window = 8;
    let mut s = AppState::new(c);
    for (i, ms) in [18.0, 22.0, 19.0, 31.0, 24.0, 27.0].iter().enumerate() {
        let at = NOW + i as i64 * 20_000_000_000;
        for (target, scale) in [("1.1.1.1", 1.0), ("8.8.8.8", 1.4)] {
            s.apply_sample(
                at,
                Sample::Latency {
                    target: target.into(),
                    rtt_ms: Some(r(ms * scale)),
                },
            );
        }
        // The gateway drops one probe: enough to put loss on the board without
        // reddening the whole dashboard.
        s.apply_sample(
            at,
            Sample::Latency {
                target: "192.168.1.1".into(),
                rtt_ms: (i != 3).then_some(r(2.0)),
            },
        );
        s.apply_sample(
            at,
            Sample::Dns {
                resolver: "system".into(),
                answer: Answer::Addresses(r(14.0 + i as f64)),
            },
        );
        s.apply_sample(
            at,
            Sample::Throughput {
                rx_bps: r(1.0e6 + i as f64 * 2.0e5),
                tx_bps: r(2.0e5),
            },
        );
        s.apply_sample(
            at,
            Sample::Link {
                rssi_dbm: Some(r(-52.0 - i as f64 * 2.0)),
                noise_dbm: Some(r(-92.0)),
                tx_rate: Some(r(866.0)),
                ssid: Some("MyNet".into()),
            },
        );
    }
    for mbps in [430.0, 410.0, 380.0] {
        s.apply_sample(NOW, Sample::ThroughputProbe { mbps: r(mbps) });
    }
    s.apply_sample(
        NOW,
        Sample::Bufferbloat {
            idle_ms: r(20.0),
            loaded_ms: r(88.0),
        },
    );
    s.apply_sample(
        NOW,
        Sample::Reachability {
            endpoint: "http".into(),
            ok: true,
        },
    );
    s.apply_sample(
        NOW,
        Sample::PublicIp {
            ip: "203.0.113.7".into(),
        },
    );
    let hop = |addr: &str, rtt: Option<f64>, loss: f64| Hop {
        addr: addr.into(),
        min_rtt_ms: rtt.map(r),
        loss_pct: r(loss),
    };
    s.apply_sample(
        NOW,
        Sample::Routing {
            target: "1.1.1.1".into(),
            hops: 4,
            reachable: true,
            changed: false,
            detail: vec![
                hop("192.168.1.1", Some(1.8), 0.0),
                hop("10.0.0.1", Some(9.4), 0.0),
                hop("*", None, 100.0),
                hop("1.1.1.1", Some(24.0), 0.0),
            ],
        },
    );
    s
}

/// The title of each panel and the rows that it takes.
fn titles(s: &Screen) -> Vec<(String, u16, u16)> {
    s.panels
        .iter()
        .map(|p| (p.panel.block.title.text(), p.area.y, p.area.y + p.area.height))
        .collect()
}

/// Everything written on the screen.
fn all_text(s: &Screen) -> String {
    let mut out = String::new();
    for p in &s.panels {
        out.push_str(&p.panel.block.title.text());
        for l in &p.panel.lines {
            out.push_str(&l.text());
        }
    }
    for o in &s.overlays {
        out.push_str(&o.block.title.text());
        for l in &o.lines {
            out.push_str(&l.text());
        }
    }
    out.push_str(&s.footer.1.text());
    out
}

#[test]
fn full_dashboard_renders_at_222x56() {
    let text = all_text(&render(&test_state(), area(0, 0, 222, 56)));
    assert!(text.contains("NetPulse"));
    assert!(text.contains("DIAGNOSIS"));
    assert!(text.contains("AVAILABILITY"));
    assert!(text.contains("LATENCY & JITTER"));
    assert!(text.contains("PACKET LOSS"));
    assert!(text.contains("DNS HEALTH"));
    assert!(text.contains("THROUGHPUT"));
    assert!(text.contains("WI-FI SIGNAL"));
    assert!(text.contains("ROUTING & PATH"));
    assert!(text.contains("EVENTS"));
}

#[test]
fn thirds_splits_a_row_into_three_panels_that_tile_it() {
    let area = Area {
        x: 4,
        y: 2,
        width: 222,
        height: 17,
    };
    let (a, b, c) = thirds(area);
    let cols = [a, b, c];
    assert_eq!(cols.len(), 3);
    // No gaps and no overlap: each column starts where the previous one ended, and the
    // last one ends exactly at the right edge — a chart panel losing a column to
    // rounding is a visible seam in a full-screen grid.
    assert_eq!(cols[0].x, area.x);
    assert_eq!(cols[1].x, cols[0].x + cols[0].width);
    assert_eq!(cols[2].x, cols[1].x + cols[1].width);
    assert_eq!(cols[2].x + cols[2].width, area.x + area.width);
    for c in cols.iter() {
        assert_eq!(c.height, area.height);
        assert_eq!(c.y, area.y);
    }
}

#[test]
fn metric_grid_is_two_rows_of_three_chart_panels() {
    let s = render(&test_state(), area(0, 0, 222, 56));
    // Fixed chrome above the grid: header 3 + diagnosis 5 + availability 3 + detail 4.
    // Below it: events 6 + footer 1. Everything between is the 2×3 metric grid.
    let (grid_top, grid_bottom) = (15u16, 56 - 7);
    let placed = titles(&s);
    let row_of = |title: &str| -> Option<u16> {
        placed.iter().find(|(t, _, _)| t.contains(title)).map(|(_, y, _)| *y)
    };
    // Row 1 titles share a line; so do row 2's. Two distinct lines, both in the grid.
    let top: Vec<u16> = ["LATENCY & JITTER", "DNS HEALTH", "PACKET LOSS"]
        .iter()
        .map(|t| row_of(t).unwrap_or_else(|| panic!("missing panel: {t}")))
        .collect();
    let bottom: Vec<u16> = ["THROUGHPUT", "WI-FI SIGNAL", "ROUTING & PATH"]
        .iter()
        .map(|t| row_of(t).unwrap_or_else(|| panic!("missing panel: {t}")))
        .collect();
    assert!(
        top.iter().all(|&y| y == top[0]),
        "row 1 panels should be side by side, found rows {top:?}"
    );
    assert!(
        bottom.iter().all(|&y| y == bottom[0]),
        "row 2 panels should be side by side, found rows {bottom:?}"
    );
    assert!(
        top[0] >= grid_top,
        "grid row 1 at {} overlaps chrome",
        top[0]
    );
    assert!(
        bottom[0] > top[0] && bottom[0] < grid_bottom,
        "grid row 2 at {} should sit below row 1 and above the events feed",
        bottom[0]
    );
}

#[test]
fn detail_band_holds_link_and_transport() {
    let s = render(&test_state(), area(0, 0, 222, 56));
    // The detail band region: header (3) + diagnosis (5) + availability (3)
    // = rows 0..11, then the link | transport detail band (4 rows) at rows 11..15.
    let band: String = titles(&s)
        .iter()
        .filter(|(_, top, bottom)| *top >= 11 && *bottom <= 15)
        .map(|(t, _, _)| t.as_str())
        .collect();
    assert!(
        band.contains("LINK & REACHABILITY"),
        "link should sit in the detail band: {band}"
    );
    assert!(
        band.contains("TRANSPORT"),
        "transport should sit in the detail band: {band}"
    );
    // Routing graduated from the text band to a full chart panel in the grid below.
    assert!(
        !band.contains("ROUTING & PATH"),
        "routing belongs in the metric grid now, not the detail band: {band}"
    );

    // The six chart panels and events still render below.
    let all = all_text(&s);
    for title in [
        "LATENCY & JITTER",
        "DNS HEALTH",
        "PACKET LOSS",
        "THROUGHPUT",
        "WI-FI SIGNAL",
        "ROUTING & PATH",
        "EVENTS",
    ] {
        assert!(all.contains(title), "missing panel: {title}");
    }
}

#[test]
fn the_bands_have_their_heights() {
    let g = grid(area(0, 0, 222, 56));
    assert_eq!(g.header, area(0, 0, 222, 3));
    assert_eq!(g.diagnosis, area(0, 3, 222, 5));
    assert_eq!(g.availability, area(0, 8, 222, 3));
    assert_eq!(g.link, area(0, 11, 111, 4));
    assert_eq!(g.transport, area(111, 11, 111, 4));
    assert_eq!((g.latency.y, g.throughput.y + g.throughput.height), (15, 49));
    assert_eq!(g.events, area(0, 49, 222, 6));
    assert_eq!(g.footer, area(0, 55, 222, 1));
}

#[test]
fn nothing_leaves_a_screen_that_is_too_small() {
    for (w, h) in [(0, 0), (1, 1), (10, 5), (40, 12), (80, 24)] {
        let whole = area(3, 2, w, h);
        let s = render(&test_state(), whole);
        let mut places: Vec<Area> = s.panels.iter().map(|p| p.area).collect();
        places.push(s.footer.0);
        for p in places {
            assert!(p.x >= 3 && p.x + p.width <= 3 + w, "{p:?} leaves {whole:?}");
            assert!(p.y >= 2 && p.y + p.height <= 2 + h, "{p:?} leaves {whole:?}");
        }
    }
}

#[test]
fn a_frame_takes_the_room_that_a_bordered_block_takes() {
    for (w, h) in [(0, 0), (1, 1), (2, 3), (30, 9)] {
        let a = area(5, 6, w, h);
        let block = ratatui::widgets::Block::default().borders(ratatui::widgets::Borders::ALL);
        let r = block.inner(ratatui::layout::Rect {
            x: 5,
            y: 6,
            width: w,
            height: h,
        });
        assert_eq!(inner_area(a), area(r.x, r.y, r.width, r.height));
    }
}

#[test]
fn dashboard_layout_snapshot() {
    // The place of every panel at once is the only assertion that catches a panel silently
    // stealing rows from its neighbour: every targeted test still passes when the grid is one
    // row off.
    let s = render(&populated_state(), area(0, 0, 222, 56));
    let expected = [
        ("NetPulse", area(0, 0, 222, 3), area(1, 1, 220, 1), 0),
        ("DIAGNOSIS", area(0, 3, 222, 5), area(1, 4, 220, 3), 0),
        ("AVAILABILITY", area(0, 8, 222, 3), area(1, 9, 220, 1), 0),
        ("LINK & REACHABILITY", area(0, 11, 111, 4), area(1, 12, 109, 2), 0),
        ("TRANSPORT", area(111, 11, 111, 4), area(112, 12, 109, 2), 0),
        ("LATENCY & JITTER", area(0, 15, 74, 17), area(1, 16, 72, 3), 1),
        ("DNS HEALTH", area(74, 15, 74, 17), area(75, 16, 72, 1), 1),
        ("PACKET LOSS", area(148, 15, 74, 17), area(149, 16, 72, 3), 1),
        ("THROUGHPUT", area(0, 32, 74, 17), area(1, 33, 72, 3), 2),
        ("WI-FI SIGNAL", area(74, 32, 74, 17), area(75, 33, 72, 1), 1),
        ("ROUTING & PATH", area(148, 32, 74, 17), area(149, 33, 72, 15), 0),
        ("EVENTS", area(0, 49, 222, 6), area(1, 50, 220, 4), 0),
    ];
    assert_eq!(s.panels.len(), expected.len());
    for (p, (title, frame, text, charts)) in s.panels.iter().zip(expected) {
        let shown = p.panel.block.title.text() + &p.panel.lines[0].text();
        assert!(shown.contains(title), "{title} expected, found {shown}");
        assert_eq!(p.area, frame, "{title}");
        assert_eq!(p.text, text, "{title}");
        assert_eq!(p.panel.charts.len(), charts, "{title}");
        if charts > 0 {
            let plot = p.plot.expect("room for the charts");
            assert_eq!(plot, area(text.x, text.y + text.height, 72, 15 - text.height));
        }
    }
    assert_eq!(s.footer.0, area(0, 55, 222, 1));
    assert!(s.overlays.is_empty());
}

#[test]
fn the_parts_of_any_screen_tile_it() {
    for (x, y, w, h) in [(0, 0, 80, 24), (7, 3, 101, 33), (1, 1, 1, 1), (0, 0, 0, 0)] {
        let whole = area(x, y, w, h);
        let g = grid(whole);
        let column = [
            g.header,
            g.diagnosis,
            g.availability,
            g.link,
            g.latency,
            g.throughput,
            g.events,
            g.footer,
        ];
        let mut row = y;
        for band in column {
            assert_eq!(band.y, row, "{whole:?}");
            row += band.height;
        }
        assert_eq!(row, y + h);
        assert!(g.latency.height.abs_diff(g.throughput.height) <= 1, "{whole:?}");
        for line in [
            vec![g.link, g.transport],
            vec![g.latency, g.dns, g.loss],
            vec![g.throughput, g.wifi_signal, g.routing],
        ] {
            let mut col = x;
            let first = line[0].width;
            for part in line {
                assert!(part.width.abs_diff(first) <= 1, "{whole:?}");
                assert_eq!(part.x, col, "{whole:?}");
                col += part.width;
            }
            assert_eq!(col, x + w);
        }
    }
}

#[test]
fn an_odd_cell_goes_to_one_of_the_parts() {
    for width in 0..20 {
        let (a, b) = halves(area(3, 0, width, 2), Way::Across);
        assert_eq!((a.x, b.x, b.x + b.width), (3, 3 + a.width, 3 + width));
        assert!(a.width.abs_diff(b.width) <= 1);
        let (a, b, c) = thirds(area(3, 0, width, 2));
        assert_eq!((a.x, b.x), (3, 3 + a.width));
        assert_eq!((c.x, c.x + c.width), (b.x + b.width, 3 + width));
        assert!(a.width.abs_diff(b.width) <= 1 && b.width.abs_diff(c.width) <= 1);
    }
    let charts = chart_areas(area(0, 4, 9, 17), 5);
    let mut row = 4;
    for c in &charts {
        assert_eq!(c.y, row);
        assert!(c.height == 3 || c.height == 4);
        row += c.height;
    }
    assert_eq!(row, 4 + 17);
}

#[test]
fn halves_and_chart_areas_share_the_room_evenly() {
    let whole = area(0, 10, 40, 8);
    assert_eq!(halves(whole, Way::Down), (area(0, 10, 40, 4), area(0, 14, 40, 4)));
    assert_eq!(halves(whole, Way::Across), (area(0, 10, 20, 8), area(20, 10, 20, 8)));
    assert_eq!(chart_areas(whole, 0), vec![]);
    assert_eq!(chart_areas(whole, 1), vec![whole]);
    assert_eq!(
        chart_areas(whole, 2),
        vec![area(0, 10, 40, 4), area(0, 14, 40, 4)]
    );
}

#[test]
fn a_panel_has_its_lines_above_its_charts() {
    let mut state = test_state();
    state.apply_sample(
        NOW,
        Sample::Latency {
            target: "1.1.1.1".into(),
            rtt_ms: Some(12_000_000_000),
        },
    );
    let frame = area(0, 15, 74, 17);
    let p = place(frame, network_dash::ui::panels::latency(&state, 15));
    assert_eq!(p.text, area(1, 16, 72, p.panel.rows));
    let plot = p.plot.expect("there is room for a chart");
    assert_eq!(plot.y, p.text.y + p.text.height);
    assert_eq!(plot.y + plot.height, frame.y + frame.height - 1);
}

#[test]
fn overlays_are_drawn_only_when_asked_for() {
    let whole = area(0, 0, 120, 40);
    let mut state = test_state();
    let shown = |s: &AppState| -> Vec<String> {
        render(s, whole).overlays.iter().map(|o| o.block.title.text()).collect()
    };
    assert!(shown(&state).is_empty());
    state.apply_action(Action::ToggleHelp);
    assert_eq!(shown(&state).len(), 1);
    // The picker takes the place of the help; with both, the picker is on top.
    state.apply_action(Action::OpenThemePicker);
    assert_eq!(shown(&state).len(), 1);
    state.show_help = true;
    let titles = shown(&state);
    assert_eq!(titles.len(), 2);
    assert!(titles[0].contains("HELP"), "{titles:?}");
    assert!(titles[1].contains("THEME"), "{titles:?}");
}

#[test]
fn a_layout_decides_only_where_things_go() {
    let whole = area(0, 0, 100, 30);
    let small = area(10, 10, 20, 5);
    let g = Grid {
        header: area(0, 0, 100, 3),
        diagnosis: area(0, 3, 100, 5),
        availability: area(0, 8, 100, 3),
        link: small,
        transport: small,
        latency: small,
        dns: small,
        loss: small,
        throughput: small,
        wifi_signal: small,
        routing: small,
        events: area(0, 20, 100, 6),
        footer: area(0, 29, 100, 1),
    };
    let s = fill(&test_state(), whole, &g);
    assert_eq!(s.panels.len(), 12);
    assert!(s.panels[0].panel.lines[0].text().contains("NetPulse"));
    assert_eq!(s.panels[5].area, small);
    assert_eq!(s.footer.0, g.footer);
}

#[test]
fn every_frame_shows_its_health() {
    let mut c = Config::default();
    c.targets.internet = vec!["1.1.1.1".into()];
    c.thresholds.trip_after_secs = 0;
    let mut state = AppState::new(c);
    for _ in 0..2 {
        state.apply_sample(
            NOW,
            Sample::Latency {
                target: "1.1.1.1".into(),
                rtt_ms: Some(400_000_000_000),
            },
        );
    }
    let s = render(&state, area(0, 0, 222, 56));
    let border = |title: &str| {
        let found = s.panels.iter().find(|p| p.panel.block.title.text().contains(title));
        found.expect("a panel").panel.block.border
    };
    let style = |h: Health| state.theme.border_style(h);
    // The overall state is that of the latency panel, the worst one.
    assert_eq!(state.overall_health(), Health::Crit);
    assert_eq!(s.panels[0].panel.block.border, style(Health::Crit));
    assert_eq!(border("AVAILABILITY"), style(Health::Crit));
    assert_eq!(border("DIAGNOSIS"), style(Health::Crit));
    assert_eq!(border("LATENCY & JITTER"), style(Health::Crit));
    for quiet in [
        "LINK & REACHABILITY",
        "TRANSPORT",
        "DNS HEALTH",
        "PACKET LOSS",
        "THROUGHPUT",
        "WI-FI SIGNAL",
        "ROUTING & PATH",
    ] {
        assert_eq!(border(quiet), style(Health::Good), "{quiet}");
    }
}
