//! The wireless panels: the signal's trend, and the link with its endpoint checklist.

use vstd::prelude::*;

use crate::app::rollup::panel;
use crate::app::state::{IfaceState, LinkModel, ReachState};
use crate::app::{AppModel, AppState};
use crate::diagnosis::join;
use crate::format::{decimal, fixed0, push_decimal};

use crate::metrics::MetricId;
use crate::text::{push_text, strings};
use crate::ui::charts::{
    axis_span, band, chart_span, charts, plotted, push_chart, push_series_line, traces, Chart,
    ChartModel, LineSeries, Trace,
};
use crate::ui::panels::{around, joined, whole};
use crate::ui::theme::{series_color_of, Palette, Style};
use crate::ui::view::{
    chart_fits, colored, fits_chart, health_frame, lines, metric_block, new_text_panel, plain,
    push_line, raw, styled, text_panel, Line, Panel, PanelModel, SpanModel,
};
use crate::units::{clamped, difference, Reading};

verus! {

/// The least height of the signal axis: twelve dB.
pub const SIGNAL_SPAN: Reading = 12_000_000_000;

/// What the signal panel says in words, part by part.
pub open spec fn signal_parts(l: LinkModel, rssi: Reading) -> Seq<Seq<char>> {
    let first = seq!["rssi "@ + fixed0(rssi as int) + " dBm"@];
    let with_noise = match l.noise_dbm {
        Some(n) => first.push("snr "@ + fixed0(clamped(rssi - n)) + " dB"@).push(
            "noise "@ + fixed0(n as int) + " dBm"@,
        ),
        None => first,
    };
    match l.tx_rate {
        Some(tx) => with_noise.push("tx "@ + fixed0(tx as int) + " Mbps"@),
        None => with_noise,
    }
}

/// The last sample index of a history.
pub open spec fn last_sample(s: Seq<Reading>) -> usize {
    (if s.len() == 0 {
        0
    } else {
        s.len() - 1
    }) as usize
}

/// The signal trace, the noise trace while it has kept pace with it, and both bounds.
pub open spec fn signal_traces(m: AppModel, values: Seq<Reading>) -> Seq<Trace> {
    let thr = m.config.thresholds.rssi;
    let x = last_sample(values);
    let signal = seq![plotted("rssi"@, series_color_of(m.theme, 0), values)];
    let both = match m.link.noise_history {
        Some(n) => if n.items.len() == values.len() {
            signal.push(plotted("noise"@, series_color_of(m.theme, 1), n.items))
        } else {
            signal
        },
        None => signal,
    };
    both.push(band(m.theme.warn, thr.warn, x)).push(band(m.theme.crit, thr.crit, x))
}

/// The signal chart.
pub open spec fn signal_chart(m: AppModel, values: Seq<Reading>) -> ChartModel {
    let s = signal_traces(m, values);
    let y = axis_span(s, SIGNAL_SPAN);
    ChartModel {
        series: s,
        x_max: last_sample(values),
        y_min: y.low,
        y_max: y.high,
        bottom: fixed0(y.low as int),
        top: ""@ + fixed0(y.high as int) + " dBm"@,
    }
}

/// The Wi-Fi signal panel.
#[verifier::opaque]
pub open spec fn wifi_panel(m: AppModel, height: u16) -> PanelModel {
    let frame = health_frame("WI-FI SIGNAL"@, panel(m, MetricId::Link), m.theme);
    match m.link.rssi_dbm {
        None => text_panel(
            frame,
            height,
            seq![seq![styled("no wireless link"@, colored(m.theme.muted))]],
        ),
        Some(rssi) => PanelModel {
            block: frame,
            rows: 1,
            lines: seq![seq![raw(join(signal_parts(m.link, rssi), "   "@))]],
            charts: match m.link.rssi_history {
                Some(h) => if chart_fits(height, 1) {
                    seq![signal_chart(m, h.items)]
                } else {
                    Seq::empty()
                },
                None => Seq::empty(),
            },
        },
    }
}

impl AppState {
    fn signal_text(&self, rssi: Reading) -> (s: String)
        ensures
            s@ == join(signal_parts(self@.link, rssi), "   "@),
    {
        let mut parts: Vec<String> = Vec::new();
        assert(strings(parts@) =~= Seq::empty());
        push_text(&mut parts, around("rssi ", rssi, " dBm"));
        match self.link.noise_dbm {
            Some(n) => {
                push_text(&mut parts, around("snr ", difference(rssi, n), " dB"));
                push_text(&mut parts, around("noise ", n, " dBm"));
            },
            None => {},
        }
        match self.link.tx_rate {
            Some(tx) => push_text(&mut parts, around("tx ", tx, " Mbps")),
            None => {},
        }
        joined(&parts, "   ")
    }

    fn signal_plot(&self, values: Vec<Reading>) -> (c: Chart)
        ensures
            c@ == signal_chart(self@, values@),
    {
        let x_max: usize = if values.len() == 0 {
            0
        } else {
            values.len() - 1
        };
        let mut series: Vec<LineSeries> = Vec::new();
        assert(traces(series@) =~= Seq::empty());
        push_series_line(
            &mut series,
            LineSeries::from_values("rssi", self.theme.series_color(0), &values),
        );
        // Noise only while it has kept pace with the signal: a shorter series is stretched
        // across the same x axis, and SNR read off two misaligned traces is a fiction.
        match &self.link.noise_history {
            Some(noise) => {
                if noise.len() == values.len() {
                    push_series_line(
                        &mut series,
                        LineSeries::from_values(
                            "noise",
                            self.theme.series_color(1),
                            &noise.values(),
                        ),
                    );
                }
            },
            None => {},
        }
        // Both bounds are always banded here, unlike latency: dBm has a narrow natural
        // domain, so a -80 crit line can't squash the trace the way a 150ms one would.
        let thr = self.config.thresholds.rssi;
        push_series_line(&mut series, LineSeries::reference(self.theme.warn, thr.warn, x_max));
        push_series_line(&mut series, LineSeries::reference(self.theme.crit, thr.crit, x_max));
        let y = chart_span(&series, SIGNAL_SPAN);
        Chart {
            series,
            x_max,
            y_min: y.low,
            y_max: y.high,
            bottom: whole(y.low),
            top: around("", y.high, " dBm"),
        }
    }
}

/// Wi-Fi signal panel: the radio's own trend line. Separate from LINK because a slowly
/// decaying RSSI is only visible as history: the current number always looks plausible.
pub fn wifi_signal(state: &AppState, height: u16) -> (p: Panel)
    ensures
        p@ == wifi_panel(state@, height),
{
    reveal(wifi_panel);
    let block = metric_block("WI-FI SIGNAL", state.panel_health(MetricId::Link), &state.theme);
    let mut shown: Vec<Line> = Vec::new();
    assert(lines(shown@) =~= Seq::empty());
    match state.link.rssi_dbm {
        None => {
            push_line(
                &mut shown,
                Line::new().styled("no wireless link", Style::colored(state.theme.muted)),
            );
            new_text_panel(block, height, shown)
        },
        Some(rssi) => {
            push_line(&mut shown, Line::new().raw(state.signal_text(rssi).as_str()));
            let mut drawn: Vec<Chart> = Vec::new();
            assert(charts(drawn@) =~= Seq::empty());
            match &state.link.rssi_history {
                Some(history) => {
                    if fits_chart(height, 1) {
                        push_chart(&mut drawn, state.signal_plot(history.values()));
                    }
                },
                None => {},
            }
            Panel { block, rows: 1, lines: shown, charts: drawn }
        },
    }
}

// ---------------------------------------------------------------------------------------
// Link
// ---------------------------------------------------------------------------------------

/// A value that may be missing, as text; a dash where it is.
pub open spec fn or_dash(t: Option<Seq<char>>) -> Seq<char> {
    match t {
        Some(x) => x,
        None => "—"@,
    }
}

/// The card has counted errors in either direction.
pub open spec fn has_errors(i: IfaceState) -> bool {
    i.rx_errors matches Some(rx) && (i.tx_errors matches Some(tx) && rx + tx > 0)
}

/// `parts` and one more, where it is there.
pub open spec fn and_maybe(parts: Seq<Seq<char>>, more: Option<Seq<char>>) -> Seq<Seq<char>> {
    match more {
        Some(t) => parts.push(t),
        None => parts,
    }
}

/// What the link panel says in words, part by part.
pub open spec fn link_parts(m: AppModel) -> Seq<Seq<char>> {
    let l = m.link;
    let name = seq!["WiFi  "@ + or_dash(l.ssid)];
    let signal = name.push(
        match l.rssi_dbm {
            Some(v) => ""@ + fixed0(v as int) + " dBm"@,
            None => "—"@,
        },
    );
    let quality = and_maybe(
        signal,
        match (l.rssi_dbm, l.noise_dbm) {
            (Some(r), Some(n)) => Some("SNR "@ + fixed0(clamped(r - n)) + " dB"@),
            _ => None,
        },
    );
    let rate = and_maybe(
        quality,
        match l.tx_rate {
            Some(tx) => Some(""@ + fixed0(tx as int) + " Mbps"@),
            None => None,
        },
    );
    let interface = and_maybe(rate, m.interface);
    let mtu = and_maybe(
        interface,
        match m.mtu {
            Some(x) => Some("MTU "@ + decimal(x as nat)),
            None => None,
        },
    );
    let vpn = and_maybe(
        mtu,
        if m.vpn {
            Some("VPN"@)
        } else {
            None
        },
    );
    and_maybe(
        vpn,
        if has_errors(m.iface) {
            Some(
                "err "@ + decimal(m.iface.rx_errors->0 as nat) + " rx / "@ + decimal(
                    m.iface.tx_errors->0 as nat,
                ) + " tx"@,
            )
        } else {
            None
        },
    )
}

/// The endpoint checklist, on one line.
pub open spec fn checklist(p: Palette, s: Seq<(Seq<char>, ReachState)>) -> Seq<SpanModel>
    decreases s.len(),
{
    if s.len() == 0 {
        Seq::empty()
    } else {
        checklist(p, s.drop_last()).push(raw(s.last().0 + " "@)).push(
            if s.last().1.ok {
                styled("✓"@, colored(p.ok))
            } else {
                styled("✗"@, colored(p.crit))
            },
        ).push(raw("  "@))
    }
}

/// The link and reachability panel.
#[verifier::opaque]
pub open spec fn link_panel(m: AppModel, height: u16) -> PanelModel {
    text_panel(
        health_frame("LINK & REACHABILITY"@, panel(m, MetricId::Link), m.theme),
        height,
        seq![seq![raw(join(link_parts(m), "   "@))], checklist(m.theme, m.reachability)],
    )
}

impl AppState {
    fn link_text(&self) -> (s: String)
        ensures
            s@ == join(link_parts(self@), "   "@),
    {
        let mut parts: Vec<String> = Vec::new();
        assert(strings(parts@) =~= Seq::empty());
        let mut name = "WiFi  ".to_owned();
        match &self.link.ssid {
            Some(ssid) => name.append(ssid.as_str()),
            None => name.append("—"),
        }
        push_text(&mut parts, name);
        // Signal quality and negotiated rate: the clearest "Wi-Fi is slow" signals.
        match self.link.rssi_dbm {
            Some(v) => push_text(&mut parts, around("", v, " dBm")),
            None => push_text(&mut parts, "—".to_owned()),
        }
        match (self.link.rssi_dbm, self.link.noise_dbm) {
            (Some(r), Some(n)) => {
                push_text(&mut parts, around("SNR ", difference(r, n), " dB"))
            },
            _ => {},
        }
        match self.link.tx_rate {
            Some(tx) => push_text(&mut parts, around("", tx, " Mbps")),
            None => {},
        }
        match &self.interface {
            Some(i) => push_text(&mut parts, i.clone()),
            None => {},
        }
        match self.mtu {
            Some(x) => {
                let mut t = "MTU ".to_owned();
                push_decimal(&mut t, x as u64);
                push_text(&mut parts, t);
            },
            None => {},
        }
        if self.vpn {
            push_text(&mut parts, "VPN".to_owned());
        }
        // Only when there is something to report. A permanent "err 0 rx, 0 tx" costs a
        // quarter of the line to say "normal", and trains the eye to skip the place the
        // number appears.
        match (self.iface.rx_errors, self.iface.tx_errors) {
            (Some(rx), Some(tx)) => {
                if rx > 0 || tx > 0 {
                    let mut t = "err ".to_owned();
                    push_decimal(&mut t, rx);
                    t.append(" rx / ");
                    push_decimal(&mut t, tx);
                    t.append(" tx");
                    push_text(&mut parts, t);
                }
            },
            _ => {},
        }
        joined(&parts, "   ")
    }

    fn checklist_line(&self) -> (l: Line)
        ensures
            l@ == checklist(self.theme@, self@.reachability),
    {
        let ghost all = self@.reachability;
        let n: usize = self.reachability.len();
        let mut l = Line::new();
        assert(all.take(0) =~= Seq::empty());
        for i in 0..n
            invariant
                n == all.len(),
                all == self.reachability@,
                l@ == checklist(self.theme@, all.take(i as int)),
        {
            assert(all.take(i + 1).drop_last() =~= all.take(i as int));
            assert(all.take(i + 1).last() == all[i as int]);
            let mut name = self.reachability.key_at(i).clone();
            name.append(" ");
            l.push(name, Style::plain());
            if self.reachability.value_at(i).ok {
                l.push("✓".to_owned(), Style::colored(self.theme.ok));
            } else {
                l.push("✗".to_owned(), Style::colored(self.theme.crit));
            }
            l.push("  ".to_owned(), Style::plain());
        }
        assert(all.take(n as int) =~= all);
        l
    }
}

/// Link & reachability panel: wireless signal + endpoint checklist, packed onto a line each
/// to fit the compact band.
pub fn link(state: &AppState, height: u16) -> (p: Panel)
    ensures
        p@ == link_panel(state@, height),
{
    reveal(link_panel);
    let block = metric_block(
        "LINK & REACHABILITY",
        state.panel_health(MetricId::Link),
        &state.theme,
    );
    let mut shown: Vec<Line> = Vec::new();
    assert(lines(shown@) =~= Seq::empty());
    push_line(&mut shown, Line::new().raw(state.link_text().as_str()));
    push_line(&mut shown, state.checklist_line());
    new_text_panel(block, height, shown)
}

/// The signal is given first; its distance from the noise and the noise follow where the noise
/// is known, and the rate last where it is.
pub proof fn law_the_signal_is_described_by_what_is_known(l: LinkModel, rssi: Reading)
    ensures
        ({
            let parts = signal_parts(l, rssi);
            &&& parts[0] == "rssi "@ + fixed0(rssi as int) + " dBm"@
            &&& parts.len() == 1 + (if l.noise_dbm is Some {
                2int
            } else {
                0
            }) + (if l.tx_rate is Some {
                1int
            } else {
                0
            })
            &&& l.noise_dbm matches Some(n) ==> parts[2] == "noise "@ + fixed0(n as int)
                + " dBm"@ && (i64::MIN <= rssi - n <= i64::MAX ==> parts[1] == "snr "@ + fixed0(
                rssi - n,
            ) + " dB"@)
            &&& l.tx_rate matches Some(tx) ==> parts.last() == "tx "@ + fixed0(tx as int)
                + " Mbps"@
        }),
{
}

/// The signal panel says that there is no wireless link exactly where no signal is known, and
/// draws the signal's past where there is one and room for it.
pub proof fn law_the_signal_panel_needs_a_signal(m: AppModel, height: u16)
    ensures
        ({
            let p = wifi_panel(m, height);
            &&& p.lines.len() == 1
            &&& m.link.rssi_dbm is None ==> p.lines[0][0].text == "no wireless link"@
                && p.charts.len() == 0
            &&& m.link.rssi_dbm matches Some(r) ==> p.lines[0][0].text == join(
                signal_parts(m.link, r),
                "   "@,
            )
            &&& m.link.rssi_dbm is Some ==> (p.charts.len() == 1 <==> height >= 4
                && m.link.rssi_history is Some)
        }),
{
    reveal(wifi_panel);
}

/// The signal chart shows the signal, the noise only where it has as many readings, and both
/// bounds, the lesser one in the color of a warning.
pub proof fn law_noise_is_drawn_while_it_keeps_pace(m: AppModel, values: Seq<Reading>)
    ensures
        ({
            let s = signal_traces(m, values);
            let thr = m.config.thresholds.rssi;
            let pace = m.link.noise_history is Some && m.link.noise_history->0.items.len()
                == values.len();
            &&& s[0].points == plotted("rssi"@, series_color_of(m.theme, 0), values).points
            &&& s.len() == (if pace {
                4int
            } else {
                3
            })
            &&& pace ==> s[1] == plotted(
                "noise"@,
                series_color_of(m.theme, 1),
                m.link.noise_history->0.items,
            )
            &&& s[s.len() - 2].color == m.theme.warn && s[s.len() - 2].points[0].y == thr.warn
            &&& s.last().color == m.theme.crit && s.last().points[0].y == thr.crit
        }),
{
}

/// What the link panel says: the network and the signal always, a dash for what is not known;
/// then the quality, the rate, the interface, its largest packet, that there is a tunnel and
/// that there are errors, each only where it is so.
pub proof fn law_the_link_is_described_by_what_is_known(m: AppModel)
    ensures
        ({
            let parts = link_parts(m);
            let quality: int = if m.link.rssi_dbm is Some && m.link.noise_dbm is Some {
                1
            } else {
                0
            };
            let rate: int = if m.link.tx_rate is Some {
                1
            } else {
                0
            };
            let interface: int = if m.interface is Some {
                1
            } else {
                0
            };
            let mtu: int = if m.mtu is Some {
                1
            } else {
                0
            };
            let vpn: int = if m.vpn {
                1
            } else {
                0
            };
            let failed = m.iface.rx_errors is Some && m.iface.tx_errors is Some
                && m.iface.rx_errors->0 + m.iface.tx_errors->0 > 0;
            let errors: int = if failed {
                1
            } else {
                0
            };
            &&& parts.len() == 2 + quality + rate + interface + mtu + vpn + errors
            &&& m.link.ssid matches Some(s) ==> parts[0] == "WiFi  "@ + s
            &&& m.link.ssid is None ==> parts[0] == "WiFi  "@ + "—"@
            &&& m.link.rssi_dbm is None ==> parts[1] == "—"@
            &&& m.link.rssi_dbm matches Some(r) ==> parts[1] == ""@ + fixed0(r as int) + " dBm"@
            &&& m.link.tx_rate matches Some(tx) ==> parts[2 + quality] == ""@ + fixed0(tx as int)
                + " Mbps"@
            &&& m.interface matches Some(i) ==> parts[2 + quality + rate] == i
            &&& m.mtu matches Some(x) ==> parts[2 + quality + rate + interface] == "MTU "@
                + decimal(x as nat)
            &&& m.vpn ==> parts[2 + quality + rate + interface + mtu] == "VPN"@
            &&& failed ==> parts.last() == "err "@ + decimal(m.iface.rx_errors->0 as nat)
                + " rx / "@ + decimal(m.iface.tx_errors->0 as nat) + " tx"@
        }),
{
}

/// The checklist ticks off every endpoint that passed its last check and crosses out every
/// other, in their order.
pub proof fn law_the_checklist_checks_every_endpoint(
    p: Palette,
    s: Seq<(Seq<char>, ReachState)>,
    i: int,
)
    requires
        0 <= i < s.len(),
    ensures
        checklist(p, s).len() == 3 * s.len(),
        checklist(p, s)[3 * i].text == s[i].0 + " "@,
        s[i].1.ok ==> checklist(p, s)[3 * i + 1] == styled("✓"@, colored(p.ok)),
        !s[i].1.ok ==> checklist(p, s)[3 * i + 1] == styled("✗"@, colored(p.crit)),
    decreases s.len(),
{
    let init = s.drop_last();
    if init.len() > 0 {
        law_the_checklist_checks_every_endpoint(
            p,
            init,
            if i < init.len() {
                i
            } else {
                0
            },
        );
    } else {
        assert(checklist(p, init).len() == 0);
    }
    if i < init.len() {
        assert(init[i] == s[i]);
    }
}

/// The signal chart spans what is on it, with at least twelve decibels and air above and below.
pub proof fn law_the_signal_chart_spans_the_signal(m: AppModel, values: Seq<Reading>)
    requires
        0 < values.len() <= usize::MAX,
    ensures
        ({
            let c = signal_chart(m, values);
            let y = axis_span(c.series, 12_000_000_000);
            &&& c.series == signal_traces(m, values)
            &&& c.x_max == values.len() - 1
            &&& c.y_min == y.low && c.y_max == y.high
            &&& c.bottom == fixed0(c.y_min as int)
            &&& c.top == ""@ + fixed0(c.y_max as int) + " dBm"@
        }),
{
}

} // verus!
