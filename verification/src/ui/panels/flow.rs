//! The throughput panel: passive rates, probed capacity and latency under load.

use vstd::prelude::*;

use crate::app::rollup::panel;
use crate::app::state::{series_model, ThroughputModel};
use crate::app::{AppModel, AppState};
use crate::format::{fixed0, push_fixed0, push_scaled1, scaled1};
use crate::health::Thresholds;
use crate::history::{last_of, min_of, percentile_of, Bounded, Series};
use crate::metrics::MetricId;
use crate::ui::charts::{
    band, chart_bounds, charts, highest, last_index, plotted, push_chart, push_series_line, traces,
    Chart, ChartModel, LineSeries, Trace,
};
use crate::ui::panels::{around, or_zero, value_or_zero};
use crate::ui::theme::{Color, Palette, Style};
use crate::ui::view::{
    chart_fits, colored, fits_chart, health_frame, lines, metric_block, push_line, raw, styled,
    Line, Panel, PanelModel, SpanModel,
};
use crate::units::Reading;

verus! {

/// The least top of the rate axis: one byte a second.
pub const RATE_FLOOR: Reading = 1_000_000_000;

/// The least top of the capacity axis: ten megabits a second.
pub const CAPACITY_FLOOR: Reading = 10_000_000_000;

/// A thousand, and a million, bytes a second.
pub const KILOBYTE: Reading = 1_000_000_000_000;

pub const MEGABYTE: Reading = 1_000_000_000_000_000;

/// A bytes-per-second rate, compactly.
pub open spec fn rate_text(bps: Reading) -> Seq<char> {
    if bps >= MEGABYTE {
        Seq::<char>::empty() + scaled1(bps as int, 1_000_000) + " MB/s"@
    } else if bps >= KILOBYTE {
        Seq::<char>::empty() + scaled1(bps as int, 1_000) + " KB/s"@
    } else {
        Seq::<char>::empty() + fixed0(bps as int) + " B/s"@
    }
}

/// Format a bytes-per-second rate compactly.
pub fn human_rate(bps: Reading) -> (s: String)
    ensures
        s@ == rate_text(bps),
{
    let mut s = String::new();
    if bps >= MEGABYTE {
        push_scaled1(&mut s, bps, 1_000_000);
        s.append(" MB/s");
    } else if bps >= KILOBYTE {
        push_scaled1(&mut s, bps, 1_000);
        s.append(" KB/s");
    } else {
        push_fixed0(&mut s, bps);
        s.append(" B/s");
    }
    s
}

/// The latest value of a series that may not be there.
pub open spec fn newest(s: Option<Bounded<Reading>>) -> Option<Reading> {
    match s {
        Some(x) => last_of(x.items),
        None => None,
    }
}

/// The capacity line: the last probe, and what a load adds to the latency, with its tail.
pub open spec fn capacity_text(t: ThroughputModel) -> Seq<char> {
    let probe = match t.last_mbps {
        Some(m) => "capacity: "@ + fixed0(m as int) + " Mbps"@,
        None => "capacity: "@ + "—"@,
    };
    match t.added_latency_ms {
        Some(bloat) => match last_of(bloat.items) {
            Some(cur) => {
                let now = probe + ("   load +"@ + fixed0(cur as int) + "ms"@);
                match percentile_of(bloat.items, 95_000_000_000) {
                    Some(p95) => now + (" (p95 +"@ + fixed0(p95 as int) + "ms)"@),
                    None => now,
                }
            },
            None => probe,
        },
        None => probe,
    }
}

/// The three lines of the panel.
pub open spec fn flow_lines(m: AppModel) -> Seq<Seq<SpanModel>> {
    let t = m.throughput;
    seq![
        seq![
            styled("▼ rx "@, colored(m.theme.rx)),
            raw(rate_text(or_zero(newest(t.rx_bps)) as Reading)),
        ],
        seq![
            styled("▲ tx "@, colored(m.theme.tx)),
            raw(rate_text(or_zero(newest(t.tx_bps)) as Reading)),
        ],
        seq![raw(capacity_text(t))],
    ]
}

/// `s` and the trace of a series, where it is there.
pub open spec fn with_trace(
    s: Seq<Trace>,
    name: Seq<char>,
    c: Color,
    values: Option<Bounded<Reading>>,
) -> Seq<Trace> {
    match values {
        Some(v) => s.push(plotted(name, c, v.items)),
        None => s,
    }
}

/// The rate traces.
pub open spec fn rate_traces(m: AppModel) -> Seq<Trace> {
    with_trace(
        with_trace(Seq::empty(), "rx"@, m.theme.rx, m.throughput.rx_bps),
        "tx"@,
        m.theme.tx,
        m.throughput.tx_bps,
    )
}

/// The chart of the passive rates.
pub open spec fn rate_chart(m: AppModel) -> ChartModel {
    let s = rate_traces(m);
    ChartModel {
        series: s,
        x_max: last_index(s),
        y_min: 0,
        y_max: highest(s, RATE_FLOOR),
        bottom: "0"@,
        top: rate_text(highest(s, RATE_FLOOR)),
    }
}

/// The capacity has come down near a bound: sixteen tenths of it.
pub open spec fn sinks_to(lowest: Option<Reading>, level: Reading) -> bool {
    lowest matches Some(v) && v * 10 <= level * 16
}

/// The traces and the band at `level`, where the line has come down near it.
pub open spec fn capacity_banded(
    s: Seq<Trace>,
    lowest: Option<Reading>,
    x: usize,
    level: Reading,
    c: Color,
) -> Seq<Trace> {
    if sinks_to(lowest, level) {
        s.push(band(c, level, x))
    } else {
        s
    }
}

/// The last index of a list.
pub open spec fn last_position(n: nat) -> usize {
    (if n == 0 {
        0
    } else {
        n - 1
    }) as usize
}

/// The chart of the probed capacity.
pub open spec fn capacity_chart(p: Palette, thr: Thresholds, values: Seq<Reading>) -> ChartModel {
    let x = last_position(values.len());
    let lowest = min_of(values);
    let line = seq![plotted("capacity"@, p.accent, values)];
    let s = capacity_banded(
        capacity_banded(line, lowest, x, thr.warn, p.warn),
        lowest,
        x,
        thr.crit,
        p.crit,
    );
    let y = highest(s, CAPACITY_FLOOR);
    ChartModel {
        series: s,
        x_max: x,
        y_min: 0,
        y_max: y,
        bottom: "0"@,
        top: ""@ + fixed0(y as int) + " Mbps"@,
    }
}

/// There are capacity readings to draw.
pub open spec fn has_capacity(m: AppModel) -> bool {
    m.throughput.capacity_mbps matches Some(s) && s.items.len() > 0
}

/// The charts that there is data and room for. Capacity gets its own chart rather than a third
/// trace: it is sampled every few minutes, and laying it over per-second byte rates would put
/// two different instants at the same x. Both are drawn only where there is height for two.
pub open spec fn flow_charts(m: AppModel, height: u16) -> Seq<ChartModel> {
    let rates = rate_traces(m).len() > 0;
    let capacity = has_capacity(m);
    let slow = capacity_chart(
        m.theme,
        m.config.thresholds.throughput,
        m.throughput.capacity_mbps->0.items,
    );
    if !chart_fits(height, 3) {
        Seq::empty()
    } else if rates && capacity && height >= 9 {
        seq![rate_chart(m), slow]
    } else if rates {
        seq![rate_chart(m)]
    } else if capacity {
        seq![slow]
    } else {
        Seq::empty()
    }
}

/// The throughput panel.
#[verifier::opaque]
pub open spec fn throughput_panel(m: AppModel, height: u16) -> PanelModel {
    PanelModel {
        block: health_frame("THROUGHPUT"@, panel(m, MetricId::Throughput), m.theme),
        rows: 3,
        lines: flow_lines(m),
        charts: flow_charts(m, height),
    }
}

fn newest_of(s: &Option<Series>) -> (v: Option<Reading>)
    ensures
        v == newest(series_model(*s)),
{
    match s {
        Some(x) => x.latest(),
        None => None,
    }
}

fn push_trace(v: &mut Vec<LineSeries>, name: &str, color: Color, s: &Option<Series>)
    ensures
        traces(final(v)@) == with_trace(traces(old(v)@), name@, color, series_model(*s)),
{
    match s {
        Some(x) => push_series_line(v, LineSeries::from_values(name, color, &x.values())),
        None => {},
    }
}

fn push_band(
    v: &mut Vec<LineSeries>,
    lowest: Option<Reading>,
    x_max: usize,
    level: Reading,
    color: Color,
)
    ensures
        traces(final(v)@) == capacity_banded(traces(old(v)@), lowest, x_max, level, color),
{
    match lowest {
        Some(y) => {
            if y as i128 * 10 <= level as i128 * 16 {
                push_series_line(v, LineSeries::reference(color, level, x_max));
            }
        },
        None => {},
    }
}

impl AppState {
    fn capacity_line(&self) -> (s: String)
        ensures
            s@ == capacity_text(self@.throughput),
    {
        let mut s = match self.throughput.last_mbps {
            Some(m) => around("capacity: ", m, " Mbps"),
            None => {
                let mut t = "capacity: ".to_owned();
                t.append("—");
                t
            },
        };
        // Append the latency added under load when measured, with its tail: bloat is
        // intermittent, so the latest reading alone routinely misses it entirely.
        match &self.throughput.added_latency_ms {
            Some(bloat) => match bloat.latest() {
                Some(cur) => {
                    s.append(around("   load +", cur, "ms").as_str());
                    match bloat.p95() {
                        Some(p95) => s.append(around(" (p95 +", p95, "ms)").as_str()),
                        None => {},
                    }
                },
                None => {},
            },
            None => {},
        }
        s
    }

    fn rate_plot(&self, series: Vec<LineSeries>) -> (c: Chart)
        requires
            traces(series@) == rate_traces(self@),
        ensures
            c@ == rate_chart(self@),
    {
        let (x_max, y_max) = chart_bounds(&series, RATE_FLOOR);
        Chart { series, x_max, y_min: 0, y_max, bottom: "0".to_owned(), top: human_rate(y_max) }
    }

    fn capacity_plot(&self, history: &Series) -> (c: Chart)
        ensures
            c@ == capacity_chart(
                self.theme@,
                self.config.thresholds.throughput,
                history@.items,
            ),
    {
        let values = history.values();
        let x_max: usize = if values.len() == 0 {
            0
        } else {
            values.len() - 1
        };
        let mut series: Vec<LineSeries> = Vec::new();
        assert(traces(series@) =~= Seq::empty());
        push_series_line(
            &mut series,
            LineSeries::from_values("capacity", self.theme.accent, &values),
        );
        // Same relevance rule as latency, mirrored for a lower-is-worse metric: band a bound
        // only once the line has come down near it.
        let lowest = history.min();
        let thr = self.config.thresholds.throughput;
        push_band(&mut series, lowest, x_max, thr.warn, self.theme.warn);
        push_band(&mut series, lowest, x_max, thr.crit, self.theme.crit);
        let (_, y_max) = chart_bounds(&series, CAPACITY_FLOOR);
        Chart {
            series,
            x_max,
            y_min: 0,
            y_max,
            bottom: "0".to_owned(),
            top: around("", y_max, " Mbps"),
        }
    }

    fn flow_plots(&self, height: u16) -> (v: Vec<Chart>)
        ensures
            charts(v@) == flow_charts(self@, height),
    {
        let mut drawn: Vec<Chart> = Vec::new();
        assert(charts(drawn@) =~= Seq::empty());
        if !fits_chart(height, 3) {
            return drawn;
        }
        let mut rates: Vec<LineSeries> = Vec::new();
        assert(traces(rates@) =~= Seq::empty());
        push_trace(&mut rates, "rx", self.theme.rx, &self.throughput.rx_bps);
        push_trace(&mut rates, "tx", self.theme.tx, &self.throughput.tx_bps);
        assert(traces(rates@).len() == rates@.len());
        let any_rate = rates.len() > 0;
        if any_rate {
            push_chart(&mut drawn, self.rate_plot(rates));
        }
        match &self.throughput.capacity_mbps {
            Some(history) => {
                if !history.is_empty() && (!any_rate || height >= 9) {
                    push_chart(&mut drawn, self.capacity_plot(history));
                }
            },
            None => {},
        }
        drawn
    }

    fn flow_summary(&self) -> (v: Vec<Line>)
        ensures
            lines(v@) == flow_lines(self@),
    {
        let rx: Reading = value_or_zero(newest_of(&self.throughput.rx_bps));
        let tx: Reading = value_or_zero(newest_of(&self.throughput.tx_bps));
        let down = Line::new().styled("▼ rx ", Style::colored(self.theme.rx)).raw(
            human_rate(rx).as_str(),
        );
        let up = Line::new().styled("▲ tx ", Style::colored(self.theme.tx)).raw(
            human_rate(tx).as_str(),
        );
        let capacity = Line::new().raw(self.capacity_line().as_str());
        assert(down@ == flow_lines(self@)[0]);
        assert(up@ == flow_lines(self@)[1]);
        assert(capacity@ == flow_lines(self@)[2]);
        let mut v: Vec<Line> = Vec::new();
        push_line(&mut v, down);
        push_line(&mut v, up);
        push_line(&mut v, capacity);
        assert(lines(v@) =~= flow_lines(self@));
        v
    }
}

/// Throughput panel: passive rx/tx rates + last capacity-probe result.
pub fn throughput(state: &AppState, height: u16) -> (p: Panel)
    ensures
        p@ == throughput_panel(state@, height),
{
    reveal(throughput_panel);
    let block = metric_block(
        "THROUGHPUT",
        state.panel_health(MetricId::Throughput),
        &state.theme,
    );
    Panel { block, rows: 3, lines: state.flow_summary(), charts: state.flow_plots(height) }
}

/// Rates are given in bytes below a thousand, in kilobytes below a million, and in megabytes
/// from there on.
pub proof fn law_rates_take_the_unit_of_their_size(bps: Reading)
    ensures
        bps < 1_000 * 1_000_000_000 ==> rate_text(bps) == fixed0(bps as int) + " B/s"@,
        1_000 * 1_000_000_000 <= bps < 1_000_000 * 1_000_000_000 ==> rate_text(bps) == scaled1(
            bps as int,
            1_000,
        ) + " KB/s"@,
        bps >= 1_000_000 * 1_000_000_000 ==> rate_text(bps) == scaled1(bps as int, 1_000_000)
            + " MB/s"@,
{
    assert(Seq::<char>::empty() + fixed0(bps as int) =~= fixed0(bps as int));
    assert(Seq::<char>::empty() + scaled1(bps as int, 1_000) =~= scaled1(bps as int, 1_000));
    assert(Seq::<char>::empty() + scaled1(bps as int, 1_000_000) =~= scaled1(
        bps as int,
        1_000_000,
    ));
}

/// The lines of the panel give the latest rates, received before sent, and the capacity.
pub proof fn law_the_panel_gives_the_latest_rates(
    m: AppModel,
    height: u16,
    rx: Reading,
    tx: Reading,
)
    requires
        m.throughput.rx_bps matches Some(s) && s.items.len() > 0 && s.items.last() == rx,
        m.throughput.tx_bps matches Some(s) && s.items.len() > 0 && s.items.last() == tx,
    ensures
        ({
            let p = throughput_panel(m, height);
            &&& p.lines.len() == 3
            &&& p.lines[0][0].text == "▼ rx "@ && p.lines[0][1].text == rate_text(rx)
            &&& p.lines[1][0].text == "▲ tx "@ && p.lines[1][1].text == rate_text(tx)
            &&& p.lines[2][0].text == capacity_text(m.throughput)
        }),
{
    reveal(throughput_panel);
}

/// What is said of the capacity: the last test, and what load adds now and at its worst but
/// for one in twenty, where that was measured.
pub proof fn law_the_capacity_line_gives_load_too(t: ThroughputModel)
    ensures
        t.last_mbps is None && t.added_latency_ms is None ==> capacity_text(t) == "capacity: "@
            + "—"@,
        t.last_mbps is Some && t.added_latency_ms is None ==> capacity_text(t) == "capacity: "@
            + fixed0(t.last_mbps->0 as int) + " Mbps"@,
        t.last_mbps is Some && t.added_latency_ms is Some && t.added_latency_ms->0.items.len() > 0
            ==> {
            let s = t.added_latency_ms->0.items;
            capacity_text(t) == "capacity: "@ + fixed0(t.last_mbps->0 as int) + " Mbps"@ + (
            "   load +"@ + fixed0(s.last() as int) + "ms"@) + (" (p95 +"@ + fixed0(
                percentile_of(s, 95_000_000_000)->0 as int,
            ) + "ms)"@)
        },
{
}

/// A bound is drawn on the capacity chart exactly where the capacity has come down to sixteen
/// tenths of it, and a reading that was never taken draws none.
pub proof fn law_capacity_bounds_are_drawn_when_near(
    s: Seq<Trace>,
    lowest: Option<Reading>,
    x: usize,
    level: Reading,
    c: Color,
)
    ensures
        lowest is None ==> capacity_banded(s, lowest, x, level, c) == s,
        lowest matches Some(v) ==> (5 * v > 8 * level ==> capacity_banded(s, lowest, x, level, c)
            == s) && (5 * v <= 8 * level ==> capacity_banded(s, lowest, x, level, c) == s.push(
            band(c, level, x),
        )),
{
}

/// The charts: rates and capacity where there is room for both, rates before capacity where
/// there is room for one, and what there is where there is only one of them.
pub proof fn law_charts_are_drawn_as_room_allows(m: AppModel, height: u16)
    ensures
        ({
            let c = throughput_panel(m, height).charts;
            let rates = m.throughput.rx_bps is Some || m.throughput.tx_bps is Some;
            let capacity = m.throughput.capacity_mbps is Some
                && m.throughput.capacity_mbps->0.items.len() > 0;
            &&& height < 6 || (!rates && !capacity) ==> c.len() == 0
            &&& height >= 9 && rates && capacity ==> c.len() == 2 && c[0] == rate_chart(m)
            &&& 6 <= height < 9 && rates ==> c.len() == 1 && c[0] == rate_chart(m)
            &&& height >= 6 && rates && !capacity ==> c.len() == 1 && c[0] == rate_chart(m)
            &&& height >= 6 && !rates && capacity ==> c.len() == 1 && c[0] == capacity_chart(
                m.theme,
                m.config.thresholds.throughput,
                m.throughput.capacity_mbps->0.items,
            )
        }),
{
    reveal(throughput_panel);
}

/// The rate chart shows what was received and then what was sent, each where it was measured,
/// up to the highest of them and at least up to a byte a second.
pub proof fn law_the_rate_chart_shows_both_ways(m: AppModel)
    ensures
        ({
            let c = rate_chart(m);
            let rx = m.throughput.rx_bps;
            let tx = m.throughput.tx_bps;
            &&& rx is Some ==> c.series[0] == plotted("rx"@, m.theme.rx, rx->0.items)
            &&& tx is Some ==> c.series.last() == plotted("tx"@, m.theme.tx, tx->0.items)
            &&& c.series.len() == (if rx is Some {
                1int
            } else {
                0
            }) + (if tx is Some {
                1int
            } else {
                0
            })
            &&& c.y_min == 0 && c.y_max == highest(c.series, 1_000_000_000)
            &&& c.top == rate_text(c.y_max)
        }),
{
}

/// The capacity chart shows the past of the capacity, with its last reading at the right end,
/// up to the highest thing on it and at least up to ten megabits.
pub proof fn law_the_capacity_chart_shows_its_past(
    p: Palette,
    thr: Thresholds,
    values: Seq<Reading>,
)
    requires
        0 < values.len() <= usize::MAX,
    ensures
        ({
            let c = capacity_chart(p, thr, values);
            &&& c.series[0] == plotted("capacity"@, p.accent, values)
            &&& c.x_max == values.len() - 1
            &&& c.y_min == 0 && c.y_max == highest(c.series, 10_000_000_000)
            &&& c.top == ""@ + fixed0(c.y_max as int) + " Mbps"@
        }),
{
}

} // verus!
