//! The ping panels: latency and loss per target.

use vstd::prelude::*;

use crate::app::rollup::panel;
use crate::app::state::TargetModel;
use crate::app::{AppModel, AppState};
use crate::format::{fixed0, fixed1, left_aligned, push_fixed1, right_aligned};
use crate::health::Thresholds;
use crate::history::{jitter_of, last_of, loss_of, max_of, mean_of, percentile_of};
use crate::metrics::MetricId;
use crate::ui::charts::{
    band, chart_bounds, charts, greater, highest, last_index, plotted, push_chart, push_series_line,
    traces, Chart, ChartModel, LineSeries, Trace,
};
use crate::ui::panels::{
    left, or_zero, push_whole_right, right, value_or_zero, whole, zero_based, zero_based_chart,
};
use crate::ui::theme::{color_of, series_color_of, Color, Palette, Style};
use crate::ui::view::{
    chart_fits, colored, fits_chart, health_frame, lines, metric_block, new_text_panel, push_line,
    raw, styled, text_panel, Line, Panel, PanelModel, SpanModel,
};
use crate::units::{clamped, Reading};

verus! {

/// The least top of the latency axis: twenty milliseconds.
pub const LATENCY_FLOOR: Reading = 20_000_000_000;

/// The least top of the loss axis: five percent.
pub const LOSS_FLOOR: Reading = 5_000_000_000;

/// The summary of one target's latency, in the color of its trace.
pub open spec fn latency_row(p: Palette, i: int, name: Seq<char>, t: TargetModel) -> Seq<
    SpanModel,
> {
    let s = t.latency_ms.items;
    seq![
        styled(left_aligned(name, 15) + " "@, colored(series_color_of(p, i))),
        styled(
            right_aligned(fixed0(or_zero(last_of(s))), 4) + "ms"@,
            colored(color_of(p, t.latency_health.state)),
        ),
        raw(
            "  avg "@ + right_aligned(fixed0(or_zero(mean_of(s))), 4) + "  p95 "@ + right_aligned(
                fixed0(or_zero(percentile_of(s, 95_000_000_000))),
                4,
            ) + "  max "@ + right_aligned(fixed0(or_zero(max_of(s))), 4) + "  jit "@
                + right_aligned(fixed0(or_zero(jitter_of(s))), 3) + "ms"@,
        ),
    ]
}

/// The summaries of all targets.
pub open spec fn latency_rows(m: AppModel) -> Seq<Seq<SpanModel>> {
    Seq::new(
        m.targets.len(),
        |i: int| latency_row(m.theme, i, m.targets[i].0, m.targets[i].1),
    )
}

/// One latency trace per target.
pub open spec fn latency_traces(m: AppModel) -> Seq<Trace> {
    Seq::new(
        m.targets.len(),
        |i: int|
            plotted(
                m.targets[i].0,
                series_color_of(m.theme, i),
                m.targets[i].1.latency_ms.items,
            ),
    )
}

/// The data has come within shouting distance of a bound: six tenths of it.
pub open spec fn nears(data_max: Reading, level: Reading) -> bool {
    data_max * 10 >= level * 6
}

/// Where the axis has to reach so that a band at `level` is on it: a twentieth above.
pub open spec fn above(level: Reading) -> Reading {
    clamped(level * 105 / 100) as Reading
}

/// The chart's traces with the bands that are near enough to matter.
pub open spec fn banded(s: Seq<Trace>, data_max: Reading, x: usize, level: Reading, c: Color) -> Seq<
    Trace,
> {
    if nears(data_max, level) {
        s.push(band(c, level, x))
    } else {
        s
    }
}

/// The top of the axis, raised where a band at `level` is drawn.
pub open spec fn raised(y: Reading, data_max: Reading, level: Reading) -> Reading {
    if nears(data_max, level) {
        greater(y, above(level))
    } else {
        y
    }
}

/// The latency chart: scaled on the data, then given whichever threshold bands are relevant
/// to it.
pub open spec fn latency_chart(s: Seq<Trace>, thr: Thresholds, p: Palette) -> ChartModel {
    let x = last_index(s);
    let top = highest(s, LATENCY_FLOOR);
    let y = raised(raised(top, top, thr.warn), top, thr.crit);
    ChartModel {
        series: banded(banded(s, top, x, thr.warn, p.warn), top, x, thr.crit, p.crit),
        x_max: x,
        y_min: 0,
        y_max: y,
        bottom: "0"@,
        top: fixed0(y as int) + "ms"@,
    }
}

/// The latency and jitter panel.
#[verifier::opaque]
pub open spec fn latency_panel(m: AppModel, height: u16) -> PanelModel {
    let frame = health_frame("LATENCY & JITTER"@, panel(m, MetricId::Latency), m.theme);
    let rows = m.targets.len() as u16;
    if m.targets.len() == 0 {
        text_panel(frame, height, Seq::empty())
    } else {
        PanelModel {
            block: frame,
            rows,
            lines: latency_rows(m),
            charts: if chart_fits(height, rows) {
                seq![
                    latency_chart(
                        latency_traces(m),
                        m.config.thresholds.latency_internet,
                        m.theme,
                    ),
                ]
            } else {
                Seq::empty()
            },
        }
    }
}

fn near(data_max: Reading, level: Reading) -> (b: bool)
    ensures
        b == nears(data_max, level),
{
    data_max as i128 * 10 >= level as i128 * 6
}

fn top_for(level: Reading) -> (y: Reading)
    ensures
        y == above(level),
{
    let y: i128 = crate::history::floor_div(level as i128 * 105, 100);
    if y > i64::MAX as i128 {
        i64::MAX
    } else if y < i64::MIN as i128 {
        i64::MIN
    } else {
        y as i64
    }
}

/// Add the band at `level` where the data is near it, and make room for it on the axis.
fn add_band(
    series: &mut Vec<LineSeries>,
    y_max: Reading,
    data_max: Reading,
    x_max: usize,
    level: Reading,
    color: Color,
) -> (y: Reading)
    ensures
        traces(final(series)@) == banded(traces(old(series)@), data_max, x_max, level, color),
        y == raised(y_max, data_max, level),
{
    // Within shouting distance only: a 150ms crit line over a healthy 8ms trace squashes the
    // real signal into the axis and tells the operator nothing.
    if near(data_max, level) {
        push_series_line(series, LineSeries::reference(color, level, x_max));
        let top: Reading = top_for(level);
        if y_max > top {
            y_max
        } else {
            top
        }
    } else {
        y_max
    }
}

impl AppState {
    fn latency_summary(&self, i: usize) -> (l: Line)
        requires
            i < self.targets@.len(),
        ensures
            l@ == latency_row(self.theme@, i as int, self@.targets[i as int].0, self@.targets[i as int].1),
    {
        let t = self.targets.value_at(i);
        let mut name = left(self.targets.key_at(i).as_str(), 15);
        name.append(" ");
        let mut cur = right(whole(value_or_zero(t.latency_ms.latest())).as_str(), 4);
        cur.append("ms");
        let mut rest = "  avg ".to_owned();
        push_whole_right(&mut rest, value_or_zero(t.latency_ms.mean()), 4);
        rest.append("  p95 ");
        push_whole_right(&mut rest, value_or_zero(t.latency_ms.p95()), 4);
        rest.append("  max ");
        push_whole_right(&mut rest, value_or_zero(t.latency_ms.max()), 4);
        rest.append("  jit ");
        push_whole_right(&mut rest, value_or_zero(t.latency_ms.jitter()), 3);
        rest.append("ms");
        let mut l = Line::new();
        l.push(name, Style::colored(self.theme.series_color(i)));
        l.push(cur, Style::colored(self.theme.health_color(t.latency_health_current())));
        l.push(rest, Style::plain());
        l
    }

    fn latency_lines(&self) -> (v: Vec<Line>)
        ensures
            lines(v@) == latency_rows(self@),
    {
        let n: usize = self.targets.len();
        let mut v: Vec<Line> = Vec::new();
        for i in 0..n
            invariant
                n == self.targets@.len(),
                lines(v@) == latency_rows(self@).take(i as int),
        {
            push_line(&mut v, self.latency_summary(i));
            assert(lines(v@) =~= latency_rows(self@).take(i + 1));
        }
        assert(lines(v@) =~= latency_rows(self@));
        v
    }

    fn latency_series(&self) -> (v: Vec<LineSeries>)
        ensures
            traces(v@) == latency_traces(self@),
    {
        let n: usize = self.targets.len();
        let mut v: Vec<LineSeries> = Vec::new();
        for i in 0..n
            invariant
                n == self.targets@.len(),
                traces(v@) == latency_traces(self@).take(i as int),
        {
            let t = self.targets.value_at(i);
            let color = self.theme.series_color(i);
            let s = LineSeries::from_values(
                self.targets.key_at(i).as_str(),
                color,
                &t.latency_ms.values(),
            );
            push_series_line(&mut v, s);
            assert(traces(v@) =~= latency_traces(self@).take(i + 1));
        }
        assert(traces(v@) =~= latency_traces(self@));
        v
    }
}

/// Latency & jitter panel: one trace per ping target, banded with the warn/crit bounds.
///
/// Every target is plotted, not just the first: a gateway that is fine while the internet
/// target degrades is the single most useful comparison on the dashboard, and it only
/// exists if both lines share an axis. The colour-keyed summary rows double as the legend.
pub fn latency(state: &AppState, height: u16) -> (p: Panel)
    ensures
        p@ == latency_panel(state@, height),
{
    reveal(latency_panel);
    let block = metric_block(
        "LATENCY & JITTER",
        state.panel_health(MetricId::Latency),
        &state.theme,
    );
    if state.targets.len() == 0 {
        let none: Vec<Line> = Vec::new();
        assert(lines(none@) =~= Seq::empty());
        return new_text_panel(block, height, none);
    }
    let rows: u16 = state.targets.len() as u16;
    let shown = state.latency_lines();
    let mut drawn: Vec<Chart> = Vec::new();
    assert(charts(drawn@) =~= Seq::empty());
    if fits_chart(height, rows) {
        let mut series = state.latency_series();
        // Only the internet bounds are banded: the gateway's 15/50ms and the internet's
        // 80/150ms cannot both be truthful on one axis, and a four-line grid would drown the
        // traces anyway.
        let (x_max, data_max) = chart_bounds(&series, LATENCY_FLOOR);
        let thr = state.config.thresholds.latency_internet;
        let y: Reading = add_band(
            &mut series,
            data_max,
            data_max,
            x_max,
            thr.warn,
            state.theme.warn,
        );
        let y: Reading = add_band(&mut series, y, data_max, x_max, thr.crit, state.theme.crit);
        let mut top = whole(y);
        top.append("ms");
        push_chart(
            &mut drawn,
            Chart { series, x_max, y_min: 0, y_max: y, bottom: "0".to_owned(), top },
        );
    }
    Panel { block, rows, lines: shown, charts: drawn }
}

// ---------------------------------------------------------------------------------------
// Loss
// ---------------------------------------------------------------------------------------

/// One target and its loss.
pub open spec fn loss_row(p: Palette, name: Seq<char>, t: TargetModel) -> Seq<SpanModel> {
    seq![
        raw(left_aligned(name, 16) + " "@),
        styled(
            right_aligned(fixed1(loss_of(t.loss.items) as int), 5) + "%"@,
            colored(color_of(p, t.loss_health.state)),
        ),
    ]
}

/// The loss of every target.
pub open spec fn loss_rows(m: AppModel) -> Seq<Seq<SpanModel>> {
    Seq::new(m.targets.len(), |i: int| loss_row(m.theme, m.targets[i].0, m.targets[i].1))
}

/// One loss trace per target.
pub open spec fn loss_traces(m: AppModel) -> Seq<Trace> {
    Seq::new(
        m.targets.len(),
        |i: int|
            plotted(
                m.targets[i].0,
                series_color_of(m.theme, i),
                m.targets[i].1.loss_history.items,
            ),
    )
}

/// The packet-loss panel.
#[verifier::opaque]
pub open spec fn loss_panel(m: AppModel, height: u16) -> PanelModel {
    let frame = health_frame("PACKET LOSS"@, panel(m, MetricId::Loss), m.theme);
    let rows = m.targets.len() as u16;
    if m.targets.len() == 0 {
        text_panel(frame, height, Seq::empty())
    } else {
        PanelModel {
            block: frame,
            rows,
            lines: loss_rows(m),
            charts: if chart_fits(height, rows) {
                seq![zero_based(loss_traces(m), LOSS_FLOOR, "%"@)]
            } else {
                Seq::empty()
            },
        }
    }
}

impl AppState {
    fn loss_summary(&self, i: usize) -> (l: Line)
        requires
            i < self.targets@.len(),
        ensures
            l@ == loss_row(self.theme@, self@.targets[i as int].0, self@.targets[i as int].1),
    {
        let t = self.targets.value_at(i);
        let mut name = left(self.targets.key_at(i).as_str(), 16);
        name.append(" ");
        let mut pct = String::new();
        push_fixed1(&mut pct, t.loss.loss_pct());
        assert(pct@ =~= fixed1(loss_of(t@.loss.items) as int));
        let mut cell = right(pct.as_str(), 5);
        cell.append("%");
        let mut l = Line::new();
        l.push(name, Style::plain());
        l.push(cell, Style::colored(self.theme.health_color(t.loss_health_current())));
        l
    }

    fn loss_lines(&self) -> (v: Vec<Line>)
        ensures
            lines(v@) == loss_rows(self@),
    {
        let n: usize = self.targets.len();
        let mut v: Vec<Line> = Vec::new();
        for i in 0..n
            invariant
                n == self.targets@.len(),
                lines(v@) == loss_rows(self@).take(i as int),
        {
            push_line(&mut v, self.loss_summary(i));
            assert(lines(v@) =~= loss_rows(self@).take(i + 1));
        }
        assert(lines(v@) =~= loss_rows(self@));
        v
    }

    fn loss_series(&self) -> (v: Vec<LineSeries>)
        ensures
            traces(v@) == loss_traces(self@),
    {
        let n: usize = self.targets.len();
        let mut v: Vec<LineSeries> = Vec::new();
        for i in 0..n
            invariant
                n == self.targets@.len(),
                traces(v@) == loss_traces(self@).take(i as int),
        {
            let t = self.targets.value_at(i);
            let color = self.theme.series_color(i);
            let s = LineSeries::from_values(
                self.targets.key_at(i).as_str(),
                color,
                &t.loss_history.values(),
            );
            push_series_line(&mut v, s);
            assert(traces(v@) =~= loss_traces(self@).take(i + 1));
        }
        assert(traces(v@) =~= loss_traces(self@));
        v
    }
}

/// Packet-loss panel: one line per target with its loss %.
pub fn loss(state: &AppState, height: u16) -> (p: Panel)
    ensures
        p@ == loss_panel(state@, height),
{
    reveal(loss_panel);
    let block = metric_block("PACKET LOSS", state.panel_health(MetricId::Loss), &state.theme);
    if state.targets.len() == 0 {
        let none: Vec<Line> = Vec::new();
        assert(lines(none@) =~= Seq::empty());
        return new_text_panel(block, height, none);
    }
    let rows: u16 = state.targets.len() as u16;
    let shown = state.loss_lines();
    let mut drawn: Vec<Chart> = Vec::new();
    assert(charts(drawn@) =~= Seq::empty());
    if fits_chart(height, rows) {
        push_chart(&mut drawn, zero_based_chart(state.loss_series(), LOSS_FLOOR, "%"));
    }
    Panel { block, rows, lines: shown, charts: drawn }
}

/// Each target has a row in the color of its trace: its latest time in the color of its health,
/// and then the mean, the tail, the most and the jitter of its history.
pub proof fn law_every_target_has_a_latency_row(m: AppModel, height: u16, i: int)
    requires
        0 <= i < m.targets.len(),
        m.targets[i].1.latency_ms.items.len() > 0,
    ensures
        ({
            let p = latency_panel(m, height);
            let t = m.targets[i].1;
            let s = t.latency_ms.items;
            let row = p.lines[i];
            &&& p.lines.len() == m.targets.len()
            &&& row[0].text == left_aligned(m.targets[i].0, 15) + " "@
            &&& row[0].style == colored(series_color_of(m.theme, i))
            &&& row[1].text == right_aligned(fixed0(s.last() as int), 4) + "ms"@
            &&& row[1].style == colored(color_of(m.theme, t.latency_health.state))
            &&& row[2].text == "  avg "@ + right_aligned(fixed0(or_zero(mean_of(s))), 4)
                + "  p95 "@ + right_aligned(
                fixed0(or_zero(percentile_of(s, 95_000_000_000))),
                4,
            ) + "  max "@ + right_aligned(fixed0(or_zero(max_of(s))), 4) + "  jit "@
                + right_aligned(fixed0(or_zero(jitter_of(s))), 3) + "ms"@
        }),
{
    reveal(latency_panel);
}

/// A bound is drawn on the latency chart exactly where the data has come to six tenths of it;
/// and then the axis reaches past it, by a twentieth, so that it can be seen.
pub proof fn law_latency_bounds_are_drawn_when_near(
    s: Seq<Trace>,
    data_max: Reading,
    x: usize,
    y: Reading,
    level: Reading,
    c: Color,
)
    requires
        0 <= level <= 1_000_000_000_000_000,
    ensures
        ({
            let near = 5 * data_max >= 3 * level;
            let to = raised(y, data_max, level);
            &&& banded(s, data_max, x, level, c) == (if near {
                s.push(band(c, level, x))
            } else {
                s
            })
            &&& !near ==> to == y
            &&& near ==> to >= y && 100 * to > 105 * level - 100
            &&& near && to > y ==> 100 * to <= 105 * level
        }),
{
}

/// The latency chart shows every target's history, up to the highest reading and at least up
/// to twenty milliseconds.
pub proof fn law_every_target_has_a_latency_trace(m: AppModel, height: u16, i: int)
    requires
        0 <= i < m.targets.len() <= u16::MAX,
    ensures
        ({
            let p = latency_panel(m, height);
            &&& p.charts.len() == (if height >= m.targets.len() + 3 {
                1int
            } else {
                0
            })
            &&& p.charts.len() == 1 ==> {
                let c = p.charts[0];
                &&& c.series.len() >= m.targets.len()
                &&& c.series[i] == plotted(
                    m.targets[i].0,
                    series_color_of(m.theme, i),
                    m.targets[i].1.latency_ms.items,
                )
                &&& c.y_min == 0
                &&& c.y_max >= highest(latency_traces(m), 20_000_000_000)
                &&& c.top == fixed0(c.y_max as int) + "ms"@
            }
        }),
{
    reveal(latency_panel);
}

/// Each target has a row with the loss of its window, in the color of its health, and a trace
/// of its past on a chart that reaches at least to five percent.
pub proof fn law_every_target_has_a_loss_row(m: AppModel, height: u16, i: int)
    requires
        0 <= i < m.targets.len() <= u16::MAX,
    ensures
        ({
            let p = loss_panel(m, height);
            let t = m.targets[i].1;
            let row = p.lines[i];
            &&& p.lines.len() == m.targets.len()
            &&& row[0].text == left_aligned(m.targets[i].0, 16) + " "@
            &&& row[1].text == right_aligned(fixed1(loss_of(t.loss.items) as int), 5) + "%"@
            &&& row[1].style == colored(color_of(m.theme, t.loss_health.state))
            &&& p.charts.len() == (if height >= m.targets.len() + 3 {
                1int
            } else {
                0
            })
            &&& p.charts.len() == 1 ==> p.charts[0].series.len() == m.targets.len()
                && p.charts[0].series[i] == plotted(
                m.targets[i].0,
                series_color_of(m.theme, i),
                t.loss_history.items,
            ) && p.charts[0].y_max == highest(loss_traces(m), 5_000_000_000)
                && p.charts[0].y_min == 0
        }),
{
    reveal(loss_panel);
}

} // verus!
