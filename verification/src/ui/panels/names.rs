//! The DNS panel: latency and status per resolver.

use vstd::prelude::*;

use crate::app::rollup::panel;
use crate::app::state::ResolverModel;
use crate::app::{AppModel, AppState};
use crate::format::{fixed0, left_aligned, right_aligned};
use crate::history::last_of;
use crate::metrics::MetricId;
use crate::ui::charts::{
    charts, plotted, push_chart, push_series_line, traces, Chart, LineSeries, Trace,
};
use crate::ui::panels::{around, left, or_zero, right, value_or_zero, zero_based, zero_based_chart};
use crate::ui::theme::{series_color_of, Palette, Style};
use crate::ui::view::{
    chart_fits, colored, fits_chart, health_frame, lines, metric_block, new_text_panel, push_line,
    raw, styled, text_panel, Line, Panel, PanelModel, SpanModel,
};
use crate::units::Reading;

verus! {

/// The least top of the lookup axis: fifty milliseconds.
pub const LOOKUP_FLOOR: Reading = 50_000_000_000;

/// One resolver and its latest answer.
pub open spec fn resolver_row(p: Palette, name: Seq<char>, r: ResolverModel) -> Seq<SpanModel> {
    seq![
        raw(left_aligned(name, 12) + " "@),
        if r.last_ok {
            styled(
                right_aligned(
                    Seq::<char>::empty() + fixed0(or_zero(last_of(r.latency_ms.items))) + "ms"@,
                    8,
                ),
                colored(p.ok),
            )
        } else {
            styled(right_aligned("FAIL"@, 8), colored(p.crit))
        },
    ]
}

/// Every resolver and its latest answer.
pub open spec fn resolver_rows(m: AppModel) -> Seq<Seq<SpanModel>> {
    Seq::new(
        m.resolvers.len(),
        |i: int| resolver_row(m.theme, m.resolvers[i].0, m.resolvers[i].1),
    )
}

/// One lookup trace per resolver.
pub open spec fn lookup_traces(m: AppModel) -> Seq<Trace> {
    Seq::new(
        m.resolvers.len(),
        |i: int|
            plotted(
                m.resolvers[i].0,
                series_color_of(m.theme, i),
                m.resolvers[i].1.latency_ms.items,
            ),
    )
}

/// The DNS panel.
#[verifier::opaque]
pub open spec fn dns_panel(m: AppModel, height: u16) -> PanelModel {
    let frame = health_frame("DNS HEALTH"@, panel(m, MetricId::Dns), m.theme);
    let rows = m.resolvers.len() as u16;
    if m.resolvers.len() == 0 {
        text_panel(frame, height, seq![seq![styled("resolving…"@, colored(m.theme.muted))]])
    } else {
        PanelModel {
            block: frame,
            rows,
            lines: resolver_rows(m),
            charts: if chart_fits(height, rows) {
                seq![zero_based(lookup_traces(m), LOOKUP_FLOOR, "ms"@)]
            } else {
                Seq::empty()
            },
        }
    }
}

impl AppState {
    fn resolver_summary(&self, i: usize) -> (l: Line)
        requires
            i < self.resolvers@.len(),
        ensures
            l@ == resolver_row(
                self.theme@,
                self@.resolvers[i as int].0,
                self@.resolvers[i as int].1,
            ),
    {
        let r = self.resolvers.value_at(i);
        let mut name = left(self.resolvers.key_at(i).as_str(), 12);
        name.append(" ");
        let mut l = Line::new();
        l.push(name, Style::plain());
        if r.last_ok {
            let text = around("", value_or_zero(r.latency_ms.latest()), "ms");
            proof {
                reveal_strlit("");
                assert(""@ =~= Seq::<char>::empty());
            }
            l.push(right(text.as_str(), 8), Style::colored(self.theme.ok));
        } else {
            l.push(right("FAIL", 8), Style::colored(self.theme.crit));
        }
        l
    }

    fn resolver_lines(&self) -> (v: Vec<Line>)
        ensures
            lines(v@) == resolver_rows(self@),
    {
        let n: usize = self.resolvers.len();
        let mut v: Vec<Line> = Vec::new();
        for i in 0..n
            invariant
                n == self.resolvers@.len(),
                lines(v@) == resolver_rows(self@).take(i as int),
        {
            push_line(&mut v, self.resolver_summary(i));
            assert(lines(v@) =~= resolver_rows(self@).take(i + 1));
        }
        assert(lines(v@) =~= resolver_rows(self@));
        v
    }

    fn lookup_series(&self) -> (v: Vec<LineSeries>)
        ensures
            traces(v@) == lookup_traces(self@),
    {
        let n: usize = self.resolvers.len();
        let mut v: Vec<LineSeries> = Vec::new();
        for i in 0..n
            invariant
                n == self.resolvers@.len(),
                traces(v@) == lookup_traces(self@).take(i as int),
        {
            let r = self.resolvers.value_at(i);
            let color = self.theme.series_color(i);
            let s = LineSeries::from_values(
                self.resolvers.key_at(i).as_str(),
                color,
                &r.latency_ms.values(),
            );
            push_series_line(&mut v, s);
            assert(traces(v@) =~= lookup_traces(self@).take(i + 1));
        }
        assert(traces(v@) =~= lookup_traces(self@));
        v
    }
}

/// DNS panel: one row per resolver with latency and status.
pub fn dns(state: &AppState, height: u16) -> (p: Panel)
    ensures
        p@ == dns_panel(state@, height),
{
    reveal(dns_panel);
    let block = metric_block("DNS HEALTH", state.panel_health(MetricId::Dns), &state.theme);
    if state.resolvers.len() == 0 {
        let mut waiting: Vec<Line> = Vec::new();
        assert(lines(waiting@) =~= Seq::empty());
        push_line(
            &mut waiting,
            Line::new().styled("resolving…", Style::colored(state.theme.muted)),
        );
        return new_text_panel(block, height, waiting);
    }
    let rows: u16 = state.resolvers.len() as u16;
    let shown = state.resolver_lines();
    let mut drawn: Vec<Chart> = Vec::new();
    assert(charts(drawn@) =~= Seq::empty());
    if fits_chart(height, rows) {
        push_chart(&mut drawn, zero_based_chart(state.lookup_series(), LOOKUP_FLOOR, "ms"));
    }
    Panel { block, rows, lines: shown, charts: drawn }
}

/// Each resolver has a row: its latest time while it answers, and that it failed where it did
/// not.
pub proof fn law_every_resolver_has_a_row(m: AppModel, height: u16, i: int, last: Reading)
    requires
        0 <= i < m.resolvers.len(),
    ensures
        ({
            let p = dns_panel(m, height);
            let r = m.resolvers[i].1;
            let row = p.lines[i];
            &&& p.lines.len() == m.resolvers.len()
            &&& row[0].text == left_aligned(m.resolvers[i].0, 12) + " "@
            &&& !r.last_ok ==> row[1].text == right_aligned("FAIL"@, 8) && row[1].style == colored(
                m.theme.crit,
            )
            &&& r.last_ok && r.latency_ms.items.len() > 0 && r.latency_ms.items.last() == last
                ==> row[1].text == right_aligned(fixed0(last as int) + "ms"@, 8) && row[1].style
                == colored(m.theme.ok)
        }),
{
    reveal(dns_panel);
    assert(Seq::<char>::empty() + fixed0(last as int) =~= fixed0(last as int));
}

/// The lookup chart has a trace for each resolver, in the color of its turn, and is drawn where
/// three rows are left for it.
pub proof fn law_every_resolver_has_a_trace(m: AppModel, height: u16, i: int)
    requires
        0 <= i < m.resolvers.len() <= u16::MAX,
    ensures
        ({
            let p = dns_panel(m, height);
            &&& p.charts.len() == (if height >= m.resolvers.len() + 3 {
                1int
            } else {
                0
            })
            &&& p.charts.len() == 1 ==> p.charts[0].series.len() == m.resolvers.len()
                && p.charts[0].series[i] == plotted(
                m.resolvers[i].0,
                series_color_of(m.theme, i),
                m.resolvers[i].1.latency_ms.items,
            )
        }),
{
    reveal(dns_panel);
}

} // verus!
