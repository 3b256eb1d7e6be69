//! The transport panel: handshake timing per endpoint.

use vstd::prelude::*;

use crate::app::rollup::panel;
use crate::app::state::HandshakeModel;
use crate::app::{AppModel, AppState};
use crate::format::fixed0;
use crate::history::last_of;
use crate::metrics::MetricId;
use crate::ui::panels::around;
use crate::ui::theme::{color_of, Palette, Style};
use crate::ui::view::{
    colored, health_frame, lines, metric_block, new_text_panel, push_line, raw, styled, text_panel,
    Line, Panel, PanelModel, SpanModel,
};
use crate::units::Reading;

verus! {

/// The current state of an endpoint. "refused" rather than the last good time: a stale number
/// next to a live label reads as the current state, and here the current state is that
/// nothing connected.
pub open spec fn connect_text(h: HandshakeModel) -> Seq<char> {
    if !h.last_ok {
        "refused"@
    } else {
        match last_of(h.connect_ms.items) {
            Some(ms) => ""@ + fixed0(ms as int) + "ms"@,
            None => "—"@,
        }
    }
}

/// One endpoint, in the color of its health.
pub open spec fn endpoint_cell(p: Palette, name: Seq<char>, h: HandshakeModel) -> SpanModel {
    styled(
        name + " "@ + connect_text(h) + "   "@,
        colored(color_of(p, h.health.state)),
    )
}

/// The row of TCP handshakes.
pub open spec fn tcp_row(m: AppModel) -> Seq<SpanModel> {
    let label = seq![raw("tcp  "@)];
    if m.tcp.len() == 0 {
        label.push(styled("—"@, colored(m.theme.muted)))
    } else {
        label + Seq::new(m.tcp.len(), |i: int| endpoint_cell(m.theme, m.tcp[i].0, m.tcp[i].1))
    }
}

/// The row of TLS and certificates.
pub open spec fn tls_row(p: Palette) -> Seq<SpanModel> {
    seq![
        raw("tls  "@),
        styled("—"@, colored(p.muted)),
        raw("    cert "@),
        styled("—"@, colored(p.muted)),
    ]
}

/// The transport panel.
#[verifier::opaque]
pub open spec fn transport_panel(m: AppModel, height: u16) -> PanelModel {
    text_panel(
        health_frame("TRANSPORT"@, panel(m, MetricId::TcpHandshake), m.theme),
        height,
        seq![tcp_row(m), tls_row(m.theme)],
    )
}

impl AppState {
    fn endpoint_text(&self, i: usize) -> (s: String)
        requires
            i < self.tcp@.len(),
        ensures
            s@ == endpoint_cell(self.theme@, self@.tcp[i as int].0, self@.tcp[i as int].1).text,
    {
        let ep = self.tcp.value_at(i);
        let reading = match (ep.last_ok, ep.connect_ms.latest()) {
            (true, Some(ms)) => around("", ms, "ms"),
            (true, None) => "—".to_owned(),
            (false, _) => "refused".to_owned(),
        };
        let mut s = self.tcp.key_at(i).clone();
        s.append(" ");
        s.append(reading.as_str());
        s.append("   ");
        s
    }

    fn tcp_line(&self) -> (l: Line)
        ensures
            l@ == tcp_row(self@),
    {
        let mut l = Line::new().raw("tcp  ");
        let ghost label = l@;
        let n: usize = self.tcp.len();
        if n == 0 {
            return l.styled("—", Style::colored(self.theme.muted));
        }
        let ghost cells = Seq::new(
            self@.tcp.len(),
            |i: int| endpoint_cell(self.theme@, self@.tcp[i].0, self@.tcp[i].1),
        );
        assert(label + cells.take(0) =~= label);
        for i in 0..n
            invariant
                n == self.tcp@.len(),
                cells == Seq::new(
                    self@.tcp.len(),
                    |i: int| endpoint_cell(self.theme@, self@.tcp[i].0, self@.tcp[i].1),
                ),
                l@ == label + cells.take(i as int),
        {
            let health = self.tcp.value_at(i).health_current();
            l.push(self.endpoint_text(i), Style::colored(self.theme.health_color(health)));
            assert(l@ =~= label + cells.take(i + 1));
        }
        assert(cells.take(n as int) =~= cells);
        l
    }
}

/// Transport panel: TCP handshake timing per endpoint, plus the TLS/cert row.
///
/// One line for every endpoint on a single row rather than a line each, so the panel keeps
/// its two-row slot in the detail band no matter how many endpoints are configured.
pub fn transport(state: &AppState, height: u16) -> (p: Panel)
    ensures
        p@ == transport_panel(state@, height),
{
    reveal(transport_panel);
    let block = metric_block(
        "TRANSPORT",
        state.panel_health(MetricId::TcpHandshake),
        &state.theme,
    );
    let dim = Style::colored(state.theme.muted);
    let mut rows: Vec<Line> = Vec::new();
    assert(lines(rows@) =~= Seq::empty());
    push_line(&mut rows, state.tcp_line());
    let tls = Line::new().raw("tls  ").styled("—", dim).raw("    cert ").styled("—", dim);
    assert(tls@ == tls_row(state.theme@));
    push_line(&mut rows, tls);
    new_text_panel(block, height, rows)
}

/// Each endpoint is named with its latest time, or with that nothing connected where the last
/// handshake failed, in the color of its health.
pub proof fn law_every_endpoint_has_a_cell(m: AppModel, height: u16, i: int, last: Reading)
    requires
        0 <= i < m.tcp.len(),
    ensures
        ({
            let row = transport_panel(m, height).lines[0];
            let h = m.tcp[i].1;
            &&& row.len() == m.tcp.len() + 1
            &&& row[0].text == "tcp  "@
            &&& row[i + 1].style == colored(color_of(m.theme, h.health.state))
            &&& !h.last_ok ==> row[i + 1].text == m.tcp[i].0 + " "@ + "refused"@ + "   "@
            &&& h.last_ok && h.connect_ms.items.len() > 0 && h.connect_ms.items.last() == last
                ==> row[i + 1].text == m.tcp[i].0 + " "@ + (""@ + fixed0(last as int) + "ms"@)
                + "   "@
            &&& h.last_ok && h.connect_ms.items.len() == 0 ==> row[i + 1].text == m.tcp[i].0 + " "@
                + "—"@ + "   "@
        }),
{
    reveal(transport_panel);
}

} // verus!
