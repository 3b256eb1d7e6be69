//! The whole screen: where each panel goes, and what it shows there.

use ratatui::layout::{Constraint, Direction, Layout, Rect};
use vstd::prelude::*;

use crate::app::rollup::{overall, panel};
use crate::app::{AppModel, AppState};
use crate::diagnosis::diagnosed;
use crate::metrics::MetricId;
use crate::projection::signals_of;
use crate::ui::panels::feed::{events, events_panel};
use crate::ui::panels::flow::{throughput, throughput_panel};
use crate::ui::panels::names::{dns, dns_panel};
use crate::ui::panels::overlays::{
    footer, footer_line, help_overlay, help_view, picker_view, theme_picker_overlay, Overlay,
    OverlayModel,
};
use crate::ui::panels::path::{routing, routing_panel};
use crate::ui::panels::pings::{latency, latency_panel, loss, loss_panel};
use crate::ui::panels::radio::{link, link_panel, wifi_panel, wifi_signal};
use crate::ui::panels::status::{
    availability, availability_panel, diagnosis, diagnosis_panel, header, header_panel,
};
use crate::ui::panels::transports::{transport, transport_panel};
use crate::ui::theme::border_of;
use crate::ui::view::{
    chart_area, colored, summary_and_chart, summary_area, Area, Line, Panel, PanelModel, SpanModel,
};

verus! {

// ---------------------------------------------------------------------------------------
// Sharing room out
// ---------------------------------------------------------------------------------------

/// Whether parts stand below each other or side by side.
#[derive(Debug, Clone, Copy, PartialEq, Eq, Structural)]
pub enum Way {
    Down,
    Across,
}

/// How much room a part asks for.
#[derive(Debug, Clone, Copy, PartialEq, Eq, Structural)]
pub enum Share {
    /// So many cells.
    Length(u16),
    /// So many cells at least, and whatever is left.
    Min(u16),
    /// So much of the whole.
    Percentage(u16),
    /// What is left, weighed against the others that ask for it.
    Fill(u16),
}

/// The area ends within the coordinates that a terminal has.
pub open spec fn on_screen(a: Area) -> bool {
    &&& a.x + a.width <= u16::MAX
    &&& a.y + a.height <= u16::MAX
}

/// `part` lies within `area`.
pub open spec fn lies_in(part: Area, area: Area) -> bool {
    &&& area.x <= part.x && part.x + part.width <= area.x + area.width
    &&& area.y <= part.y && part.y + part.height <= area.y + area.height
}

/// `part` lies within `area` and takes all of it across the way that the parts are lined up.
pub open spec fn lined_up(part: Area, area: Area, way: Way) -> bool {
    &&& lies_in(part, area)
    &&& match way {
        Way::Down => part.x == area.x && part.width == area.width,
        Way::Across => part.y == area.y && part.height == area.height,
    }
}

/// Where `part` begins along the way that parts are lined up.
pub open spec fn start(part: Area, way: Way) -> int {
    match way {
        Way::Down => part.y as int,
        Way::Across => part.x as int,
    }
}

/// How long `part` is along the way that parts are lined up.
pub open spec fn extent(part: Area, way: Way) -> int {
    match way {
        Way::Down => part.height as int,
        Way::Across => part.width as int,
    }
}

/// Where `part` ends along the way that parts are lined up.
pub open spec fn end(part: Area, way: Way) -> int {
    start(part, way) + extent(part, way)
}

/// Part `i` begins where the part before it ends.
pub open spec fn follows(parts: Seq<Area>, i: int, way: Way) -> bool {
    start(parts[i], way) == end(parts[i - 1], way)
}

/// The parts stand in order, the first where the area begins and each of the others where
/// the one before it ends, and each takes all of the area across that.
pub open spec fn in_order(parts: Seq<Area>, area: Area, way: Way) -> bool {
    &&& parts.len() > 0 ==> start(parts[0], way) == start(area, way)
    &&& forall|i: int| 0 < i < parts.len() ==> #[trigger] follows(parts, i, way)
    &&& forall|i: int| 0 <= i < parts.len() ==> lined_up(#[trigger] parts[i], area, way)
}

/// The parts stand in order and leave nothing of the area over.
pub open spec fn tiled(parts: Seq<Area>, area: Area, way: Way) -> bool {
    &&& in_order(parts, area, way)
    &&& parts.len() > 0 ==> end(parts.last(), way) == end(area, way)
}

/// No part is longer than another by more than one cell.
pub open spec fn alike(parts: Seq<Area>, way: Way) -> bool {
    forall|i: int, j: int|
        0 <= i < parts.len() && 0 <= j < parts.len() ==> extent(#[trigger] parts[i], way)
            <= extent(#[trigger] parts[j], way) + 1
}

/// So few shares, and none that weighs so much, that what they ask for together never
/// outweighs that parts leave no gap between them.
pub open spec fn few(shares: Seq<Share>) -> bool {
    &&& shares.len() <= 64
    &&& forall|i: int|
        0 <= i < shares.len() ==> (#[trigger] shares[i] matches Share::Fill(w) ==> w <= 3)
}

/// Some share takes whatever is left.
pub open spec fn greedy(shares: Seq<Share>) -> bool {
    exists|i: int| 0 <= i < shares.len() && (#[trigger] shares[i] is Min || shares[i] is Fill)
}

/// Every share is the same part of the whole, and together they are the whole.
pub open spec fn even_parts(shares: Seq<Share>) -> bool {
    &&& shares.len() > 0
    &&& shares[0] matches Share::Percentage(p) && p * shares.len() == 100
    &&& forall|i: int| 0 <= i < shares.len() ==> #[trigger] shares[i] == shares[0]
}

/// Every share takes what is left, and all weigh the same.
pub open spec fn even_fill(shares: Seq<Share>) -> bool {
    forall|i: int| 0 <= i < shares.len() ==> #[trigger] shares[i] == Share::Fill(1)
}

/// How many cells the shares of a fixed length ask for together.
pub open spec fn fixed(shares: Seq<Share>) -> int
    decreases shares.len(),
{
    if shares.len() == 0 {
        0
    } else {
        fixed(shares.drop_last()) + match shares.last() {
            Share::Length(n) => n as int,
            _ => 0,
        }
    }
}

/// Some shares have a fixed length, there is room for all of them, and the others take what
/// that leaves.
pub open spec fn roomy(shares: Seq<Share>, room: int) -> bool {
    &&& greedy(shares)
    &&& forall|i: int|
        0 <= i < shares.len() ==> #[trigger] shares[i] is Length || shares[i] == Share::Min(0)
    &&& fixed(shares) <= room
}

/// Shares an area out, one part for each share.
///
/// Calls `ratatui::layout::Layout::split`. Trusted of it: it gives back one part for each
/// constraint, and every part lies within the area and spans it across the direction of the
/// layout. The crate has a constraint solver weigh the shares against each other. In its
/// source an empty first spacer and empty spacers between the parts weigh more than anything
/// that [`few`] shares can ask for, so the parts stand in order without a gap. A `Min` or a
/// `Fill` outweighs the spacer after the last part, and so do percentages that make up the
/// whole, so that the parts then reach the end of the area. A `Length` outweighs every `Min`
/// and is met where there is room for all of them. Shares that ask for the same get the same,
/// up to the rounding to whole cells. Which part the rounding favours, and how much room each
/// part gets where the shares cannot all be met, is left unsaid: the crate calls the latter
/// indeterminate.
#[verifier::external_body]
fn split(area: Area, way: Way, shares: &Vec<Share>) -> (parts: Vec<Area>)
    requires
        on_screen(area),
    ensures
        parts@.len() == shares@.len(),
        forall|i: int| 0 <= i < parts@.len() ==> lined_up(#[trigger] parts@[i], area, way),
        few(shares@) ==> in_order(parts@, area, way),
        few(shares@) && (greedy(shares@) || even_parts(shares@)) ==> tiled(parts@, area, way),
        few(shares@) && (even_fill(shares@) || even_parts(shares@)) ==> alike(parts@, way),
        few(shares@) && roomy(shares@, extent(area, way)) ==> forall|i: int|
            0 <= i < parts@.len() ==> (shares@[i] matches Share::Length(n) ==> extent(
                #[trigger] parts@[i],
                way,
            ) == n),
{
    let direction = match way {
        Way::Down => Direction::Vertical,
        Way::Across => Direction::Horizontal,
    };
    let constraints = shares.iter().map(|s| match *s {
        Share::Length(n) => Constraint::Length(n),
        Share::Min(n) => Constraint::Min(n),
        Share::Percentage(n) => Constraint::Percentage(n),
        Share::Fill(n) => Constraint::Fill(n),
    });
    let whole = Rect { x: area.x, y: area.y, width: area.width, height: area.height };
    let parts = Layout::default().direction(direction).constraints(constraints).split(whole);
    parts.iter().map(|r| Area { x: r.x, y: r.y, width: r.width, height: r.height }).collect()
}

/// Split an area into two of the same size, up to a cell.
pub fn halves(area: Area, way: Way) -> (parts: (Area, Area))
    requires
        on_screen(area),
    ensures
        tiled(seq![parts.0, parts.1], area, way),
        alike(seq![parts.0, parts.1], way),
{
    let shares = vec![Share::Percentage(50), Share::Percentage(50)];
    let v = split(area, way, &shares);
    assert(shares@[0] == Share::Percentage(50));
    assert(v@ =~= seq![v@[0], v@[1]]);
    (v[0], v[1])
}

/// Split a row into three columns of the same width, up to a cell. `Fill` rather than a
/// percentage so the remainder of a width that isn't divisible by three is handed back out
/// instead of left as a seam.
pub fn thirds(area: Area) -> (parts: (Area, Area, Area))
    requires
        on_screen(area),
    ensures
        tiled(seq![parts.0, parts.1, parts.2], area, Way::Across),
        alike(seq![parts.0, parts.1, parts.2], Way::Across),
        parts.0.x == area.x,
        parts.1.x == parts.0.x + parts.0.width,
        parts.2.x == parts.1.x + parts.1.width,
        parts.2.x + parts.2.width == area.x + area.width,
{
    let shares = vec![Share::Fill(1), Share::Fill(1), Share::Fill(1)];
    let v = split(area, Way::Across, &shares);
    assert(shares@[0] is Fill);
    assert(v@ =~= seq![v@[0], v@[1], v@[2]]);
    assert(follows(v@, 1, Way::Across));
    assert(follows(v@, 2, Way::Across));
    (v[0], v[1], v[2])
}

/// Where the charts of a panel go: one has all the room, more share it evenly below each
/// other. How the room is shared among more charts than a screen could hold is left to the
/// layout.
pub fn chart_areas(plot: Area, count: usize) -> (parts: Vec<Area>)
    requires
        on_screen(plot),
    ensures
        parts@.len() == count,
        count == 1 ==> parts@[0] == plot,
        forall|i: int| 0 <= i < count ==> lined_up(#[trigger] parts@[i], plot, Way::Down),
        count <= 64 ==> tiled(parts@, plot, Way::Down),
        count <= 64 ==> alike(parts@, Way::Down),
{
    if count == 1 {
        return vec![plot];
    }
    let mut shares: Vec<Share> = Vec::new();
    for i in 0..count
        invariant
            shares@.len() == i,
            even_fill(shares@),
    {
        shares.push(Share::Fill(1));
    }
    let parts = split(plot, Way::Down, &shares);
    assert(count > 0 ==> shares@[0] is Fill);
    parts
}

// ---------------------------------------------------------------------------------------
// The grid
// ---------------------------------------------------------------------------------------

/// Where each part of the dashboard goes.
#[derive(Debug, Clone, Copy, PartialEq, Eq, Structural)]
pub struct Grid {
    pub header: Area,
    pub diagnosis: Area,
    pub availability: Area,
    pub link: Area,
    pub transport: Area,
    pub latency: Area,
    pub dns: Area,
    pub loss: Area,
    pub throughput: Area,
    pub wifi_signal: Area,
    pub routing: Area,
    pub events: Area,
    pub footer: Area,
}

/// Two parts stand side by side.
pub open spec fn level(a: Area, b: Area) -> bool {
    a.y == b.y && a.height == b.height
}

/// Two parts stand side by side, `b` beginning where `a` ends.
pub open spec fn beside(a: Area, b: Area) -> bool {
    level(a, b) && b.x == a.x + a.width
}

/// `b` begins in the row where `a` ends.
pub open spec fn below(a: Area, b: Area) -> bool {
    b.y == a.y + a.height
}

/// `band` goes from the left edge of the area to its right edge.
pub open spec fn across(band: Area, area: Area) -> bool {
    band.x == area.x && band.width == area.width
}

/// The three parts stand side by side from the left edge of the area to its right edge.
pub open spec fn in_a_row(a: Area, b: Area, c: Area, area: Area) -> bool {
    &&& a.x == area.x
    &&& beside(a, b)
    &&& beside(b, c)
    &&& c.x + c.width == area.x + area.width
}

/// The dashboard takes up the whole area. Down the screen come the header, the diagnosis,
/// the availability strip, the link beside the transport panel, two rows of three charts, the
/// events and the footer, each beginning where the one before it ends; each of these goes
/// from the left edge to the right one. The two rows of charts are of the same height, the
/// charts of a row of the same width, and so are the link and the transport panel, up to a
/// cell. Where there are rows enough each band has its own height and the charts have the
/// rest.
#[verifier::opaque]
pub open spec fn spans(g: Grid, area: Area) -> bool {
    &&& g.header.y == area.y
    &&& below(g.header, g.diagnosis)
    &&& below(g.diagnosis, g.availability)
    &&& below(g.availability, g.link)
    &&& below(g.link, g.latency)
    &&& below(g.latency, g.throughput)
    &&& below(g.throughput, g.events)
    &&& below(g.events, g.footer)
    &&& g.footer.y + g.footer.height == area.y + area.height
    &&& across(g.header, area)
    &&& across(g.diagnosis, area)
    &&& across(g.availability, area)
    &&& g.link.x == area.x
    &&& beside(g.link, g.transport)
    &&& g.transport.x + g.transport.width == area.x + area.width
    &&& in_a_row(g.latency, g.dns, g.loss, area)
    &&& in_a_row(g.throughput, g.wifi_signal, g.routing, area)
    &&& across(g.events, area)
    &&& across(g.footer, area)
    &&& alike(seq![g.link, g.transport], Way::Across)
    &&& alike(seq![g.latency, g.throughput], Way::Down)
    &&& alike(seq![g.latency, g.dns, g.loss], Way::Across)
    &&& alike(seq![g.throughput, g.wifi_signal, g.routing], Way::Across)
    &&& area.height >= 22 ==> {
        &&& g.header.height == 3
        &&& g.diagnosis.height == 5
        &&& g.availability.height == 3
        &&& g.link.height == 4
        &&& g.latency.height + g.throughput.height == area.height - 22
        &&& g.events.height == 6
        &&& g.footer.height == 1
    }
}

/// Every part of the dashboard lies within the screen.
pub open spec fn on_grid(g: Grid, area: Area) -> bool {
    &&& lies_in(g.header, area)
    &&& lies_in(g.diagnosis, area)
    &&& lies_in(g.availability, area)
    &&& lies_in(g.link, area)
    &&& lies_in(g.transport, area)
    &&& lies_in(g.latency, area)
    &&& lies_in(g.dns, area)
    &&& lies_in(g.loss, area)
    &&& lies_in(g.throughput, area)
    &&& lies_in(g.wifi_signal, area)
    &&& lies_in(g.routing, area)
    &&& lies_in(g.events, area)
    &&& lies_in(g.footer, area)
}

/// Nothing of a dashboard that takes up the screen lies outside it.
pub proof fn law_the_dashboard_lies_on_the_screen(g: Grid, area: Area)
    requires
        spans(g, area),
    ensures
        on_grid(g, area),
{
    reveal(spans);
}

/// Lays the dashboard out on a screen of the given size.
///
/// The header, the diagnosis, the availability strip and the details have fixed heights at
/// the top, the events and the footer at the bottom; the charts get what is between them. How
/// many rows each part gets where they cannot all have theirs is left to the layout.
pub fn grid(area: Area) -> (g: Grid)
    requires
        on_screen(area),
    ensures
        spans(g, area),
{
    let shares = vec![
        Share::Length(3),
        Share::Length(5),
        Share::Length(3),
        Share::Length(4),
        Share::Min(0),
        Share::Length(6),
        Share::Length(1),
    ];
    let root = split(area, Way::Down, &shares);
    proof {
        lemma_rows(shares@, root@, area);
    }
    let detail = halves(root[3], Way::Across);
    let bands = halves(root[4], Way::Down);
    let top = thirds(bands.0);
    let bottom = thirds(bands.1);
    let g = Grid {
        header: root[0],
        diagnosis: root[1],
        availability: root[2],
        link: detail.0,
        transport: detail.1,
        latency: top.0,
        dns: top.1,
        loss: top.2,
        throughput: bottom.0,
        wifi_signal: bottom.1,
        routing: bottom.2,
        events: root[5],
        footer: root[6],
    };
    proof {
        lemma_two(detail.0, detail.1, root@[3], Way::Across);
        lemma_two(bands.0, bands.1, root@[4], Way::Down);
        lemma_level(top.0, top.1, top.2, bands.0);
        lemma_level(bottom.0, bottom.1, bottom.2, bands.1);
        lemma_as_high(bands.0, bands.1, top.0, bottom.0);
        reveal(spans);
    }
    g
}

proof fn lemma_two(a: Area, b: Area, area: Area, way: Way)
    requires
        tiled(seq![a, b], area, way),
    ensures
        lined_up(a, area, way),
        lined_up(b, area, way),
        start(a, way) == start(area, way),
        start(b, way) == end(a, way),
        end(b, way) == end(area, way),
{
    let parts = seq![a, b];
    assert(parts[0] == a && parts[1] == b);
    assert(follows(parts, 1, way));
}

proof fn lemma_level(a: Area, b: Area, c: Area, area: Area)
    requires
        tiled(seq![a, b, c], area, Way::Across),
    ensures
        in_a_row(a, b, c, area),
        level(a, area),
{
    let parts = seq![a, b, c];
    assert(parts[0] == a && parts[1] == b && parts[2] == c);
    assert(follows(parts, 1, Way::Across));
    assert(follows(parts, 2, Way::Across));
}

proof fn lemma_as_high(a: Area, b: Area, c: Area, d: Area)
    requires
        alike(seq![a, b], Way::Down),
        a.height == c.height,
        b.height == d.height,
    ensures
        alike(seq![c, d], Way::Down),
{
    let old_parts = seq![a, b];
    let parts = seq![c, d];
    assert(old_parts[0] == a && old_parts[1] == b);
    assert forall|i: int, j: int| 0 <= i < parts.len() && 0 <= j < parts.len() implies extent(
        #[trigger] parts[i],
        Way::Down,
    ) <= extent(#[trigger] parts[j], Way::Down) + 1 by {
        assert(extent(old_parts[i], Way::Down) <= extent(old_parts[j], Way::Down) + 1);
    }
}

/// What the rows of the dashboard get.
proof fn lemma_rows(shares: Seq<Share>, parts: Seq<Area>, area: Area)
    requires
        shares == seq![
            Share::Length(3),
            Share::Length(5),
            Share::Length(3),
            Share::Length(4),
            Share::Min(0),
            Share::Length(6),
            Share::Length(1),
        ],
        parts.len() == 7,
        few(shares) && (greedy(shares) || even_parts(shares)) ==> tiled(parts, area, Way::Down),
        few(shares) && roomy(shares, area.height as int) ==> forall|i: int|
            0 <= i < 7 ==> (shares[i] matches Share::Length(n) ==> extent(
                #[trigger] parts[i],
                Way::Down,
            ) == n),
    ensures
        forall|i: int| 0 <= i < 7 ==> lined_up(#[trigger] parts[i], area, Way::Down),
        parts[0].y == area.y,
        below(parts[0], parts[1]),
        below(parts[1], parts[2]),
        below(parts[2], parts[3]),
        below(parts[3], parts[4]),
        below(parts[4], parts[5]),
        below(parts[5], parts[6]),
        parts[6].y + parts[6].height == area.y + area.height,
        area.height >= 22 ==> parts[0].height == 3 && parts[1].height == 5 && parts[2].height
            == 3 && parts[3].height == 4 && parts[5].height == 6 && parts[6].height == 1,
{
    assert(shares[4] is Min);
    assert(fixed(shares) == 22) by {
        reveal_with_fuel(fixed, 8);
    }
    assert(follows(parts, 1, Way::Down));
    assert(follows(parts, 2, Way::Down));
    assert(follows(parts, 3, Way::Down));
    assert(follows(parts, 4, Way::Down));
    assert(follows(parts, 5, Way::Down));
    assert(follows(parts, 6, Way::Down));
}

// ---------------------------------------------------------------------------------------
// Filling it
// ---------------------------------------------------------------------------------------

/// What is left inside the frame around an area.
pub open spec fn inside(a: Area) -> Area {
    Area {
        x: if a.width == 0 { a.x } else { (a.x + 1) as u16 },
        y: if a.height == 0 { a.y } else { (a.y + 1) as u16 },
        width: if a.width < 2 { 0 } else { (a.width - 2) as u16 },
        height: if a.height < 2 { 0 } else { (a.height - 2) as u16 },
    }
}

/// What is left inside the frame around an area.
pub fn inner_area(a: Area) -> (r: Area)
    requires
        on_screen(a),
    ensures
        r == inside(a),
        lies_in(r, a),
{
    Area {
        x: if a.width == 0 {
            a.x
        } else {
            a.x + 1
        },
        y: if a.height == 0 {
            a.y
        } else {
            a.y + 1
        },
        width: if a.width < 2 {
            0
        } else {
            a.width - 2
        },
        height: if a.height < 2 {
            0
        } else {
            a.height - 2
        },
    }
}

/// A panel with its place: the frame, the room for its lines, and the room for its charts.
pub struct Placed {
    pub area: Area,
    pub text: Area,
    pub plot: Option<Area>,
    pub panel: Panel,
}

/// What a [`Placed`] shows, and where.
#[verifier::ext_equal]
pub ghost struct PlacedModel {
    pub area: Area,
    pub text: Area,
    pub plot: Option<Area>,
    pub panel: PanelModel,
}

impl View for Placed {
    type V = PlacedModel;

    open spec fn view(&self) -> PlacedModel {
        PlacedModel { area: self.area, text: self.text, plot: self.plot, panel: self.panel@ }
    }
}

/// A panel in its place: its lines take the rows that it sets aside for them, and its charts
/// the rest.
pub open spec fn placed(area: Area, panel: PanelModel) -> PlacedModel {
    PlacedModel {
        area,
        text: summary_area(inside(area), panel.rows),
        plot: chart_area(inside(area), panel.rows),
        panel,
    }
}

/// The lines and the charts of a panel lie within its frame, and do not overlap.
pub proof fn law_contents_lie_within_the_frame(area: Area, panel: PanelModel)
    requires
        on_screen(area),
    ensures
        ({
            let p = placed(area, panel);
            &&& lies_in(p.text, area)
            &&& p.plot matches Some(plot) ==> lies_in(plot, area) && p.text.y + p.text.height
                <= plot.y
        }),
{
}

/// A panel in its place.
pub fn place(area: Area, panel: Panel) -> (p: Placed)
    requires
        on_screen(area),
    ensures
        p@ == placed(area, panel@),
{
    let (text, plot) = summary_and_chart(inner_area(area), panel.rows);
    Placed { area, text, plot, panel }
}

/// Everything on the screen.
pub struct Screen {
    pub panels: Vec<Placed>,
    pub footer: (Area, Line),
    /// What is drawn over the panels, in order.
    pub overlays: Vec<Overlay>,
}

/// What a [`Screen`] shows.
#[verifier::ext_equal]
pub ghost struct ScreenModel {
    pub panels: Seq<PlacedModel>,
    pub footer: (Area, Seq<SpanModel>),
    pub overlays: Seq<OverlayModel>,
}

impl View for Screen {
    type V = ScreenModel;

    open spec fn view(&self) -> ScreenModel {
        ScreenModel {
            panels: Seq::new(self.panels@.len(), |i: int| self.panels@[i]@),
            footer: (self.footer.0, self.footer.1@),
            overlays: Seq::new(self.overlays@.len(), |i: int| self.overlays@[i]@),
        }
    }
}

/// What is drawn over the panels: the help where it is asked for, then the theme picker where
/// it is open.
pub open spec fn overlays_of(m: AppModel, area: Area) -> Seq<OverlayModel> {
    let help = if m.show_help {
        seq![help_view(m.theme, area)]
    } else {
        Seq::empty()
    };
    match picker_view(m, area) {
        Some(o) => help.push(o),
        None => help,
    }
}

/// The panels in their places.
pub open spec fn panels_of(m: AppModel, g: Grid) -> Seq<PlacedModel> {
    seq![
        placed(g.header, header_panel(m, inside(g.header).height)),
        placed(g.diagnosis, diagnosis_panel(m, inside(g.diagnosis).height)),
        placed(
            g.availability,
            availability_panel(m, inside(g.availability).width, inside(g.availability).height),
        ),
        placed(g.link, link_panel(m, inside(g.link).height)),
        placed(g.transport, transport_panel(m, inside(g.transport).height)),
        placed(g.latency, latency_panel(m, inside(g.latency).height)),
        placed(g.dns, dns_panel(m, inside(g.dns).height)),
        placed(g.loss, loss_panel(m, inside(g.loss).height)),
        placed(g.throughput, throughput_panel(m, inside(g.throughput).height)),
        placed(g.wifi_signal, wifi_panel(m, inside(g.wifi_signal).height)),
        placed(
            g.routing,
            routing_panel(m, inside(g.routing).width, inside(g.routing).height),
        ),
        placed(g.events, events_panel(m, inside(g.events).height)),
    ]
}

/// A problem can't hide: the frame of every panel has the style of the health that the panel
/// stands for. The header and the strip stand for the whole dashboard, the diagnosis for its
/// worst verdict, and each of the others for its metric.
pub proof fn law_every_frame_shows_its_health(m: AppModel, g: Grid)
    ensures
        ({
            let border = |i: int| panels_of(m, g)[i].panel.block.border;
            &&& border(0) == border_of(m.theme, overall(m))
            &&& border(1) == border_of(m.theme, diagnosed(signals_of(m))[0].severity)
            &&& border(2) == border_of(m.theme, overall(m))
            &&& border(3) == border_of(m.theme, panel(m, MetricId::Link))
            &&& border(4) == border_of(m.theme, panel(m, MetricId::TcpHandshake))
            &&& border(5) == border_of(m.theme, panel(m, MetricId::Latency))
            &&& border(6) == border_of(m.theme, panel(m, MetricId::Dns))
            &&& border(7) == border_of(m.theme, panel(m, MetricId::Loss))
            &&& border(8) == border_of(m.theme, panel(m, MetricId::Throughput))
            &&& border(9) == border_of(m.theme, panel(m, MetricId::Link))
            &&& border(10) == border_of(m.theme, panel(m, MetricId::Routing))
        }),
{
    reveal(header_panel);
    reveal(diagnosis_panel);
    reveal(availability_panel);
    reveal(link_panel);
    reveal(transport_panel);
    reveal(latency_panel);
    reveal(dns_panel);
    reveal(loss_panel);
    reveal(throughput_panel);
    reveal(wifi_panel);
    reveal(routing_panel);
}

/// No panel has more than two charts, so the charts of each tile the room that it has for
/// them.
pub proof fn law_a_panel_has_two_charts_at_most(m: AppModel, g: Grid, i: int)
    requires
        0 <= i < 12,
    ensures
        panels_of(m, g).len() == 12,
        panels_of(m, g)[i].panel.charts.len() <= 2,
{
    reveal(header_panel);
    reveal(diagnosis_panel);
    reveal(availability_panel);
    reveal(link_panel);
    reveal(transport_panel);
    reveal(latency_panel);
    reveal(dns_panel);
    reveal(loss_panel);
    reveal(throughput_panel);
    reveal(wifi_panel);
    reveal(routing_panel);
    reveal(events_panel);
}

/// The dashboard on a screen laid out as `g`.
pub open spec fn filled(m: AppModel, area: Area, g: Grid) -> ScreenModel {
    ScreenModel {
        panels: panels_of(m, g),
        footer: (g.footer, footer_line(m.theme)),
        overlays: overlays_of(m, area),
    }
}

fn overlays(state: &AppState, area: Area) -> (v: Vec<Overlay>)
    requires
        on_screen(area),
    ensures
        Seq::new(v@.len(), |i: int| v@[i]@) == overlays_of(state@, area),
{
    let mut v: Vec<Overlay> = Vec::new();
    if state.show_help {
        v.push(help_overlay(state, area));
    }
    let ghost before = v@;
    assert(Seq::new(before.len(), |i: int| before[i]@) =~= (if state.show_help {
        seq![help_view(state@.theme, area)]
    } else {
        Seq::empty()
    }));
    match theme_picker_overlay(state, area) {
        Some(o) => {
            v.push(o);
            assert(Seq::new(v@.len(), |i: int| v@[i]@) =~= Seq::new(
                before.len(),
                |i: int| before[i]@,
            ).push(o@));
        },
        None => {},
    }
    v
}

/// The dashboard on a screen laid out as `g`.
#[verifier::spinoff_prover]
#[verifier::rlimit(60)]
pub fn fill(state: &AppState, area: Area, g: &Grid) -> (s: Screen)
    requires
        on_screen(area),
        on_grid(*g, area),
    ensures
        s@ == filled(state@, area, *g),
{
    let strip = inner_area(g.availability);
    let path = inner_area(g.routing);
    let mut v: Vec<Placed> = Vec::new();
    v.push(place(g.header, header(state, inner_area(g.header).height)));
    v.push(place(g.diagnosis, diagnosis(state, inner_area(g.diagnosis).height)));
    v.push(place(g.availability, availability(state, strip.width, strip.height)));
    v.push(place(g.link, link(state, inner_area(g.link).height)));
    v.push(place(g.transport, transport(state, inner_area(g.transport).height)));
    v.push(place(g.latency, latency(state, inner_area(g.latency).height)));
    v.push(place(g.dns, dns(state, inner_area(g.dns).height)));
    v.push(place(g.loss, loss(state, inner_area(g.loss).height)));
    v.push(place(g.throughput, throughput(state, inner_area(g.throughput).height)));
    v.push(place(g.wifi_signal, wifi_signal(state, inner_area(g.wifi_signal).height)));
    v.push(place(g.routing, routing(state, path.width, path.height)));
    v.push(place(g.events, events(state, inner_area(g.events).height)));
    let s = Screen {
        panels: v,
        footer: (g.footer, footer(state)),
        overlays: overlays(state, area),
    };
    assert(s@.panels =~= panels_of(state@, *g));
    s
}

/// The whole dashboard on a screen of the given size.
pub fn render(state: &AppState, area: Area) -> (s: Screen)
    requires
        on_screen(area),
    ensures
        exists|g: Grid| spans(g, area) && s@ == #[trigger] filled(state@, area, g),
{
    let g = grid(area);
    proof {
        law_the_dashboard_lies_on_the_screen(g, area);
    }
    fill(state, area, &g)
}

/// A frame takes one cell off on every side, as far as there are cells.
pub proof fn law_a_frame_takes_one_cell_on_every_side(a: Area)
    requires
        on_screen(a),
        a.width >= 2,
        a.height >= 2,
    ensures
        inside(a).x == a.x + 1,
        inside(a).y == a.y + 1,
        inside(a).x + inside(a).width == a.x + a.width - 1,
        inside(a).y + inside(a).height == a.y + a.height - 1,
{
}

/// The help is drawn exactly while it is asked for, the picker exactly while it is open, and
/// the picker on top.
pub proof fn law_overlays_are_drawn_while_open(m: AppModel, area: Area)
    ensures
        ({
            let o = overlays_of(m, area);
            let open = picker_view(m, area) is Some;
            &&& o.len() == (if m.show_help {
                1int
            } else {
                0
            }) + (if open {
                1int
            } else {
                0
            })
            &&& m.show_help ==> o[0] == help_view(m.theme, area)
            &&& open ==> o.last() == picker_view(m, area)->0
        }),
{
}

/// Every panel stands in the place that the grid has for it, and its lines take the rows that
/// it sets aside for them.
pub proof fn law_panels_stand_in_their_places(m: AppModel, g: Grid, i: int)
    requires
        0 <= i < 12,
    ensures
        ({
            let p = panels_of(m, g);
            &&& p[0].area == g.header && p[1].area == g.diagnosis && p[2].area == g.availability
            &&& p[3].area == g.link && p[4].area == g.transport && p[5].area == g.latency
            &&& p[6].area == g.dns && p[7].area == g.loss && p[8].area == g.throughput
            &&& p[9].area == g.wifi_signal && p[10].area == g.routing && p[11].area == g.events
            &&& p[i] == placed(p[i].area, p[i].panel)
            &&& p[11].panel.block.border == colored(m.theme.muted)
        }),
{
    reveal(crate::ui::panels::feed::events_panel);
}

} // verus!
