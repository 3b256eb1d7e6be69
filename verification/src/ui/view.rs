//! What a panel shows: styled text, frames and places on the screen.
//!
//! A panel is described, not drawn: its frame, its lines and its charts are plain values, so
//! what the operator reads can be stated and proved. Putting them on a terminal is left to
//! the program around the library.

use vstd::prelude::*;

use crate::health::Health;
use crate::ui::charts::{charts, Chart, ChartModel};
use crate::ui::theme::{border_of, Color, Palette, Style, Theme};

verus! {

/// Text with no color or weight of its own.
pub open spec fn plain() -> Style {
    Style { fg: None, bold: false }
}

/// Text in the color `c`.
pub open spec fn colored(c: Color) -> Style {
    Style { fg: Some(c), bold: false }
}

/// Bold text in the color `c`.
pub open spec fn strong(c: Color) -> Style {
    Style { fg: Some(c), bold: true }
}

impl Style {
    pub fn plain() -> (s: Style)
        ensures
            s == plain(),
    {
        Style { fg: None, bold: false }
    }

    pub fn colored(c: Color) -> (s: Style)
        ensures
            s == colored(c),
    {
        Style { fg: Some(c), bold: false }
    }

    pub fn strong(c: Color) -> (s: Style)
        ensures
            s == strong(c),
    {
        Style { fg: Some(c), bold: true }
    }
}

/// A run of text in one style.
#[derive(Debug, PartialEq, Eq)]
pub struct Span {
    pub text: String,
    pub style: Style,
}

/// What a [`Span`] shows.
#[verifier::ext_equal]
pub ghost struct SpanModel {
    pub text: Seq<char>,
    pub style: Style,
}

impl View for Span {
    type V = SpanModel;

    open spec fn view(&self) -> SpanModel {
        SpanModel { text: self.text@, style: self.style }
    }
}

/// A run of unstyled text.
pub open spec fn raw(text: Seq<char>) -> SpanModel {
    SpanModel { text, style: plain() }
}

/// A run of text in a style.
pub open spec fn styled(text: Seq<char>, style: Style) -> SpanModel {
    SpanModel { text, style }
}

/// One line of a panel.
#[derive(Debug, PartialEq, Eq)]
pub struct Line {
    pub spans: Vec<Span>,
}

impl View for Line {
    type V = Seq<SpanModel>;

    open spec fn view(&self) -> Seq<SpanModel> {
        Seq::new(self.spans@.len(), |i: int| self.spans@[i]@)
    }
}

/// What the lines of a list show.
pub open spec fn lines(v: Seq<Line>) -> Seq<Seq<SpanModel>> {
    Seq::new(v.len(), |i: int| v[i]@)
}

impl Line {
    pub fn new() -> (l: Line)
        ensures
            l@ == Seq::<SpanModel>::empty(),
    {
        let l = Line { spans: Vec::new() };
        assert(l@ =~= Seq::<SpanModel>::empty());
        l
    }

    /// Put a run of text at the end.
    pub fn push(&mut self, text: String, style: Style)
        ensures
            final(self)@ == old(self)@.push(styled(text@, style)),
    {
        let span = Span { text, style };
        let ghost shown = span@;
        self.spans.push(span);
        assert(self@ =~= old(self)@.push(shown));
    }

    /// The line with a run of unstyled text at the end.
    pub fn raw(self, text: &str) -> (l: Line)
        ensures
            l@ == self@.push(raw(text@)),
    {
        let mut l = self;
        l.push(text.to_owned(), Style::plain());
        l
    }

    /// The line with a run of styled text at the end.
    pub fn styled(self, text: &str, style: Style) -> (l: Line)
        ensures
            l@ == self@.push(styled(text@, style)),
    {
        let mut l = self;
        l.push(text.to_owned(), style);
        l
    }

    /// The text of the line, without its styles.
    pub fn text(&self) -> (s: String)
        ensures
            s@ == line_text(self@),
    {
        let mut s = String::new();
        let n: usize = self.spans.len();
        assert(self@.take(0) =~= Seq::empty());
        for i in 0..n
            invariant
                n == self.spans@.len(),
                s@ == line_text(self@.take(i as int)),
        {
            assert(self@.take(i + 1).drop_last() =~= self@.take(i as int));
            assert(self@.take(i + 1).last() == self.spans@[i as int]@);
            s.append(self.spans[i].text.as_str());
        }
        assert(self@.take(n as int) =~= self@);
        s
    }
}

/// The text of a line, without its styles.
pub open spec fn line_text(l: Seq<SpanModel>) -> Seq<char>
    decreases l.len(),
{
    if l.len() == 0 {
        Seq::empty()
    } else {
        line_text(l.drop_last()) + l.last().text
    }
}

/// Put a line at the end of a list.
pub fn push_line(v: &mut Vec<Line>, l: Line)
    ensures
        lines(final(v)@) == lines(old(v)@).push(l@),
{
    let ghost shown = l@;
    v.push(l);
    assert(lines(v@) =~= lines(old(v)@).push(shown));
}

/// The frame of a panel.
#[derive(Debug, PartialEq, Eq)]
pub struct Block {
    pub title: Line,
    pub border: Style,
}

/// What a [`Block`] shows.
#[verifier::ext_equal]
pub ghost struct BlockModel {
    pub title: Seq<SpanModel>,
    pub border: Style,
}

impl View for Block {
    type V = BlockModel;

    open spec fn view(&self) -> BlockModel {
        BlockModel { title: self.title@, border: self.border }
    }
}

/// A frame whose border and title take the color of a health state.
pub open spec fn health_frame(title: Seq<char>, h: Health, p: Palette) -> BlockModel {
    BlockModel {
        title: seq![raw(" "@), styled(title, border_of(p, h)), raw(" "@)],
        border: border_of(p, h),
    }
}

/// A frame whose border and title color reflect `health`, drawn in `theme`'s palette. This is
/// the single place the "red frame on issue" contract is applied, so every panel gets it for
/// free.
pub fn metric_block(title: &str, health: Health, theme: &Theme) -> (b: Block)
    ensures
        b@ == health_frame(title@, health, theme@),
{
    let style = theme.border_style(health);
    Block { title: Line::new().raw(" ").styled(title, style).raw(" "), border: style }
}

/// A panel: its frame, the lines at its top and the charts below them.
pub struct Panel {
    pub block: Block,
    /// Rows set aside for the lines; the charts share what is left.
    pub rows: u16,
    pub lines: Vec<Line>,
    pub charts: Vec<Chart>,
}

/// What a [`Panel`] shows.
#[verifier::ext_equal]
pub ghost struct PanelModel {
    pub block: BlockModel,
    pub rows: u16,
    pub lines: Seq<Seq<SpanModel>>,
    pub charts: Seq<ChartModel>,
}

impl View for Panel {
    type V = PanelModel;

    open spec fn view(&self) -> PanelModel {
        PanelModel {
            block: self.block@,
            rows: self.rows,
            lines: lines(self.lines@),
            charts: charts(self.charts@),
        }
    }
}

/// A panel without charts, whose lines take the whole height.
pub open spec fn text_panel(
    block: BlockModel,
    height: u16,
    shown: Seq<Seq<SpanModel>>,
) -> PanelModel {
    PanelModel { block, rows: height, lines: shown, charts: Seq::empty() }
}

/// A panel without charts, whose lines take the whole height.
pub fn new_text_panel(block: Block, height: u16, shown: Vec<Line>) -> (p: Panel)
    ensures
        p@ == text_panel(block@, height, lines(shown@)),
{
    let p = Panel { block, rows: height, lines: shown, charts: Vec::new() };
    assert(charts(p.charts@) =~= Seq::<ChartModel>::empty());
    p
}

// ---------------------------------------------------------------------------------------
// Places
// ---------------------------------------------------------------------------------------

/// A rectangle of cells.
#[derive(Debug, Clone, Copy, PartialEq, Eq, Structural)]
pub struct Area {
    pub x: u16,
    pub y: u16,
    pub width: u16,
    pub height: u16,
}

/// The smaller of two sizes.
pub open spec fn smaller(a: u16, b: u16) -> u16 {
    if a <= b {
        a
    } else {
        b
    }
}

/// The smaller of two sizes.
pub fn smaller_of(a: u16, b: u16) -> (m: u16)
    ensures
        m == smaller(a, b),
{
    if a <= b {
        a
    } else {
        b
    }
}

/// There is height enough below the lines to draw a useful graph.
pub open spec fn chart_fits(height: u16, rows: u16) -> bool {
    height - smaller(rows, height) >= 3
}

/// Whether there is height enough below the lines to draw a useful graph.
pub fn fits_chart(height: u16, rows: u16) -> (b: bool)
    ensures
        b == chart_fits(height, rows),
{
    height - smaller_of(rows, height) >= 3
}

/// The top `rows` rows of an area, as far as it has so many.
pub open spec fn summary_area(inner: Area, rows: u16) -> Area {
    Area { height: smaller(rows, inner.height), ..inner }
}

/// What is left of an area below its top `rows` rows, where a useful graph fits there.
pub open spec fn chart_area(inner: Area, rows: u16) -> Option<Area> {
    if chart_fits(inner.height, rows) {
        Some(
            Area {
                y: (inner.y + smaller(rows, inner.height)) as u16,
                height: (inner.height - smaller(rows, inner.height)) as u16,
                ..inner
            },
        )
    } else {
        None
    }
}

/// Split a panel's inner area into a fixed-height summary region and a chart region below.
/// The chart region is `None` when there isn't enough height to draw a useful line graph.
pub fn summary_and_chart(inner: Area, rows: u16) -> (r: (Area, Option<Area>))
    requires
        inner.y + smaller(rows, inner.height) <= u16::MAX,
    ensures
        r.0 == summary_area(inner, rows),
        r.1 == chart_area(inner, rows),
{
    let top: u16 = smaller_of(rows, inner.height);
    let summary = Area { height: top, ..inner };
    let chart = Area { y: inner.y + top, height: inner.height - top, ..inner };
    if fits_chart(inner.height, rows) {
        (summary, Some(chart))
    } else {
        (summary, None)
    }
}

/// The gap before something of at most `size` cells in the middle of `room` cells.
pub open spec fn gap_before(room: u16, size: u16) -> int {
    (room - smaller(size, room)) / 2
}

/// A centered rectangle of at most `width` by `height` within `area`.
pub open spec fn centered(area: Area, width: u16, height: u16) -> Area {
    Area {
        x: (area.x + gap_before(area.width, width)) as u16,
        y: (area.y + gap_before(area.height, height)) as u16,
        width: smaller(width, area.width),
        height: smaller(height, area.height),
    }
}

/// A centered rectangle of at most `width` by `height` within `area`.
pub fn centered_rect(area: Area, width: u16, height: u16) -> (r: Area)
    requires
        area.x + gap_before(area.width, width) <= u16::MAX,
        area.y + gap_before(area.height, height) <= u16::MAX,
    ensures
        r == centered(area, width, height),
{
    let w: u16 = smaller_of(width, area.width);
    let h: u16 = smaller_of(height, area.height);
    Area {
        x: area.x + (area.width - w) / 2,
        y: area.y + (area.height - h) / 2,
        width: w,
        height: h,
    }
}

/// A centered rectangle lies within the area that it is centered in, with the same gap on
/// either side up to one cell.
pub proof fn law_centered_lies_within(area: Area, width: u16, height: u16)
    requires
        area.x + area.width <= u16::MAX,
        area.y + area.height <= u16::MAX,
    ensures
        ({
            let r = centered(area, width, height);
            let left = r.x - area.x;
            let right = area.x + area.width - (r.x + r.width);
            let above = r.y - area.y;
            let below = area.y + area.height - (r.y + r.height);
            &&& 0 <= left <= right <= left + 1
            &&& 0 <= above <= below <= above + 1
        }),
{
}

/// A graph is drawn only where three rows are left for it; the lines and the graph then share
/// the room out between them, the lines on top.
pub proof fn law_lines_and_graph_share_the_room(inner: Area, rows: u16)
    requires
        inner.y + inner.height <= u16::MAX,
    ensures
        ({
            let text = summary_area(inner, rows);
            let plot = chart_area(inner, rows);
            &&& text.y == inner.y && text.x == inner.x && text.width == inner.width
            &&& rows <= inner.height ==> text.height == rows
            &&& rows > inner.height ==> text.height == inner.height
            &&& plot is Some <==> inner.height >= rows + 3
            &&& plot matches Some(p) ==> p.y == inner.y + rows && p.height == inner.height - rows
                && p.x == inner.x && p.width == inner.width
        }),
{
}

/// A frame bears its title in the style of its border, which is that of the health.
pub proof fn law_a_frame_bears_its_title(title: Seq<char>, h: Health, p: Palette)
    ensures
        ({
            let f = health_frame(title, h, p);
            &&& f.border == border_of(p, h)
            &&& line_text(f.title) == " "@ + title + " "@
            &&& f.title[1].style == f.border
        }),
{
    let t = health_frame(title, h, p).title;
    assert(t.drop_last() =~= seq![t[0], t[1]]);
    assert(t.drop_last().drop_last() =~= seq![t[0]]);
    assert(t.drop_last().drop_last().drop_last() =~= Seq::<SpanModel>::empty());
    reveal_with_fuel(line_text, 4);
    assert(line_text(t) =~= " "@ + title + " "@);
}

} // verus!
