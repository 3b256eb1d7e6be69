//! What is drawn over and under the panels: the help, the theme picker and the footer.

use vstd::prelude::*;

use crate::app::{AppModel, AppState};

use crate::ui::theme::{palette_at, theme_name, Palette, Style, Theme, THEME_COUNT};
use crate::ui::view::{
    centered, centered_rect, colored, gap_before, lines, push_line, raw, strong, styled, Area,
    Block, BlockModel, Line, SpanModel,
};

verus! {

/// Something drawn on top of the dashboard.
pub struct Overlay {
    pub area: Area,
    pub block: Block,
    pub lines: Vec<Line>,
}

/// What an [`Overlay`] shows.
#[verifier::ext_equal]
pub ghost struct OverlayModel {
    pub area: Area,
    pub block: BlockModel,
    pub lines: Seq<Seq<SpanModel>>,
}

impl View for Overlay {
    type V = OverlayModel;

    open spec fn view(&self) -> OverlayModel {
        OverlayModel { area: self.area, block: self.block@, lines: lines(self.lines@) }
    }
}

/// There is a place for a `width` by `height` rectangle in the middle of `area`.
pub open spec fn has_middle(area: Area, width: u16, height: u16) -> bool {
    &&& area.x + gap_before(area.width, width) <= u16::MAX
    &&& area.y + gap_before(area.height, height) <= u16::MAX
}

/// The key bindings.
pub open spec fn help_rows() -> Seq<Seq<SpanModel>> {
    seq![
        seq![raw("q / Esc     quit"@)],
        seq![raw("p           pause / resume"@)],
        seq![raw("r           force refresh"@)],
        seq![raw("c           clear events"@)],
        seq![raw("t           theme picker"@)],
        seq![raw("↑ / ↓  k/j  scroll events"@)],
        seq![raw("PgUp/PgDn   page events"@)],
        seq![raw("?           toggle this help"@)],
    ]
}

/// The help.
pub open spec fn help_view(p: Palette, area: Area) -> OverlayModel {
    OverlayModel {
        area: centered(area, 34, 10),
        block: BlockModel { title: seq![raw(" HELP "@)], border: colored(p.accent) },
        lines: help_rows(),
    }
}

/// Keybinding help, drawn as a centered overlay (toggled with `?`).
pub fn help_overlay(state: &AppState, area: Area) -> (o: Overlay)
    requires
        has_middle(area, 34, 10),
    ensures
        o@ == help_view(state.theme@, area),
{
    let mut rows: Vec<Line> = Vec::new();
    push_line(&mut rows, Line::new().raw("q / Esc     quit"));
    push_line(&mut rows, Line::new().raw("p           pause / resume"));
    push_line(&mut rows, Line::new().raw("r           force refresh"));
    push_line(&mut rows, Line::new().raw("c           clear events"));
    push_line(&mut rows, Line::new().raw("t           theme picker"));
    push_line(&mut rows, Line::new().raw("↑ / ↓  k/j  scroll events"));
    push_line(&mut rows, Line::new().raw("PgUp/PgDn   page events"));
    push_line(&mut rows, Line::new().raw("?           toggle this help"));
    assert(lines(rows@) =~= help_rows());
    Overlay {
        area: centered_rect(area, 34, 10),
        block: Block {
            title: Line::new().raw(" HELP "),
            border: Style::colored(state.theme.accent),
        },
        lines: rows,
    }
}

/// One theme of the catalog, with its ok/warn/crit swatch.
pub open spec fn theme_row(active: Palette, i: int, selected: bool) -> Seq<SpanModel> {
    let t = palette_at(i);
    seq![
        raw(
            if selected {
                "▶ "@
            } else {
                "  "@
            },
        ),
        styled("●"@, colored(t.ok)),
        styled("●"@, colored(t.warn)),
        styled("●"@, colored(t.crit)),
        raw(" "@),
        styled(
            theme_name(i),
            if selected {
                strong(active.accent)
            } else {
                colored(active.muted)
            },
        ),
    ]
}

/// The catalog, and how to use it.
pub open spec fn picker_rows(active: Palette, index: usize) -> Seq<Seq<SpanModel>> {
    Seq::new(20, |i: int| theme_row(active, i, i == index)).push(seq![raw(""@)]).push(
        seq![styled("↑↓ preview · enter keep · esc revert"@, colored(active.muted))],
    )
}

/// The theme picker, where it is open.
pub open spec fn picker_view(m: AppModel, area: Area) -> Option<OverlayModel> {
    match m.theme_picker {
        Some(p) => Some(
            OverlayModel {
                area: centered(area, 40, 24),
                block: BlockModel {
                    title: seq![raw(" THEME "@)],
                    border: colored(m.theme.accent),
                },
                lines: picker_rows(m.theme, p.index),
            },
        ),
        None => None,
    }
}

/// What an overlay that may not be there shows.
pub open spec fn overlay_model(o: Option<Overlay>) -> Option<OverlayModel> {
    match o {
        Some(x) => Some(x@),
        None => None,
    }
}

fn theme_line(active: &Theme, name: &str, i: usize, selected: bool) -> (l: Line)
    requires
        i < 20,
        name@ == theme_name(i as int),
    ensures
        l@ == theme_row(active@, i as int, selected),
{
    let t = Theme::at(i);
    let style = if selected {
        Style::strong(active.accent)
    } else {
        Style::colored(active.muted)
    };
    let mark = if selected {
        "▶ "
    } else {
        "  "
    };
    Line::new().raw(mark).styled("●", Style::colored(t.ok)).styled("●", Style::colored(t.warn)).styled(
        "●",
        Style::colored(t.crit),
    ).raw(" ").styled(name, style)
}

/// Theme picker overlay: browse the catalog with a live preview of the whole dashboard
/// (opened with `t`; up/down preview, Enter keeps, Esc reverts). Each row shows the theme's
/// ok/warn/crit swatch so a palette can be judged without selecting it.
pub fn theme_picker_overlay(state: &AppState, area: Area) -> (o: Option<Overlay>)
    requires
        has_middle(area, 40, 24),
    ensures
        overlay_model(o) == picker_view(state@, area),
{
    let picker = match state.theme_picker {
        Some(p) => p,
        None => {
            return None;
        },
    };
    let names = Theme::names();
    let mut rows: Vec<Line> = Vec::new();
    let ghost all = picker_rows(state.theme@, picker.index);
    assert(lines(rows@) =~= all.take(0));
    for i in 0..THEME_COUNT
        invariant
            names@.len() == 20,
            forall|k: int| 0 <= k < 20 ==> (#[trigger] names@[k])@ == theme_name(k),
            all == picker_rows(state.theme@, picker.index),
            lines(rows@) == all.take(i as int),
    {
        assert(names@[i as int]@ == theme_name(i as int));
        let l = theme_line(&state.theme, names[i], i, i == picker.index);
        assert(l@ == all[i as int]);
        push_line(&mut rows, l);
        assert(lines(rows@) =~= all.take(i + 1));
    }
    let blank = Line::new().raw("");
    assert(blank@ == all[20]);
    push_line(&mut rows, blank);
    let hint = Line::new().styled(
        "↑↓ preview · enter keep · esc revert",
        Style::colored(state.theme.muted),
    );
    assert(hint@ == all[21]);
    push_line(&mut rows, hint);
    assert(lines(rows@) =~= all);
    Some(
        Overlay {
            area: centered_rect(area, 40, 24),
            block: Block {
                title: Line::new().raw(" THEME "),
                border: Style::colored(state.theme.accent),
            },
            lines: rows,
        },
    )
}

/// The key bindings, in one line.
pub open spec fn footer_line(p: Palette) -> Seq<SpanModel> {
    seq![
        styled(
            " q quit · r refresh · p pause · c clear events · t theme · ? help "@,
            colored(p.muted),
        ),
    ]
}

/// Keybind hint bar.
pub fn footer(state: &AppState) -> (l: Line)
    ensures
        l@ == footer_line(state.theme@),
{
    Line::new().styled(
        " q quit · r refresh · p pause · c clear events · t theme · ? help ",
        Style::colored(state.theme.muted),
    )
}

/// The picker lists the whole catalog, each theme with its own colors, and marks the one that
/// is previewed and no other.
pub proof fn law_the_picker_marks_one_theme(active: Palette, index: usize, i: int)
    requires
        0 <= i < 20,
    ensures
        ({
            let rows = picker_rows(active, index);
            &&& rows.len() == 22
            &&& rows[i][5].text == theme_name(i)
            &&& rows[i][1].style == colored(palette_at(i).ok)
            &&& rows[i][2].style == colored(palette_at(i).warn)
            &&& rows[i][3].style == colored(palette_at(i).crit)
            &&& i == index ==> rows[i][0].text == "▶ "@ && rows[i][5].style == strong(
                active.accent,
            )
            &&& i != index ==> rows[i][0].text == "  "@ && rows[i][5].style == colored(
                active.muted,
            )
        }),
{
}

/// The picker is there exactly while it is open.
pub proof fn law_the_picker_is_drawn_while_open(m: AppModel, area: Area)
    ensures
        picker_view(m, area) is Some <==> m.theme_picker is Some,
        picker_view(m, area) matches Some(o) ==> o.lines == picker_rows(
            m.theme,
            m.theme_picker->0.index,
        ),
{
}

} // verus!
