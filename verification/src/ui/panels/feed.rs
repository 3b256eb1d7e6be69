//! The incident feed.

use vstd::prelude::*;

use crate::app::{AppModel, AppState};
use crate::diagnosis::layer_tag;
use crate::format::{fixed0, last_digits, push_digits, push_fixed0};
use crate::incidents::{incidents, Incident, IncidentModel};
use crate::ui::theme::{color_of, health_symbol, symbol_of, Palette, Style, Theme};
use crate::ui::view::{
    colored, lines, new_text_panel, plain, push_line, raw, styled, text_panel, Block, BlockModel,
    Line, Panel, PanelModel, SpanModel,
};
use crate::units::{Timestamp, SECOND};

verus! {

/// The second of its day, in UTC, that an instant falls into.
pub open spec fn second_of_day(ts: Timestamp) -> int {
    (ts as int / SECOND as int) % 86_400
}

/// The time of day, in UTC, of an instant: hours, minutes and seconds, two digits each.
pub open spec fn clock(ts: Timestamp) -> Seq<char> {
    let s = second_of_day(ts) as nat;
    last_digits(s / 3_600, 10, 2) + ":"@ + last_digits(s / 60 % 60, 10, 2) + ":"@ + last_digits(
        s % 60,
        10,
        2,
    )
}

/// The time of day, in UTC, of an instant.
pub fn clock_text(ts: Timestamp) -> (s: String)
    ensures
        s@ == clock(ts),
{
    let wide: i128 = crate::history::floor_div(ts as i128, SECOND as i128);
    let days: i128 = crate::history::floor_div(wide, 86_400);
    let second: u64 = (wide - days * 86_400) as u64;
    let mut s = String::new();
    push_digits(&mut s, second / 3_600, 10, 2);
    s.append(":");
    push_digits(&mut s, second / 60 % 60, 10, 2);
    s.append(":");
    push_digits(&mut s, second % 60, 10, 2);
    assert(s@ =~= clock(ts));
    s
}

/// One incident. One that an upstream fault already explains is drawn entirely in the muted
/// colour and indented under it: still there to read, just not competing with the one line
/// that says what to actually go and fix.
pub open spec fn incident_row(p: Palette, inc: IncidentModel) -> Seq<SpanModel> {
    let muted = colored(p.muted);
    let echo = inc.cause is Some;
    let head = seq![
        styled(clock(inc.ts), muted),
        raw(
            if echo {
                "   "@
            } else {
                " "@
            },
        ),
        styled(
            symbol_of(inc.severity),
            if echo {
                muted
            } else {
                colored(color_of(p, inc.severity))
            },
        ),
        raw(" "@),
        styled(
            inc.message,
            if echo {
                muted
            } else {
                plain()
            },
        ),
    ];
    let bound = match inc.threshold {
        Some(t) => head.push(styled("  · thr "@ + fixed0(t as int) + inc.unit, muted)),
        None => head,
    };
    match inc.cause {
        Some(l) => bound.push(styled("  ↳ explained by "@ + layer_tag(l), muted)),
        None => bound,
    }
}

/// How many incidents of a feed are shown in `height` rows once `scroll` are skipped.
pub open spec fn visible(n: nat, scroll: usize, height: u16) -> nat {
    if scroll >= n {
        0
    } else if n - scroll < height {
        (n - scroll) as nat
    } else {
        height as nat
    }
}

/// The incidents that are shown, newest first.
pub open spec fn feed_rows(m: AppModel, height: u16) -> Seq<Seq<SpanModel>> {
    let n = visible(m.events.len(), m.events_scroll, height);
    if n == 0 {
        seq![seq![styled("no incidents recorded"@, colored(m.theme.muted))]]
    } else {
        Seq::new(n, |i: int| incident_row(m.theme, m.events[m.events_scroll + i]))
    }
}

/// The feed.
#[verifier::opaque]
pub open spec fn events_panel(m: AppModel, height: u16) -> PanelModel {
    text_panel(
        BlockModel { title: seq![raw(" EVENTS "@)], border: colored(m.theme.muted) },
        height,
        feed_rows(m, height),
    )
}

fn incident_line(theme: &Theme, inc: &Incident) -> (l: Line)
    ensures
        l@ == incident_row(theme@, inc@),
{
    let muted = Style::colored(theme.muted);
    let mut l = Line::new();
    l.push(clock_text(inc.ts), muted);
    let l = if inc.is_downstream() {
        l.raw("   ").styled(health_symbol(inc.severity), muted).raw(" ").styled(
            inc.message.as_str(),
            muted,
        )
    } else {
        l.raw(" ").styled(
            health_symbol(inc.severity),
            Style::colored(theme.health_color(inc.severity)),
        ).raw(" ").styled(inc.message.as_str(), Style::plain())
    };
    let mut l = l;
    // Surface the threshold that was crossed.
    match inc.threshold {
        Some(t) => {
            let mut thr = "  · thr ".to_owned();
            push_fixed0(&mut thr, t);
            thr.append(inc.unit.as_str());
            l.push(thr, muted);
        },
        None => {},
    }
    // Name the fault that accounts for it, so the dimming reads as an explanation rather than
    // as the dashboard losing interest.
    match inc.cause {
        Some(layer) => {
            let mut cause = "  ↳ explained by ".to_owned();
            cause.append(layer.tag());
            l.push(cause, muted);
        },
        None => {},
    }
    l
}

/// Recent incident feed (newest first).
pub fn events(state: &AppState, height: u16) -> (p: Panel)
    ensures
        p@ == events_panel(state@, height),
{
    reveal(events_panel);
    let muted = Style::colored(state.theme.muted);
    let block = Block { title: Line::new().raw(" EVENTS "), border: muted };
    let total: usize = state.events.len();
    let first: usize = state.events_scroll;
    let n: usize = if first >= total {
        0
    } else if total - first < height as usize {
        total - first
    } else {
        height as usize
    };
    let mut shown: Vec<Line> = Vec::new();
    assert(lines(shown@) =~= Seq::empty());
    if n == 0 {
        push_line(&mut shown, Line::new().styled("no incidents recorded", muted));
        return new_text_panel(block, height, shown);
    }
    let ghost all = feed_rows(state@, height);
    assert(lines(shown@) =~= all.take(0));
    for i in 0..n
        invariant
            n == visible(state@.events.len(), first, height),
            n > 0,
            total == state.events@.len(),
            first + n <= total,
            first == state.events_scroll,
            all == feed_rows(state@, height),
            lines(shown@) == all.take(i as int),
    {
        assert(state@.events[first + i] == state.events@[first + i]@);
        push_line(&mut shown, incident_line(&state.theme, &state.events[first + i]));
        assert(lines(shown@) =~= all.take(i + 1));
    }
    assert(all.take(n as int) =~= all);
    new_text_panel(block, height, shown)
}

/// An echo is dimmed, never dropped: its line still says what happened, and says what
/// accounts for it, all in the muted colour.
pub proof fn law_an_echo_is_dimmed_not_dropped(p: Palette, inc: IncidentModel, i: int)
    requires
        inc.cause is Some,
        0 <= i < incident_row(p, inc).len(),
    ensures
        incident_row(p, inc)[4].text == inc.message,
        incident_row(p, inc).last().text == "  ↳ explained by "@ + layer_tag(inc.cause->0),
        incident_row(p, inc)[i].style == colored(p.muted) || incident_row(p, inc)[i].style
            == plain(),
        i == 0 || i == 2 || i >= 4 ==> incident_row(p, inc)[i].style == colored(p.muted),
{
}

/// A clock shows hours, minutes and seconds that add up to the second of the day, each below
/// its next unit, and a day later it shows the same.
pub proof fn law_clocks_show_the_time_of_day(ts: Timestamp)
    ensures
        ({
            let s = second_of_day(ts);
            let h = s / 3_600;
            let m = s / 60 % 60;
            let sec = s % 60;
            &&& 0 <= s < 86_400
            &&& h * 3_600 + m * 60 + sec == s
            &&& h < 24 && m < 60 && sec < 60
            &&& clock(ts) == last_digits(h as nat, 10, 2) + ":"@ + last_digits(m as nat, 10, 2)
                + ":"@ + last_digits(sec as nat, 10, 2)
            &&& 0 <= ts < 86_400_000_000_000 ==> s * 1_000_000_000 <= ts < (s + 1) * 1_000_000_000
            &&& ts <= i64::MAX - 86_400_000_000_000 ==> second_of_day(
                (ts + 86_400_000_000_000) as i64,
            ) == s
        }),
{
}

/// News stands out: its glyph is in the color of its severity and its words are plain; the
/// bound that it crossed follows where there is one.
pub proof fn law_news_stands_out(p: Palette, inc: IncidentModel)
    requires
        inc.cause is None,
    ensures
        ({
            let row = incident_row(p, inc);
            &&& row[0].text == clock(inc.ts)
            &&& row[2].text == symbol_of(inc.severity) && row[2].style == colored(
                color_of(p, inc.severity),
            )
            &&& row[4].text == inc.message && row[4].style == plain()
            &&& inc.threshold is None ==> row.len() == 5
            &&& inc.threshold matches Some(t) ==> row.len() == 6 && row[5].text == "  · thr "@
                + fixed0(t as int) + inc.unit
        }),
{
}

/// The feed shows the incidents from where it is scrolled to, one a row, as many as there are
/// rows for, and says so where there are none.
pub proof fn law_the_feed_shows_what_it_is_scrolled_to(m: AppModel, height: u16, i: int)
    requires
        height > 0,
    ensures
        ({
            let rows = events_panel(m, height).lines;
            let left = m.events.len() - m.events_scroll;
            &&& left <= 0 ==> rows.len() == 1 && rows[0][0].text == "no incidents recorded"@
            &&& left > 0 ==> rows.len() == (if left < height {
                left
            } else {
                height as int
            })
            &&& left > 0 && 0 <= i < rows.len() ==> rows[i] == incident_row(
                m.theme,
                m.events[m.events_scroll + i],
            )
        }),
{
    reveal(events_panel);
}

} // verus!
