//! Control actions.

use vstd::prelude::*;

use crate::app::{AppModel, AppState, PickerModel, ThemePicker};
use crate::ui::theme::{next_palette, palette_at, theme_index, Theme, THEME_COUNT};

verus! {

/// Control actions (mapped from key input by the event loop).
#[derive(Debug, Clone, Copy, PartialEq, Eq, Structural)]
pub enum Action {
    Quit,
    TogglePause,
    ClearEvents,
    ForceRefresh,
    /// Switch to the next theme of the catalog.
    CycleTheme,
    /// Open the theme picker overlay (browse + live-preview themes).
    OpenThemePicker,
    /// Move the picker selection to the previous/next theme, live-previewing it.
    ThemePreviewUp,
    ThemePreviewDown,
    /// Keep the previewed theme and close the picker.
    ThemePickerConfirm,
    /// Revert to the theme active before opening and close the picker.
    ThemePickerCancel,
    /// Toggle the keybinding help overlay.
    ToggleHelp,
    /// Scroll the events feed toward older / newer incidents.
    ScrollUp,
    ScrollDown,
    ScrollPageUp,
    ScrollPageDown,
}

/// The furthest the feed scrolls: at least one incident stays visible.
pub open spec fn max_scroll(m: AppModel) -> int {
    if m.events.len() == 0 {
        0
    } else {
        m.events.len() - 1
    }
}

/// Scrolled `step` incidents towards the older ones.
pub open spec fn scrolled_up(m: AppModel, step: int) -> AppModel {
    AppModel {
        events_scroll: (if m.events_scroll + step < max_scroll(m) {
            m.events_scroll + step
        } else {
            max_scroll(m)
        }) as usize,
        ..m
    }
}

/// Scrolled `step` incidents towards the newer ones.
pub open spec fn scrolled_down(m: AppModel, step: int) -> AppModel {
    AppModel {
        events_scroll: (if m.events_scroll > step {
            m.events_scroll - step
        } else {
            0
        }) as usize,
        ..m
    }
}

/// The picker moved `step` themes down the catalog, previewing the one it lands on.
pub open spec fn previewed(m: AppModel, step: int) -> AppModel {
    match m.theme_picker {
        Some(p) => {
            let i = (p.index + step) % 20;
            AppModel {
                theme_picker: Some(PickerModel { index: i as usize, ..p }),
                theme: palette_at(i),
                ..m
            }
        },
        None => m,
    }
}

/// The state after a control action.
pub open spec fn acted(m: AppModel, action: Action) -> AppModel {
    match action {
        Action::Quit => AppModel { should_quit: true, ..m },
        Action::TogglePause => AppModel { paused: !m.paused, ..m },
        Action::ClearEvents => AppModel { events: Seq::empty(), events_scroll: 0, ..m },
        Action::ForceRefresh => m,
        Action::CycleTheme => AppModel { theme: next_palette(m.theme.name), ..m },
        Action::OpenThemePicker => match m.theme_picker {
            Some(_) => m,
            None => {
                let i = theme_index(m.theme.name);
                AppModel {
                    theme_picker: Some(
                        PickerModel {
                            index: (if i < 20 {
                                i
                            } else {
                                0
                            }) as usize,
                            original: m.theme,
                        },
                    ),
                    show_help: false,
                    ..m
                }
            },
        },
        Action::ThemePreviewUp => previewed(m, 19),
        Action::ThemePreviewDown => previewed(m, 1),
        Action::ThemePickerConfirm => AppModel { theme_picker: None, ..m },
        Action::ThemePickerCancel => match m.theme_picker {
            Some(p) => AppModel { theme_picker: None, theme: p.original, ..m },
            None => m,
        },
        Action::ToggleHelp => AppModel { show_help: !m.show_help, ..m },
        Action::ScrollUp => scrolled_up(m, 1),
        Action::ScrollDown => scrolled_down(m, 1),
        Action::ScrollPageUp => scrolled_up(m, 5),
        Action::ScrollPageDown => scrolled_down(m, 5),
    }
}

impl AppState {
    fn scroll_up(&mut self, step: usize)
        ensures
            final(self)@ == scrolled_up(old(self)@, step as int),
    {
        // Highest incident index we can scroll to (keep at least one visible).
        let max: usize = if self.events.len() == 0 {
            0
        } else {
            self.events.len() - 1
        };
        let to: usize = self.events_scroll.saturating_add(step);
        self.events_scroll = if to < max {
            to
        } else {
            max
        };
    }

    fn scroll_down(&mut self, step: usize)
        ensures
            final(self)@ == scrolled_down(old(self)@, step as int),
    {
        self.events_scroll = if self.events_scroll > step {
            self.events_scroll - step
        } else {
            0
        };
    }

    fn preview(&mut self, step: usize)
        requires
            step < 20,
        ensures
            final(self)@ == previewed(old(self)@, step as int),
    {
        match self.theme_picker {
            Some(p) => {
                let i: usize = (p.index % THEME_COUNT + step) % THEME_COUNT;
                assert(i == (p.index + step) % 20);
                self.theme_picker = Some(ThemePicker { index: i, original: p.original });
                self.theme = Theme::at(i);
            },
            None => {},
        }
    }

    /// Apply a control action.
    pub fn apply_action(&mut self, action: Action)
        ensures
            final(self)@ == acted(old(self)@, action),
    {
        match action {
            Action::Quit => {
                self.should_quit = true;
            },
            Action::TogglePause => {
                self.paused = !self.paused;
            },
            Action::ClearEvents => {
                self.events.clear();
                self.events_scroll = 0;
                assert(self@ =~= acted(old(self)@, action));
            },
            // Handled by the event loop (re-triggers probes).
            Action::ForceRefresh => {},
            Action::CycleTheme => {
                self.theme = self.theme.next();
            },
            Action::OpenThemePicker => {
                if self.theme_picker.is_none() {
                    let i: usize = Theme::index_of(self.theme.name);
                    self.theme_picker = Some(
                        ThemePicker {
                            index: if i < THEME_COUNT {
                                i
                            } else {
                                0
                            },
                            original: self.theme,
                        },
                    );
                    self.show_help = false;  // don't stack overlays
                }
            },
            Action::ThemePreviewUp => self.preview(19),
            Action::ThemePreviewDown => self.preview(1),
            // Keep the previewed theme.
            Action::ThemePickerConfirm => {
                self.theme_picker = None;
            },
            Action::ThemePickerCancel => {
                match self.theme_picker {
                    Some(p) => {
                        self.theme_picker = None;
                        self.theme = p.original;
                    },
                    None => {},
                }
            },
            Action::ToggleHelp => {
                self.show_help = !self.show_help;
            },
            Action::ScrollUp => self.scroll_up(1),
            Action::ScrollDown => self.scroll_down(1),
            Action::ScrollPageUp => self.scroll_up(5),
            Action::ScrollPageDown => self.scroll_down(5),
        }
    }
}

/// The state after a run of control actions.
pub open spec fn acted_all(m: AppModel, actions: Seq<Action>) -> AppModel
    decreases actions.len(),
{
    if actions.len() == 0 {
        m
    } else {
        acted(acted_all(m, actions.drop_last()), actions.last())
    }
}

/// The action moves the selection of the theme picker.
pub open spec fn is_preview(a: Action) -> bool {
    a == Action::ThemePreviewUp || a == Action::ThemePreviewDown
}

proof fn lemma_previews_keep_the_original(m: AppModel, previews: Seq<Action>)
    requires
        m.theme_picker is Some,
        forall|i: int| 0 <= i < previews.len() ==> is_preview(#[trigger] previews[i]),
    ensures
        ({
            let n = acted_all(m, previews);
            &&& n.theme_picker matches Some(p) && p.original == m.theme_picker->0.original
            &&& n == (AppModel { theme: n.theme, theme_picker: n.theme_picker, ..m })
        }),
    decreases previews.len(),
{
    if previews.len() > 0 {
        lemma_previews_keep_the_original(m, previews.drop_last());
        assert(is_preview(previews[previews.len() - 1]));
    }
}

/// Opening the theme picker, previewing any themes and cancelling restores the theme that
/// was active before, and closes the picker.
pub proof fn law_cancelling_the_picker_restores_the_theme(m: AppModel, previews: Seq<Action>)
    requires
        m.theme_picker is None,
        forall|i: int| 0 <= i < previews.len() ==> is_preview(#[trigger] previews[i]),
    ensures
        ({
            let n = acted(
                acted_all(acted(m, Action::OpenThemePicker), previews),
                Action::ThemePickerCancel,
            );
            n == (AppModel { show_help: false, ..m })
        }),
{
    lemma_previews_keep_the_original(acted(m, Action::OpenThemePicker), previews);
}

/// Confirming keeps the theme that is being previewed, and closes the picker.
pub proof fn law_confirming_the_picker_keeps_the_preview(m: AppModel)
    ensures
        acted(m, Action::ThemePickerConfirm).theme == m.theme,
        acted(m, Action::ThemePickerConfirm).theme_picker is None,
{
}

/// Moving up undoes moving down in the theme picker.
pub proof fn law_preview_up_undoes_down(m: AppModel)
    requires
        m.theme_picker matches Some(p) && p.index < 20 && m.theme == palette_at(p.index as int),
    ensures
        acted(acted(m, Action::ThemePreviewDown), Action::ThemePreviewUp) == m,
        acted(acted(m, Action::ThemePreviewUp), Action::ThemePreviewDown) == m,
{
}

/// The feed never scrolls past its oldest incident: one stays visible.
pub proof fn law_scrolling_stays_in_the_feed(m: AppModel, action: Action)
    requires
        m.events_scroll <= max_scroll(m),
    ensures
        acted(m, action).events_scroll <= max_scroll(acted(m, action)),
{
}

/// Pausing and help toggle: doing either twice changes nothing.
pub proof fn law_toggles_undo_themselves(m: AppModel)
    ensures
        acted(acted(m, Action::TogglePause), Action::TogglePause) == m,
        acted(acted(m, Action::ToggleHelp), Action::ToggleHelp) == m,
{
}

/// What an action does: it quits, pauses, clears or scrolls, and touches nothing else.
pub proof fn law_actions_do_what_they_say(m: AppModel)
    requires
        m.events_scroll <= max_scroll(m),
        m.events.len() <= m.max_events,
    ensures
        acted(m, Action::Quit) == (AppModel { should_quit: true, ..m }),
        acted(m, Action::TogglePause).paused != m.paused,
        acted(m, Action::ToggleHelp).show_help != m.show_help,
        acted(m, Action::ForceRefresh) == m,
        acted(m, Action::CycleTheme) == (AppModel { theme: next_palette(m.theme.name), ..m }),
        ({
            let c = acted(m, Action::ClearEvents);
            c == (AppModel { events: c.events, events_scroll: 0, ..m }) && c.events.len() == 0
        }),
        scrolls_by(m, acted(m, Action::ScrollUp), 1),
        scrolls_by(m, acted(m, Action::ScrollPageUp), 5),
        scrolls_by(m, acted(m, Action::ScrollDown), -1),
        scrolls_by(m, acted(m, Action::ScrollPageDown), -5),
{
}

/// The feed has scrolled that far towards the older incidents, or as far as it goes.
pub open spec fn scrolls_by(m: AppModel, n: AppModel, step: int) -> bool {
    let last = if m.events.len() > 0 {
        m.events.len() - 1
    } else {
        0
    };
    let to = m.events_scroll + step;
    &&& n == (AppModel { events_scroll: n.events_scroll, ..m })
    &&& n.events_scroll == (if to < 0 {
        0
    } else if to > last {
        last
    } else {
        to
    })
}

/// The picker opens on the theme that is in use, and remembers it.
pub proof fn law_the_picker_opens_on_the_theme_in_use(m: AppModel)
    requires
        m.theme_picker is None,
    ensures
        acted(m, Action::OpenThemePicker).theme_picker matches Some(p) && p.original == m.theme && (
        0 <= theme_index(m.theme.name) < 20 ==> p.index == theme_index(m.theme.name)),
        acted(m, Action::OpenThemePicker).theme == m.theme,
        !acted(m, Action::OpenThemePicker).show_help,
{
}

/// One step down the catalog is the next theme, from the last one on to the first.
pub proof fn law_the_picker_goes_round(m: AppModel)
    requires
        m.theme_picker matches Some(p) && p.index < 20,
    ensures
        ({
            let down = acted(m, Action::ThemePreviewDown);
            let i = m.theme_picker->0.index;
            &&& down.theme_picker matches Some(p) && p.index == (if i == 19 {
                0
            } else {
                i + 1
            }) && p.original == m.theme_picker->0.original && down.theme == palette_at(
                p.index as int,
            )
        }),
{
}

} // verus!
