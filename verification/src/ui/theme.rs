//! Colors and health-driven styling shared by all panels.
//!
//! Every semantic color lives on a [`Theme`]. The central contract: a panel's border and
//! title style is derived purely from its [`Health`]. A healthy panel gets a quiet
//! `border_ok`, `Warn` goes to the theme's amber/yellow, `Crit` to its red, so an unhealthy
//! section's frame always lights up regardless of the active theme.

use vstd::prelude::*;

use crate::health::Health;
use crate::text::same_text;

verus! {

/// A terminal color.
#[derive(Clone, Copy, Debug, PartialEq, Eq, Hash, Structural)]
pub enum Color {
    Green,
    Yellow,
    Red,
    DarkGray,
    Cyan,
    Blue,
    Magenta,
    LightRed,
    Rgb(u8, u8, u8),
}

/// How a piece of text is drawn: its color, where it has one of its own, and its weight.
#[derive(Clone, Copy, Debug, PartialEq, Eq, Structural)]
pub struct Style {
    pub fg: Option<Color>,
    pub bold: bool,
}

/// A complete color palette.
#[derive(Clone, Copy, Debug, PartialEq, Eq)]
pub struct Theme {
    /// Stable identifier (matches the config `ui.theme` value and [`Theme::names`]).
    pub name: &'static str,
    /// Healthy accent (status dots, gauges).
    pub ok: Color,
    /// Warning accent and warn border.
    pub warn: Color,
    /// Critical accent and crit border.
    pub crit: Color,
    /// Quiet border color for a healthy panel (low emphasis).
    pub border_ok: Color,
    /// Primary highlight: titles, the "NetPulse" banner, the latency chart.
    pub accent: Color,
    /// Download / receive rate.
    pub rx: Color,
    /// Upload / transmit rate.
    pub tx: Color,
    /// De-emphasized text: placeholders, footer, event timestamps.
    pub muted: Color,
    /// Distinct colors for multi-line charts (indexed, wraps).
    pub series: [Color; 6],
}

/// What a [`Theme`] says.
#[verifier::ext_equal]
pub ghost struct Palette {
    pub name: Seq<char>,
    pub ok: Color,
    pub warn: Color,
    pub crit: Color,
    pub border_ok: Color,
    pub accent: Color,
    pub rx: Color,
    pub tx: Color,
    pub muted: Color,
    pub series: Seq<Color>,
}

impl View for Theme {
    type V = Palette;

    open spec fn view(&self) -> Palette {
        Palette {
            name: self.name@,
            ok: self.ok,
            warn: self.warn,
            crit: self.crit,
            border_ok: self.border_ok,
            accent: self.accent,
            rx: self.rx,
            tx: self.tx,
            muted: self.muted,
            series: self.series@,
        }
    }
}

/// How many themes there are.
pub const THEME_COUNT: usize = 20;

/// The name of the theme at position `i` of the catalog, in cycle order.
#[verifier::opaque]
pub open spec fn theme_name(i: int) -> Seq<char> {
    if i == 0 {
        "default"@
    } else if i == 1 {
        "neon_sunset"@
    } else if i == 2 {
        "moss_goblin"@
    } else if i == 3 {
        "cybercity_night"@
    } else if i == 4 {
        "cottage_fire"@
    } else if i == 5 {
        "arctic_aurora"@
    } else if i == 6 {
        "vaporwave"@
    } else if i == 7 {
        "dracula"@
    } else if i == 8 {
        "nord"@
    } else if i == 9 {
        "gruvbox"@
    } else if i == 10 {
        "tokyo_night"@
    } else if i == 11 {
        "catppuccin"@
    } else if i == 12 {
        "solarized_dark"@
    } else if i == 13 {
        "monokai"@
    } else if i == 14 {
        "rose_pine"@
    } else if i == 15 {
        "sakura"@
    } else if i == 16 {
        "deep_ocean"@
    } else if i == 17 {
        "desert_dune"@
    } else if i == 18 {
        "synthwave"@
    } else {
        "harvest"@
    }
}

/// The position of a theme in the catalog, by its name; [`THEME_COUNT`] where there is none.
#[verifier::opaque]
pub open spec fn theme_index(name: Seq<char>) -> int {
    if name == "default"@ {
        0
    } else if name == "neon_sunset"@ {
        1
    } else if name == "moss_goblin"@ {
        2
    } else if name == "cybercity_night"@ {
        3
    } else if name == "cottage_fire"@ {
        4
    } else if name == "arctic_aurora"@ {
        5
    } else if name == "vaporwave"@ {
        6
    } else if name == "dracula"@ {
        7
    } else if name == "nord"@ {
        8
    } else if name == "gruvbox"@ {
        9
    } else if name == "tokyo_night"@ {
        10
    } else if name == "catppuccin"@ {
        11
    } else if name == "solarized_dark"@ {
        12
    } else if name == "monokai"@ {
        13
    } else if name == "rose_pine"@ {
        14
    } else if name == "sakura"@ {
        15
    } else if name == "deep_ocean"@ {
        16
    } else if name == "desert_dune"@ {
        17
    } else if name == "synthwave"@ {
        18
    } else if name == "harvest"@ {
        19
    } else {
        20
    }
}

/// The palette at position `i` of the catalog.
#[verifier::opaque]
pub open spec fn palette_at(i: int) -> Palette {
    if i == 0 {
        Palette {
            name: "default"@,
            ok: Color::Green,
            warn: Color::Yellow,
            crit: Color::Red,
            border_ok: Color::DarkGray,
            accent: Color::Cyan,
            rx: Color::Green,
            tx: Color::Blue,
            muted: Color::DarkGray,
            series: seq![
                Color::Cyan,
                Color::Magenta,
                Color::Green,
                Color::Yellow,
                Color::Blue,
                Color::LightRed,
            ],
        }
    } else if i == 1 {
        Palette {
            name: "neon_sunset"@,
            ok: Color::Rgb(64, 224, 208),
            warn: Color::Rgb(255, 176, 59),
            crit: Color::Rgb(255, 66, 84),
            border_ok: Color::Rgb(120, 92, 140),
            accent: Color::Rgb(255, 79, 163),
            rx: Color::Rgb(64, 224, 208),
            tx: Color::Rgb(255, 140, 66),
            muted: Color::Rgb(120, 100, 130),
            series: seq![
                Color::Rgb(255, 79, 163),
                Color::Rgb(255, 140, 66),
                Color::Rgb(178, 102, 255),
                Color::Rgb(64, 224, 208),
                Color::Rgb(255, 205, 84),
                Color::Rgb(255, 105, 220),
            ],
        }
    } else if i == 2 {
        Palette {
            name: "moss_goblin"@,
            ok: Color::Rgb(140, 190, 90),
            warn: Color::Rgb(198, 160, 58),
            crit: Color::Rgb(190, 74, 58),
            border_ok: Color::Rgb(90, 105, 70),
            accent: Color::Rgb(122, 156, 78),
            rx: Color::Rgb(130, 180, 90),
            tx: Color::Rgb(150, 120, 70),
            muted: Color::Rgb(100, 110, 90),
            series: seq![
                Color::Rgb(122, 156, 78),
                Color::Rgb(198, 160, 58),
                Color::Rgb(190, 74, 58),
                Color::Rgb(150, 186, 122),
                Color::Rgb(150, 120, 70),
                Color::Rgb(214, 205, 160),
            ],
        }
    } else if i == 3 {
        Palette {
            name: "cybercity_night"@,
            ok: Color::Rgb(57, 255, 136),
            warn: Color::Rgb(255, 214, 10),
            crit: Color::Rgb(255, 45, 85),
            border_ok: Color::Rgb(70, 90, 120),
            accent: Color::Rgb(0, 229, 255),
            rx: Color::Rgb(0, 229, 255),
            tx: Color::Rgb(214, 93, 255),
            muted: Color::Rgb(80, 95, 120),
            series: seq![
                Color::Rgb(0, 229, 255),
                Color::Rgb(214, 93, 255),
                Color::Rgb(57, 255, 136),
                Color::Rgb(255, 214, 10),
                Color::Rgb(80, 140, 255),
                Color::Rgb(255, 105, 180),
            ],
        }
    } else if i == 4 {
        Palette {
            name: "cottage_fire"@,
            ok: Color::Rgb(150, 170, 90),
            warn: Color::Rgb(232, 168, 56),
            crit: Color::Rgb(208, 70, 44),
            border_ok: Color::Rgb(130, 110, 92),
            accent: Color::Rgb(230, 126, 48),
            rx: Color::Rgb(224, 168, 84),
            tx: Color::Rgb(180, 92, 64),
            muted: Color::Rgb(140, 120, 100),
            series: seq![
                Color::Rgb(230, 126, 48),
                Color::Rgb(224, 168, 84),
                Color::Rgb(180, 92, 64),
                Color::Rgb(150, 170, 90),
                Color::Rgb(226, 210, 172),
                Color::Rgb(160, 52, 40),
            ],
        }
    } else if i == 5 {
        Palette {
            name: "arctic_aurora"@,
            ok: Color::Rgb(126, 224, 184),
            warn: Color::Rgb(240, 200, 96),
            crit: Color::Rgb(240, 96, 112),
            border_ok: Color::Rgb(70, 100, 130),
            accent: Color::Rgb(94, 205, 255),
            rx: Color::Rgb(126, 224, 184),
            tx: Color::Rgb(150, 150, 255),
            muted: Color::Rgb(96, 116, 140),
            series: seq![
                Color::Rgb(94, 205, 255),
                Color::Rgb(126, 224, 184),
                Color::Rgb(168, 140, 255),
                Color::Rgb(120, 240, 220),
                Color::Rgb(240, 200, 96),
                Color::Rgb(255, 120, 160),
            ],
        }
    } else if i == 6 {
        Palette {
            name: "vaporwave"@,
            ok: Color::Rgb(94, 234, 212),
            warn: Color::Rgb(255, 214, 102),
            crit: Color::Rgb(255, 84, 132),
            border_ok: Color::Rgb(108, 92, 160),
            accent: Color::Rgb(178, 112, 255),
            rx: Color::Rgb(94, 234, 212),
            tx: Color::Rgb(255, 128, 224),
            muted: Color::Rgb(130, 110, 160),
            series: seq![
                Color::Rgb(255, 113, 206),
                Color::Rgb(1, 205, 254),
                Color::Rgb(178, 112, 255),
                Color::Rgb(5, 255, 161),
                Color::Rgb(255, 214, 102),
                Color::Rgb(255, 128, 224),
            ],
        }
    } else if i == 7 {
        Palette {
            name: "dracula"@,
            ok: Color::Rgb(80, 250, 123),
            warn: Color::Rgb(255, 184, 108),
            crit: Color::Rgb(255, 85, 85),
            border_ok: Color::Rgb(98, 114, 164),
            accent: Color::Rgb(189, 147, 249),
            rx: Color::Rgb(139, 233, 253),
            tx: Color::Rgb(255, 121, 198),
            muted: Color::Rgb(98, 114, 164),
            series: seq![
                Color::Rgb(189, 147, 249),
                Color::Rgb(255, 121, 198),
                Color::Rgb(139, 233, 253),
                Color::Rgb(80, 250, 123),
                Color::Rgb(255, 184, 108),
                Color::Rgb(241, 250, 140),
            ],
        }
    } else if i == 8 {
        Palette {
            name: "nord"@,
            ok: Color::Rgb(163, 190, 140),
            warn: Color::Rgb(235, 203, 139),
            crit: Color::Rgb(191, 97, 106),
            border_ok: Color::Rgb(76, 86, 106),
            accent: Color::Rgb(136, 192, 208),
            rx: Color::Rgb(143, 188, 187),
            tx: Color::Rgb(180, 142, 173),
            muted: Color::Rgb(97, 110, 136),
            series: seq![
                Color::Rgb(136, 192, 208),
                Color::Rgb(180, 142, 173),
                Color::Rgb(163, 190, 140),
                Color::Rgb(235, 203, 139),
                Color::Rgb(129, 161, 193),
                Color::Rgb(208, 135, 112),
            ],
        }
    } else if i == 9 {
        Palette {
            name: "gruvbox"@,
            ok: Color::Rgb(184, 187, 38),
            warn: Color::Rgb(250, 189, 47),
            crit: Color::Rgb(251, 73, 52),
            border_ok: Color::Rgb(102, 92, 84),
            accent: Color::Rgb(254, 128, 25),
            rx: Color::Rgb(142, 192, 124),
            tx: Color::Rgb(131, 165, 152),
            muted: Color::Rgb(146, 131, 116),
            series: seq![
                Color::Rgb(254, 128, 25),
                Color::Rgb(184, 187, 38),
                Color::Rgb(250, 189, 47),
                Color::Rgb(131, 165, 152),
                Color::Rgb(211, 134, 155),
                Color::Rgb(142, 192, 124),
            ],
        }
    } else if i == 10 {
        Palette {
            name: "tokyo_night"@,
            ok: Color::Rgb(158, 206, 106),
            warn: Color::Rgb(224, 175, 104),
            crit: Color::Rgb(247, 118, 142),
            border_ok: Color::Rgb(86, 95, 137),
            accent: Color::Rgb(122, 162, 247),
            rx: Color::Rgb(125, 207, 255),
            tx: Color::Rgb(187, 154, 247),
            muted: Color::Rgb(86, 95, 137),
            series: seq![
                Color::Rgb(122, 162, 247),
                Color::Rgb(187, 154, 247),
                Color::Rgb(125, 207, 255),
                Color::Rgb(158, 206, 106),
                Color::Rgb(224, 175, 104),
                Color::Rgb(247, 118, 142),
            ],
        }
    } else if i == 11 {
        Palette {
            name: "catppuccin"@,
            ok: Color::Rgb(166, 227, 161),
            warn: Color::Rgb(250, 179, 135),
            crit: Color::Rgb(243, 139, 168),
            border_ok: Color::Rgb(108, 112, 134),
            accent: Color::Rgb(203, 166, 247),
            rx: Color::Rgb(148, 226, 213),
            tx: Color::Rgb(245, 194, 231),
            muted: Color::Rgb(108, 112, 134),
            series: seq![
                Color::Rgb(203, 166, 247),
                Color::Rgb(245, 194, 231),
                Color::Rgb(137, 180, 250),
                Color::Rgb(166, 227, 161),
                Color::Rgb(249, 226, 175),
                Color::Rgb(250, 179, 135),
            ],
        }
    } else if i == 12 {
        Palette {
            name: "solarized_dark"@,
            ok: Color::Rgb(133, 153, 0),
            warn: Color::Rgb(181, 137, 0),
            crit: Color::Rgb(220, 50, 47),
            border_ok: Color::Rgb(88, 110, 117),
            accent: Color::Rgb(42, 161, 152),
            rx: Color::Rgb(38, 139, 210),
            tx: Color::Rgb(211, 54, 130),
            muted: Color::Rgb(88, 110, 117),
            series: seq![
                Color::Rgb(42, 161, 152),
                Color::Rgb(38, 139, 210),
                Color::Rgb(133, 153, 0),
                Color::Rgb(181, 137, 0),
                Color::Rgb(211, 54, 130),
                Color::Rgb(108, 113, 196),
            ],
        }
    } else if i == 13 {
        Palette {
            name: "monokai"@,
            ok: Color::Rgb(166, 226, 46),
            warn: Color::Rgb(230, 219, 116),
            crit: Color::Rgb(249, 38, 114),
            border_ok: Color::Rgb(117, 113, 94),
            accent: Color::Rgb(102, 217, 239),
            rx: Color::Rgb(102, 217, 239),
            tx: Color::Rgb(174, 129, 255),
            muted: Color::Rgb(117, 113, 94),
            series: seq![
                Color::Rgb(249, 38, 114),
                Color::Rgb(166, 226, 46),
                Color::Rgb(102, 217, 239),
                Color::Rgb(253, 151, 31),
                Color::Rgb(174, 129, 255),
                Color::Rgb(230, 219, 116),
            ],
        }
    } else if i == 14 {
        Palette {
            name: "rose_pine"@,
            ok: Color::Rgb(156, 207, 216),
            warn: Color::Rgb(246, 193, 119),
            crit: Color::Rgb(235, 111, 146),
            border_ok: Color::Rgb(110, 106, 134),
            accent: Color::Rgb(235, 188, 186),
            rx: Color::Rgb(156, 207, 216),
            tx: Color::Rgb(196, 167, 231),
            muted: Color::Rgb(110, 106, 134),
            series: seq![
                Color::Rgb(196, 167, 231),
                Color::Rgb(235, 111, 146),
                Color::Rgb(156, 207, 216),
                Color::Rgb(246, 193, 119),
                Color::Rgb(49, 116, 143),
                Color::Rgb(235, 188, 186),
            ],
        }
    } else if i == 15 {
        Palette {
            name: "sakura"@,
            ok: Color::Rgb(150, 205, 140),
            warn: Color::Rgb(240, 190, 100),
            crit: Color::Rgb(235, 90, 110),
            border_ok: Color::Rgb(150, 120, 135),
            accent: Color::Rgb(255, 145, 175),
            rx: Color::Rgb(150, 205, 140),
            tx: Color::Rgb(200, 150, 220),
            muted: Color::Rgb(160, 130, 145),
            series: seq![
                Color::Rgb(255, 145, 175),
                Color::Rgb(255, 183, 197),
                Color::Rgb(200, 150, 220),
                Color::Rgb(150, 205, 140),
                Color::Rgb(240, 190, 100),
                Color::Rgb(120, 180, 200),
            ],
        }
    } else if i == 16 {
        Palette {
            name: "deep_ocean"@,
            ok: Color::Rgb(72, 207, 173),
            warn: Color::Rgb(240, 196, 84),
            crit: Color::Rgb(240, 98, 110),
            border_ok: Color::Rgb(40, 70, 95),
            accent: Color::Rgb(0, 168, 204),
            rx: Color::Rgb(72, 207, 173),
            tx: Color::Rgb(94, 140, 220),
            muted: Color::Rgb(70, 100, 125),
            series: seq![
                Color::Rgb(0, 168, 204),
                Color::Rgb(72, 207, 173),
                Color::Rgb(94, 140, 220),
                Color::Rgb(240, 196, 84),
                Color::Rgb(240, 98, 110),
                Color::Rgb(130, 110, 200),
            ],
        }
    } else if i == 17 {
        Palette {
            name: "desert_dune"@,
            ok: Color::Rgb(166, 180, 110),
            warn: Color::Rgb(226, 170, 70),
            crit: Color::Rgb(200, 80, 55),
            border_ok: Color::Rgb(120, 100, 80),
            accent: Color::Rgb(210, 155, 100),
            rx: Color::Rgb(166, 180, 110),
            tx: Color::Rgb(180, 130, 90),
            muted: Color::Rgb(140, 120, 100),
            series: seq![
                Color::Rgb(210, 155, 100),
                Color::Rgb(226, 170, 70),
                Color::Rgb(200, 80, 55),
                Color::Rgb(166, 180, 110),
                Color::Rgb(228, 205, 160),
                Color::Rgb(150, 110, 80),
            ],
        }
    } else if i == 18 {
        Palette {
            name: "synthwave"@,
            ok: Color::Rgb(63, 240, 180),
            warn: Color::Rgb(255, 199, 95),
            crit: Color::Rgb(255, 66, 110),
            border_ok: Color::Rgb(90, 70, 140),
            accent: Color::Rgb(211, 54, 255),
            rx: Color::Rgb(0, 240, 255),
            tx: Color::Rgb(255, 113, 206),
            muted: Color::Rgb(120, 95, 160),
            series: seq![
                Color::Rgb(211, 54, 255),
                Color::Rgb(255, 113, 206),
                Color::Rgb(0, 240, 255),
                Color::Rgb(63, 240, 180),
                Color::Rgb(255, 199, 95),
                Color::Rgb(255, 66, 110),
            ],
        }
    } else {
        Palette {
            name: "harvest"@,
            ok: Color::Rgb(150, 168, 72),
            warn: Color::Rgb(223, 146, 42),
            crit: Color::Rgb(194, 58, 40),
            border_ok: Color::Rgb(110, 92, 66),
            accent: Color::Rgb(230, 175, 45),
            rx: Color::Rgb(150, 168, 72),
            tx: Color::Rgb(176, 98, 54),
            muted: Color::Rgb(140, 118, 86),
            series: seq![
                Color::Rgb(230, 175, 45),
                Color::Rgb(176, 98, 54),
                Color::Rgb(194, 58, 40),
                Color::Rgb(150, 168, 72),
                Color::Rgb(222, 196, 140),
                Color::Rgb(120, 90, 60),
            ],
        }
    }
}

/// The palette that a name resolves to: its own, or the first one for an unknown name.
pub open spec fn resolved_palette(name: Seq<char>) -> Palette {
    let i = theme_index(name);
    palette_at(
        if i < 20 {
            i
        } else {
            0
        },
    )
}

/// The palette after the one with this name, in cycle order.
pub open spec fn next_palette(name: Seq<char>) -> Palette {
    let i = theme_index(name);
    palette_at(
        if i < 20 {
            (i + 1) % 20
        } else {
            1
        },
    )
}

/// A palette's color for a health state.
pub open spec fn color_of(p: Palette, h: Health) -> Color {
    match h {
        Health::Good => p.ok,
        Health::Warn => p.warn,
        Health::Crit => p.crit,
    }
}

/// A palette's border style for a health state.
pub open spec fn border_of(p: Palette, h: Health) -> Style {
    match h {
        Health::Good => Style { fg: Some(p.border_ok), bold: false },
        Health::Warn => Style { fg: Some(p.warn), bold: true },
        Health::Crit => Style { fg: Some(p.crit), bold: true },
    }
}

/// A palette's color for the `i`-th series of a chart.
pub open spec fn series_color_of(p: Palette, i: int) -> Color {
    p.series[i % 6]
}

impl Theme {
    /// The neutral built-in theme.
    pub fn default_theme() -> (t: Theme)
        ensures
            t@ == palette_at(0),
    {
        let t = Theme {
            name: "default",
            ok: Color::Green,
            warn: Color::Yellow,
            crit: Color::Red,
            border_ok: Color::DarkGray,
            accent: Color::Cyan,
            rx: Color::Green,
            tx: Color::Blue,
            muted: Color::DarkGray,
            series: [
                Color::Cyan,
                Color::Magenta,
                Color::Green,
                Color::Yellow,
                Color::Blue,
                Color::LightRed,
            ],
        };
        assert(t@ =~= palette_at(0)) by {
            reveal(palette_at);
        }
        t
    }

    /// Warm neon gradient: hot pink accent, teal/amber health, sunset chart palette.
    fn neon_sunset() -> (t: Theme)
        ensures
            t@ == palette_at(1),
    {
        let t = Theme {
            name: "neon_sunset",
            ok: Color::Rgb(64, 224, 208),
            warn: Color::Rgb(255, 176, 59),
            crit: Color::Rgb(255, 66, 84),
            border_ok: Color::Rgb(120, 92, 140),
            accent: Color::Rgb(255, 79, 163),
            rx: Color::Rgb(64, 224, 208),
            tx: Color::Rgb(255, 140, 66),
            muted: Color::Rgb(120, 100, 130),
            series: [
                Color::Rgb(255, 79, 163),
                Color::Rgb(255, 140, 66),
                Color::Rgb(178, 102, 255),
                Color::Rgb(64, 224, 208),
                Color::Rgb(255, 205, 84),
                Color::Rgb(255, 105, 220),
            ],
        };
        assert(t@ =~= palette_at(1)) by {
            reveal(palette_at);
        }
        t
    }

    /// Earthy forest: moss accent, ochre/rust health, mushroom chart palette.
    fn moss_goblin() -> (t: Theme)
        ensures
            t@ == palette_at(2),
    {
        let t = Theme {
            name: "moss_goblin",
            ok: Color::Rgb(140, 190, 90),
            warn: Color::Rgb(198, 160, 58),
            crit: Color::Rgb(190, 74, 58),
            border_ok: Color::Rgb(90, 105, 70),
            accent: Color::Rgb(122, 156, 78),
            rx: Color::Rgb(130, 180, 90),
            tx: Color::Rgb(150, 120, 70),
            muted: Color::Rgb(100, 110, 90),
            series: [
                Color::Rgb(122, 156, 78),
                Color::Rgb(198, 160, 58),
                Color::Rgb(190, 74, 58),
                Color::Rgb(150, 186, 122),
                Color::Rgb(150, 120, 70),
                Color::Rgb(214, 205, 160),
            ],
        };
        assert(t@ =~= palette_at(2)) by {
            reveal(palette_at);
        }
        t
    }

    /// Classic cyberpunk: cyan accent, neon green/magenta health on a steel-blue frame.
    fn cybercity_night() -> (t: Theme)
        ensures
            t@ == palette_at(3),
    {
        let t = Theme {
            name: "cybercity_night",
            ok: Color::Rgb(57, 255, 136),
            warn: Color::Rgb(255, 214, 10),
            crit: Color::Rgb(255, 45, 85),
            border_ok: Color::Rgb(70, 90, 120),
            accent: Color::Rgb(0, 229, 255),
            rx: Color::Rgb(0, 229, 255),
            tx: Color::Rgb(214, 93, 255),
            muted: Color::Rgb(80, 95, 120),
            series: [
                Color::Rgb(0, 229, 255),
                Color::Rgb(214, 93, 255),
                Color::Rgb(57, 255, 136),
                Color::Rgb(255, 214, 10),
                Color::Rgb(80, 140, 255),
                Color::Rgb(255, 105, 180),
            ],
        };
        assert(t@ =~= palette_at(3)) by {
            reveal(palette_at);
        }
        t
    }

    /// Cozy hearth: warm orange accent, ember/gold health, firelit chart palette.
    fn cottage_fire() -> (t: Theme)
        ensures
            t@ == palette_at(4),
    {
        let t = Theme {
            name: "cottage_fire",
            ok: Color::Rgb(150, 170, 90),
            warn: Color::Rgb(232, 168, 56),
            crit: Color::Rgb(208, 70, 44),
            border_ok: Color::Rgb(130, 110, 92),
            accent: Color::Rgb(230, 126, 48),
            rx: Color::Rgb(224, 168, 84),
            tx: Color::Rgb(180, 92, 64),
            muted: Color::Rgb(140, 120, 100),
            series: [
                Color::Rgb(230, 126, 48),
                Color::Rgb(224, 168, 84),
                Color::Rgb(180, 92, 64),
                Color::Rgb(150, 170, 90),
                Color::Rgb(226, 210, 172),
                Color::Rgb(160, 52, 40),
            ],
        };
        assert(t@ =~= palette_at(4)) by {
            reveal(palette_at);
        }
        t
    }

    /// Icy aurora: glacier-blue accent, mint/amber health, cool northern-lights palette.
    fn arctic_aurora() -> (t: Theme)
        ensures
            t@ == palette_at(5),
    {
        let t = Theme {
            name: "arctic_aurora",
            ok: Color::Rgb(126, 224, 184),
            warn: Color::Rgb(240, 200, 96),
            crit: Color::Rgb(240, 96, 112),
            border_ok: Color::Rgb(70, 100, 130),
            accent: Color::Rgb(94, 205, 255),
            rx: Color::Rgb(126, 224, 184),
            tx: Color::Rgb(150, 150, 255),
            muted: Color::Rgb(96, 116, 140),
            series: [
                Color::Rgb(94, 205, 255),
                Color::Rgb(126, 224, 184),
                Color::Rgb(168, 140, 255),
                Color::Rgb(120, 240, 220),
                Color::Rgb(240, 200, 96),
                Color::Rgb(255, 120, 160),
            ],
        };
        assert(t@ =~= palette_at(5)) by {
            reveal(palette_at);
        }
        t
    }

    /// 80s vaporwave: purple accent, teal/gold health, hot-pink & cyan chart palette.
    fn vaporwave() -> (t: Theme)
        ensures
            t@ == palette_at(6),
    {
        let t = Theme {
            name: "vaporwave",
            ok: Color::Rgb(94, 234, 212),
            warn: Color::Rgb(255, 214, 102),
            crit: Color::Rgb(255, 84, 132),
            border_ok: Color::Rgb(108, 92, 160),
            accent: Color::Rgb(178, 112, 255),
            rx: Color::Rgb(94, 234, 212),
            tx: Color::Rgb(255, 128, 224),
            muted: Color::Rgb(130, 110, 160),
            series: [
                Color::Rgb(255, 113, 206),
                Color::Rgb(1, 205, 254),
                Color::Rgb(178, 112, 255),
                Color::Rgb(5, 255, 161),
                Color::Rgb(255, 214, 102),
                Color::Rgb(255, 128, 224),
            ],
        };
        assert(t@ =~= palette_at(6)) by {
            reveal(palette_at);
        }
        t
    }

    /// Dracula: canonical purple accent, green/orange health, pink & cyan chart palette.
    fn dracula() -> (t: Theme)
        ensures
            t@ == palette_at(7),
    {
        let t = Theme {
            name: "dracula",
            ok: Color::Rgb(80, 250, 123),
            warn: Color::Rgb(255, 184, 108),
            crit: Color::Rgb(255, 85, 85),
            border_ok: Color::Rgb(98, 114, 164),
            accent: Color::Rgb(189, 147, 249),
            rx: Color::Rgb(139, 233, 253),
            tx: Color::Rgb(255, 121, 198),
            muted: Color::Rgb(98, 114, 164),
            series: [
                Color::Rgb(189, 147, 249),
                Color::Rgb(255, 121, 198),
                Color::Rgb(139, 233, 253),
                Color::Rgb(80, 250, 123),
                Color::Rgb(255, 184, 108),
                Color::Rgb(241, 250, 140),
            ],
        };
        assert(t@ =~= palette_at(7)) by {
            reveal(palette_at);
        }
        t
    }

    /// Nord: frost-blue accent, muted green/yellow health, arctic aurora chart palette.
    fn nord() -> (t: Theme)
        ensures
            t@ == palette_at(8),
    {
        let t = Theme {
            name: "nord",
            ok: Color::Rgb(163, 190, 140),
            warn: Color::Rgb(235, 203, 139),
            crit: Color::Rgb(191, 97, 106),
            border_ok: Color::Rgb(76, 86, 106),
            accent: Color::Rgb(136, 192, 208),
            rx: Color::Rgb(143, 188, 187),
            tx: Color::Rgb(180, 142, 173),
            muted: Color::Rgb(97, 110, 136),
            series: [
                Color::Rgb(136, 192, 208),
                Color::Rgb(180, 142, 173),
                Color::Rgb(163, 190, 140),
                Color::Rgb(235, 203, 139),
                Color::Rgb(129, 161, 193),
                Color::Rgb(208, 135, 112),
            ],
        };
        assert(t@ =~= palette_at(8)) by {
            reveal(palette_at);
        }
        t
    }

    /// Gruvbox: retro orange accent, green/yellow health, warm earthy chart palette.
    fn gruvbox() -> (t: Theme)
        ensures
            t@ == palette_at(9),
    {
        let t = Theme {
            name: "gruvbox",
            ok: Color::Rgb(184, 187, 38),
            warn: Color::Rgb(250, 189, 47),
            crit: Color::Rgb(251, 73, 52),
            border_ok: Color::Rgb(102, 92, 84),
            accent: Color::Rgb(254, 128, 25),
            rx: Color::Rgb(142, 192, 124),
            tx: Color::Rgb(131, 165, 152),
            muted: Color::Rgb(146, 131, 116),
            series: [
                Color::Rgb(254, 128, 25),
                Color::Rgb(184, 187, 38),
                Color::Rgb(250, 189, 47),
                Color::Rgb(131, 165, 152),
                Color::Rgb(211, 134, 155),
                Color::Rgb(142, 192, 124),
            ],
        };
        assert(t@ =~= palette_at(9)) by {
            reveal(palette_at);
        }
        t
    }

    /// Tokyo Night: soft indigo accent, muted green/amber health, storm-blue chart palette.
    fn tokyo_night() -> (t: Theme)
        ensures
            t@ == palette_at(10),
    {
        let t = Theme {
            name: "tokyo_night",
            ok: Color::Rgb(158, 206, 106),
            warn: Color::Rgb(224, 175, 104),
            crit: Color::Rgb(247, 118, 142),
            border_ok: Color::Rgb(86, 95, 137),
            accent: Color::Rgb(122, 162, 247),
            rx: Color::Rgb(125, 207, 255),
            tx: Color::Rgb(187, 154, 247),
            muted: Color::Rgb(86, 95, 137),
            series: [
                Color::Rgb(122, 162, 247),
                Color::Rgb(187, 154, 247),
                Color::Rgb(125, 207, 255),
                Color::Rgb(158, 206, 106),
                Color::Rgb(224, 175, 104),
                Color::Rgb(247, 118, 142),
            ],
        };
        assert(t@ =~= palette_at(10)) by {
            reveal(palette_at);
        }
        t
    }

    /// Catppuccin Mocha: mauve accent, green/peach health, pastel chart palette.
    fn catppuccin() -> (t: Theme)
        ensures
            t@ == palette_at(11),
    {
        let t = Theme {
            name: "catppuccin",
            ok: Color::Rgb(166, 227, 161),
            warn: Color::Rgb(250, 179, 135),
            crit: Color::Rgb(243, 139, 168),
            border_ok: Color::Rgb(108, 112, 134),
            accent: Color::Rgb(203, 166, 247),
            rx: Color::Rgb(148, 226, 213),
            tx: Color::Rgb(245, 194, 231),
            muted: Color::Rgb(108, 112, 134),
            series: [
                Color::Rgb(203, 166, 247),
                Color::Rgb(245, 194, 231),
                Color::Rgb(137, 180, 250),
                Color::Rgb(166, 227, 161),
                Color::Rgb(249, 226, 175),
                Color::Rgb(250, 179, 135),
            ],
        };
        assert(t@ =~= palette_at(11)) by {
            reveal(palette_at);
        }
        t
    }

    /// Solarized Dark: cyan accent, olive/amber health, the classic solarized accents.
    fn solarized_dark() -> (t: Theme)
        ensures
            t@ == palette_at(12),
    {
        let t = Theme {
            name: "solarized_dark",
            ok: Color::Rgb(133, 153, 0),
            warn: Color::Rgb(181, 137, 0),
            crit: Color::Rgb(220, 50, 47),
            border_ok: Color::Rgb(88, 110, 117),
            accent: Color::Rgb(42, 161, 152),
            rx: Color::Rgb(38, 139, 210),
            tx: Color::Rgb(211, 54, 130),
            muted: Color::Rgb(88, 110, 117),
            series: [
                Color::Rgb(42, 161, 152),
                Color::Rgb(38, 139, 210),
                Color::Rgb(133, 153, 0),
                Color::Rgb(181, 137, 0),
                Color::Rgb(211, 54, 130),
                Color::Rgb(108, 113, 196),
            ],
        };
        assert(t@ =~= palette_at(12)) by {
            reveal(palette_at);
        }
        t
    }

    /// Monokai: cyan accent, lime/yellow health, the signature hot-pink chart palette.
    fn monokai() -> (t: Theme)
        ensures
            t@ == palette_at(13),
    {
        let t = Theme {
            name: "monokai",
            ok: Color::Rgb(166, 226, 46),
            warn: Color::Rgb(230, 219, 116),
            crit: Color::Rgb(249, 38, 114),
            border_ok: Color::Rgb(117, 113, 94),
            accent: Color::Rgb(102, 217, 239),
            rx: Color::Rgb(102, 217, 239),
            tx: Color::Rgb(174, 129, 255),
            muted: Color::Rgb(117, 113, 94),
            series: [
                Color::Rgb(249, 38, 114),
                Color::Rgb(166, 226, 46),
                Color::Rgb(102, 217, 239),
                Color::Rgb(253, 151, 31),
                Color::Rgb(174, 129, 255),
                Color::Rgb(230, 219, 116),
            ],
        };
        assert(t@ =~= palette_at(13)) by {
            reveal(palette_at);
        }
        t
    }

    /// Rose Pine: rose accent, foam/gold health, iris & pine chart palette.
    fn rose_pine() -> (t: Theme)
        ensures
            t@ == palette_at(14),
    {
        let t = Theme {
            name: "rose_pine",
            ok: Color::Rgb(156, 207, 216),
            warn: Color::Rgb(246, 193, 119),
            crit: Color::Rgb(235, 111, 146),
            border_ok: Color::Rgb(110, 106, 134),
            accent: Color::Rgb(235, 188, 186),
            rx: Color::Rgb(156, 207, 216),
            tx: Color::Rgb(196, 167, 231),
            muted: Color::Rgb(110, 106, 134),
            series: [
                Color::Rgb(196, 167, 231),
                Color::Rgb(235, 111, 146),
                Color::Rgb(156, 207, 216),
                Color::Rgb(246, 193, 119),
                Color::Rgb(49, 116, 143),
                Color::Rgb(235, 188, 186),
            ],
        };
        assert(t@ =~= palette_at(14)) by {
            reveal(palette_at);
        }
        t
    }

    /// Sakura: blossom-pink accent, leaf-green/amber health, soft spring chart palette.
    fn sakura() -> (t: Theme)
        ensures
            t@ == palette_at(15),
    {
        let t = Theme {
            name: "sakura",
            ok: Color::Rgb(150, 205, 140),
            warn: Color::Rgb(240, 190, 100),
            crit: Color::Rgb(235, 90, 110),
            border_ok: Color::Rgb(150, 120, 135),
            accent: Color::Rgb(255, 145, 175),
            rx: Color::Rgb(150, 205, 140),
            tx: Color::Rgb(200, 150, 220),
            muted: Color::Rgb(160, 130, 145),
            series: [
                Color::Rgb(255, 145, 175),
                Color::Rgb(255, 183, 197),
                Color::Rgb(200, 150, 220),
                Color::Rgb(150, 205, 140),
                Color::Rgb(240, 190, 100),
                Color::Rgb(120, 180, 200),
            ],
        };
        assert(t@ =~= palette_at(15)) by {
            reveal(palette_at);
        }
        t
    }

    /// Deep Ocean: teal accent, aquamarine/gold health, abyssal blue chart palette.
    fn deep_ocean() -> (t: Theme)
        ensures
            t@ == palette_at(16),
    {
        let t = Theme {
            name: "deep_ocean",
            ok: Color::Rgb(72, 207, 173),
            warn: Color::Rgb(240, 196, 84),
            crit: Color::Rgb(240, 98, 110),
            border_ok: Color::Rgb(40, 70, 95),
            accent: Color::Rgb(0, 168, 204),
            rx: Color::Rgb(72, 207, 173),
            tx: Color::Rgb(94, 140, 220),
            muted: Color::Rgb(70, 100, 125),
            series: [
                Color::Rgb(0, 168, 204),
                Color::Rgb(72, 207, 173),
                Color::Rgb(94, 140, 220),
                Color::Rgb(240, 196, 84),
                Color::Rgb(240, 98, 110),
                Color::Rgb(130, 110, 200),
            ],
        };
        assert(t@ =~= palette_at(16)) by {
            reveal(palette_at);
        }
        t
    }

    /// Desert Dune: sand accent, sage/gold health, terracotta chart palette.
    fn desert_dune() -> (t: Theme)
        ensures
            t@ == palette_at(17),
    {
        let t = Theme {
            name: "desert_dune",
            ok: Color::Rgb(166, 180, 110),
            warn: Color::Rgb(226, 170, 70),
            crit: Color::Rgb(200, 80, 55),
            border_ok: Color::Rgb(120, 100, 80),
            accent: Color::Rgb(210, 155, 100),
            rx: Color::Rgb(166, 180, 110),
            tx: Color::Rgb(180, 130, 90),
            muted: Color::Rgb(140, 120, 100),
            series: [
                Color::Rgb(210, 155, 100),
                Color::Rgb(226, 170, 70),
                Color::Rgb(200, 80, 55),
                Color::Rgb(166, 180, 110),
                Color::Rgb(228, 205, 160),
                Color::Rgb(150, 110, 80),
            ],
        };
        assert(t@ =~= palette_at(17)) by {
            reveal(palette_at);
        }
        t
    }

    /// Synthwave '84: electric-purple accent, neon mint/gold health, retro chart palette.
    fn synthwave() -> (t: Theme)
        ensures
            t@ == palette_at(18),
    {
        let t = Theme {
            name: "synthwave",
            ok: Color::Rgb(63, 240, 180),
            warn: Color::Rgb(255, 199, 95),
            crit: Color::Rgb(255, 66, 110),
            border_ok: Color::Rgb(90, 70, 140),
            accent: Color::Rgb(211, 54, 255),
            rx: Color::Rgb(0, 240, 255),
            tx: Color::Rgb(255, 113, 206),
            muted: Color::Rgb(120, 95, 160),
            series: [
                Color::Rgb(211, 54, 255),
                Color::Rgb(255, 113, 206),
                Color::Rgb(0, 240, 255),
                Color::Rgb(63, 240, 180),
                Color::Rgb(255, 199, 95),
                Color::Rgb(255, 66, 110),
            ],
        };
        assert(t@ =~= palette_at(18)) by {
            reveal(palette_at);
        }
        t
    }

    /// Harvest: golden accent, olive/pumpkin health, warm autumnal chart palette.
    fn harvest() -> (t: Theme)
        ensures
            t@ == palette_at(19),
    {
        let t = Theme {
            name: "harvest",
            ok: Color::Rgb(150, 168, 72),
            warn: Color::Rgb(223, 146, 42),
            crit: Color::Rgb(194, 58, 40),
            border_ok: Color::Rgb(110, 92, 66),
            accent: Color::Rgb(230, 175, 45),
            rx: Color::Rgb(150, 168, 72),
            tx: Color::Rgb(176, 98, 54),
            muted: Color::Rgb(140, 118, 86),
            series: [
                Color::Rgb(230, 175, 45),
                Color::Rgb(176, 98, 54),
                Color::Rgb(194, 58, 40),
                Color::Rgb(150, 168, 72),
                Color::Rgb(222, 196, 140),
                Color::Rgb(120, 90, 60),
            ],
        };
        assert(t@ =~= palette_at(19)) by {
            reveal(palette_at);
        }
        t
    }

    /// The theme at position `i` of the catalog.
    pub fn at(i: usize) -> (t: Theme)
        requires
            i < THEME_COUNT,
        ensures
            t@ == palette_at(i as int),
    {
        if i == 0 {
            Theme::default_theme()
        } else if i == 1 {
            Theme::neon_sunset()
        } else if i == 2 {
            Theme::moss_goblin()
        } else if i == 3 {
            Theme::cybercity_night()
        } else if i == 4 {
            Theme::cottage_fire()
        } else if i == 5 {
            Theme::arctic_aurora()
        } else if i == 6 {
            Theme::vaporwave()
        } else if i == 7 {
            Theme::dracula()
        } else if i == 8 {
            Theme::nord()
        } else if i == 9 {
            Theme::gruvbox()
        } else if i == 10 {
            Theme::tokyo_night()
        } else if i == 11 {
            Theme::catppuccin()
        } else if i == 12 {
            Theme::solarized_dark()
        } else if i == 13 {
            Theme::monokai()
        } else if i == 14 {
            Theme::rose_pine()
        } else if i == 15 {
            Theme::sakura()
        } else if i == 16 {
            Theme::deep_ocean()
        } else if i == 17 {
            Theme::desert_dune()
        } else if i == 18 {
            Theme::synthwave()
        } else {
            Theme::harvest()
        }
    }

    /// All selectable theme names, in cycle order. `default` is first (out-of-box look).
    pub fn names() -> (v: Vec<&'static str>)
        ensures
            v@.len() == THEME_COUNT,
            forall|i: int| 0 <= i < THEME_COUNT ==> (#[trigger] v@[i])@ == theme_name(i),
    {
        let mut v: Vec<&'static str> = Vec::new();
        for i in 0..THEME_COUNT
            invariant
                v@.len() == i,
                forall|j: int| 0 <= j < i ==> (#[trigger] v@[j])@ == theme_name(j),
        {
            v.push(Theme::at(i).name);
            assert(palette_at(i as int).name == theme_name(i as int)) by {
                reveal(palette_at);
                reveal(theme_name);
            }
        }
        v
    }

    /// The position of a theme in the catalog, or [`THEME_COUNT`].
    pub fn index_of(name: &str) -> (i: usize)
        ensures
            i == theme_index(name@),
    {
        reveal(theme_index);
        if same_text(name, "default") {
            0
        } else if same_text(name, "neon_sunset") {
            1
        } else if same_text(name, "moss_goblin") {
            2
        } else if same_text(name, "cybercity_night") {
            3
        } else if same_text(name, "cottage_fire") {
            4
        } else if same_text(name, "arctic_aurora") {
            5
        } else if same_text(name, "vaporwave") {
            6
        } else if same_text(name, "dracula") {
            7
        } else if same_text(name, "nord") {
            8
        } else if same_text(name, "gruvbox") {
            9
        } else if same_text(name, "tokyo_night") {
            10
        } else if same_text(name, "catppuccin") {
            11
        } else if same_text(name, "solarized_dark") {
            12
        } else if same_text(name, "monokai") {
            13
        } else if same_text(name, "rose_pine") {
            14
        } else if same_text(name, "sakura") {
            15
        } else if same_text(name, "deep_ocean") {
            16
        } else if same_text(name, "desert_dune") {
            17
        } else if same_text(name, "synthwave") {
            18
        } else if same_text(name, "harvest") {
            19
        } else {
            20
        }
    }

    /// Look up a theme by its stable name. Unknown names return `None`.
    pub fn by_name(name: &str) -> (t: Option<Theme>)
        ensures
            t is Some <==> theme_index(name@) < THEME_COUNT,
            t matches Some(theme) ==> theme@ == palette_at(theme_index(name@)),
    {
        let i: usize = Theme::index_of(name);
        if i < THEME_COUNT {
            Some(Theme::at(i))
        } else {
            None
        }
    }

    /// Resolve a name to a theme, falling back to [`Theme::default_theme`] for unknown names
    /// (config should never hard-fail on a typo'd theme).
    pub fn resolve(name: &str) -> (t: Theme)
        ensures
            t@ == resolved_palette(name@),
    {
        match Theme::by_name(name) {
            Some(t) => t,
            None => Theme::default_theme(),
        }
    }

    /// The next theme in cycle order (wraps).
    pub fn next(&self) -> (t: Theme)
        ensures
            t@ == next_palette(self@.name),
    {
        let i: usize = Theme::index_of(self.name);
        if i < THEME_COUNT {
            Theme::at((i + 1) % THEME_COUNT)
        } else {
            Theme::at(1)
        }
    }

    /// Border+title style for a panel in the given health state.
    pub fn border_style(&self, health: Health) -> (s: Style)
        ensures
            s == border_of(self@, health),
    {
        match health {
            Health::Good => Style { fg: Some(self.border_ok), bold: false },
            Health::Warn => Style { fg: Some(self.warn), bold: true },
            Health::Crit => Style { fg: Some(self.crit), bold: true },
        }
    }

    /// Accent color for a health state (status dots, gauges, text emphasis).
    pub fn health_color(&self, health: Health) -> (c: Color)
        ensures
            c == color_of(self@, health),
    {
        match health {
            Health::Good => self.ok,
            Health::Warn => self.warn,
            Health::Crit => self.crit,
        }
    }

    /// Distinct color for the `i`-th series in a multi-line chart (wraps).
    pub fn series_color(&self, i: usize) -> (c: Color)
        ensures
            c == series_color_of(self@, i as int),
    {
        self.series[i % 6]
    }
}

impl Default for Theme {
    fn default() -> (t: Theme)
        ensures
            t@ == palette_at(0),
    {
        Theme::default_theme()
    }
}

/// The status glyph of a health state.
pub open spec fn symbol_of(h: Health) -> Seq<char> {
    match h {
        Health::Good => "●"@,
        Health::Warn => "▲"@,
        Health::Crit => "✖"@,
    }
}

/// The banner label of a health state.
pub open spec fn label_of(h: Health) -> Seq<char> {
    match h {
        Health::Good => "HEALTHY"@,
        Health::Warn => "DEGRADED"@,
        Health::Crit => "PROBLEM"@,
    }
}

/// A status glyph that differs per state (a redundant, color-blind-friendly signal on top of
/// the health color).
pub fn health_symbol(health: Health) -> (s: &'static str)
    ensures
        s@ == symbol_of(health),
{
    match health {
        Health::Good => "●",
        Health::Warn => "▲",
        Health::Crit => "✖",
    }
}

/// Human label for the header banner.
pub fn health_label(health: Health) -> (s: &'static str)
    ensures
        s@ == label_of(health),
{
    match health {
        Health::Good => "HEALTHY",
        Health::Warn => "DEGRADED",
        Health::Crit => "PROBLEM",
    }
}

/// Different health states never share a glyph.
pub proof fn law_glyphs_tell_states_apart(a: Health, b: Health)
    requires
        a != b,
    ensures
        symbol_of(a) != symbol_of(b),
{
    reveal_strlit("●");
    reveal_strlit("▲");
    reveal_strlit("✖");
    assert(symbol_of(a)[0] != symbol_of(b)[0]);
}

/// Every theme keeps the contract: a warn and a crit border are bold, the three health
/// colors differ, and a healthy border never has the crit color.
pub proof fn law_every_theme_keeps_the_contract(i: int)
    requires
        0 <= i < 20,
    ensures
        ({
            let p = palette_at(i);
            &&& border_of(p, Health::Warn).bold && border_of(p, Health::Crit).bold
            &&& p.ok != p.warn && p.warn != p.crit && p.ok != p.crit
            &&& border_of(p, Health::Good).fg != Some(p.crit)
            &&& p.series.len() == 6
        }),
{
    reveal(palette_at);
}

/// No two themes share an accent.
pub proof fn law_accents_differ(i: int, j: int)
    requires
        0 <= i < j < 20,
    ensures
        palette_at(i).accent != palette_at(j).accent,
{
    reveal(palette_at);
}

/// Every theme of the catalog is found by its own name.
pub proof fn law_named_themes_resolve(i: int)
    requires
        0 <= i < 20,
    ensures
        palette_at(i).name == theme_name(i),
        theme_index(theme_name(i)) == i,
        resolved_palette(theme_name(i)) == palette_at(i),
{
    reveal(palette_at);
    reveal(theme_name);
    reveal(theme_index);
    reveal_strlit("default");
    reveal_strlit("neon_sunset");
    reveal_strlit("moss_goblin");
    reveal_strlit("cybercity_night");
    reveal_strlit("cottage_fire");
    reveal_strlit("arctic_aurora");
    reveal_strlit("vaporwave");
    reveal_strlit("dracula");
    reveal_strlit("nord");
    reveal_strlit("gruvbox");
    reveal_strlit("tokyo_night");
    reveal_strlit("catppuccin");
    reveal_strlit("solarized_dark");
    reveal_strlit("monokai");
    reveal_strlit("rose_pine");
    reveal_strlit("sakura");
    reveal_strlit("deep_ocean");
    reveal_strlit("desert_dune");
    reveal_strlit("synthwave");
    reveal_strlit("harvest");
    assert("default"@.len() == 7 && "default"@[0] == 'd' && "default"@[1] == 'e');
    assert("neon_sunset"@.len() == 11 && "neon_sunset"@[0] == 'n');
    assert("moss_goblin"@.len() == 11 && "moss_goblin"@[0] == 'm');
    assert("cybercity_night"@.len() == 15 && "cybercity_night"@[0] == 'c');
    assert("cottage_fire"@.len() == 12 && "cottage_fire"@[0] == 'c');
    assert("arctic_aurora"@.len() == 13 && "arctic_aurora"@[0] == 'a');
    assert("vaporwave"@.len() == 9 && "vaporwave"@[0] == 'v');
    assert("dracula"@.len() == 7 && "dracula"@[0] == 'd' && "dracula"@[1] == 'r');
    assert("nord"@.len() == 4 && "nord"@[0] == 'n');
    assert("gruvbox"@.len() == 7 && "gruvbox"@[0] == 'g');
    assert("tokyo_night"@.len() == 11 && "tokyo_night"@[0] == 't');
    assert("catppuccin"@.len() == 10 && "catppuccin"@[0] == 'c');
    assert("solarized_dark"@.len() == 14 && "solarized_dark"@[0] == 's');
    assert("monokai"@.len() == 7 && "monokai"@[0] == 'm');
    assert("rose_pine"@.len() == 9 && "rose_pine"@[0] == 'r');
    assert("sakura"@.len() == 6 && "sakura"@[0] == 's');
    assert("deep_ocean"@.len() == 10 && "deep_ocean"@[0] == 'd');
    assert("desert_dune"@.len() == 11 && "desert_dune"@[0] == 'd');
    assert("synthwave"@.len() == 9 && "synthwave"@[0] == 's');
    assert("harvest"@.len() == 7 && "harvest"@[0] == 'h');
    assert(theme_index("default"@) == 0);
    assert(theme_index("neon_sunset"@) == 1);
    assert(theme_index("moss_goblin"@) == 2);
    assert(theme_index("cybercity_night"@) == 3);
    assert(theme_index("cottage_fire"@) == 4);
    assert(theme_index("arctic_aurora"@) == 5);
    assert(theme_index("vaporwave"@) == 6);
    assert(theme_index("dracula"@) == 7);
    assert(theme_index("nord"@) == 8);
    assert(theme_index("gruvbox"@) == 9);
    assert(theme_index("tokyo_night"@) == 10);
    assert(theme_index("catppuccin"@) == 11);
    assert(theme_index("solarized_dark"@) == 12);
    assert(theme_index("monokai"@) == 13);
    assert(theme_index("rose_pine"@) == 14);
    assert(theme_index("sakura"@) == 15);
    assert(theme_index("deep_ocean"@) == 16);
    assert(theme_index("desert_dune"@) == 17);
    assert(theme_index("synthwave"@) == 18);
    assert(theme_index("harvest"@) == 19);
}

/// Cycling visits every theme in the order of the catalog and wraps from the last one to the
/// first.
pub proof fn law_cycling_visits_all_themes(i: int)
    requires
        0 <= i < 20,
    ensures
        next_palette(palette_at(i).name) == palette_at((i + 1) % 20),
{
    law_named_themes_resolve(i);
}

/// What is fine, worth a warning and critical has the color of that name; so has the border,
/// but that a healthy one keeps in the background, and that trouble is bold.
pub proof fn law_colors_say_the_health(p: Palette)
    ensures
        color_of(p, Health::Good) == p.ok,
        color_of(p, Health::Warn) == p.warn,
        color_of(p, Health::Crit) == p.crit,
        border_of(p, Health::Good).fg == Some(p.border_ok) && !border_of(p, Health::Good).bold,
        border_of(p, Health::Warn).fg == Some(p.warn) && border_of(p, Health::Warn).bold,
        border_of(p, Health::Crit).fg == Some(p.crit) && border_of(p, Health::Crit).bold,
{
}

/// Traces take the colors of the palette in turn, and begin again after the sixth.
pub proof fn law_traces_take_colors_in_turn(p: Palette, i: int)
    requires
        0 <= i,
    ensures
        i < 6 ==> series_color_of(p, i) == p.series[i],
        series_color_of(p, i + 6) == series_color_of(p, i),
{
}

/// The words for a state of health are all different.
pub proof fn law_words_tell_states_apart(a: Health, b: Health)
    requires
        a != b,
    ensures
        label_of(a) != label_of(b),
        label_of(Health::Good) == "HEALTHY"@,
{
    reveal_strlit("HEALTHY");
    reveal_strlit("DEGRADED");
    reveal_strlit("PROBLEM");
    assert("HEALTHY"@[0] == 'H' && "DEGRADED"@[0] == 'D' && "PROBLEM"@[0] == 'P');
}

/// A name that no theme has resolves to the first theme of the catalog, and cycling on from it
/// goes to the second.
pub proof fn law_unknown_themes_fall_back(name: Seq<char>)
    requires
        forall|i: int| 0 <= i < 20 ==> name != #[trigger] theme_name(i),
    ensures
        resolved_palette(name) == palette_at(0),
        next_palette(name) == palette_at(1),
{
    reveal(theme_name);
    reveal(theme_index);
    assert(name != theme_name(0) && name != theme_name(1) && name != theme_name(2) && name
        != theme_name(3) && name != theme_name(4) && name != theme_name(5) && name != theme_name(6)
        && name != theme_name(7) && name != theme_name(8) && name != theme_name(9));
    assert(name != theme_name(10) && name != theme_name(11) && name != theme_name(12) && name
        != theme_name(13) && name != theme_name(14) && name != theme_name(15) && name
        != theme_name(16) && name != theme_name(17) && name != theme_name(18) && name
        != theme_name(19));
}

} // verus!
