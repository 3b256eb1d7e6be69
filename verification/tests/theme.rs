//! Themes and the visual contract.

use network_dash::health::Health;
use network_dash::ui::theme::{health_symbol, Color, Theme};


// --- Default theme (visual contract) ---

#[test]
fn default_crit_border_is_bold_red() {
    let s = Theme::default_theme().border_style(Health::Crit);
    assert_eq!(s.fg, Some(Color::Red));
    assert!(s.bold);
}

#[test]
fn default_warn_border_is_yellow() {
    assert_eq!(
        Theme::default_theme().border_style(Health::Warn).fg,
        Some(Color::Yellow)
    );
}

#[test]
fn default_ok_border_is_quiet() {
    // Not red or yellow — a calm, low-emphasis color.
    let fg = Theme::default_theme().border_style(Health::Good).fg;
    assert_ne!(fg, Some(Color::Red));
    assert_ne!(fg, Some(Color::Yellow));
}

#[test]
fn default_health_colors_are_distinct() {
    let t = Theme::default_theme();
    assert_eq!(t.health_color(Health::Good), Color::Green);
    assert_eq!(t.health_color(Health::Warn), Color::Yellow);
    assert_eq!(t.health_color(Health::Crit), Color::Red);
}

#[test]
fn default_series_colors_cycle() {
    let t = Theme::default_theme();
    assert_eq!(t.series_color(0), Color::Cyan);
    assert_ne!(t.series_color(0), t.series_color(1));
    assert_eq!(t.series_color(0), t.series_color(6)); // wraps
}

// --- Catalog ---

#[test]
fn all_named_themes_resolve() {
    for name in Theme::names() {
        let t = Theme::by_name(name).unwrap_or_else(|| panic!("{name} missing"));
        assert_eq!(t.name, name, "theme name must match its catalog key");
    }
}

#[test]
fn requested_themes_exist() {
    for name in [
        "neon_sunset",
        "moss_goblin",
        "cybercity_night",
        "cottage_fire",
    ] {
        assert!(Theme::by_name(name).is_some(), "{name} should exist");
    }
}

#[test]
fn catalog_has_twenty_themes() {
    assert_eq!(Theme::names().len(), 20);
}

#[test]
fn new_themes_exist() {
    for name in [
        // first expansion (5)
        "arctic_aurora",
        "vaporwave",
        "dracula",
        "nord",
        "gruvbox",
        // second expansion (10)
        "tokyo_night",
        "catppuccin",
        "solarized_dark",
        "monokai",
        "rose_pine",
        "sakura",
        "deep_ocean",
        "desert_dune",
        "synthwave",
        "harvest",
    ] {
        let t = Theme::by_name(name).unwrap_or_else(|| panic!("{name} missing"));
        assert_eq!(t.name, name, "theme name must match its catalog key");
        assert!(Theme::names().contains(&name), "{name} must be in NAMES");
    }
}

#[test]
fn unknown_theme_is_none_but_resolves_to_default() {
    assert!(Theme::by_name("nope").is_none());
    assert_eq!(Theme::resolve("nope"), Theme::default_theme());
}

#[test]
fn themes_are_visually_distinct() {
    // Accents differ across every pair of themes.
    let accents: Vec<Color> = Theme::names()
        .iter()
        .map(|n| Theme::resolve(n).accent)
        .collect();
    let unique: std::collections::HashSet<_> = accents.iter().collect();
    assert_eq!(unique.len(), Theme::names().len(), "accents must be distinct");
}

#[test]
fn every_theme_keeps_the_contract() {
    for name in Theme::names() {
        let t = Theme::resolve(name);
        // Crit border is bold.
        assert!(
            t.border_style(Health::Crit)
                .bold,
            "{name}: crit border must be bold"
        );
        // Three distinct health colors.
        let (ok, warn, crit) = (
            t.health_color(Health::Good),
            t.health_color(Health::Warn),
            t.health_color(Health::Crit),
        );
        assert_ne!(ok, warn, "{name}: ok/warn must differ");
        assert_ne!(warn, crit, "{name}: warn/crit must differ");
        assert_ne!(ok, crit, "{name}: ok/crit must differ");
        // Healthy border is quiet — never the crit color.
        assert_ne!(
            t.border_style(Health::Good).fg,
            Some(crit),
            "{name}: healthy border must not be the crit color"
        );
        // Six series colors, indexing wraps.
        assert_eq!(t.series_color(0), t.series_color(6), "{name}: series wraps");
    }
}

#[test]
fn next_cycles_through_all_themes_and_wraps() {
    let mut t = Theme::default_theme();
    let mut seen = vec![t.name];
    for _ in 1..Theme::names().len() {
        t = t.next();
        seen.push(t.name);
    }
    assert_eq!(seen, Theme::names(), "next() visits all in order");
    // One more step wraps back to the start.
    assert_eq!(t.next(), Theme::default_theme());
}

#[test]
fn health_symbols_are_distinct() {
    let syms = [
        health_symbol(Health::Good),
        health_symbol(Health::Warn),
        health_symbol(Health::Crit),
    ];
    assert_eq!(
        syms.iter().collect::<std::collections::HashSet<_>>().len(),
        3
    );
}
