//! Keyboard layouts and the theme.
use cosmic_greeter::keyboard::{
    bring_to_front, build_xkb_config, configured_layouts, cycle_layouts, ActiveLayout,
    KeyboardLayout, KeyboardLayouts, KeyboardVariant, XkbConfig,
};
use cosmic_greeter::theme::{apply_hc_theme, Palette, ThemeBuilder};

fn known() -> KeyboardLayouts {
    KeyboardLayouts {
        layouts: vec![
            KeyboardLayout {
                name: "us".to_string(),
                description: "English (US)".to_string(),
                variants: Some(vec![
                    KeyboardVariant { name: "dvorak".to_string(), description: "Dvorak".to_string() },
                    KeyboardVariant { name: "intl".to_string(), description: "Intl".to_string() },
                ]),
            },
            KeyboardLayout {
                name: "de".to_string(),
                description: "German".to_string(),
                variants: None,
            },
        ],
    }
}

fn config(layout: &str, variant: &str) -> XkbConfig {
    XkbConfig {
        rules: "evdev".to_string(),
        model: "pc105".to_string(),
        layout: layout.to_string(),
        variant: variant.to_string(),
        options: Some("caps:swapescape".to_string()),
        rest: "(repeat_delay:600)".to_string(),
    }
}

fn active(layout: &str, variant: &str, description: &str) -> ActiveLayout {
    ActiveLayout {
        layout: layout.to_string(),
        variant: variant.to_string(),
        description: description.to_string(),
    }
}

#[test]
fn layouts_take_the_description_of_what_they_name() {
    assert_eq!(
        configured_layouts(&known(), &config("us,de,us", ",,intl")),
        vec![
            active("us", "", "English (US)"),
            active("de", "", "German"),
            active("us", "intl", "Intl"),
        ]
    );
}

#[test]
fn missing_variants_are_empty() {
    assert_eq!(
        configured_layouts(&known(), &config("us,de", "dvorak")),
        vec![active("us", "dvorak", "Dvorak"), active("de", "", "German")]
    );
    assert_eq!(configured_layouts(&known(), &config("de", "")), vec![active("de", "", "German")]);
}

#[test]
fn unknown_layouts_and_variants_are_left_out() {
    assert_eq!(
        configured_layouts(&known(), &config("xx,us,de,us", ",nope,x,intl")),
        vec![active("us", "intl", "Intl")]
    );
    assert_eq!(configured_layouts(&known(), &config("", "")), vec![]);
}

#[test]
fn a_trailing_comma_names_no_layout() {
    assert_eq!(configured_layouts(&known(), &config("de,", "")), vec![active("de", "", "German")]);
}

#[test]
fn configured_layouts_are_written_back() {
    let before = config("us,de", "intl,");
    let layouts = configured_layouts(&known(), &before);
    let built = build_xkb_config(&layouts, &before);
    assert_eq!(built, before);
    assert_eq!(configured_layouts(&known(), &built), layouts);
}

#[test]
fn everything_but_the_layouts_is_kept() {
    let built = build_xkb_config(&vec![active("de", "x", ""), active("us", "", "")], &config("a", "b"));
    assert_eq!(built, config("de,us", "x,"));
    assert_eq!(build_xkb_config(&vec![], &config("a", "b")), config("", ""));
}

#[test]
fn the_chosen_layout_trades_places_with_the_first() {
    let mut layouts = vec![active("a", "", ""), active("b", "", ""), active("c", "", "")];
    bring_to_front(&mut layouts, 2);
    assert_eq!(layouts, vec![active("c", "", ""), active("b", "", ""), active("a", "", "")]);
    bring_to_front(&mut layouts, 2);
    assert_eq!(layouts, vec![active("a", "", ""), active("b", "", ""), active("c", "", "")]);
}

#[test]
fn cycling_goes_round() {
    let mut layouts = vec![active("a", "", ""), active("b", "", ""), active("c", "", "")];
    cycle_layouts(&mut layouts);
    assert_eq!(layouts, vec![active("b", "", ""), active("c", "", ""), active("a", "", "")]);
    cycle_layouts(&mut layouts);
    cycle_layouts(&mut layouts);
    assert_eq!(layouts, vec![active("a", "", ""), active("b", "", ""), active("c", "", "")]);
    let mut none: Vec<ActiveLayout> = vec![];
    cycle_layouts(&mut none);
    assert_eq!(none, vec![]);
}

fn builder(palette: Palette) -> ThemeBuilder {
    ThemeBuilder { palette, notation: "gaps".to_string() }
}

#[test]
fn contrast_keeps_the_theme_dark_or_light() {
    assert_eq!(apply_hc_theme(builder(Palette::Dark), true), builder(Palette::HighContrastDark));
    assert_eq!(apply_hc_theme(builder(Palette::HighContrastDark), false), builder(Palette::Dark));
    assert_eq!(apply_hc_theme(builder(Palette::Light), true), builder(Palette::HighContrastLight));
    assert_eq!(apply_hc_theme(builder(Palette::HighContrastLight), false), builder(Palette::Light));
    assert_eq!(apply_hc_theme(builder(Palette::Dark), false), builder(Palette::Dark));
}

#[test]
fn the_last_contrast_counts() {
    let twice = apply_hc_theme(apply_hc_theme(builder(Palette::Light), true), false);
    assert_eq!(twice, apply_hc_theme(builder(Palette::Light), false));
}
