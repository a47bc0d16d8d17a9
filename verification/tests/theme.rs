use himalaya_tui::config::{ModifierConfig, PresetConfig, StyleConfig, ThemeConfig};
use himalaya_tui::tui::theme::{patch, style_of, Theme, ThemeColor, ThemeStyle, BOLD, ITALIC, UNDERLINED};

#[test]
fn no_configuration_resolves_to_the_default_preset() {
    assert_eq!(Theme::resolve(&ThemeConfig::default()), Theme::default());
}

#[test]
fn a_named_preset_is_the_starting_point() {
    let config = ThemeConfig {
        preset: Some(PresetConfig::DraculaDark),
        ..Default::default()
    };
    let theme = Theme::resolve(&config);
    assert_eq!(theme, PresetConfig::DraculaDark.theme());
    assert_eq!(theme.border_active.fg, Some(ThemeColor::Rgb(0xff, 0x79, 0xc6)));
    assert_eq!(theme.header.add_modifier, BOLD);
}

#[test]
fn a_partial_override_keeps_the_rest_of_the_preset() {
    let config = ThemeConfig {
        cursor: Some(StyleConfig {
            fg: Some(ThemeColor::Magenta),
            bg: None,
            modifiers: vec![ModifierConfig::Italic],
        }),
        ..Default::default()
    };
    let theme = Theme::resolve(&config);
    let preset = Theme::default();
    // Only `fg` and the italic bit change; the preset's background and
    // bold are kept.
    assert_eq!(theme.cursor.fg, Some(ThemeColor::Magenta));
    assert_eq!(theme.cursor.bg, preset.cursor.bg);
    assert_eq!(theme.cursor.add_modifier, BOLD | ITALIC);
    assert_eq!(theme.header, preset.header);
}

#[test]
fn modifiers_are_the_union_of_the_listed_ones() {
    let style = style_of(&StyleConfig {
        fg: None,
        bg: Some(ThemeColor::Indexed(236)),
        modifiers: vec![ModifierConfig::Bold, ModifierConfig::Underlined, ModifierConfig::Bold],
    });
    assert_eq!(style.add_modifier, BOLD | UNDERLINED);
    assert_eq!(style.sub_modifier, 0);
    assert_eq!(style.bg, Some(ThemeColor::Indexed(236)));
    assert_eq!(style.fg, None);
}

#[test]
fn a_patch_turning_a_modifier_off_wins() {
    let base = ThemeStyle {
        fg: Some(ThemeColor::Red),
        bg: None,
        underline_color: None,
        add_modifier: BOLD | ITALIC,
        sub_modifier: 0,
    };
    let over = ThemeStyle {
        fg: None,
        bg: Some(ThemeColor::Black),
        underline_color: Some(ThemeColor::Blue),
        add_modifier: 0,
        sub_modifier: BOLD,
    };
    let patched = patch(base, over);
    assert_eq!(patched.fg, Some(ThemeColor::Red));
    assert_eq!(patched.bg, Some(ThemeColor::Black));
    assert_eq!(patched.underline_color, Some(ThemeColor::Blue));
    assert_eq!(patched.add_modifier, ITALIC);
    assert_eq!(patched.sub_modifier, BOLD);
}

#[test]
fn layering_is_neutral_on_nothing_and_stable_when_repeated() {
    let base = Theme::default().cursor;
    let nothing = ThemeStyle {
        fg: None,
        bg: None,
        underline_color: None,
        add_modifier: 0,
        sub_modifier: 0,
    };
    assert_eq!(patch(base, nothing), base);
    let over = ThemeStyle {
        fg: Some(ThemeColor::Rgb(1, 2, 3)),
        bg: None,
        underline_color: None,
        add_modifier: ITALIC,
        sub_modifier: BOLD,
    };
    let once = patch(base, over);
    assert_eq!(patch(once, over), once);
    assert_eq!(once.add_modifier, ITALIC);
}
