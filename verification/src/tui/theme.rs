//! Colour themes: one style per themable element, a preset picked by
//! name, and per-element overrides layered on top of it.
//!
//! Styles are held as plain values: colours by name or RGB triple,
//! modifiers as the terminal library's bit set. Layering follows the
//! terminal library's own patch rule, so a partial override (only `fg`,
//! say) keeps the untouched attributes of the preset.

use vstd::prelude::*;

use crate::config::{ModifierConfig, PresetConfig, StyleConfig, ThemeConfig};

verus! {

/// A terminal colour: one of the named ANSI colours, a 24-bit RGB
/// triple, or an index into the 256-colour palette.
#[derive(Clone, Copy, Debug, PartialEq, Eq, Structural)]
pub enum ThemeColor {
    Reset,
    Black,
    Red,
    Green,
    Yellow,
    Blue,
    Magenta,
    Cyan,
    Gray,
    DarkGray,
    LightRed,
    LightGreen,
    LightYellow,
    LightBlue,
    LightMagenta,
    LightCyan,
    White,
    Rgb(u8, u8, u8),
    Indexed(u8),
}

/// Modifier bits, laid out as the terminal library lays them out.
pub const BOLD: u16 = 0x001;
pub const DIM: u16 = 0x002;
pub const ITALIC: u16 = 0x004;
pub const UNDERLINED: u16 = 0x008;
pub const SLOW_BLINK: u16 = 0x010;
pub const RAPID_BLINK: u16 = 0x020;
pub const REVERSED: u16 = 0x040;
pub const HIDDEN: u16 = 0x080;
pub const CROSSED_OUT: u16 = 0x100;

/// The style of one themable element.
///
/// `add_modifier` holds the modifiers the style turns on, `sub_modifier`
/// those it turns off; an unset colour leaves the one underneath.
#[derive(Clone, Copy, Debug, PartialEq, Eq, Structural)]
pub struct ThemeStyle {
    pub fg: Option<ThemeColor>,
    pub bg: Option<ThemeColor>,
    pub underline_color: Option<ThemeColor>,
    pub add_modifier: u16,
    pub sub_modifier: u16,
}

/// The empty style: no colour, no modifier.
pub open spec fn empty_style() -> ThemeStyle {
    ThemeStyle { fg: None, bg: None, underline_color: None, add_modifier: 0, sub_modifier: 0 }
}

/// The first of two optional colours that is set.
pub open spec fn color_or(first: Option<ThemeColor>, second: Option<ThemeColor>) -> Option<
    ThemeColor,
> {
    match first {
        Some(c) => Some(c),
        None => second,
    }
}

/// `base` with `over` layered on top: each colour `over` sets replaces
/// the base one, and the modifiers `over` turns on or off win over the
/// base ones.
pub open spec fn spec_patch(base: ThemeStyle, over: ThemeStyle) -> ThemeStyle {
    ThemeStyle {
        fg: color_or(over.fg, base.fg),
        bg: color_or(over.bg, base.bg),
        underline_color: color_or(over.underline_color, base.underline_color),
        add_modifier: (base.add_modifier & !over.sub_modifier) | over.add_modifier,
        sub_modifier: (base.sub_modifier & !over.add_modifier) | over.sub_modifier,
    }
}

fn pick_color(first: Option<ThemeColor>, second: Option<ThemeColor>) -> (c: Option<ThemeColor>)
    ensures
        c == color_or(first, second),
{
    match first {
        Some(c) => Some(c),
        None => second,
    }
}

/// Layers `over` on top of `base`, as the terminal library's
/// `Style::patch` does.
pub fn patch(base: ThemeStyle, over: ThemeStyle) -> (s: ThemeStyle)
    ensures
        s == spec_patch(base, over),
{
    ThemeStyle {
        fg: pick_color(over.fg, base.fg),
        bg: pick_color(over.bg, base.bg),
        underline_color: pick_color(over.underline_color, base.underline_color),
        add_modifier: (base.add_modifier & !over.sub_modifier) | over.add_modifier,
        sub_modifier: (base.sub_modifier & !over.add_modifier) | over.sub_modifier,
    }
}

/// The bit of one configured modifier.
pub open spec fn spec_modifier_bit(m: ModifierConfig) -> u16 {
    match m {
        ModifierConfig::Bold => BOLD,
        ModifierConfig::Dim => DIM,
        ModifierConfig::Italic => ITALIC,
        ModifierConfig::Underlined => UNDERLINED,
        ModifierConfig::SlowBlink => SLOW_BLINK,
        ModifierConfig::RapidBlink => RAPID_BLINK,
        ModifierConfig::Reversed => REVERSED,
        ModifierConfig::Hidden => HIDDEN,
        ModifierConfig::CrossedOut => CROSSED_OUT,
    }
}

/// The bit of one configured modifier.
pub fn modifier_bit(m: ModifierConfig) -> (bit: u16)
    ensures
        bit == spec_modifier_bit(m),
{
    match m {
        ModifierConfig::Bold => BOLD,
        ModifierConfig::Dim => DIM,
        ModifierConfig::Italic => ITALIC,
        ModifierConfig::Underlined => UNDERLINED,
        ModifierConfig::SlowBlink => SLOW_BLINK,
        ModifierConfig::RapidBlink => RAPID_BLINK,
        ModifierConfig::Reversed => REVERSED,
        ModifierConfig::Hidden => HIDDEN,
        ModifierConfig::CrossedOut => CROSSED_OUT,
    }
}

/// The union of the bits of a list of modifiers.
pub open spec fn modifier_union(mods: Seq<ModifierConfig>) -> u16
    decreases mods.len(),
{
    if mods.len() == 0 {
        0
    } else {
        modifier_union(mods.drop_last()) | spec_modifier_bit(mods.last())
    }
}

/// The style a configured element stands for: its colours, and its
/// modifiers turned on.
pub open spec fn spec_style_of(c: StyleConfig) -> ThemeStyle {
    ThemeStyle {
        fg: c.fg,
        bg: c.bg,
        underline_color: None,
        add_modifier: modifier_union(c.modifiers@),
        sub_modifier: 0,
    }
}

/// The style a configured element stands for.
pub fn style_of(c: &StyleConfig) -> (s: ThemeStyle)
    ensures
        s == spec_style_of(*c),
{
    let mut mods: u16 = 0;
    let mut i: usize = 0;
    while i < c.modifiers.len()
        invariant
            i <= c.modifiers@.len(),
            mods == modifier_union(c.modifiers@.take(i as int)),
        decreases c.modifiers@.len() - i,
    {
        assert(c.modifiers@.take(i as int + 1).drop_last() =~= c.modifiers@.take(i as int));
        mods = mods | modifier_bit(c.modifiers[i]);
        i = i + 1;
    }
    assert(c.modifiers@.take(i as int) =~= c.modifiers@);
    ThemeStyle { fg: c.fg, bg: c.bg, underline_color: None, add_modifier: mods, sub_modifier: 0 }
}

/// The resolved theme every render function reads.
#[derive(Clone, Copy, Debug, PartialEq, Eq, Structural)]
pub struct Theme {
    /// Title bar at the top of the screen.
    pub header: ThemeStyle,
    /// Status bar at the bottom of the screen.
    pub status_bar: ThemeStyle,
    /// Border of the focused panel.
    pub border_active: ThemeStyle,
    /// Border of the unfocused panels.
    pub border_inactive: ThemeStyle,
    /// Border of a dialog.
    pub dialog_border: ThemeStyle,
    /// Row the selection sits on.
    pub cursor: ThemeStyle,
    /// Mailbox the envelopes were loaded from.
    pub mailbox_current: ThemeStyle,
    /// Column headers of the envelope table.
    pub envelope_header: ThemeStyle,
    /// Envelope row already seen.
    pub envelope_seen: ThemeStyle,
    /// Envelope row still unread.
    pub envelope_unread: ThemeStyle,
    /// Body of the message being read.
    pub message_body: ThemeStyle,
    /// Text of the compose buffer.
    pub compose_text: ThemeStyle,
    /// Cursor inside the compose buffer.
    pub compose_cursor: ThemeStyle,
    /// Selected text inside the compose buffer.
    pub compose_selection: ThemeStyle,
}

/// A style with the given colours and modifiers turned on.
pub open spec fn spec_style(fg: Option<ThemeColor>, bg: Option<ThemeColor>, add: u16) -> ThemeStyle {
    ThemeStyle { fg, bg, underline_color: None, add_modifier: add, sub_modifier: 0 }
}

fn style(fg: Option<ThemeColor>, bg: Option<ThemeColor>, add: u16) -> (s: ThemeStyle)
    ensures
        s == spec_style(fg, bg, add),
{
    ThemeStyle { fg, bg, underline_color: None, add_modifier: add, sub_modifier: 0 }
}

/// The built-in theme: named ANSI colours, so the terminal palette picks
/// the actual shades.
pub open spec fn spec_default_theme() -> Theme {
    Theme {
        header: spec_style(Some(ThemeColor::White), Some(ThemeColor::Blue), BOLD),
        status_bar: spec_style(Some(ThemeColor::White), Some(ThemeColor::DarkGray), 0),
        border_active: spec_style(Some(ThemeColor::Cyan), None, 0),
        border_inactive: spec_style(Some(ThemeColor::Gray), None, 0),
        dialog_border: spec_style(Some(ThemeColor::Yellow), None, 0),
        cursor: spec_style(Some(ThemeColor::White), Some(ThemeColor::Cyan), BOLD),
        mailbox_current: spec_style(Some(ThemeColor::Yellow), None, BOLD),
        envelope_header: spec_style(Some(ThemeColor::Yellow), None, BOLD),
        envelope_seen: spec_style(Some(ThemeColor::Gray), None, 0),
        envelope_unread: spec_style(None, None, BOLD),
        message_body: spec_style(Some(ThemeColor::White), None, 0),
        compose_text: spec_style(Some(ThemeColor::White), None, 0),
        compose_cursor: spec_style(Some(ThemeColor::Black), Some(ThemeColor::White), 0),
        compose_selection: spec_style(Some(ThemeColor::Black), Some(ThemeColor::Cyan), 0),
    }
}

fn default_theme() -> (t: Theme)
    ensures
        t == spec_default_theme(),
{
    Theme {
        header: style(Some(ThemeColor::White), Some(ThemeColor::Blue), BOLD),
        status_bar: style(Some(ThemeColor::White), Some(ThemeColor::DarkGray), 0),
        border_active: style(Some(ThemeColor::Cyan), None, 0),
        border_inactive: style(Some(ThemeColor::Gray), None, 0),
        dialog_border: style(Some(ThemeColor::Yellow), None, 0),
        cursor: style(Some(ThemeColor::White), Some(ThemeColor::Cyan), BOLD),
        mailbox_current: style(Some(ThemeColor::Yellow), None, BOLD),
        envelope_header: style(Some(ThemeColor::Yellow), None, BOLD),
        envelope_seen: style(Some(ThemeColor::Gray), None, 0),
        envelope_unread: style(None, None, BOLD),
        message_body: style(Some(ThemeColor::White), None, 0),
        compose_text: style(Some(ThemeColor::White), None, 0),
        compose_cursor: style(Some(ThemeColor::Black), Some(ThemeColor::White), 0),
        compose_selection: style(Some(ThemeColor::Black), Some(ThemeColor::Cyan), 0),
    }
}

/// The Dracula theme, from its published 24-bit RGB palette.
pub open spec fn spec_dracula_dark_theme() -> Theme {
    Theme {
        header: spec_style(Some(ThemeColor::Rgb(0xf8, 0xf8, 0xf2)), Some(ThemeColor::Rgb(0xbd, 0x93, 0xf9)), BOLD),
        status_bar: spec_style(Some(ThemeColor::Rgb(0xf8, 0xf8, 0xf2)), Some(ThemeColor::Rgb(0x44, 0x47, 0x5a)), 0),
        border_active: spec_style(Some(ThemeColor::Rgb(0xff, 0x79, 0xc6)), None, 0),
        border_inactive: spec_style(Some(ThemeColor::Rgb(0x62, 0x72, 0xa4)), None, 0),
        dialog_border: spec_style(Some(ThemeColor::Rgb(0xf1, 0xfa, 0x8c)), None, 0),
        cursor: spec_style(Some(ThemeColor::Rgb(0xf8, 0xf8, 0xf2)), Some(ThemeColor::Rgb(0xbd, 0x93, 0xf9)), BOLD),
        mailbox_current: spec_style(Some(ThemeColor::Rgb(0xff, 0x79, 0xc6)), None, BOLD),
        envelope_header: spec_style(Some(ThemeColor::Rgb(0xf1, 0xfa, 0x8c)), None, BOLD),
        envelope_seen: spec_style(Some(ThemeColor::Rgb(0x62, 0x72, 0xa4)), None, 0),
        envelope_unread: spec_style(Some(ThemeColor::Rgb(0xf8, 0xf8, 0xf2)), None, BOLD),
        message_body: spec_style(Some(ThemeColor::Rgb(0xf8, 0xf8, 0xf2)), None, 0),
        compose_text: spec_style(Some(ThemeColor::Rgb(0xf8, 0xf8, 0xf2)), None, 0),
        compose_cursor: spec_style(Some(ThemeColor::Rgb(0x28, 0x2a, 0x36)), Some(ThemeColor::Rgb(0xf8, 0xf8, 0xf2)), 0),
        compose_selection: spec_style(Some(ThemeColor::Rgb(0xf8, 0xf8, 0xf2)), Some(ThemeColor::Rgb(0x44, 0x47, 0x5a)), 0),
    }
}

fn dracula_dark_theme() -> (t: Theme)
    ensures
        t == spec_dracula_dark_theme(),
{
    Theme {
        header: style(Some(ThemeColor::Rgb(0xf8, 0xf8, 0xf2)), Some(ThemeColor::Rgb(0xbd, 0x93, 0xf9)), BOLD),
        status_bar: style(Some(ThemeColor::Rgb(0xf8, 0xf8, 0xf2)), Some(ThemeColor::Rgb(0x44, 0x47, 0x5a)), 0),
        border_active: style(Some(ThemeColor::Rgb(0xff, 0x79, 0xc6)), None, 0),
        border_inactive: style(Some(ThemeColor::Rgb(0x62, 0x72, 0xa4)), None, 0),
        dialog_border: style(Some(ThemeColor::Rgb(0xf1, 0xfa, 0x8c)), None, 0),
        cursor: style(Some(ThemeColor::Rgb(0xf8, 0xf8, 0xf2)), Some(ThemeColor::Rgb(0xbd, 0x93, 0xf9)), BOLD),
        mailbox_current: style(Some(ThemeColor::Rgb(0xff, 0x79, 0xc6)), None, BOLD),
        envelope_header: style(Some(ThemeColor::Rgb(0xf1, 0xfa, 0x8c)), None, BOLD),
        envelope_seen: style(Some(ThemeColor::Rgb(0x62, 0x72, 0xa4)), None, 0),
        envelope_unread: style(Some(ThemeColor::Rgb(0xf8, 0xf8, 0xf2)), None, BOLD),
        message_body: style(Some(ThemeColor::Rgb(0xf8, 0xf8, 0xf2)), None, 0),
        compose_text: style(Some(ThemeColor::Rgb(0xf8, 0xf8, 0xf2)), None, 0),
        compose_cursor: style(Some(ThemeColor::Rgb(0x28, 0x2a, 0x36)), Some(ThemeColor::Rgb(0xf8, 0xf8, 0xf2)), 0),
        compose_selection: style(Some(ThemeColor::Rgb(0xf8, 0xf8, 0xf2)), Some(ThemeColor::Rgb(0x44, 0x47, 0x5a)), 0),
    }
}

/// The One Light theme, from the Atom One Light 24-bit RGB palette.
pub open spec fn spec_one_light_theme() -> Theme {
    Theme {
        header: spec_style(Some(ThemeColor::Rgb(0xfa, 0xfa, 0xfa)), Some(ThemeColor::Rgb(0x40, 0x78, 0xf2)), BOLD),
        status_bar: spec_style(Some(ThemeColor::Rgb(0x38, 0x3a, 0x42)), Some(ThemeColor::Rgb(0xe5, 0xe5, 0xe6)), 0),
        border_active: spec_style(Some(ThemeColor::Rgb(0x01, 0x84, 0xbc)), None, 0),
        border_inactive: spec_style(Some(ThemeColor::Rgb(0xa0, 0xa1, 0xa7)), None, 0),
        dialog_border: spec_style(Some(ThemeColor::Rgb(0xc1, 0x84, 0x01)), None, 0),
        cursor: spec_style(Some(ThemeColor::Rgb(0xfa, 0xfa, 0xfa)), Some(ThemeColor::Rgb(0x40, 0x78, 0xf2)), BOLD),
        mailbox_current: spec_style(Some(ThemeColor::Rgb(0xc1, 0x84, 0x01)), None, BOLD),
        envelope_header: spec_style(Some(ThemeColor::Rgb(0xc1, 0x84, 0x01)), None, BOLD),
        envelope_seen: spec_style(Some(ThemeColor::Rgb(0xa0, 0xa1, 0xa7)), None, 0),
        envelope_unread: spec_style(Some(ThemeColor::Rgb(0x38, 0x3a, 0x42)), None, BOLD),
        message_body: spec_style(Some(ThemeColor::Rgb(0x38, 0x3a, 0x42)), None, 0),
        compose_text: spec_style(Some(ThemeColor::Rgb(0x38, 0x3a, 0x42)), None, 0),
        compose_cursor: spec_style(Some(ThemeColor::Rgb(0xfa, 0xfa, 0xfa)), Some(ThemeColor::Rgb(0x38, 0x3a, 0x42)), 0),
        compose_selection: spec_style(Some(ThemeColor::Rgb(0x38, 0x3a, 0x42)), Some(ThemeColor::Rgb(0xe5, 0xe5, 0xe6)), 0),
    }
}

fn one_light_theme() -> (t: Theme)
    ensures
        t == spec_one_light_theme(),
{
    Theme {
        header: style(Some(ThemeColor::Rgb(0xfa, 0xfa, 0xfa)), Some(ThemeColor::Rgb(0x40, 0x78, 0xf2)), BOLD),
        status_bar: style(Some(ThemeColor::Rgb(0x38, 0x3a, 0x42)), Some(ThemeColor::Rgb(0xe5, 0xe5, 0xe6)), 0),
        border_active: style(Some(ThemeColor::Rgb(0x01, 0x84, 0xbc)), None, 0),
        border_inactive: style(Some(ThemeColor::Rgb(0xa0, 0xa1, 0xa7)), None, 0),
        dialog_border: style(Some(ThemeColor::Rgb(0xc1, 0x84, 0x01)), None, 0),
        cursor: style(Some(ThemeColor::Rgb(0xfa, 0xfa, 0xfa)), Some(ThemeColor::Rgb(0x40, 0x78, 0xf2)), BOLD),
        mailbox_current: style(Some(ThemeColor::Rgb(0xc1, 0x84, 0x01)), None, BOLD),
        envelope_header: style(Some(ThemeColor::Rgb(0xc1, 0x84, 0x01)), None, BOLD),
        envelope_seen: style(Some(ThemeColor::Rgb(0xa0, 0xa1, 0xa7)), None, 0),
        envelope_unread: style(Some(ThemeColor::Rgb(0x38, 0x3a, 0x42)), None, BOLD),
        message_body: style(Some(ThemeColor::Rgb(0x38, 0x3a, 0x42)), None, 0),
        compose_text: style(Some(ThemeColor::Rgb(0x38, 0x3a, 0x42)), None, 0),
        compose_cursor: style(Some(ThemeColor::Rgb(0xfa, 0xfa, 0xfa)), Some(ThemeColor::Rgb(0x38, 0x3a, 0x42)), 0),
        compose_selection: style(Some(ThemeColor::Rgb(0x38, 0x3a, 0x42)), Some(ThemeColor::Rgb(0xe5, 0xe5, 0xe6)), 0),
    }
}

/// The theme a preset stands for.
pub open spec fn spec_preset_theme(preset: PresetConfig) -> Theme {
    match preset {
        PresetConfig::Default => spec_default_theme(),
        PresetConfig::DraculaDark => spec_dracula_dark_theme(),
        PresetConfig::OneLight => spec_one_light_theme(),
        PresetConfig::TokyoNight => arbitrary(),
    }
}

/// Whether this build ships the palette of `preset`.
pub open spec fn has_palette(preset: PresetConfig) -> bool {
    preset != PresetConfig::TokyoNight
}

impl PresetConfig {
    /// The theme this preset resolves to.
    pub fn theme(self) -> (t: Theme)
        requires
            has_palette(self),
        ensures
            t == spec_preset_theme(self),
    {
        match self {
            PresetConfig::Default => default_theme(),
            PresetConfig::DraculaDark => dracula_dark_theme(),
            PresetConfig::OneLight => one_light_theme(),
            PresetConfig::TokyoNight => {
                proof {
                    assert(false);
                }
                default_theme()
            },
        }
    }
}

impl Default for Theme {
    fn default() -> (t: Self)
        ensures
            t == spec_default_theme(),
    {
        default_theme()
    }
}

/// `base` with the configured override, if any, layered on top.
pub open spec fn patched(base: ThemeStyle, over: Option<StyleConfig>) -> ThemeStyle {
    match over {
        Some(c) => spec_patch(base, spec_style_of(c)),
        None => base,
    }
}

/// The preset a theme configuration starts from: the one it names, the
/// built-in default otherwise.
pub open spec fn base_preset(config: ThemeConfig) -> PresetConfig {
    match config.preset {
        Some(p) => p,
        None => PresetConfig::Default,
    }
}

/// The theme a configuration resolves to: its preset, each element
/// overridden by the configured style layered on top.
pub open spec fn spec_resolve(config: ThemeConfig) -> Theme {
    let base = spec_preset_theme(base_preset(config));
    Theme {
        header: patched(base.header, config.header),
        status_bar: patched(base.status_bar, config.status_bar),
        border_active: patched(base.border_active, config.border_active),
        border_inactive: patched(base.border_inactive, config.border_inactive),
        dialog_border: patched(base.dialog_border, config.dialog_border),
        cursor: patched(base.cursor, config.cursor),
        mailbox_current: patched(base.mailbox_current, config.mailbox_current),
        envelope_header: patched(base.envelope_header, config.envelope_header),
        envelope_seen: patched(base.envelope_seen, config.envelope_seen),
        envelope_unread: patched(base.envelope_unread, config.envelope_unread),
        message_body: patched(base.message_body, config.message_body),
        compose_text: patched(base.compose_text, config.compose_text),
        compose_cursor: patched(base.compose_cursor, config.compose_cursor),
        compose_selection: patched(base.compose_selection, config.compose_selection),
    }
}

fn patch_with(base: ThemeStyle, over: &Option<StyleConfig>) -> (s: ThemeStyle)
    ensures
        s == patched(base, *over),
{
    match over {
        Some(c) => patch(base, style_of(c)),
        None => base,
    }
}

impl Theme {
    /// Resolves a theme from its preset and per-element overrides.
    ///
    /// Starts from the configured preset, or the built-in default, then
    /// layers each override on top so a partial override (only `fg`,
    /// say) keeps the untouched attributes of the preset.
    pub fn resolve(config: &ThemeConfig) -> (t: Theme)
        requires
            has_palette(base_preset(*config)),
        ensures
            t == spec_resolve(*config),
    {
        let preset = match config.preset {
            Some(p) => p,
            None => PresetConfig::Default,
        };
        let base = preset.theme();
        Theme {
            header: patch_with(base.header, &config.header),
            status_bar: patch_with(base.status_bar, &config.status_bar),
            border_active: patch_with(base.border_active, &config.border_active),
            border_inactive: patch_with(base.border_inactive, &config.border_inactive),
            dialog_border: patch_with(base.dialog_border, &config.dialog_border),
            cursor: patch_with(base.cursor, &config.cursor),
            mailbox_current: patch_with(base.mailbox_current, &config.mailbox_current),
            envelope_header: patch_with(base.envelope_header, &config.envelope_header),
            envelope_seen: patch_with(base.envelope_seen, &config.envelope_seen),
            envelope_unread: patch_with(base.envelope_unread, &config.envelope_unread),
            message_body: patch_with(base.message_body, &config.message_body),
            compose_text: patch_with(base.compose_text, &config.compose_text),
            compose_cursor: patch_with(base.compose_cursor, &config.compose_cursor),
            compose_selection: patch_with(base.compose_selection, &config.compose_selection),
        }
    }
}

/// An override changes only what it sets: a colour it leaves unset is
/// the base one, the underline colour is always the base one, and the
/// modifiers it turns on are added to the base ones, none of which is
/// dropped.
pub proof fn override_keeps_untouched(base: ThemeStyle, over: StyleConfig)
    ensures
        ({
            let p = spec_patch(base, spec_style_of(over));
            &&& over.fg is None ==> p.fg == base.fg
            &&& over.bg is None ==> p.bg == base.bg
            &&& p.underline_color == base.underline_color
            &&& p.add_modifier == base.add_modifier | modifier_union(over.modifiers@)
            &&& p.sub_modifier == base.sub_modifier & !modifier_union(over.modifiers@)
        }),
{
    let a = base.add_modifier;
    let s = base.sub_modifier;
    let m = modifier_union(over.modifiers@);
    assert((a & !0u16) | m == a | m) by (bit_vector);
    assert((s & !m) | 0u16 == s & !m) by (bit_vector);
}

/// A configuration that overrides no element resolves to its preset,
/// the built-in default when it names none.
pub proof fn unconfigured_theme_is_the_preset(config: ThemeConfig)
    requires
        config.header is None,
        config.status_bar is None,
        config.border_active is None,
        config.border_inactive is None,
        config.dialog_border is None,
        config.cursor is None,
        config.mailbox_current is None,
        config.envelope_header is None,
        config.envelope_seen is None,
        config.envelope_unread is None,
        config.message_body is None,
        config.compose_text is None,
        config.compose_cursor is None,
        config.compose_selection is None,
    ensures
        spec_resolve(config) == spec_preset_theme(base_preset(config)),
{
}

/// Layering a style that sets nothing changes nothing.
pub proof fn patching_nothing_changes_nothing(base: ThemeStyle)
    ensures
        spec_patch(base, empty_style()) == base,
{
    let a = base.add_modifier;
    let s = base.sub_modifier;
    assert((a & !0u16) | 0u16 == a) by (bit_vector);
    assert((s & !0u16) | 0u16 == s) by (bit_vector);
}

/// Layering the same style twice is layering it once.
pub proof fn patching_twice_is_patching_once(base: ThemeStyle, over: ThemeStyle)
    ensures
        spec_patch(spec_patch(base, over), over) == spec_patch(base, over),
{
    let a = base.add_modifier;
    let s = base.sub_modifier;
    let oa = over.add_modifier;
    let os = over.sub_modifier;
    assert((((a & !os) | oa) & !os) | oa == (a & !os) | oa) by (bit_vector);
    assert((((s & !oa) | os) & !oa) | os == (s & !oa) | os) by (bit_vector);
}


/// How one element resolves against its preset style, stated directly:
/// without an override it is the preset's; with one, each colour the
/// override sets is taken, each it leaves unset is the preset's, and its
/// modifiers are added to the preset's.
pub open spec fn element_resolved(over: Option<StyleConfig>, preset: ThemeStyle, result: ThemeStyle) -> bool {
    match over {
        None => result == preset,
        Some(s) => {
            &&& (s.fg matches Some(c) ==> result.fg == Some(c))
            &&& (s.fg is None ==> result.fg == preset.fg)
            &&& (s.bg matches Some(c) ==> result.bg == Some(c))
            &&& (s.bg is None ==> result.bg == preset.bg)
            &&& result.underline_color == preset.underline_color
            &&& result.add_modifier == preset.add_modifier | modifier_union(s.modifiers@)
            &&& result.sub_modifier == preset.sub_modifier & !modifier_union(s.modifiers@)
        },
    }
}

/// Every element of a resolved theme is its preset style with the
/// configured override, if any, layered on top: an element with a
/// configured colour always takes that colour.
pub proof fn every_override_is_applied(config: ThemeConfig)
    ensures
        ({
            let t = spec_resolve(config);
            let preset = spec_preset_theme(base_preset(config));
            &&& element_resolved(config.header, preset.header, t.header)
            &&& element_resolved(config.status_bar, preset.status_bar, t.status_bar)
            &&& element_resolved(config.border_active, preset.border_active, t.border_active)
            &&& element_resolved(config.border_inactive, preset.border_inactive, t.border_inactive)
            &&& element_resolved(config.dialog_border, preset.dialog_border, t.dialog_border)
            &&& element_resolved(config.cursor, preset.cursor, t.cursor)
            &&& element_resolved(config.mailbox_current, preset.mailbox_current, t.mailbox_current)
            &&& element_resolved(config.envelope_header, preset.envelope_header, t.envelope_header)
            &&& element_resolved(config.envelope_seen, preset.envelope_seen, t.envelope_seen)
            &&& element_resolved(config.envelope_unread, preset.envelope_unread, t.envelope_unread)
            &&& element_resolved(config.message_body, preset.message_body, t.message_body)
            &&& element_resolved(config.compose_text, preset.compose_text, t.compose_text)
            &&& element_resolved(config.compose_cursor, preset.compose_cursor, t.compose_cursor)
            &&& element_resolved(config.compose_selection, preset.compose_selection, t.compose_selection)
        }),
{
    let preset = spec_preset_theme(base_preset(config));
    if let Some(s) = config.header {
        override_keeps_untouched(preset.header, s);
    }
    if let Some(s) = config.status_bar {
        override_keeps_untouched(preset.status_bar, s);
    }
    if let Some(s) = config.border_active {
        override_keeps_untouched(preset.border_active, s);
    }
    if let Some(s) = config.border_inactive {
        override_keeps_untouched(preset.border_inactive, s);
    }
    if let Some(s) = config.dialog_border {
        override_keeps_untouched(preset.dialog_border, s);
    }
    if let Some(s) = config.cursor {
        override_keeps_untouched(preset.cursor, s);
    }
    if let Some(s) = config.mailbox_current {
        override_keeps_untouched(preset.mailbox_current, s);
    }
    if let Some(s) = config.envelope_header {
        override_keeps_untouched(preset.envelope_header, s);
    }
    if let Some(s) = config.envelope_seen {
        override_keeps_untouched(preset.envelope_seen, s);
    }
    if let Some(s) = config.envelope_unread {
        override_keeps_untouched(preset.envelope_unread, s);
    }
    if let Some(s) = config.message_body {
        override_keeps_untouched(preset.message_body, s);
    }
    if let Some(s) = config.compose_text {
        override_keeps_untouched(preset.compose_text, s);
    }
    if let Some(s) = config.compose_cursor {
        override_keeps_untouched(preset.compose_cursor, s);
    }
    if let Some(s) = config.compose_selection {
        override_keeps_untouched(preset.compose_selection, s);
    }
}

} // verus!
