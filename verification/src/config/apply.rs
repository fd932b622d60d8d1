//! What each key of a configuration does to the settings.

use crate::config::color::{
    color, color_or, opt_color, opt_color_or, palette_entry, parse_palette_entry, ansi16,
    giest_ansi16, palette_over, xterm_palette, TerminalColor,
};
use crate::config::flags::{
    app_notifications, bell_features, notify_action, parse_app_notifications, parse_bell_features,
    parse_notify_action, parse_scroll_to_bottom, parse_shell_features, parse_synthetic_style,
    scroll_to_bottom, shell_features, synthetic_style, AppNotifications, BellFeatures,
    NotifyOnCommandFinishAction, ScrollToBottom, ShellFeatures, SyntheticStyle,
};
use crate::config::grammar::{duration_ms, parse_duration_ms};
use crate::config::lines::{font_style, parse_word_chars, word_chars, FontStyle, FontStyleView};
use crate::config::parts::{
    add_clipboard_map, add_features, add_font_map, add_input, add_keybind, add_palette_row,
    add_remap, adjust_or, adjust_problems, adjust_value, axes_or, axes_problems, blur, blur_or,
    bold_color, bold_color_or, check_screen, clipboard_maps_or, color_problems, cursor_text, cursor_text_or,
    features_or, font_maps_or, inputs_or, keybind_problems, keybinds_or, message, remaps_or, report,
    row_defaults_or, rows_or, screen_problems, set_font_variation, start_directory, terminal_color,
    terminal_color_or, working_directory,
};
use crate::config::set::{
    access_or, append_or_clear, bool_kept, bool_or, cells, cells_or, coord, coord_or, decimal_or,
    decimals_or, duration_or, env_or, keep_bool, keep_decimal, keep_duration, keep_number, limit,
    limit_or, list_or, note_decimal, number_or, opt_string, parse_bool, parse_clipboard_access,
    parse_scroll_multiplier, scroll_multiplier, set_env, switch, switched, text_or, texts,
    FontVariation, MouseScrollMultiplier, ScrollView,
};
use crate::config::settings::{
    styles, variations, AdjustView, BackdropSettings, BackdropView, ClipboardSettings,
    ClipboardView, ColorSettings, ColorsView, CommandSettings, CommandsView, Config, ConfigView,
    EngineSettings, EngineView, FontSettings, FontsView, LayoutSettings, LayoutView,
    LifetimeSettings, LifetimeView, MetricAdjust, MouseSettings, MouseView, SelectionSettings,
    SelectionView, Surroundings, SurroundingsView, WindowSettings, WindowsView,
};
use crate::config::values::{ClipboardAccess, ClipboardPolicy};
use crate::config::words;
use crate::config::words::{
    bold_is_bright_or, confirm_close_or, conpty_or, copy_on_select_or, cursor_style_blink_or,
    cursor_style_or, decoration_or, grapheme_or, image_fit_or, image_position_or, middle_click_or,
    new_tab_position_or, notify_when_or, overlay_position_or, padding_balance_or, report_format_or,
    resize_overlay_or, right_click_or, save_state_or, scrollbar_or, shader_animation_or,
    shell_integration_or, shift_capture_or, subtitle_or, tab_bar_or, window_theme_or,
};
use crate::engine::Rgb;
use crate::text::{chars, lower, lowered, natural_to, read_natural, spells, split};
use vstd::prelude::*;

verus! {

// ---------------------------------------------------------------- single keys

/// The style of one slot after it is given `v`.
pub open spec fn font_style_or(v: Seq<char>) -> FontStyleView {
    if v.len() == 0 {
        FontStyleView::Default
    } else {
        font_style(v)
    }
}

/// Set the style of one slot.
pub fn set_font_style(list: &mut [FontStyle; 4], v: &str, slot: usize)
    requires
        slot < 4,
    ensures
        styles(final(list)@) == styles(old(list)@).update(slot as int, font_style_or(v@)),
{
    let ghost before = list@;
    let s = if v.is_empty() {
        FontStyle::Default
    } else {
        FontStyle::parse(v)
    };
    list[slot] = s;
    proof {
        assert(styles(list@) =~= styles(before).update(slot as int, font_style_or(v@)));
    }
}

/// Add an axis to one slot.
pub fn set_variation_slot(
    list: &mut [Vec<FontVariation>; 4],
    slot: usize,
    v: &str,
    problems: &mut Vec<String>,
)
    requires
        slot < 4,
    ensures
        variations(final(list)@) == variations(old(list)@).update(
            slot as int,
            axes_or(variations(old(list)@)[slot as int], v@),
        ),
        texts(final(problems)@) == axes_problems(texts(old(problems)@), v@),
{
    let ghost before = list@;
    set_font_variation(&mut list[slot], v, problems);
    proof {
        assert(variations(list@) =~= variations(before).update(
            slot as int,
            axes_or(variations(before)[slot as int], v@),
        ));
    }
}

/// The palette after `palette` is given `v`: empty restores it, an entry sets
/// one colour.
pub open spec fn palette_after(
    p: Seq<Rgb>,
    v: Seq<char>,
    names: Seq<(Seq<char>, Rgb)>,
) -> Seq<Rgb> {
    if v.len() == 0 {
        palette_over(ansi16())
    } else {
        match palette_entry(v, names) {
            Some(x) => p.update(x.0, x.1),
            None => p,
        }
    }
}

/// The bit of one palette index within its word.
pub open spec fn index_bit(i: int) -> u64 {
    1u64 << ((i % 64) as u64)
}

/// The set of palette indices after `palette` is given `v`.
pub open spec fn palette_set_after(
    m: Seq<u64>,
    v: Seq<char>,
    names: Seq<(Seq<char>, Rgb)>,
) -> Seq<u64> {
    if v.len() == 0 {
        seq![0u64, 0u64, 0u64, 0u64]
    } else {
        match palette_entry(v, names) {
            Some(x) => m.update(x.0 / 64, m[x.0 / 64] | index_bit(x.0)),
            None => m,
        }
    }
}

/// The problems after `palette` is given `v`.
pub open spec fn palette_problems(
    list: Seq<Seq<char>>,
    v: Seq<char>,
    names: Seq<(Seq<char>, Rgb)>,
) -> Seq<Seq<char>> {
    if v.len() > 0 && palette_entry(v, names) is None {
        list.push(message("ignoring bad palette entry: "@, v, ""@))
    } else {
        list
    }
}

/// Apply one `palette` value.
fn set_palette(c: &mut ColorSettings, d: &mut Vec<String>, v: &str, e: &Surroundings)
    ensures
        final(c)@ == (ColorsView {
            palette: palette_after(old(c)@.palette, v@, e@.colors),
            palette_set: palette_set_after(old(c)@.palette_set, v@, e@.colors),
            ..old(c)@
        }),
        texts(final(d)@) == palette_problems(texts(old(d)@), v@, e@.colors),
{
    if v.is_empty() {
        c.palette = xterm_palette(giest_ansi16());
        c.palette_set = [0, 0, 0, 0];
        proof {
            assert(c.palette_set@ =~= seq![0u64, 0u64, 0u64, 0u64]);
        }
        return;
    }
    match parse_palette_entry(v, &e.colors) {
        Some((idx, col)) => {
            let i: usize = idx as usize;
            c.palette[i] = col;
            let w: u64 = c.palette_set[i / 64] | (1u64 << (i % 64) as u64);
            c.palette_set[i / 64] = w;
        },
        None => {
            report(d, "ignoring bad palette entry: ", v, "");
        },
    }
}

/// Whether fullscreen is on after it is given `v`. Every kind of it counts.
pub open spec fn fullscreen_or(v: Seq<char>, current: bool) -> bool {
    let w = lower(v);
    if v.len() == 0 {
        false
    } else if w == "non-native"@ || w == "non-native-visible-menu"@ || w
        == "non-native-padded-notch"@ {
        true
    } else {
        bool_or(v, current)
    }
}

fn set_fullscreen(v: &str, current: bool) -> (r: bool)
    ensures
        r == fullscreen_or(v@, current),
{
    if v.is_empty() {
        return false;
    }
    let cs = chars(v);
    let w = lowered(cs.as_slice());
    let w = w.as_slice();
    if spells(w, "non-native") || spells(w, "non-native-visible-menu") || spells(
        w,
        "non-native-padded-notch",
    ) {
        true
    } else {
        parse_bool(v, current)
    }
}

/// The delay before quitting after it is given `v`.
pub open spec fn delay_or(v: Seq<char>, current: Option<u64>) -> Option<u64> {
    if v.len() == 0 {
        None
    } else {
        match duration_ms(v) {
            Some(n) => Some(n as u64),
            None => current,
        }
    }
}

fn set_delay(v: &str, current: Option<u64>) -> (r: Option<u64>)
    ensures
        r == delay_or(v@, current),
{
    if v.is_empty() {
        return None;
    }
    match parse_duration_ms(v) {
        Some(n) => Some(n),
        None => current,
    }
}

/// How long the overlay stays after that is given `v`: between a quarter of a
/// second and a minute.
pub open spec fn overlay_ms_or(v: Seq<char>, current: u64) -> u64 {
    if v.len() == 0 {
        750
    } else {
        match duration_ms(v) {
            Some(n) => if n < 250 {
                250
            } else if n > 60_000 {
                60_000
            } else {
                n as u64
            },
            None => current,
        }
    }
}

fn set_overlay_ms(v: &str, current: u64) -> (r: u64)
    ensures
        r == overlay_ms_or(v@, current),
{
    if v.is_empty() {
        return 750;
    }
    match parse_duration_ms(v) {
        Some(n) => if n < 250 {
            250
        } else if n > 60_000 {
            60_000
        } else {
            n
        },
        None => current,
    }
}

/// The multipliers after they are given `v`.
pub open spec fn scroll_or(v: Seq<char>, current: ScrollView) -> ScrollView {
    if v.len() == 0 {
        ScrollView { precision: None, discrete: None }
    } else {
        match scroll_multiplier(v, current) {
            Some(m) => m,
            None => current,
        }
    }
}

fn set_scroll(m: &mut MouseScrollMultiplier, v: &str)
    ensures
        final(m)@ == scroll_or(v@, old(m)@),
{
    if v.is_empty() {
        *m = MouseScrollMultiplier { precision: None, discrete: None };
        return;
    }
    match parse_scroll_multiplier(v, m) {
        Some(n) => {
            *m = n;
        },
        None => {},
    }
}

/// The scrollback in bytes after it is given `v`; one that is no number keeps
/// `current`.
#[verifier::opaque]
pub open spec fn scrollback_bytes_or(v: Seq<char>, current: usize) -> usize {
    if v.len() == 0 {
        10_000
    } else if v == "unlimited"@ {
        usize::MAX
    } else {
        match natural_to(v, 10, usize::MAX as int) {
            Some(n) => n as usize,
            None => current,
        }
    }
}

fn set_scrollback_bytes(v: &str, current: usize) -> (r: usize)
    ensures
        r == scrollback_bytes_or(v@, current),
{
    proof {
        reveal(scrollback_bytes_or);
    }
    if v.is_empty() {
        return 10_000;
    }
    let cs = chars(v);
    if spells(cs.as_slice(), "unlimited") {
        return usize::MAX;
    }
    match read_natural(cs.as_slice(), 10, usize::MAX as u128) {
        Some(n) => n as usize,
        None => current,
    }
}

/// What shell integration does after it is given `v`.
#[verifier::opaque]
pub open spec fn shell_features_or(v: Seq<char>, current: ShellFeatures) -> ShellFeatures {
    if v.len() == 0 {
        ShellFeatures {
            cursor: true,
            sudo: false,
            title: true,
            ssh_env: false,
            ssh_terminfo: false,
            path: true,
        }
    } else {
        match shell_features(v) {
            Some(x) => x,
            None => current,
        }
    }
}

fn keep_shell_features(v: &str, current: ShellFeatures) -> (r: ShellFeatures)
    ensures
        r == shell_features_or(v@, current),
{
    proof {
        reveal(shell_features_or);
    }
    if v.is_empty() {
        return ShellFeatures::default();
    }
    match parse_shell_features(v) {
        Some(x) => x,
        None => current,
    }
}

/// How a finished command tells you after it is given `v`.
#[verifier::opaque]
pub open spec fn notify_action_or(
    v: Seq<char>,
    current: NotifyOnCommandFinishAction,
) -> NotifyOnCommandFinishAction {
    if v.len() == 0 {
        NotifyOnCommandFinishAction { bell: true, notify: false }
    } else {
        match notify_action(v) {
            Some(x) => x,
            None => current,
        }
    }
}

fn keep_notify_action(v: &str, current: NotifyOnCommandFinishAction) -> (r:
    NotifyOnCommandFinishAction)
    ensures
        r == notify_action_or(v@, current),
{
    proof {
        reveal(notify_action_or);
    }
    if v.is_empty() {
        return NotifyOnCommandFinishAction { bell: true, notify: false };
    }
    match parse_notify_action(v) {
        Some(x) => x,
        None => current,
    }
}

/// How soon a failure is abnormal, in milliseconds, after it is given `v`.
#[verifier::opaque]
pub open spec fn exit_runtime_or(v: Seq<char>, current: u32) -> u32 {
    number_or(v, u32::MAX as int, 250, current as int) as u32
}

fn keep_exit_runtime(v: &str, current: u32) -> (r: u32)
    ensures
        r == exit_runtime_or(v@, current),
{
    proof {
        reveal(exit_runtime_or);
    }
    keep_number(v, u32::MAX as u64, 250, current as u64) as u32
}

// ---------------------------------------------------------------- families

/// What a key of fonts and shaping does to them and to the list of problems;
/// `None` for any other key.
#[verifier::opaque]
pub open spec fn fonts_key(
    c: FontsView,
    d: Seq<Seq<char>>,
    key: Seq<char>,
    v: Seq<char>,
    e: SurroundingsView,
) -> Option<(FontsView, Seq<Seq<char>>)> {
    if key == "font-size"@ {
        Some((FontsView { font_points: decimals_or(c.font_points, v), ..c }, d))
    } else if key == "font-family"@ {
        Some((FontsView { font_family: list_or(c.font_family, v), ..c }, d))
    } else if key == "font-synthetic-style"@ {
        Some((
            FontsView {
                font_synthetic_style: if v.len() == 0 {
                    SyntheticStyle { bold: true, italic: true, bold_italic: true }
                } else {
                    match synthetic_style(v) { Some(x) => x, None => c.font_synthetic_style }
                },
                ..c
            },
            if v.len() > 0 && synthetic_style(v) is None {
                d.push(message("ignoring invalid font-synthetic-style '"@, v, "'"@))
            } else {
                d
            },
        ))
    } else if key == "font-family-bold"@ {
        Some((FontsView { font_family_bold: text_or(v, None), ..c }, d))
    } else if key == "font-family-italic"@ {
        Some((FontsView { font_family_italic: text_or(v, None), ..c }, d))
    } else if key == "font-family-bold-italic"@ {
        Some((FontsView { font_family_bold_italic: text_or(v, None), ..c }, d))
    } else if key == "font-feature"@ {
        Some((FontsView { font_features: features_or(c.font_features, v), ..c }, d))
    } else if key == "font-style"@ {
        Some((FontsView { font_styles: c.font_styles.update(0, font_style_or(v)), ..c }, d))
    } else if key == "font-style-bold"@ {
        Some((FontsView { font_styles: c.font_styles.update(1, font_style_or(v)), ..c }, d))
    } else if key == "font-style-italic"@ {
        Some((FontsView { font_styles: c.font_styles.update(2, font_style_or(v)), ..c }, d))
    } else if key == "font-style-bold-italic"@ {
        Some((FontsView { font_styles: c.font_styles.update(3, font_style_or(v)), ..c }, d))
    } else if key == "font-variation"@ {
        Some((
            FontsView {
                font_variations: c.font_variations.update(0, axes_or(c.font_variations[0], v)),
                ..c
            },
            axes_problems(d, v),
        ))
    } else if key == "font-variation-bold"@ {
        Some((
            FontsView {
                font_variations: c.font_variations.update(1, axes_or(c.font_variations[1], v)),
                ..c
            },
            axes_problems(d, v),
        ))
    } else if key == "font-variation-italic"@ {
        Some((
            FontsView {
                font_variations: c.font_variations.update(2, axes_or(c.font_variations[2], v)),
                ..c
            },
            axes_problems(d, v),
        ))
    } else if key == "font-variation-bold-italic"@ {
        Some((
            FontsView {
                font_variations: c.font_variations.update(3, axes_or(c.font_variations[3], v)),
                ..c
            },
            axes_problems(d, v),
        ))
    } else if key == "font-codepoint-map"@ {
        Some((FontsView { font_codepoint_map: font_maps_or(c.font_codepoint_map, v), ..c }, d))
    } else if key == "font-shaping-break"@ {
        Some((
            FontsView {
                font_shaping_break_cursor: if v.len() == 0 {
                    true
                } else {
                    switched(split(v, ','), "cursor"@, "no-cursor"@, c.font_shaping_break_cursor)
                },
                ..c
            },
            d,
        ))
    } else if key == "font-thicken"@ {
        Some((FontsView { font_thicken: bool_kept(v, false, c.font_thicken), ..c }, d))
    } else if key == "font-thicken-strength"@ {
        Some((
            FontsView {
                font_thicken_strength: number_or(
                    v,
                    u8::MAX as int,
                    255,
                    c.font_thicken_strength as int,
                ) as u8,
                ..c
            },
            d,
        ))
    } else if key == "text-gamma"@ {
        Some((FontsView { text_gamma: decimal_or(v, c.text_gamma), ..c }, d))
    } else {
        None
    }
}

/// Apply a key of fonts and shaping; the result says whether it is one.
#[verifier::spinoff_prover]
#[verifier::rlimit(100)]
fn apply_fonts(
    c: &mut FontSettings,
    d: &mut Vec<String>,
    key: &[char],
    v: &str,
    e: &Surroundings,
) -> (r: bool)
    ensures
        match fonts_key(old(c)@, texts(old(d)@), key@, v@, e@) {
            Some(n) => r && final(c)@ == n.0 && texts(final(d)@) == n.1,
            None => !r && final(c)@ == old(c)@ && texts(final(d)@) == texts(old(d)@),
        },
{
    proof {
        reveal(fonts_key);
    }
    if spells(key, "font-size") {
        note_decimal(&mut c.font_points, v);
    } else if spells(key, "font-family") {
        append_or_clear(&mut c.font_family, v);
    } else if spells(key, "font-synthetic-style") {
        if v.is_empty() {
            c.font_synthetic_style = SyntheticStyle { bold: true, italic: true, bold_italic: true };
        } else {
            match parse_synthetic_style(v) {
                Some(x) => { c.font_synthetic_style = x; },
                None => { report(d, "ignoring invalid font-synthetic-style '", v, "'"); },
            }
        }
    } else if spells(key, "font-family-bold") {
        c.font_family_bold = opt_string(v, &None);
    } else if spells(key, "font-family-italic") {
        c.font_family_italic = opt_string(v, &None);
    } else if spells(key, "font-family-bold-italic") {
        c.font_family_bold_italic = opt_string(v, &None);
    } else if spells(key, "font-feature") {
        add_features(&mut c.font_features, v);
    } else if spells(key, "font-style") {
        set_font_style(&mut c.font_styles, v, 0);
    } else if spells(key, "font-style-bold") {
        set_font_style(&mut c.font_styles, v, 1);
    } else if spells(key, "font-style-italic") {
        set_font_style(&mut c.font_styles, v, 2);
    } else if spells(key, "font-style-bold-italic") {
        set_font_style(&mut c.font_styles, v, 3);
    } else if spells(key, "font-variation") {
        set_variation_slot(&mut c.font_variations, 0, v, d);
    } else if spells(key, "font-variation-bold") {
        set_variation_slot(&mut c.font_variations, 1, v, d);
    } else if spells(key, "font-variation-italic") {
        set_variation_slot(&mut c.font_variations, 2, v, d);
    } else if spells(key, "font-variation-bold-italic") {
        set_variation_slot(&mut c.font_variations, 3, v, d);
    } else if spells(key, "font-codepoint-map") {
        add_font_map(&mut c.font_codepoint_map, v);
    } else if spells(key, "font-shaping-break") {
        c.font_shaping_break_cursor = if v.is_empty() {
            true
        } else {
            switch(v, "cursor", "no-cursor", c.font_shaping_break_cursor)
        };
    } else if spells(key, "font-thicken") {
        c.font_thicken = keep_bool(v, false, c.font_thicken);
    } else if spells(key, "font-thicken-strength") {
        c.font_thicken_strength = keep_number(
            v,
            u8::MAX as u64,
            255,
            c.font_thicken_strength as u64,
        ) as u8;
    } else if spells(key, "text-gamma") {
        keep_decimal(v, &mut c.text_gamma);
    } else {
        return false;
    }
    true
}

/// What a key of metric adjustments does to them and to the list of problems;
/// `None` for any other key.
#[verifier::opaque]
pub open spec fn metrics_key(
    c: AdjustView,
    d: Seq<Seq<char>>,
    key: Seq<char>,
    v: Seq<char>,
    e: SurroundingsView,
) -> Option<(AdjustView, Seq<Seq<char>>)> {
    if key == "adjust-cell-width"@ {
        Some((AdjustView { cell_width: adjust_or(v, c.cell_width), ..c }, adjust_problems(d, v)))
    } else if key == "adjust-cell-height"@ {
        Some((AdjustView { cell_height: adjust_or(v, c.cell_height), ..c }, adjust_problems(d, v)))
    } else if key == "adjust-font-baseline"@ {
        Some((
            AdjustView { font_baseline: adjust_or(v, c.font_baseline), ..c },
            adjust_problems(d, v),
        ))
    } else if key == "adjust-underline-position"@ {
        Some((
            AdjustView { underline_position: adjust_or(v, c.underline_position), ..c },
            adjust_problems(d, v),
        ))
    } else if key == "adjust-underline-thickness"@ {
        Some((
            AdjustView { underline_thickness: adjust_or(v, c.underline_thickness), ..c },
            adjust_problems(d, v),
        ))
    } else if key == "adjust-strikethrough-position"@ {
        Some((
            AdjustView { strikethrough_position: adjust_or(v, c.strikethrough_position), ..c },
            adjust_problems(d, v),
        ))
    } else if key == "adjust-strikethrough-thickness"@ {
        Some((
            AdjustView { strikethrough_thickness: adjust_or(v, c.strikethrough_thickness), ..c },
            adjust_problems(d, v),
        ))
    } else if key == "adjust-overline-position"@ {
        Some((
            AdjustView { overline_position: adjust_or(v, c.overline_position), ..c },
            adjust_problems(d, v),
        ))
    } else if key == "adjust-overline-thickness"@ {
        Some((
            AdjustView { overline_thickness: adjust_or(v, c.overline_thickness), ..c },
            adjust_problems(d, v),
        ))
    } else if key == "adjust-cursor-thickness"@ {
        Some((
            AdjustView { cursor_thickness: adjust_or(v, c.cursor_thickness), ..c },
            adjust_problems(d, v),
        ))
    } else if key == "adjust-cursor-height"@ {
        Some((
            AdjustView { cursor_height: adjust_or(v, c.cursor_height), ..c },
            adjust_problems(d, v),
        ))
    } else if key == "adjust-box-thickness"@ {
        Some((
            AdjustView { box_thickness: adjust_or(v, c.box_thickness), ..c },
            adjust_problems(d, v),
        ))
    } else if key == "adjust-icon-height"@ {
        Some((AdjustView { icon_height: adjust_or(v, c.icon_height), ..c }, adjust_problems(d, v)))
    } else {
        None
    }
}

/// Apply a key of metric adjustments; the result says whether it is one.
#[verifier::spinoff_prover]
#[verifier::rlimit(100)]
fn apply_metrics(
    c: &mut MetricAdjust,
    d: &mut Vec<String>,
    key: &[char],
    v: &str,
    e: &Surroundings,
) -> (r: bool)
    ensures
        match metrics_key(old(c)@, texts(old(d)@), key@, v@, e@) {
            Some(n) => r && final(c)@ == n.0 && texts(final(d)@) == n.1,
            None => !r && final(c)@ == old(c)@ && texts(final(d)@) == texts(old(d)@),
        },
{
    proof {
        reveal(metrics_key);
    }
    if spells(key, "adjust-cell-width") {
        adjust_value(v, &mut c.cell_width, d);
    } else if spells(key, "adjust-cell-height") {
        adjust_value(v, &mut c.cell_height, d);
    } else if spells(key, "adjust-font-baseline") {
        adjust_value(v, &mut c.font_baseline, d);
    } else if spells(key, "adjust-underline-position") {
        adjust_value(v, &mut c.underline_position, d);
    } else if spells(key, "adjust-underline-thickness") {
        adjust_value(v, &mut c.underline_thickness, d);
    } else if spells(key, "adjust-strikethrough-position") {
        adjust_value(v, &mut c.strikethrough_position, d);
    } else if spells(key, "adjust-strikethrough-thickness") {
        adjust_value(v, &mut c.strikethrough_thickness, d);
    } else if spells(key, "adjust-overline-position") {
        adjust_value(v, &mut c.overline_position, d);
    } else if spells(key, "adjust-overline-thickness") {
        adjust_value(v, &mut c.overline_thickness, d);
    } else if spells(key, "adjust-cursor-thickness") {
        adjust_value(v, &mut c.cursor_thickness, d);
    } else if spells(key, "adjust-cursor-height") {
        adjust_value(v, &mut c.cursor_height, d);
    } else if spells(key, "adjust-box-thickness") {
        adjust_value(v, &mut c.box_thickness, d);
    } else if spells(key, "adjust-icon-height") {
        adjust_value(v, &mut c.icon_height, d);
    } else {
        return false;
    }
    true
}

/// What a key of colours and the cursor does to them and to the list of
/// problems; `None` for any other key.
#[verifier::opaque]
pub open spec fn colors_key(
    c: ColorsView,
    d: Seq<Seq<char>>,
    key: Seq<char>,
    v: Seq<char>,
    e: SurroundingsView,
) -> Option<(ColorsView, Seq<Seq<char>>)> {
    if key == "search-background"@ {
        Some((
            ColorsView {
                search_bg: terminal_color_or(
                    v,
                    e.colors,
                    c.search_bg,
                    TerminalColor::Color(Rgb { r: 255, g: 224, b: 130 }),
                ),
                ..c
            },
            color_problems(d, v, e.colors),
        ))
    } else if key == "search-foreground"@ {
        Some((
            ColorsView {
                search_fg: terminal_color_or(
                    v,
                    e.colors,
                    c.search_fg,
                    TerminalColor::Color(Rgb { r: 0, g: 0, b: 0 }),
                ),
                ..c
            },
            color_problems(d, v, e.colors),
        ))
    } else if key == "search-selected-background"@ {
        Some((
            ColorsView {
                search_selected_bg: terminal_color_or(
                    v,
                    e.colors,
                    c.search_selected_bg,
                    TerminalColor::Color(Rgb { r: 242, g: 165, b: 126 }),
                ),
                ..c
            },
            color_problems(d, v, e.colors),
        ))
    } else if key == "search-selected-foreground"@ {
        Some((
            ColorsView {
                search_selected_fg: terminal_color_or(
                    v,
                    e.colors,
                    c.search_selected_fg,
                    TerminalColor::Color(Rgb { r: 0, g: 0, b: 0 }),
                ),
                ..c
            },
            color_problems(d, v, e.colors),
        ))
    } else if key == "cursor-text"@ {
        Some((ColorsView { cursor_text: cursor_text_or(v, e.colors, c.cursor_text), ..c }, d))
    } else if key == "split-divider-color"@ {
        Some((
            ColorsView {
                split_divider_color: opt_color_or(v, e.colors, None, c.split_divider_color),
                ..c
            },
            d,
        ))
    } else if key == "foreground"@ {
        Some((
            ColorsView { fg: color_or(v, e.colors, Rgb { r: 197, g: 200, b: 198 }, c.fg), ..c },
            d,
        ))
    } else if key == "background"@ {
        Some((ColorsView { bg: color_or(v, e.colors, Rgb { r: 16, g: 18, b: 24 }, c.bg), ..c }, d))
    } else if key == "cursor-color"@ {
        Some((ColorsView { cursor: opt_color_or(v, e.colors, None, c.cursor), ..c }, d))
    } else if key == "cursor-style"@ {
        Some((ColorsView { cursor_style: cursor_style_or(v, c.cursor_style), ..c }, d))
    } else if key == "cursor-style-blink"@ {
        Some((
            ColorsView { cursor_style_blink: cursor_style_blink_or(v, c.cursor_style_blink), ..c },
            d,
        ))
    } else if key == "bold-color"@ {
        Some((ColorsView { bold_color: bold_color_or(v, e.colors, c.bold_color), ..c }, d))
    } else if key == "bold-is-bright"@ {
        Some((ColorsView { bold_color: bold_is_bright_or(v, c.bold_color), ..c }, d))
    } else if key == "minimum-contrast"@ {
        Some((ColorsView { min_contrast: decimal_or(v, c.min_contrast), ..c }, d))
    } else if key == "cursor-opacity"@ {
        Some((ColorsView { cursor_opacity: decimal_or(v, c.cursor_opacity), ..c }, d))
    } else if key == "faint-opacity"@ {
        Some((ColorsView { faint_opacity: decimal_or(v, c.faint_opacity), ..c }, d))
    } else if key == "palette"@ {
        Some((
            ColorsView {
                palette: palette_after(c.palette, v, e.colors),
                palette_set: palette_set_after(c.palette_set, v, e.colors),
                ..c
            },
            palette_problems(d, v, e.colors),
        ))
    } else if key == "palette-generate"@ {
        Some((ColorsView { palette_generate: bool_kept(v, false, c.palette_generate), ..c }, d))
    } else if key == "palette-harmonious"@ {
        Some((ColorsView { palette_harmonious: bool_kept(v, false, c.palette_harmonious), ..c }, d))
    } else if key == "selection-background"@ {
        Some((
            ColorsView {
                selection_bg: color_or(v, e.colors, Rgb { r: 56, g: 90, b: 156 }, c.selection_bg),
                ..c
            },
            d,
        ))
    } else if key == "selection-foreground"@ {
        Some((ColorsView { selection_fg: opt_color_or(v, e.colors, None, c.selection_fg), ..c }, d))
    } else if key == "osc-color-report-format"@ {
        Some((
            ColorsView {
                osc_color_report_format: report_format_or(v, c.osc_color_report_format),
                ..c
            },
            d,
        ))
    } else {
        None
    }
}

/// Apply a key of colours and the cursor; the result says whether it is one.
#[verifier::spinoff_prover]
#[verifier::rlimit(100)]
fn apply_colors(
    c: &mut ColorSettings,
    d: &mut Vec<String>,
    key: &[char],
    v: &str,
    e: &Surroundings,
) -> (r: bool)
    ensures
        match colors_key(old(c)@, texts(old(d)@), key@, v@, e@) {
            Some(n) => r && final(c)@ == n.0 && texts(final(d)@) == n.1,
            None => !r && final(c)@ == old(c)@ && texts(final(d)@) == texts(old(d)@),
        },
{
    proof {
        reveal(colors_key);
    }
    if spells(key, "search-background") {
        c.search_bg = terminal_color(
            v,
            &e.colors,
            c.search_bg,
            TerminalColor::Color(Rgb { r: 255, g: 224, b: 130 }),
            d,
        );
    } else if spells(key, "search-foreground") {
        c.search_fg = terminal_color(
            v,
            &e.colors,
            c.search_fg,
            TerminalColor::Color(Rgb { r: 0, g: 0, b: 0 }),
            d,
        );
    } else if spells(key, "search-selected-background") {
        c.search_selected_bg = terminal_color(
            v,
            &e.colors,
            c.search_selected_bg,
            TerminalColor::Color(Rgb { r: 242, g: 165, b: 126 }),
            d,
        );
    } else if spells(key, "search-selected-foreground") {
        c.search_selected_fg = terminal_color(
            v,
            &e.colors,
            c.search_selected_fg,
            TerminalColor::Color(Rgb { r: 0, g: 0, b: 0 }),
            d,
        );
    } else if spells(key, "cursor-text") {
        c.cursor_text = cursor_text(v, &e.colors, c.cursor_text);
    } else if spells(key, "split-divider-color") {
        c.split_divider_color = opt_color(v, &e.colors, None, c.split_divider_color);
    } else if spells(key, "foreground") {
        c.fg = color(v, &e.colors, Rgb { r: 197, g: 200, b: 198 }, c.fg);
    } else if spells(key, "background") {
        c.bg = color(v, &e.colors, Rgb { r: 16, g: 18, b: 24 }, c.bg);
    } else if spells(key, "cursor-color") {
        c.cursor = opt_color(v, &e.colors, None, c.cursor);
    } else if spells(key, "cursor-style") {
        c.cursor_style = words::cursor_style(v, c.cursor_style);
    } else if spells(key, "cursor-style-blink") {
        c.cursor_style_blink = words::cursor_style_blink(v, c.cursor_style_blink);
    } else if spells(key, "bold-color") {
        c.bold_color = bold_color(v, &e.colors, c.bold_color);
    } else if spells(key, "bold-is-bright") {
        c.bold_color = words::bold_is_bright(v, c.bold_color);
    } else if spells(key, "minimum-contrast") {
        keep_decimal(v, &mut c.min_contrast);
    } else if spells(key, "cursor-opacity") {
        keep_decimal(v, &mut c.cursor_opacity);
    } else if spells(key, "faint-opacity") {
        keep_decimal(v, &mut c.faint_opacity);
    } else if spells(key, "palette") {
        set_palette(c, d, v, e);
    } else if spells(key, "palette-generate") {
        c.palette_generate = keep_bool(v, false, c.palette_generate);
    } else if spells(key, "palette-harmonious") {
        c.palette_harmonious = keep_bool(v, false, c.palette_harmonious);
    } else if spells(key, "selection-background") {
        c.selection_bg = color(v, &e.colors, Rgb { r: 56, g: 90, b: 156 }, c.selection_bg);
    } else if spells(key, "selection-foreground") {
        c.selection_fg = opt_color(v, &e.colors, None, c.selection_fg);
    } else if spells(key, "osc-color-report-format") {
        c.osc_color_report_format = words::report_format(v, c.osc_color_report_format);
    } else {
        return false;
    }
    true
}

/// What a key of the window's background does to them and to the list of
/// problems; `None` for any other key.
#[verifier::opaque]
pub open spec fn backdrop_key(
    c: BackdropView,
    d: Seq<Seq<char>>,
    key: Seq<char>,
    v: Seq<char>,
    e: SurroundingsView,
) -> Option<(BackdropView, Seq<Seq<char>>)> {
    if key == "background-opacity"@ {
        Some((BackdropView { background_opacity: decimal_or(v, c.background_opacity), ..c }, d))
    } else if key == "background-opacity-cells"@ {
        Some((
            BackdropView {
                background_opacity_cells: bool_kept(v, false, c.background_opacity_cells),
                ..c
            },
            d,
        ))
    } else if key == "unfocused-split-opacity"@ {
        Some((
            BackdropView { unfocused_split_opacity: decimal_or(v, c.unfocused_split_opacity), ..c },
            d,
        ))
    } else if key == "unfocused-split-fill"@ {
        Some((
            BackdropView {
                unfocused_split_fill: opt_color_or(v, e.colors, None, c.unfocused_split_fill),
                ..c
            },
            d,
        ))
    } else if key == "background-blur"@ {
        Some((BackdropView { background_blur: blur_or(v, c.background_blur), ..c }, d))
    } else if key == "background-image"@ {
        Some((BackdropView { background_image: text_or(v, None), ..c }, d))
    } else if key == "background-image-opacity"@ {
        Some((
            BackdropView {
                background_image_opacity: decimal_or(v, c.background_image_opacity),
                ..c
            },
            d,
        ))
    } else if key == "background-image-position"@ {
        Some((
            BackdropView {
                background_image_position: image_position_or(v, c.background_image_position),
                ..c
            },
            d,
        ))
    } else if key == "background-image-fit"@ {
        Some((
            BackdropView { background_image_fit: image_fit_or(v, c.background_image_fit), ..c },
            d,
        ))
    } else if key == "background-image-repeat"@ {
        Some((
            BackdropView {
                background_image_repeat: bool_kept(v, false, c.background_image_repeat),
                ..c
            },
            d,
        ))
    } else if key == "window-padding-x"@ {
        Some((BackdropView { padding_x: decimal_or(v, c.padding_x), ..c }, d))
    } else if key == "window-padding-y"@ {
        Some((BackdropView { padding_y: decimal_or(v, c.padding_y), ..c }, d))
    } else if key == "window-padding-balance"@ {
        Some((
            BackdropView {
                window_padding_balance: padding_balance_or(v, c.window_padding_balance),
                ..c
            },
            d,
        ))
    } else if key == "window-theme"@ {
        Some((BackdropView { window_theme: window_theme_or(v, c.window_theme), ..c }, d))
    } else if key == "custom-shader"@ {
        Some((BackdropView { custom_shaders: list_or(c.custom_shaders, v), ..c }, d))
    } else if key == "custom-shader-animation"@ {
        Some((
            BackdropView {
                custom_shader_animation: shader_animation_or(v, c.custom_shader_animation),
                ..c
            },
            d,
        ))
    } else {
        None
    }
}

/// Apply a key of the window's background; the result says whether it is one.
#[verifier::spinoff_prover]
#[verifier::rlimit(100)]
fn apply_backdrop(
    c: &mut BackdropSettings,
    d: &mut Vec<String>,
    key: &[char],
    v: &str,
    e: &Surroundings,
) -> (r: bool)
    ensures
        match backdrop_key(old(c)@, texts(old(d)@), key@, v@, e@) {
            Some(n) => r && final(c)@ == n.0 && texts(final(d)@) == n.1,
            None => !r && final(c)@ == old(c)@ && texts(final(d)@) == texts(old(d)@),
        },
{
    proof {
        reveal(backdrop_key);
    }
    if spells(key, "background-opacity") {
        keep_decimal(v, &mut c.background_opacity);
    } else if spells(key, "background-opacity-cells") {
        c.background_opacity_cells = keep_bool(v, false, c.background_opacity_cells);
    } else if spells(key, "unfocused-split-opacity") {
        keep_decimal(v, &mut c.unfocused_split_opacity);
    } else if spells(key, "unfocused-split-fill") {
        c.unfocused_split_fill = opt_color(v, &e.colors, None, c.unfocused_split_fill);
    } else if spells(key, "background-blur") {
        c.background_blur = blur(v, c.background_blur);
    } else if spells(key, "background-image") {
        c.background_image = opt_string(v, &None);
    } else if spells(key, "background-image-opacity") {
        keep_decimal(v, &mut c.background_image_opacity);
    } else if spells(key, "background-image-position") {
        c.background_image_position = words::image_position(v, c.background_image_position);
    } else if spells(key, "background-image-fit") {
        c.background_image_fit = words::image_fit(v, c.background_image_fit);
    } else if spells(key, "background-image-repeat") {
        c.background_image_repeat = keep_bool(v, false, c.background_image_repeat);
    } else if spells(key, "window-padding-x") {
        keep_decimal(v, &mut c.padding_x);
    } else if spells(key, "window-padding-y") {
        keep_decimal(v, &mut c.padding_y);
    } else if spells(key, "window-padding-balance") {
        c.window_padding_balance = words::padding_balance(v, c.window_padding_balance);
    } else if spells(key, "window-theme") {
        c.window_theme = words::window_theme(v, c.window_theme);
    } else if spells(key, "custom-shader") {
        append_or_clear(&mut c.custom_shaders, v);
    } else if spells(key, "custom-shader-animation") {
        c.custom_shader_animation = words::shader_animation(v, c.custom_shader_animation);
    } else {
        return false;
    }
    true
}

/// What a key of windows, tabs and splits does to them and to the list of
/// problems; `None` for any other key.
#[verifier::opaque]
pub open spec fn windows_key(
    c: WindowsView,
    d: Seq<Seq<char>>,
    key: Seq<char>,
    v: Seq<char>,
    e: SurroundingsView,
) -> Option<(WindowsView, Seq<Seq<char>>)> {
    if key == "window-new-tab-position"@ {
        Some((WindowsView { new_tab_position: new_tab_position_or(v, c.new_tab_position), ..c }, d))
    } else if key == "working-directory"@ {
        Some((WindowsView { working_directory: start_directory(v, e.home), ..c }, d))
    } else if key == "window-decoration"@ {
        Some((WindowsView { window_decoration: decoration_or(v, c.window_decoration), ..c }, d))
    } else if key == "window-titlebar-background"@ {
        Some((
            WindowsView {
                window_titlebar_background: opt_color_or(
                    v,
                    e.colors,
                    None,
                    c.window_titlebar_background,
                ),
                ..c
            },
            d,
        ))
    } else if key == "window-titlebar-foreground"@ {
        Some((
            WindowsView {
                window_titlebar_foreground: opt_color_or(
                    v,
                    e.colors,
                    None,
                    c.window_titlebar_foreground,
                ),
                ..c
            },
            d,
        ))
    } else if key == "window-show-tab-bar"@ {
        Some((WindowsView { window_show_tab_bar: tab_bar_or(v, c.window_show_tab_bar), ..c }, d))
    } else if key == "maximize"@ {
        Some((WindowsView { maximize: bool_kept(v, false, c.maximize), ..c }, d))
    } else if key == "fullscreen"@ {
        Some((WindowsView { fullscreen: fullscreen_or(v, c.fullscreen), ..c }, d))
    } else if key == "title"@ {
        Some((WindowsView { title: text_or(v, None), ..c }, d))
    } else if key == "window-subtitle"@ {
        Some((WindowsView { window_subtitle: subtitle_or(v, c.window_subtitle), ..c }, d))
    } else if key == "window-title-font-family"@ {
        Some((WindowsView { window_title_font_family: text_or(v, None), ..c }, d))
    } else if key == "window-step-resize"@ {
        Some((
            WindowsView { window_step_resize: bool_kept(v, false, c.window_step_resize), ..c },
            d,
        ))
    } else if key == "window-vsync"@ {
        Some((WindowsView { window_vsync: bool_kept(v, true, c.window_vsync), ..c }, d))
    } else {
        None
    }
}

/// Apply a key of windows, tabs and splits; the result says whether it is one.
#[verifier::spinoff_prover]
#[verifier::rlimit(100)]
fn apply_windows(
    c: &mut WindowSettings,
    d: &mut Vec<String>,
    key: &[char],
    v: &str,
    e: &Surroundings,
) -> (r: bool)
    ensures
        match windows_key(old(c)@, texts(old(d)@), key@, v@, e@) {
            Some(n) => r && final(c)@ == n.0 && texts(final(d)@) == n.1,
            None => !r && final(c)@ == old(c)@ && texts(final(d)@) == texts(old(d)@),
        },
{
    proof {
        reveal(windows_key);
    }
    if spells(key, "window-new-tab-position") {
        c.new_tab_position = words::new_tab_position(v, c.new_tab_position);
    } else if spells(key, "working-directory") {
        c.working_directory = working_directory(v, &e.home);
    } else if spells(key, "window-decoration") {
        c.window_decoration = words::decoration(v, c.window_decoration);
    } else if spells(key, "window-titlebar-background") {
        c.window_titlebar_background = opt_color(v, &e.colors, None, c.window_titlebar_background);
    } else if spells(key, "window-titlebar-foreground") {
        c.window_titlebar_foreground = opt_color(v, &e.colors, None, c.window_titlebar_foreground);
    } else if spells(key, "window-show-tab-bar") {
        c.window_show_tab_bar = words::tab_bar(v, c.window_show_tab_bar);
    } else if spells(key, "maximize") {
        c.maximize = keep_bool(v, false, c.maximize);
    } else if spells(key, "fullscreen") {
        c.fullscreen = set_fullscreen(v, c.fullscreen);
    } else if spells(key, "title") {
        c.title = opt_string(v, &None);
    } else if spells(key, "window-subtitle") {
        c.window_subtitle = words::subtitle(v, c.window_subtitle);
    } else if spells(key, "window-title-font-family") {
        c.window_title_font_family = opt_string(v, &None);
    } else if spells(key, "window-step-resize") {
        c.window_step_resize = keep_bool(v, false, c.window_step_resize);
    } else if spells(key, "window-vsync") {
        c.window_vsync = keep_bool(v, true, c.window_vsync);
    } else {
        return false;
    }
    true
}

/// What a key of how long windows live does to them and to the list of
/// problems; `None` for any other key.
#[verifier::opaque]
pub open spec fn lifetime_key(
    c: LifetimeView,
    d: Seq<Seq<char>>,
    key: Seq<char>,
    v: Seq<char>,
    e: SurroundingsView,
) -> Option<(LifetimeView, Seq<Seq<char>>)> {
    if key == "quit-after-last-window-closed"@ {
        Some((
            LifetimeView {
                quit_after_last_window_closed: bool_kept(v, true, c.quit_after_last_window_closed),
                ..c
            },
            d,
        ))
    } else if key == "quit-after-last-window-closed-delay"@ {
        Some((
            LifetimeView {
                quit_after_last_window_closed_delay_ms: delay_or(
                    v,
                    c.quit_after_last_window_closed_delay_ms,
                ),
                ..c
            },
            d,
        ))
    } else if key == "initial-window"@ {
        Some((LifetimeView { initial_window: bool_kept(v, true, c.initial_window), ..c }, d))
    } else if key == "split-preserve-zoom"@ {
        Some((
            LifetimeView {
                split_preserve_zoom_navigation: switched(
                    split(v, ','),
                    "navigation"@,
                    "no-navigation"@,
                    if v.len() == 0 { false } else { c.split_preserve_zoom_navigation },
                ),
                ..c
            },
            d,
        ))
    } else if key == "confirm-close-surface"@ {
        Some((LifetimeView { confirm_close: confirm_close_or(v, c.confirm_close), ..c }, d))
    } else if key == "window-save-state"@ {
        Some((LifetimeView { window_save_state: save_state_or(v, c.window_save_state), ..c }, d))
    } else {
        None
    }
}

/// Apply a key of how long windows live; the result says whether it is one.
#[verifier::spinoff_prover]
#[verifier::rlimit(100)]
fn apply_lifetime(
    c: &mut LifetimeSettings,
    d: &mut Vec<String>,
    key: &[char],
    v: &str,
    e: &Surroundings,
) -> (r: bool)
    ensures
        match lifetime_key(old(c)@, texts(old(d)@), key@, v@, e@) {
            Some(n) => r && final(c)@ == n.0 && texts(final(d)@) == n.1,
            None => !r && final(c)@ == old(c)@ && texts(final(d)@) == texts(old(d)@),
        },
{
    proof {
        reveal(lifetime_key);
    }
    if spells(key, "quit-after-last-window-closed") {
        c.quit_after_last_window_closed = keep_bool(v, true, c.quit_after_last_window_closed);
    } else if spells(key, "quit-after-last-window-closed-delay") {
        c.quit_after_last_window_closed_delay_ms = set_delay(
            v,
            c.quit_after_last_window_closed_delay_ms,
        );
    } else if spells(key, "initial-window") {
        c.initial_window = keep_bool(v, true, c.initial_window);
    } else if spells(key, "split-preserve-zoom") {
        let start = if v.is_empty() {
            false
        } else {
            c.split_preserve_zoom_navigation
        };
        c.split_preserve_zoom_navigation = switch(v, "navigation", "no-navigation", start);
    } else if spells(key, "confirm-close-surface") {
        c.confirm_close = words::confirm_close(v, c.confirm_close);
    } else if spells(key, "window-save-state") {
        c.window_save_state = words::save_state(v, c.window_save_state);
    } else {
        return false;
    }
    true
}

/// What a key of window geometry and overlays does to them and to the list of
/// problems; `None` for any other key.
#[verifier::opaque]
pub open spec fn geometry_key(
    c: LayoutView,
    d: Seq<Seq<char>>,
    key: Seq<char>,
    v: Seq<char>,
    e: SurroundingsView,
) -> Option<(LayoutView, Seq<Seq<char>>)> {
    if key == "window-width"@ {
        Some((LayoutView { window_width: cells_or(v, 0, c.window_width, 10), ..c }, d))
    } else if key == "window-height"@ {
        Some((LayoutView { window_height: cells_or(v, 0, c.window_height, 4), ..c }, d))
    } else if key == "window-position-x"@ {
        Some((LayoutView { window_position_x: coord_or(v, None, c.window_position_x), ..c }, d))
    } else if key == "window-position-y"@ {
        Some((LayoutView { window_position_y: coord_or(v, None, c.window_position_y), ..c }, d))
    } else if key == "resize-overlay"@ {
        Some((LayoutView { resize_overlay: resize_overlay_or(v, c.resize_overlay), ..c }, d))
    } else if key == "resize-overlay-position"@ {
        Some((
            LayoutView {
                resize_overlay_position: overlay_position_or(v, c.resize_overlay_position),
                ..c
            },
            d,
        ))
    } else if key == "resize-overlay-duration"@ {
        Some((
            LayoutView {
                resize_overlay_duration_ms: overlay_ms_or(v, c.resize_overlay_duration_ms),
                ..c
            },
            d,
        ))
    } else if key == "scrollbar"@ {
        Some((LayoutView { scrollbar: scrollbar_or(v, c.scrollbar), ..c }, d))
    } else if key == "quick-terminal-position"@ {
        Some((
            LayoutView { quick_terminal_position: list_or(c.quick_terminal_position, v), ..c },
            d,
        ))
    } else if key == "quick-terminal-size"@ {
        Some((LayoutView { quick_terminal_size: list_or(c.quick_terminal_size, v), ..c }, d))
    } else if key == "quick-terminal-screen"@ {
        Some((c, screen_problems(d, v)))
    } else if key == "quick-terminal-autohide"@ {
        Some((
            LayoutView {
                quick_terminal_autohide: bool_kept(v, false, c.quick_terminal_autohide),
                ..c
            },
            d,
        ))
    } else if key == "quick-terminal-animation-duration"@ {
        Some((
            LayoutView {
                quick_terminal_animation_duration: decimals_or(
                    c.quick_terminal_animation_duration,
                    v,
                ),
                ..c
            },
            d,
        ))
    } else if key == "tab-inherit-working-directory"@ {
        Some((
            LayoutView {
                tab_inherit_working_directory: bool_kept(v, true, c.tab_inherit_working_directory),
                ..c
            },
            d,
        ))
    } else if key == "split-inherit-working-directory"@ {
        Some((
            LayoutView {
                split_inherit_working_directory: bool_kept(
                    v,
                    true,
                    c.split_inherit_working_directory,
                ),
                ..c
            },
            d,
        ))
    } else if key == "window-inherit-working-directory"@ {
        Some((
            LayoutView {
                window_inherit_working_directory: bool_kept(
                    v,
                    true,
                    c.window_inherit_working_directory,
                ),
                ..c
            },
            d,
        ))
    } else {
        None
    }
}

/// Apply a key of window geometry and overlays; the result says whether it is one.
#[verifier::spinoff_prover]
#[verifier::rlimit(100)]
fn apply_geometry(
    c: &mut LayoutSettings,
    d: &mut Vec<String>,
    key: &[char],
    v: &str,
    e: &Surroundings,
) -> (r: bool)
    ensures
        match geometry_key(old(c)@, texts(old(d)@), key@, v@, e@) {
            Some(n) => r && final(c)@ == n.0 && texts(final(d)@) == n.1,
            None => !r && final(c)@ == old(c)@ && texts(final(d)@) == texts(old(d)@),
        },
{
    proof {
        reveal(geometry_key);
    }
    if spells(key, "window-width") {
        c.window_width = cells(v, 0, c.window_width, 10);
    } else if spells(key, "window-height") {
        c.window_height = cells(v, 0, c.window_height, 4);
    } else if spells(key, "window-position-x") {
        c.window_position_x = coord(v, None, c.window_position_x);
    } else if spells(key, "window-position-y") {
        c.window_position_y = coord(v, None, c.window_position_y);
    } else if spells(key, "resize-overlay") {
        c.resize_overlay = words::resize_overlay(v, c.resize_overlay);
    } else if spells(key, "resize-overlay-position") {
        c.resize_overlay_position = words::overlay_position(v, c.resize_overlay_position);
    } else if spells(key, "resize-overlay-duration") {
        c.resize_overlay_duration_ms = set_overlay_ms(v, c.resize_overlay_duration_ms);
    } else if spells(key, "scrollbar") {
        c.scrollbar = words::scrollbar(v, c.scrollbar);
    } else if spells(key, "quick-terminal-position") {
        append_or_clear(&mut c.quick_terminal_position, v);
    } else if spells(key, "quick-terminal-size") {
        append_or_clear(&mut c.quick_terminal_size, v);
    } else if spells(key, "quick-terminal-screen") {
        check_screen(v, d);
    } else if spells(key, "quick-terminal-autohide") {
        c.quick_terminal_autohide = keep_bool(v, false, c.quick_terminal_autohide);
    } else if spells(key, "quick-terminal-animation-duration") {
        note_decimal(&mut c.quick_terminal_animation_duration, v);
    } else if spells(key, "tab-inherit-working-directory") {
        c.tab_inherit_working_directory = keep_bool(v, true, c.tab_inherit_working_directory);
    } else if spells(key, "split-inherit-working-directory") {
        c.split_inherit_working_directory = keep_bool(v, true, c.split_inherit_working_directory);
    } else if spells(key, "window-inherit-working-directory") {
        c.window_inherit_working_directory = keep_bool(v, true, c.window_inherit_working_directory);
    } else {
        return false;
    }
    true
}

/// What a key of selection and links does to them and to the list of problems;
/// `None` for any other key.
#[verifier::opaque]
pub open spec fn selection_key(
    c: SelectionView,
    d: Seq<Seq<char>>,
    key: Seq<char>,
    v: Seq<char>,
    e: SurroundingsView,
) -> Option<(SelectionView, Seq<Seq<char>>)> {
    if key == "selection-clear-on-typing"@ {
        Some((
            SelectionView {
                selection_clear_on_typing: bool_kept(v, true, c.selection_clear_on_typing),
                ..c
            },
            d,
        ))
    } else if key == "selection-clear-on-copy"@ {
        Some((
            SelectionView {
                selection_clear_on_copy: bool_kept(v, false, c.selection_clear_on_copy),
                ..c
            },
            d,
        ))
    } else if key == "selection-word-chars"@ {
        Some((
            SelectionView {
                selection_word_chars: if v.len() == 0 {
                    Seq::empty()
                } else {
                    seq!['\0'] + word_chars(v)
                },
                ..c
            },
            d,
        ))
    } else if key == "copy-on-select"@ {
        Some((SelectionView { copy_on_select: copy_on_select_or(v, c.copy_on_select), ..c }, d))
    } else if key == "right-click-action"@ {
        Some((
            SelectionView { right_click_action: right_click_or(v, c.right_click_action), ..c },
            d,
        ))
    } else if key == "middle-click-action"@ {
        Some((
            SelectionView { middle_click_action: middle_click_or(v, c.middle_click_action), ..c },
            d,
        ))
    } else if key == "link-osc8"@ {
        Some((SelectionView { link_osc8: bool_kept(v, true, c.link_osc8), ..c }, d))
    } else if key == "link-url"@ {
        Some((SelectionView { link_url: bool_kept(v, true, c.link_url), ..c }, d))
    } else {
        None
    }
}

/// Apply a key of selection and links; the result says whether it is one.
#[verifier::spinoff_prover]
#[verifier::rlimit(100)]
fn apply_selection(
    c: &mut SelectionSettings,
    d: &mut Vec<String>,
    key: &[char],
    v: &str,
    e: &Surroundings,
) -> (r: bool)
    ensures
        match selection_key(old(c)@, texts(old(d)@), key@, v@, e@) {
            Some(n) => r && final(c)@ == n.0 && texts(final(d)@) == n.1,
            None => !r && final(c)@ == old(c)@ && texts(final(d)@) == texts(old(d)@),
        },
{
    proof {
        reveal(selection_key);
    }
    if spells(key, "selection-clear-on-typing") {
        c.selection_clear_on_typing = keep_bool(v, true, c.selection_clear_on_typing);
    } else if spells(key, "selection-clear-on-copy") {
        c.selection_clear_on_copy = keep_bool(v, false, c.selection_clear_on_copy);
    } else if spells(key, "selection-word-chars") {
        c.selection_word_chars = if v.is_empty() {
            Vec::new()
        } else {
            parse_word_chars(v)
        };
    } else if spells(key, "copy-on-select") {
        c.copy_on_select = words::copy_on_select(v, c.copy_on_select);
    } else if spells(key, "right-click-action") {
        c.right_click_action = words::right_click(v, c.right_click_action);
    } else if spells(key, "middle-click-action") {
        c.middle_click_action = words::middle_click(v, c.middle_click_action);
    } else if spells(key, "link-osc8") {
        c.link_osc8 = keep_bool(v, true, c.link_osc8);
    } else if spells(key, "link-url") {
        c.link_url = keep_bool(v, true, c.link_url);
    } else {
        return false;
    }
    true
}

/// What a key of the mouse does to them and to the list of problems; `None` for
/// any other key.
#[verifier::opaque]
pub open spec fn mouse_key(
    c: MouseView,
    d: Seq<Seq<char>>,
    key: Seq<char>,
    v: Seq<char>,
    e: SurroundingsView,
) -> Option<(MouseView, Seq<Seq<char>>)> {
    if key == "mouse-shift-capture"@ {
        Some((
            MouseView { mouse_shift_capture: shift_capture_or(v, c.mouse_shift_capture), ..c },
            d,
        ))
    } else if key == "mouse-hide-while-typing"@ {
        Some((
            MouseView {
                mouse_hide_while_typing: bool_kept(v, false, c.mouse_hide_while_typing),
                ..c
            },
            d,
        ))
    } else if key == "mouse-reporting"@ {
        Some((MouseView { mouse_reporting: bool_kept(v, true, c.mouse_reporting), ..c }, d))
    } else if key == "mouse-scroll-multiplier"@ {
        Some((
            MouseView { mouse_scroll_multiplier: scroll_or(v, c.mouse_scroll_multiplier), ..c },
            d,
        ))
    } else if key == "scroll-to-bottom"@ {
        Some((
            MouseView {
                scroll_to_bottom: if v.len() == 0 {
                    ScrollToBottom { keystroke: true, output: false }
                } else {
                    match scroll_to_bottom(v) { Some(x) => x, None => c.scroll_to_bottom }
                },
                ..c
            },
            d,
        ))
    } else if key == "focus-follows-mouse"@ {
        Some((
            MouseView { focus_follows_mouse: bool_kept(v, false, c.focus_follows_mouse), ..c },
            d,
        ))
    } else if key == "click-repeat-interval"@ {
        Some((
            MouseView {
                click_repeat_interval: number_or(
                    v,
                    u32::MAX as int,
                    0,
                    c.click_repeat_interval as int,
                ) as u32,
                ..c
            },
            d,
        ))
    } else if key == "cursor-click-to-move"@ {
        Some((
            MouseView { cursor_click_to_move: bool_kept(v, true, c.cursor_click_to_move), ..c },
            d,
        ))
    } else {
        None
    }
}

/// Apply a key of the mouse; the result says whether it is one.
#[verifier::spinoff_prover]
#[verifier::rlimit(100)]
fn apply_mouse(
    c: &mut MouseSettings,
    d: &mut Vec<String>,
    key: &[char],
    v: &str,
    e: &Surroundings,
) -> (r: bool)
    ensures
        match mouse_key(old(c)@, texts(old(d)@), key@, v@, e@) {
            Some(n) => r && final(c)@ == n.0 && texts(final(d)@) == n.1,
            None => !r && final(c)@ == old(c)@ && texts(final(d)@) == texts(old(d)@),
        },
{
    proof {
        reveal(mouse_key);
    }
    if spells(key, "mouse-shift-capture") {
        c.mouse_shift_capture = words::shift_capture(v, c.mouse_shift_capture);
    } else if spells(key, "mouse-hide-while-typing") {
        c.mouse_hide_while_typing = keep_bool(v, false, c.mouse_hide_while_typing);
    } else if spells(key, "mouse-reporting") {
        c.mouse_reporting = keep_bool(v, true, c.mouse_reporting);
    } else if spells(key, "mouse-scroll-multiplier") {
        set_scroll(&mut c.mouse_scroll_multiplier, v);
    } else if spells(key, "scroll-to-bottom") {
        if v.is_empty() {
            c.scroll_to_bottom = ScrollToBottom { keystroke: true, output: false };
        } else {
            match parse_scroll_to_bottom(v) {
                Some(x) => { c.scroll_to_bottom = x; },
                None => {},
            }
        }
    } else if spells(key, "focus-follows-mouse") {
        c.focus_follows_mouse = keep_bool(v, false, c.focus_follows_mouse);
    } else if spells(key, "click-repeat-interval") {
        c.click_repeat_interval = keep_number(
            v,
            u32::MAX as u64,
            0,
            c.click_repeat_interval as u64,
        ) as u32;
    } else if spells(key, "cursor-click-to-move") {
        c.cursor_click_to_move = keep_bool(v, true, c.cursor_click_to_move);
    } else {
        return false;
    }
    true
}

/// What a key of the clipboard does to them and to the list of problems; `None`
/// for any other key.
#[verifier::opaque]
pub open spec fn clipboard_key(
    c: ClipboardView,
    d: Seq<Seq<char>>,
    key: Seq<char>,
    v: Seq<char>,
    e: SurroundingsView,
) -> Option<(ClipboardView, Seq<Seq<char>>)> {
    if key == "clipboard-read"@ {
        Some((
            ClipboardView {
                policy: ClipboardPolicy {
                    read: access_or(v, ClipboardAccess::Ask, c.policy.read),
                    ..c.policy
                },
                ..c
            },
            d,
        ))
    } else if key == "clipboard-write"@ {
        Some((
            ClipboardView {
                policy: ClipboardPolicy {
                    write: access_or(v, ClipboardAccess::Allow, c.policy.write),
                    ..c.policy
                },
                ..c
            },
            d,
        ))
    } else if key == "clipboard-trim-trailing-spaces"@ {
        Some((
            ClipboardView {
                policy: ClipboardPolicy {
                    trim_trailing_spaces: bool_kept(v, true, c.policy.trim_trailing_spaces),
                    ..c.policy
                },
                ..c
            },
            d,
        ))
    } else if key == "clipboard-paste-protection"@ {
        Some((
            ClipboardView {
                policy: ClipboardPolicy {
                    paste_protection: bool_kept(v, true, c.policy.paste_protection),
                    ..c.policy
                },
                ..c
            },
            d,
        ))
    } else if key == "clipboard-paste-bracketed-safe"@ {
        Some((
            ClipboardView {
                policy: ClipboardPolicy {
                    paste_bracketed_safe: bool_kept(v, true, c.policy.paste_bracketed_safe),
                    ..c.policy
                },
                ..c
            },
            d,
        ))
    } else if key == "clipboard-write-limit-bytes"@ {
        Some((
            ClipboardView {
                policy: ClipboardPolicy {
                    write_limit: limit_or(v, Some(67_108_864), c.policy.write_limit),
                    ..c.policy
                },
                ..c
            },
            d,
        ))
    } else if key == "clipboard-codepoint-map"@ {
        Some((
            ClipboardView {
                clipboard_codepoint_map: clipboard_maps_or(c.clipboard_codepoint_map, v),
                ..c
            },
            d,
        ))
    } else {
        None
    }
}

/// Apply a key of the clipboard; the result says whether it is one.
#[verifier::spinoff_prover]
#[verifier::rlimit(100)]
fn apply_clipboard(
    c: &mut ClipboardSettings,
    d: &mut Vec<String>,
    key: &[char],
    v: &str,
    e: &Surroundings,
) -> (r: bool)
    ensures
        match clipboard_key(old(c)@, texts(old(d)@), key@, v@, e@) {
            Some(n) => r && final(c)@ == n.0 && texts(final(d)@) == n.1,
            None => !r && final(c)@ == old(c)@ && texts(final(d)@) == texts(old(d)@),
        },
{
    proof {
        reveal(clipboard_key);
    }
    if spells(key, "clipboard-read") {
        c.policy.read = parse_clipboard_access(v, ClipboardAccess::Ask, c.policy.read);
    } else if spells(key, "clipboard-write") {
        c.policy.write = parse_clipboard_access(v, ClipboardAccess::Allow, c.policy.write);
    } else if spells(key, "clipboard-trim-trailing-spaces") {
        c.policy.trim_trailing_spaces = keep_bool(v, true, c.policy.trim_trailing_spaces);
    } else if spells(key, "clipboard-paste-protection") {
        c.policy.paste_protection = keep_bool(v, true, c.policy.paste_protection);
    } else if spells(key, "clipboard-paste-bracketed-safe") {
        c.policy.paste_bracketed_safe = keep_bool(v, true, c.policy.paste_bracketed_safe);
    } else if spells(key, "clipboard-write-limit-bytes") {
        c.policy.write_limit = limit(v, Some(67_108_864), c.policy.write_limit);
    } else if spells(key, "clipboard-codepoint-map") {
        add_clipboard_map(&mut c.clipboard_codepoint_map, v);
    } else {
        return false;
    }
    true
}

/// What a key of the terminal engine does to them and to the list of problems;
/// `None` for any other key.
#[verifier::opaque]
pub open spec fn engine_key(
    c: EngineView,
    d: Seq<Seq<char>>,
    key: Seq<char>,
    v: Seq<char>,
    e: SurroundingsView,
) -> Option<(EngineView, Seq<Seq<char>>)> {
    if key == "scrollback-limit-bytes"@ {
        Some((EngineView { scrollback_limit: scrollback_bytes_or(v, c.scrollback_limit), ..c }, d))
    } else if key == "scrollback-compression"@ {
        Some((
            EngineView {
                scrollback_compression: bool_kept(v, true, c.scrollback_compression),
                ..c
            },
            d,
        ))
    } else if key == "scrollback-limit-lines"@ {
        Some((
            EngineView { scrollback_limit_lines: limit_or(v, None, c.scrollback_limit_lines), ..c },
            d,
        ))
    } else if key == "scrollback-limit"@ {
        Some((
            EngineView {
                scrollback_limit: number_or(
                    v,
                    usize::MAX as int,
                    10_000,
                    c.scrollback_limit as int,
                ) as usize,
                ..c
            },
            d,
        ))
    } else if key == "image-storage-limit"@ {
        Some((
            EngineView {
                image_storage_limit: number_or(
                    v,
                    u32::MAX as int,
                    320_000_000,
                    c.image_storage_limit as int,
                ) as u32,
                ..c
            },
            d,
        ))
    } else if key == "conpty-passthrough"@ {
        Some((EngineView { conpty_passthrough: conpty_or(v), ..c }, d))
    } else if key == "title-report"@ {
        Some((EngineView { title_report: bool_kept(v, false, c.title_report), ..c }, d))
    } else if key == "vt-kam-allowed"@ {
        Some((EngineView { vt_kam_allowed: bool_kept(v, false, c.vt_kam_allowed), ..c }, d))
    } else if key == "grapheme-width-method"@ {
        Some((EngineView { grapheme_unicode: grapheme_or(v, c.grapheme_unicode), ..c }, d))
    } else if key == "progress-style"@ {
        Some((EngineView { progress_style: bool_kept(v, true, c.progress_style), ..c }, d))
    } else if key == "desktop-notifications"@ {
        Some((
            EngineView { desktop_notifications: bool_kept(v, true, c.desktop_notifications), ..c },
            d,
        ))
    } else if key == "bell-features"@ {
        Some((
            EngineView {
                bell: if v.len() == 0 {
                    BellFeatures {
                        system: false,
                        audio: false,
                        attention: true,
                        title: true,
                        border: false,
                    }
                } else {
                    match bell_features(v) { Some(x) => x, None => c.bell }
                },
                ..c
            },
            if v.len() > 0 && bell_features(v) is None {
                d.push(message("ignoring invalid bell-features '"@, v, "'"@))
            } else {
                d
            },
        ))
    } else if key == "bell-audio-path"@ {
        Some((EngineView { bell_audio_path: text_or(v, None), ..c }, d))
    } else if key == "bell-audio-volume"@ {
        Some((EngineView { bell_audio_volume: decimal_or(v, c.bell_audio_volume), ..c }, d))
    } else if key == "app-notifications"@ {
        Some((
            EngineView {
                app_notifications: if v.len() == 0 {
                    AppNotifications { clipboard_copy: true, config_reload: true }
                } else {
                    match app_notifications(v) { Some(x) => x, None => c.app_notifications }
                },
                ..c
            },
            if v.len() > 0 && app_notifications(v) is None {
                d.push(message("ignoring invalid app-notifications '"@, v, "'"@))
            } else {
                d
            },
        ))
    } else {
        None
    }
}

/// Apply a key of the terminal engine; the result says whether it is one.
#[verifier::spinoff_prover]
#[verifier::rlimit(100)]
fn apply_engine(
    c: &mut EngineSettings,
    d: &mut Vec<String>,
    key: &[char],
    v: &str,
    e: &Surroundings,
) -> (r: bool)
    ensures
        match engine_key(old(c)@, texts(old(d)@), key@, v@, e@) {
            Some(n) => r && final(c)@ == n.0 && texts(final(d)@) == n.1,
            None => !r && final(c)@ == old(c)@ && texts(final(d)@) == texts(old(d)@),
        },
{
    proof {
        reveal(engine_key);
    }
    if spells(key, "scrollback-limit-bytes") {
        c.scrollback_limit = set_scrollback_bytes(v, c.scrollback_limit);
    } else if spells(key, "scrollback-compression") {
        c.scrollback_compression = keep_bool(v, true, c.scrollback_compression);
    } else if spells(key, "scrollback-limit-lines") {
        c.scrollback_limit_lines = limit(v, None, c.scrollback_limit_lines);
    } else if spells(key, "scrollback-limit") {
        c.scrollback_limit = keep_number(
            v,
            usize::MAX as u64,
            10_000,
            c.scrollback_limit as u64,
        ) as usize;
    } else if spells(key, "image-storage-limit") {
        c.image_storage_limit = keep_number(
            v,
            u32::MAX as u64,
            320_000_000,
            c.image_storage_limit as u64,
        ) as u32;
    } else if spells(key, "conpty-passthrough") {
        c.conpty_passthrough = words::conpty(v);
    } else if spells(key, "title-report") {
        c.title_report = keep_bool(v, false, c.title_report);
    } else if spells(key, "vt-kam-allowed") {
        c.vt_kam_allowed = keep_bool(v, false, c.vt_kam_allowed);
    } else if spells(key, "grapheme-width-method") {
        c.grapheme_unicode = words::grapheme(v, c.grapheme_unicode);
    } else if spells(key, "progress-style") {
        c.progress_style = keep_bool(v, true, c.progress_style);
    } else if spells(key, "desktop-notifications") {
        c.desktop_notifications = keep_bool(v, true, c.desktop_notifications);
    } else if spells(key, "bell-features") {
        if v.is_empty() {
            c.bell = BellFeatures {
                system: false,
                audio: false,
                attention: true,
                title: true,
                border: false,
            };
        } else {
            match parse_bell_features(v) {
                Some(x) => { c.bell = x; },
                None => { report(d, "ignoring invalid bell-features '", v, "'"); },
            }
        }
    } else if spells(key, "bell-audio-path") {
        c.bell_audio_path = opt_string(v, &None);
    } else if spells(key, "bell-audio-volume") {
        keep_decimal(v, &mut c.bell_audio_volume);
    } else if spells(key, "app-notifications") {
        if v.is_empty() {
            c.app_notifications = AppNotifications { clipboard_copy: true, config_reload: true };
        } else {
            match parse_app_notifications(v) {
                Some(x) => { c.app_notifications = x; },
                None => { report(d, "ignoring invalid app-notifications '", v, "'"); },
            }
        }
    } else {
        return false;
    }
    true
}

/// What a key of commands, keys and their notifications does to them and to the
/// list of problems; `None` for any other key.
#[verifier::opaque]
pub open spec fn commands_key(
    c: CommandsView,
    d: Seq<Seq<char>>,
    key: Seq<char>,
    v: Seq<char>,
    e: SurroundingsView,
) -> Option<(CommandsView, Seq<Seq<char>>)> {
    if key == "key-remap"@ {
        Some((CommandsView { key_remap: remaps_or(c.key_remap, v), ..c }, d))
    } else if key == "command-palette-entry"@ {
        Some((
            CommandsView {
                palette_entries: rows_or(c.palette_entries, v),
                palette_defaults: row_defaults_or(v, c.palette_defaults),
                ..c
            },
            d,
        ))
    } else if key == "initial-command"@ {
        Some((CommandsView { initial_command: text_or(v, None), ..c }, d))
    } else if key == "wait-after-command"@ {
        Some((
            CommandsView { wait_after_command: bool_kept(v, false, c.wait_after_command), ..c },
            d,
        ))
    } else if key == "shell-integration"@ {
        Some((
            CommandsView {
                shell_integration: shell_integration_or(v, c.shell_integration),
                ..c
            },
            d,
        ))
    } else if key == "shell-integration-features"@ {
        Some((
            CommandsView {
                shell_integration_features: shell_features_or(v, c.shell_integration_features),
                ..c
            },
            d,
        ))
    } else if key == "abnormal-command-exit-runtime"@ {
        Some((
            CommandsView {
                abnormal_command_exit_runtime_ms: exit_runtime_or(
                    v,
                    c.abnormal_command_exit_runtime_ms,
                ),
                ..c
            },
            d,
        ))
    } else if key == "env"@ {
        Some((CommandsView { env: env_or(c.env, v), ..c }, d))
    } else if key == "input"@ {
        Some((CommandsView { input: inputs_or(c.input, v), ..c }, d))
    } else if key == "command"@ {
        Some((CommandsView { shell: text_or(v, None), ..c }, d))
    } else if key == "keybind"@ {
        Some((CommandsView { keybinds: keybinds_or(c.keybinds, v), ..c }, keybind_problems(d, v)))
    } else if key == "notify-on-command-finish"@ {
        Some((
            CommandsView {
                notify_on_command_finish: notify_when_or(v, c.notify_on_command_finish),
                ..c
            },
            d,
        ))
    } else if key == "notify-on-command-finish-action"@ {
        Some((
            CommandsView {
                notify_on_command_finish_action: notify_action_or(
                    v,
                    c.notify_on_command_finish_action,
                ),
                ..c
            },
            d,
        ))
    } else if key == "notify-on-command-finish-after"@ {
        Some((
            CommandsView {
                notify_on_command_finish_after_ms: duration_or(
                    v,
                    5_000,
                    c.notify_on_command_finish_after_ms,
                ),
                ..c
            },
            d,
        ))
    } else if key == "undo-timeout"@ {
        Some((CommandsView { undo_timeout_ms: duration_or(v, 5_000, c.undo_timeout_ms), ..c }, d))
    } else {
        None
    }
}

/// Whether a key is of the commands a surface runs.
spec fn starts_command(key: Seq<char>) -> bool {
    ||| key == "key-remap"@
    ||| key == "command-palette-entry"@
    ||| key == "initial-command"@
    ||| key == "wait-after-command"@
    ||| key == "shell-integration"@
    ||| key == "shell-integration-features"@
    ||| key == "abnormal-command-exit-runtime"@
}

/// Apply a key of the commands a surface runs; the result says whether it is one.
#[verifier::spinoff_prover]
#[verifier::rlimit(100)]
fn apply_starts(
    c: &mut CommandSettings,
    d: &mut Vec<String>,
    key: &[char],
    v: &str,
    e: &Surroundings,
) -> (r: bool)
    ensures
        r == starts_command(key@),
        r ==> commands_key(old(c)@, texts(old(d)@), key@, v@, e@) == Some(
            (final(c)@, texts(final(d)@)),
        ),
        !r ==> final(c)@ == old(c)@ && texts(final(d)@) == texts(old(d)@),
{
    proof {
        reveal(commands_key);
    }
    if spells(key, "key-remap") {
        add_remap(&mut c.key_remap, v);
    } else if spells(key, "command-palette-entry") {
        c.palette_defaults = add_palette_row(&mut c.palette_entries, v, c.palette_defaults);
    } else if spells(key, "initial-command") {
        c.initial_command = opt_string(v, &None);
    } else if spells(key, "wait-after-command") {
        c.wait_after_command = keep_bool(v, false, c.wait_after_command);
    } else if spells(key, "shell-integration") {
        c.shell_integration = words::shell_integration(v, c.shell_integration);
    } else if spells(key, "shell-integration-features") {
        c.shell_integration_features = keep_shell_features(v, c.shell_integration_features);
    } else if spells(key, "abnormal-command-exit-runtime") {
        c.abnormal_command_exit_runtime_ms = keep_exit_runtime(
            v,
            c.abnormal_command_exit_runtime_ms,
        );
    } else {
        return false;
    }
    true
}

/// Apply a key of commands, keys and their notifications; the result says whether it is one.
#[verifier::spinoff_prover]
#[verifier::rlimit(100)]
fn apply_commands(
    c: &mut CommandSettings,
    d: &mut Vec<String>,
    key: &[char],
    v: &str,
    e: &Surroundings,
) -> (r: bool)
    ensures
        match commands_key(old(c)@, texts(old(d)@), key@, v@, e@) {
            Some(n) => r && final(c)@ == n.0 && texts(final(d)@) == n.1,
            None => !r && final(c)@ == old(c)@ && texts(final(d)@) == texts(old(d)@),
        },
{
    if apply_starts(c, d, key, v, e) {
        return true;
    }
    proof {
        reveal(commands_key);
    }
    if spells(key, "env") {
        set_env(&mut c.env, v);
    } else if spells(key, "input") {
        add_input(&mut c.input, v);
    } else if spells(key, "command") {
        c.shell = opt_string(v, &None);
    } else if spells(key, "keybind") {
        add_keybind(&mut c.keybinds, v, d);
    } else if spells(key, "notify-on-command-finish") {
        c.notify_on_command_finish = words::notify_when(v, c.notify_on_command_finish);
    } else if spells(key, "notify-on-command-finish-action") {
        c.notify_on_command_finish_action = keep_notify_action(
            v,
            c.notify_on_command_finish_action,
        );
    } else if spells(key, "notify-on-command-finish-after") {
        c.notify_on_command_finish_after_ms = keep_duration(
            v,
            5_000,
            c.notify_on_command_finish_after_ms,
        );
    } else if spells(key, "undo-timeout") {
        c.undo_timeout_ms = keep_duration(v, 5_000, c.undo_timeout_ms);
    } else {
        return false;
    }
    true
}

/// What one supported key does to the settings; `None` for any other key.
#[verifier::opaque]
pub open spec fn supported(
    c: ConfigView,
    key: Seq<char>,
    v: Seq<char>,
    e: SurroundingsView,
) -> Option<ConfigView> {
    if key == "config-file"@ {
        Some(ConfigView { config_file: list_or(c.config_file, v), ..c })
    } else if let Some(n) = fonts_key(c.fonts, c.diagnostics, key, v, e) {
        Some(ConfigView { fonts: n.0, diagnostics: n.1, ..c })
    } else if let Some(n) = metrics_key(c.adjust, c.diagnostics, key, v, e) {
        Some(ConfigView { adjust: n.0, diagnostics: n.1, ..c })
    } else if let Some(n) = colors_key(c.colors, c.diagnostics, key, v, e) {
        Some(ConfigView { colors: n.0, diagnostics: n.1, ..c })
    } else if let Some(n) = backdrop_key(c.backdrop, c.diagnostics, key, v, e) {
        Some(ConfigView { backdrop: n.0, diagnostics: n.1, ..c })
    } else if let Some(n) = windows_key(c.windows, c.diagnostics, key, v, e) {
        Some(ConfigView { windows: n.0, diagnostics: n.1, ..c })
    } else if let Some(n) = lifetime_key(c.lifetime, c.diagnostics, key, v, e) {
        Some(ConfigView { lifetime: n.0, diagnostics: n.1, ..c })
    } else if let Some(n) = geometry_key(c.layout, c.diagnostics, key, v, e) {
        Some(ConfigView { layout: n.0, diagnostics: n.1, ..c })
    } else if let Some(n) = selection_key(c.selection, c.diagnostics, key, v, e) {
        Some(ConfigView { selection: n.0, diagnostics: n.1, ..c })
    } else if let Some(n) = mouse_key(c.mouse, c.diagnostics, key, v, e) {
        Some(ConfigView { mouse: n.0, diagnostics: n.1, ..c })
    } else if let Some(n) = clipboard_key(c.clipboard, c.diagnostics, key, v, e) {
        Some(ConfigView { clipboard: n.0, diagnostics: n.1, ..c })
    } else if let Some(n) = engine_key(c.engine, c.diagnostics, key, v, e) {
        Some(ConfigView { engine: n.0, diagnostics: n.1, ..c })
    } else if let Some(n) = commands_key(c.commands, c.diagnostics, key, v, e) {
        Some(ConfigView { commands: n.0, diagnostics: n.1, ..c })
    } else {
        None
    }
}

/// What `key = v` does to the settings. `theme` is read before any other key
/// and does nothing here; a key that is not supported is reported.
pub open spec fn applied_key(
    c: ConfigView,
    key: Seq<char>,
    v: Seq<char>,
    e: SurroundingsView,
) -> ConfigView {
    if key == "theme"@ {
        c
    } else {
        match supported(c, key, v, e) {
            Some(n) => n,
            None => ConfigView {
                diagnostics: c.diagnostics.push(
                    message("ignoring unsupported config key '"@, key, "'"@),
                ),
                ..c
            },
        }
    }
}

impl Config {
    /// Apply a single `key`/`value` pair. An empty value resets the key to its
    /// default; an unparseable one keeps the current setting.
    #[verifier::spinoff_prover]
    #[verifier::rlimit(100)]
    pub fn apply(&mut self, key: &str, value: &str, e: &Surroundings)
        ensures
            final(self)@ == applied_key(old(self)@, key@, value@, e@),
    {
        proof {
            reveal(supported);
        }
        let k = chars(key);
        let k = k.as_slice();
        if spells(k, "theme") {
            return;
        }
        if spells(k, "config-file") {
            append_or_clear(&mut self.config_file, value);
            return;
        }
        if apply_fonts(&mut self.fonts, &mut self.diagnostics, k, value, e) {
            return;
        }
        if apply_metrics(&mut self.adjust, &mut self.diagnostics, k, value, e) {
            return;
        }
        if apply_colors(&mut self.colors, &mut self.diagnostics, k, value, e) {
            return;
        }
        if apply_backdrop(&mut self.backdrop, &mut self.diagnostics, k, value, e) {
            return;
        }
        if apply_windows(&mut self.windows, &mut self.diagnostics, k, value, e) {
            return;
        }
        if apply_lifetime(&mut self.lifetime, &mut self.diagnostics, k, value, e) {
            return;
        }
        if apply_geometry(&mut self.layout, &mut self.diagnostics, k, value, e) {
            return;
        }
        if apply_selection(&mut self.selection, &mut self.diagnostics, k, value, e) {
            return;
        }
        if apply_mouse(&mut self.mouse, &mut self.diagnostics, k, value, e) {
            return;
        }
        if apply_clipboard(&mut self.clipboard, &mut self.diagnostics, k, value, e) {
            return;
        }
        if apply_engine(&mut self.engine, &mut self.diagnostics, k, value, e) {
            return;
        }
        if apply_commands(&mut self.commands, &mut self.diagnostics, k, value, e) {
            return;
        }
        report(&mut self.diagnostics, "ignoring unsupported config key '", key, "'");
    }
}

} // verus!
