//! Reading a configuration body, key by key and file by file.

use giest::config::{
    expand_home, giest_ansi16, map_clipboard_text, needs_confirm, parse_clipboard_map, parse_color,
    parse_command_palette_entry, parse_hex, parse_palette_entry, paste_is_unsafe, resolve_input,
    resolve_path, select_theme_variant, should_notify_on_finish, show_resize_overlay, x11_colors,
    AppNotifications, BackgroundBlur, BackgroundImageFit, BackgroundImagePosition, BellFeatures,
    ClipboardAccess, ClipboardPolicy, ColorNames, Config, ConfirmClose, ConptyPassthrough,
    CopyOnSelect, FontStyle, FontVariation, IncludeFailure, Includes, InputSource, Located,
    MetricAdjust, MetricModifier, MiddleClickAction, MouseShiftCapture, NewTabPosition,
    NotifyOnCommandFinish, OscColorReportFormat, PaddingBalance, ResizeOverlay,
    ResizeOverlayPosition, RightClickAction, Scrollbar, ShellFeatures, ShellIntegration,
    ShowTabBar, Surroundings, SyntheticStyle, TerminalColor, ThemeFile, WindowDecoration,
    WindowSaveState,
};
use giest::engine::{BoldColor, CursorShape, Rgb};

/// A few lines of the X11 colour table.
fn names() -> ColorNames {
    x11_colors(
        "! comment\n\
         0 0 0\t\tblack\n\
         255 255 255\t\twhite\n\
         255   0   0\t\tred\n\
         0   0 255\t\tblue\n\
         34 139  34\t\tforest green\n\
         34 139  34\t\tForestGreen\n\
         0 250 154\t\tmedium spring green\n\
         102  51 153\t\trebeccapurple\n",
    )
}

fn surroundings() -> Surroundings {
    Surroundings { home: Some("/home/me".to_string()), colors: names() }
}

/// Parse a config body over the defaults.
fn parsed(body: &str) -> Config {
    Config::from_ghostty_config(body, &ThemeFile::Missing, &surroundings())
}

fn located(base: Option<&str>, path: &str) -> Located {
    Located { base: base.map(str::to_string), path: path.to_string() }
}

/// Load `root` and the files it names, out of a table of files.
fn load(files: &[(&str, &str)], root: &str) -> Config {
    let text = |name: &str| files.iter().find(|f| f.0 == name).map(|f| f.1);
    let parent = |name: &str| name.rsplit_once('/').map(|p| p.0).unwrap_or("").to_string();
    let mut c = Config::default();
    let mut load = Includes::new(root);
    let body = text(root).unwrap();
    let more = c.apply_body(body, &ThemeFile::Missing, Some(&parent(root)), &surroundings());
    load.enqueue(more);
    while let Some((file, optional)) = load.next() {
        let base = file.base.unwrap_or_default();
        let name = if base.is_empty() { file.path } else { format!("{base}/{}", file.path) };
        if !load.begin(&name, &name, &mut c) {
            continue;
        }
        match text(&name) {
            Some(body) => {
                let base = parent(&name);
                let more =
                    c.apply_body(body, &ThemeFile::Missing, Some(&base), &surroundings());
                load.enqueue(more);
            }
            None => {
                let why = IncludeFailure::NotFound("no such file".to_string());
                c.unreadable_include(&name, optional, &why);
            }
        }
    }
    c
}

// The numbers that the decimal settings stand for.

fn number(v: &str) -> f32 {
    v.parse().unwrap()
}

fn ratio(v: &Option<String>, default: f32, low: f32, high: f32) -> f32 {
    v.as_deref().map(number).map(|n| n.clamp(low, high)).unwrap_or(default)
}

fn font_points(c: &Config) -> f32 {
    c.fonts.font_points.iter().map(|v| number(v)).filter(|n| *n > 0.0).last().unwrap_or(16.0)
}

fn padding_x(c: &Config) -> f32 {
    ratio(&c.backdrop.padding_x, 2.0, 0.0, f32::MAX)
}

fn padding_y(c: &Config) -> f32 {
    ratio(&c.backdrop.padding_y, 2.0, 0.0, f32::MAX)
}

fn text_gamma(c: &Config) -> f32 {
    ratio(&c.fonts.text_gamma, 1.3, 0.5, 3.0)
}

fn min_contrast(c: &Config) -> f32 {
    ratio(&c.colors.min_contrast, 1.0, 1.0, 21.0)
}

fn background_opacity(c: &Config) -> f32 {
    ratio(&c.backdrop.background_opacity, 1.0, 0.0, 1.0)
}

fn unfocused_split_opacity(c: &Config) -> f32 {
    ratio(&c.backdrop.unfocused_split_opacity, 0.7, 0.15, 1.0)
}

fn cursor_opacity(c: &Config) -> f32 {
    ratio(&c.colors.cursor_opacity, 1.0, 0.0, 1.0)
}

fn faint_opacity(c: &Config) -> f32 {
    ratio(&c.colors.faint_opacity, 0.5, 0.0, 1.0)
}

fn background_image_opacity(c: &Config) -> f32 {
    ratio(&c.backdrop.background_image_opacity, 1.0, 0.0, 16.0)
}

fn bell_audio_volume(c: &Config) -> f32 {
    ratio(&c.engine.bell_audio_volume, 0.5, 0.0, 1.0)
}

fn quick_terminal_animation_duration(c: &Config) -> f64 {
    c.layout
        .quick_terminal_animation_duration
        .iter()
        .map(|v| v.parse::<f64>().unwrap())
        .filter(|n| n.is_finite() && *n >= 0.0)
        .last()
        .map(|n| n.min(10.0))
        .unwrap_or(0.2)
}

struct Rates {
    precision: f32,
    discrete: f32,
}

fn mouse_scroll_multiplier(c: &Config) -> Rates {
    let m = &c.mouse.mouse_scroll_multiplier;
    Rates {
        precision: ratio(&m.precision, 1.0, 0.01, 10_000.0),
        discrete: ratio(&m.discrete, 3.0, 0.01, 10_000.0),
    }
}

fn applied(m: &MetricModifier, value: f32) -> f32 {
    match m {
        MetricModifier::Unset => value,
        MetricModifier::Pixels(p) => value + *p as f32,
        MetricModifier::Percent(p) => value + value * (number(p) / 100.0),
    }
}

fn thickness(m: &MetricModifier, value: f32) -> f32 {
    applied(m, value).ceil().max(1.0)
}

/// A palette derived from the base colours, the explicit entries left alone.
fn generated(c: &Config) -> [Rgb; 256] {
    let mut p = c.colors.palette;
    for i in 16..=255u8 {
        if !c.palette_index_set(i) {
            let old = p[i as usize];
            p[i as usize] = Rgb::new(old.r ^ 1, old.g, old.b);
        }
    }
    p
}

#[test]
fn window_chrome_keys_parse() {
    let d = Config::default();
    assert_eq!(d.windows.window_decoration, WindowDecoration::Auto);
    assert!(d.lifetime.quit_after_last_window_closed && d.lifetime.initial_window && d.windows.window_vsync);
    assert_eq!(parsed("window-decoration = none").windows.window_decoration, WindowDecoration::Off);
    assert_eq!(parsed("window-decoration = false").windows.window_decoration, WindowDecoration::Off);
    assert_eq!(parsed("window-decoration = true").windows.window_decoration, WindowDecoration::Auto);
    assert_eq!(parsed("window-decoration = server").windows.window_decoration, WindowDecoration::Server);
    assert!(!WindowDecoration::Off.decorated() && WindowDecoration::Client.decorated());
    assert_eq!(
        parsed("window-titlebar-background = #102030").windows.window_titlebar_background,
        Some(Rgb::new(0x10, 0x20, 0x30))
    );
    assert_eq!(
        parsed("window-titlebar-foreground = #ffffff\nwindow-titlebar-foreground =")
            .windows.window_titlebar_foreground,
        None
    );
    assert_eq!(parsed("window-show-tab-bar = auto").windows.window_show_tab_bar, ShowTabBar::Auto);
    assert!(!ShowTabBar::Auto.visible(1) && ShowTabBar::Auto.visible(2));
    assert!(!ShowTabBar::Never.visible(5) && ShowTabBar::Always.visible(1));
    assert!(parsed("maximize = true").windows.maximize);
    assert!(parsed("fullscreen = non-native").windows.fullscreen);
    assert!(parsed("fullscreen = true").windows.fullscreen);
    assert!(!parsed("fullscreen = true\nfullscreen = false").windows.fullscreen);
    assert_eq!(parsed("title = \"  \"").windows.title.as_deref(), Some("  "));
    assert_eq!(parsed("title = work\ntitle =").windows.title, None);
    assert!(parsed("window-subtitle = working-directory").windows.window_subtitle);
    assert!(!parsed("window-subtitle = false").windows.window_subtitle);
    assert_eq!(
        parsed("window-title-font-family = Segoe UI").windows.window_title_font_family.as_deref(),
        Some("Segoe UI")
    );
    assert!(parsed("window-step-resize = true").windows.window_step_resize);
    assert!(!parsed("window-vsync = false").windows.window_vsync);
    assert!(!parsed("quit-after-last-window-closed = false").lifetime.quit_after_last_window_closed);
    assert_eq!(
        parsed("quit-after-last-window-closed-delay = 5s")
            .lifetime.quit_after_last_window_closed_delay_ms,
        Some(5000)
    );
    assert!(!parsed("initial-window = false").lifetime.initial_window);
    assert!(parsed("split-preserve-zoom = navigation").lifetime.split_preserve_zoom_navigation);
    assert!(
        !parsed("split-preserve-zoom = navigation\nsplit-preserve-zoom = no-navigation")
            .lifetime.split_preserve_zoom_navigation
    );
    assert_eq!(
        quick_terminal_animation_duration(&parsed("quick-terminal-animation-duration = 0")),
        0.0
    );
    assert_eq!(
        quick_terminal_animation_duration(&parsed("quick-terminal-animation-duration = -1")),
        0.2
    );
}

#[test]
fn palette_is_well_formed() {
    let c = Config::default();
    // ANSI red at index 1, cube corner white at 231, grayscale endpoints.
    assert_eq!(c.colors.palette[1], giest_ansi16()[1]);
    assert_eq!(c.colors.palette[231], Rgb::new(255, 255, 255));
    assert_eq!(c.colors.palette[16], Rgb::new(0, 0, 0));
    assert_eq!(c.colors.palette[232], Rgb::new(8, 8, 8));
}

#[test]
fn parses_hex_colors() {
    assert_eq!(parse_hex("#0a141e"), Some(Rgb::new(10, 20, 30)));
    assert_eq!(parse_hex("0a141e"), Some(Rgb::new(10, 20, 30)));
    // 3-digit short form: each nibble is duplicated (Ghostty's fromHex).
    assert_eq!(parse_hex("#f80"), Some(Rgb::new(0xff, 0x88, 0x00)));
    assert_eq!(parse_hex("fff"), Some(Rgb::new(255, 255, 255)));
    assert_eq!(parse_hex("#345"), Some(Rgb::new(0x33, 0x44, 0x55)));
    assert_eq!(parse_hex("nothex"), None);
    assert_eq!(parse_hex("#gg0"), None);
}

#[test]
fn parses_x11_named_colors() {
    // Ghostty resolves color values through an X11 name table before hex.
    assert_eq!(parse_color("black", &names()), Some(Rgb::new(0, 0, 0)));
    assert_eq!(parse_color("red", &names()), Some(Rgb::new(255, 0, 0)));
    assert_eq!(parse_color("white", &names()), Some(Rgb::new(255, 255, 255)));
    // Case-insensitive; the CamelCase spelling collapses spaces.
    assert_eq!(parse_color("ForestGreen", &names()), Some(Rgb::new(34, 139, 34)));
    assert_eq!(parse_color("forestgreen", &names()), Some(Rgb::new(34, 139, 34)));
    assert_eq!(parse_color("medium spring green", &names()), Some(Rgb::new(0, 250, 154)));
    // Hex still works through the same entry point (incl. short form).
    assert_eq!(parse_color("#ff8800", &names()), Some(Rgb::new(0xff, 0x88, 0x00)));
    assert_eq!(parse_color("#f80", &names()), Some(Rgb::new(0xff, 0x88, 0x00)));
    // Unknown names fall through to None.
    assert_eq!(parse_color("nosuchcolor", &names()), None);
}

#[test]
fn color_keys_accept_named_colors() {
    // The named-color path backs every color key, like Ghostty.
    assert_eq!(parsed("foreground = red").colors.fg, Rgb::new(255, 0, 0));
    assert_eq!(parsed("background = black").colors.bg, Rgb::new(0, 0, 0));
    assert_eq!(parsed("cursor-color = blue").colors.cursor, Some(Rgb::new(0, 0, 255)));
    assert_eq!(parsed("cursor-text = cell-foreground").colors.cursor_text, Some(TerminalColor::CellForeground));
    assert_eq!(parsed("cursor-text = #00ff00").colors.cursor_text, Some(TerminalColor::Color(Rgb::new(0, 255, 0))));
    assert_eq!(parsed("").colors.cursor_text, None);
    assert_eq!(
        parsed("bold-color = black").colors.bold_color,
        BoldColor::Color(Rgb::new(0, 0, 0))
    );
    assert_eq!(parsed("palette = 1=red").colors.palette[1], Rgb::new(255, 0, 0));
}

#[test]
fn ghostty_keys_override_defaults() {
    // Unquoted, kebab-case, Ghostty-style colors.
    let c = parsed("font-size = 18\nforeground = #ff8800\nbackground = #101010");
    assert_eq!(font_points(&c), 18.0);
    assert_eq!(c.colors.fg, Rgb::new(0xff, 0x88, 0x00));
    assert_eq!(c.colors.bg, Rgb::new(0x10, 0x10, 0x10));
}

#[test]
fn comments_and_blank_lines_ignored() {
    let c = parsed("# a comment\n\n   # indented comment\nfont-size = 20\n");
    assert_eq!(font_points(&c), 20.0);
}

#[test]
fn parses_palette_entries() {
    assert_eq!(
        parse_palette_entry("0=#1d1f21", &names()),
        Some((0, Rgb::new(0x1d, 0x1f, 0x21)))
    );
    assert_eq!(
        parse_palette_entry(" 15 = #eaeaea ", &names()),
        Some((15, Rgb::new(0xea, 0xea, 0xea)))
    );
    assert_eq!(
        parse_palette_entry("255=#000000", &names()),
        Some((255, Rgb::new(0, 0, 0)))
    );
    assert_eq!(
        parse_palette_entry("256=#000000", &names()),
        None,
        "index out of range"
    );
    assert_eq!(parse_palette_entry("nope", &names()), None);
}

#[test]
fn repeated_palette_keys_accumulate() {
    // Ghostty repeats `palette = N=#hex`, one entry per line.
    let c = parsed("cursor-color = #ff0000\npalette = 1=#abcdef\npalette = 232=#0a0a0a");
    assert_eq!(c.colors.cursor, Some(Rgb::new(0xff, 0, 0)));
    assert_eq!(c.colors.palette[1], Rgb::new(0xab, 0xcd, 0xef));
    assert_eq!(c.colors.palette[232], Rgb::new(0x0a, 0x0a, 0x0a));
    // Untouched indices keep their default.
    assert_eq!(c.colors.palette[2], giest_ansi16()[2]);
}

#[test]
fn window_padding_keys_apply() {
    let c = parsed("window-padding-x = 12\nwindow-padding-y = 6");
    assert_eq!(padding_x(&c), 12.0);
    assert_eq!(padding_y(&c), 6.0);
}

#[test]
fn scrollback_limit_overrides() {
    let c = Config::default();
    assert_eq!(c.engine.scrollback_limit, 10_000);
    assert_eq!(parsed("scrollback-limit = 50000").engine.scrollback_limit, 50_000);
    assert_eq!(parsed("scrollback-limit-bytes = 70000").engine.scrollback_limit, 70_000);
    assert_eq!(parsed("scrollback-limit-bytes = unlimited").engine.scrollback_limit, usize::MAX);
    assert_eq!(parsed("scrollback-limit-lines = 5000").engine.scrollback_limit_lines, Some(5000));
    assert_eq!(parsed("scrollback-limit-lines = unlimited").engine.scrollback_limit_lines, None);
}

#[test]
fn palette_generate_keeps_base_and_explicit_entries() {
    let off = parsed("palette = 100=#123456");
    assert_eq!(
        off.effective_palette(&generated(&off)),
        off.colors.palette,
        "off by default: palette as configured"
    );

    let c = parsed("palette-generate = true\npalette = 100=#123456\npalette = 1=#ff0000");
    let p = c.effective_palette(&generated(&c));
    assert_eq!(p[1], Rgb { r: 0xff, g: 0, b: 0 }, "base 16 preserved");
    assert_eq!(p[100], Rgb { r: 0x12, g: 0x34, b: 0x56 }, "explicit entry kept");
    assert_ne!(p[101], c.colors.palette[101], "cube regenerated");
    // Ramp runs background -> foreground.
    assert_ne!(p[232], c.colors.palette[232]);
}

#[test]
fn link_and_clipboard_limit_keys() {
    let c = parsed("");
    assert!(c.selection.link_osc8 && c.selection.link_url);
    assert_eq!(c.clipboard.policy.write_limit, Some(64 << 20));
    let c = parsed("link-osc8 = false\nlink-url = false\nclipboard-write-limit-bytes = unlimited");
    assert!(!c.selection.link_osc8 && !c.selection.link_url);
    assert_eq!(c.clipboard.policy.write_limit, None);
    assert_eq!(parsed("clipboard-write-limit-bytes = 0").clipboard.policy.write_limit, Some(0));
}

#[test]
fn conpty_passthrough_parses_auto_true_false() {
    assert_eq!(Config::default().engine.conpty_passthrough, ConptyPassthrough::Auto);
    assert_eq!(parsed("conpty-passthrough = true").engine.conpty_passthrough, ConptyPassthrough::On);
    assert_eq!(parsed("conpty-passthrough = false").engine.conpty_passthrough, ConptyPassthrough::Off);
    assert_eq!(
        parsed("conpty-passthrough = false\nconpty-passthrough = bogus").engine.conpty_passthrough,
        ConptyPassthrough::Auto
    );
}

#[test]
fn image_storage_limit_defaults_to_ghosttys_value() {
    // Ghostty's default is 320 MB *decimal*, not 320 MiB.
    assert_eq!(Config::default().engine.image_storage_limit, 320_000_000);
    assert_eq!(
        parsed("image-storage-limit = 64000000").engine.image_storage_limit,
        64_000_000
    );
    // Zero is meaningful: it disables the image protocols entirely.
    assert_eq!(parsed("image-storage-limit = 0").engine.image_storage_limit, 0);
    // Empty resets; garbage keeps the current value.
    assert_eq!(
        parsed("image-storage-limit = 0\nimage-storage-limit =").engine.image_storage_limit,
        320_000_000
    );
    assert_eq!(
        parsed("image-storage-limit = 0\nimage-storage-limit = lots").engine.image_storage_limit,
        0
    );
}

#[test]
fn selection_and_copy_on_select_overrides() {
    let c = parsed(
        "selection-background = #385a9c\nselection-foreground = #ffffff\ncopy-on-select = true",
    );
    assert_eq!(c.colors.selection_bg, Rgb::new(0x38, 0x5a, 0x9c));
    assert_eq!(c.colors.selection_fg, Some(Rgb::new(0xff, 0xff, 0xff)));
    assert_eq!(c.selection.copy_on_select, CopyOnSelect::Clipboard);
}

#[test]
fn inherit_working_directory_keys_default_true_and_override() {
    let d = Config::default();
    assert!(d.layout.tab_inherit_working_directory);
    assert!(d.layout.split_inherit_working_directory);
    assert!(d.layout.window_inherit_working_directory);

    assert!(!parsed("tab-inherit-working-directory = false").layout.tab_inherit_working_directory);
    assert!(!parsed("split-inherit-working-directory = false").layout.split_inherit_working_directory);
    assert!(
        !parsed("window-inherit-working-directory = false").layout.window_inherit_working_directory
    );

    // An empty value resets to the default (true).
    assert!(parsed("tab-inherit-working-directory =").layout.tab_inherit_working_directory);
    assert!(parsed("split-inherit-working-directory =").layout.split_inherit_working_directory);

    // Each key is independent — turning one off must not disturb the others.
    let c = parsed("split-inherit-working-directory = false");
    assert!(c.layout.tab_inherit_working_directory && c.layout.window_inherit_working_directory);
}

#[test]
fn config_file_include_is_loaded_after_the_file_that_names_it() {
    // Ghostty's documented and subtle rule: the included file wins over the
    // whole file that names it, not just over the lines above.
    let c = load(&[("inc", "font-size = 20"), ("config", "config-file = inc\nfont-size = 11")], "config");
    assert_eq!(font_points(&c), 20.0);
}

#[test]
fn config_file_includes_load_breadth_first_in_order() {
    // `a` (which names `deep`) then `b`. `deep` joins the end of the one shared
    // queue when `a` is parsed, so the order is a, b, deep, and `deep` gets the
    // last word. Depth first would leave `b` winning.
    let c = load(
        &[
            ("a", "config-file = deep\nfont-size = 1"),
            ("b", "font-size = 2"),
            ("deep", "font-size = 3"),
            ("config", "config-file = a\nconfig-file = b"),
        ],
        "config",
    );
    assert_eq!(font_points(&c), 3.0);
}

#[test]
fn config_file_paths_resolve_against_the_including_file() {
    // `sub/child` names `sibling`, which lives in `sub/`, not beside `config`.
    let c = load(
        &[
            ("sub/child", "config-file = sibling"),
            ("sub/sibling", "font-size = 17"),
            ("config", "config-file = sub/child"),
        ],
        "config",
    );
    assert_eq!(font_points(&c), 17.0);
}

#[test]
fn config_file_optional_prefix_tolerates_a_missing_file() {
    let c = load(&[("config", "config-file = ?nope\nfont-size = 13")], "config");
    assert_eq!(font_points(&c), 13.0);
    assert!(c.diagnostics.is_empty());

    // A *required* missing file is reported but must not lose the rest.
    let c = load(&[("config2", "config-file = nope\nfont-size = 14")], "config2");
    assert_eq!(font_points(&c), 14.0);
    assert_eq!(c.diagnostics, vec!["error reading config-file nope: no such file"]);
}

#[test]
fn config_file_cycles_terminate() {
    // a -> b -> a, plus a file that names itself: both must stop rather than
    // hang, and the keys that did load must survive.
    let c = load(
        &[
            ("a", "config-file = b\nfont-size = 21"),
            ("b", "config-file = a\nconfig-file = b"),
            ("config", "config-file = a\nconfig-file = config"),
        ],
        "config",
    );
    assert_eq!(font_points(&c), 21.0);
    assert_eq!(
        c.diagnostics,
        vec![
            "config-file config: already loaded (cycle), ignoring",
            "config-file a: already loaded (cycle), ignoring",
            "config-file b: already loaded (cycle), ignoring",
        ]
    );
}

#[test]
fn config_file_empty_value_clears_the_pending_includes() {
    let c = load(
        &[("inc", "font-size = 30"), ("config", "config-file = inc\nconfig-file =\nfont-size = 12")],
        "config",
    );
    assert_eq!(font_points(&c), 12.0);
}

#[test]
fn config_file_staging_list_is_empty_in_a_loaded_config() {
    // It is a parse-time staging area, not a setting: a caller reading the
    // loaded config must never see leftovers.
    let c = load(&[("inc", "font-size = 20"), ("config", "config-file = inc")], "config");
    assert!(c.config_file.is_empty());
}

#[test]
fn copy_on_select_accepts_ghostty_enum() {
    let cos = |v: &str| parsed(&format!("copy-on-select = {v}")).selection.copy_on_select;
    assert_eq!(Config::default().selection.copy_on_select, CopyOnSelect::Off);
    assert_eq!(cos("clipboard"), CopyOnSelect::Clipboard);
    assert_eq!(cos("true"), CopyOnSelect::Clipboard);
    assert_eq!(cos("primary"), CopyOnSelect::Primary);
    assert_eq!(cos("both"), CopyOnSelect::Both);
    assert_eq!(cos("none"), CopyOnSelect::Off);
    assert_eq!(cos("false"), CopyOnSelect::Off);
    assert!(CopyOnSelect::Both.primary() && CopyOnSelect::Both.clipboard());
    assert!(!CopyOnSelect::Primary.clipboard());
}

#[test]
fn mouse_shift_capture_and_click_interval() {
    assert_eq!(Config::default().mouse.mouse_shift_capture, MouseShiftCapture::False);
    assert_eq!(parsed("mouse-shift-capture = always").mouse.mouse_shift_capture, MouseShiftCapture::Always);
    assert_eq!(parsed("mouse-shift-capture = never").mouse.mouse_shift_capture, MouseShiftCapture::Never);
    assert_eq!(parsed("mouse-shift-capture = true").mouse.mouse_shift_capture, MouseShiftCapture::True);
    // Only true/false defer to the program's XTSHIFTESCAPE.
    assert!(MouseShiftCapture::False.captured(Some(true)) && !MouseShiftCapture::False.captured(None));
    assert!(!MouseShiftCapture::True.captured(Some(false)) && MouseShiftCapture::True.captured(None));
    assert!(MouseShiftCapture::Always.captured(Some(false)) && !MouseShiftCapture::Never.captured(Some(true)));
    assert_eq!(Config::default().mouse.click_repeat_interval, 0);
    assert_eq!(parsed("click-repeat-interval = 250").mouse.click_repeat_interval, 250);
    assert_eq!(parsed("click-repeat-interval = x").mouse.click_repeat_interval, 0);
}

#[test]
fn command_palette_entry_grammar() {
    let e = parse_command_palette_entry("title:Reset Font Style, action:csi:0m").unwrap();
    assert_eq!(e.title, "Reset Font Style");
    assert_eq!(e.action, "csi:0m");
    assert_eq!(e.description, None);
    let e = parse_command_palette_entry(
        r#"title:Focus Split: Right,description:"Focus the split to the right, if it exists.",action:goto_split:right"#,
    )
    .unwrap();
    assert_eq!(e.title, "Focus Split: Right");
    assert_eq!(e.description.as_deref(), Some("Focus the split to the right, if it exists."));
    assert_eq!(e.action, "goto_split:right");
    let e = parse_command_palette_entry(r#"title:"Ghostty",action:"text:\xf0""#).unwrap();
    assert_eq!(e.title, "Ghostty");
    assert_eq!(e.action, "text:\u{f0}");
    // Required fields and unknown fields.
    assert!(parse_command_palette_entry("title:x").is_none());
    assert!(parse_command_palette_entry("action:new_tab").is_none());
    assert!(parse_command_palette_entry("title:x,action:new_tab,bogus:1").is_none());

    let c = parsed("command-palette-entry = title:A,action:new_tab");
    assert!(c.commands.palette_defaults);
    assert_eq!(c.commands.palette_entries.len(), 1);
    let c = parsed("command-palette-entry = title:A,action:new_tab\ncommand-palette-entry = clear\ncommand-palette-entry = title:B,action:new_tab");
    assert!(!c.commands.palette_defaults);
    assert_eq!(c.commands.palette_entries[0].title, "B");
    let c = parsed("command-palette-entry = clear\ncommand-palette-entry =");
    assert!(c.commands.palette_defaults && c.commands.palette_entries.is_empty());
}

#[test]
fn clipboard_codepoint_map_replaces_on_copy() {
    let c = parsed(
        "clipboard-codepoint-map = U+2500=U+002D\nclipboard-codepoint-map = U+03A3=SUM\nclipboard-codepoint-map = U+2500-U+2502=|",
    );
    assert_eq!(c.clipboard.clipboard_codepoint_map.len(), 3);
    // The later range wins for U+2500.
    assert_eq!(map_clipboard_text(&c.clipboard.clipboard_codepoint_map, "a\u{2500}\u{3a3}\u{2501}b"), "a|SUM|b");
    assert_eq!(map_clipboard_text(&[], "x\u{2500}"), "x\u{2500}");
    assert!(parse_clipboard_map("2500=x").is_none());
    assert!(parse_clipboard_map("U+2502-U+2500=x").is_none());
}

#[test]
fn font_codepoint_map_and_shaping_and_thicken() {
    let c = parsed("font-codepoint-map = U+E000-U+E0FF,U+F000=Symbols Nerd Font");
    assert_eq!(c.fonts.font_codepoint_map[0].ranges, vec![(0xE000, 0xE0FF), (0xF000, 0xF000)]);
    assert_eq!(c.fonts.font_codepoint_map[0].family, "Symbols Nerd Font");
    assert!(parsed("font-codepoint-map = U+E000=").fonts.font_codepoint_map.is_empty());
    assert!(Config::default().fonts.font_shaping_break_cursor);
    assert!(!parsed("font-shaping-break = no-cursor").fonts.font_shaping_break_cursor);
    assert!(parsed("font-shaping-break = no-cursor,cursor").fonts.font_shaping_break_cursor);
    let c = parsed("font-thicken = true\nfont-thicken-strength = 40");
    assert!(c.fonts.font_thicken);
    assert_eq!(c.fonts.font_thicken_strength, 40);
    assert_eq!(parsed("font-thicken-strength = 300").fonts.font_thicken_strength, 255);
    assert!(!parsed("cursor-click-to-move = false").mouse.cursor_click_to_move);
}

#[test]
fn theme_paths_expand_tilde() {
    let home = Some("/home/me");
    assert_eq!(expand_home("~/themes/x", home), located(home, "themes/x"));
    assert_eq!(expand_home(r"~\themes\x", home), located(home, r"themes\x"));
    assert_eq!(expand_home("~", home), located(None, "/home/me"));
    assert_eq!(expand_home("dracula", home), located(None, "dracula"));
    assert_eq!(expand_home("~user/x", home), located(None, "~user/x"));
}

#[test]
fn click_action_defaults() {
    let d = Config::default();
    assert_eq!(d.selection.right_click_action, RightClickAction::ContextMenu);
    assert_eq!(d.selection.middle_click_action, MiddleClickAction::PrimaryPaste);
    // Empty config keeps the defaults.
    assert_eq!(parsed("").selection.right_click_action, RightClickAction::ContextMenu);
    assert_eq!(
        parsed("").selection.middle_click_action,
        MiddleClickAction::PrimaryPaste
    );
}

#[test]
fn right_click_action_parses_each_value() {
    assert_eq!(
        parsed("right-click-action = context-menu").selection.right_click_action,
        RightClickAction::ContextMenu
    );
    assert_eq!(
        parsed("right-click-action = copy").selection.right_click_action,
        RightClickAction::Copy
    );
    assert_eq!(
        parsed("right-click-action = paste").selection.right_click_action,
        RightClickAction::Paste
    );
    assert_eq!(
        parsed("right-click-action = copy-or-paste").selection.right_click_action,
        RightClickAction::CopyOrPaste
    );
    assert_eq!(
        parsed("right-click-action = ignore").selection.right_click_action,
        RightClickAction::Ignore
    );
    // Empty resets to default; garbage keeps the current (here, the default).
    assert_eq!(
        parsed("right-click-action =").selection.right_click_action,
        RightClickAction::ContextMenu
    );
    assert_eq!(
        parsed("right-click-action = nonsense").selection.right_click_action,
        RightClickAction::ContextMenu
    );
}

#[test]
fn middle_click_action_parses_each_value() {
    assert_eq!(
        parsed("middle-click-action = primary-paste").selection.middle_click_action,
        MiddleClickAction::PrimaryPaste
    );
    assert_eq!(
        parsed("middle-click-action = ignore").selection.middle_click_action,
        MiddleClickAction::Ignore
    );
    assert_eq!(
        parsed("middle-click-action =").selection.middle_click_action,
        MiddleClickAction::PrimaryPaste
    );
    assert_eq!(
        parsed("middle-click-action = nonsense").selection.middle_click_action,
        MiddleClickAction::PrimaryPaste
    );
}

#[test]
fn command_sets_shell() {
    assert_eq!(parsed("command = pwsh").commands.shell.as_deref(), Some("pwsh"));
    // Quoted values are tolerated for paths with spaces.
    assert_eq!(
        parsed("command = \"C:\\Program Files\\bash.exe\"")
            .commands.shell
            .as_deref(),
        Some("C:\\Program Files\\bash.exe")
    );
}

#[test]
fn unknown_keys_are_ignored_not_fatal() {
    // A full Ghostty config has many keys we don't support; they must not
    // discard the keys we do support.
    let c = parsed("theme = catppuccin\nfont-family = JetBrains Mono\nfont-size = 14");
    assert_eq!(font_points(&c), 14.0);
}

#[test]
fn empty_value_resets_to_default() {
    let mut c = Config::default();
    c.parse("font-size = 30\ncursor-color = #ff0000", &surroundings());
    assert_eq!(font_points(&c), 30.0);
    assert_eq!(c.colors.cursor, Some(Rgb::new(0xff, 0, 0)));
    // An empty value restores the default (Ghostty semantics).
    c.parse("font-size =\ncursor-color =", &surroundings());
    assert_eq!(font_points(&c), font_points(&Config::default()));
    assert_eq!(c.colors.cursor, None);
}

#[test]
fn empty_config_keeps_defaults() {
    let c = parsed("");
    let d = Config::default();
    assert_eq!((font_points(&c), c.colors.fg, c.colors.bg), (font_points(&d), d.colors.fg, d.colors.bg));
}

#[test]
fn text_gamma_overrides_and_clamps() {
    assert_eq!(text_gamma(&Config::default()), 1.3);
    assert_eq!(text_gamma(&parsed("")), 1.3);
    assert_eq!(text_gamma(&parsed("text-gamma = 1.6")), 1.6);
    // Out-of-range values clamp to [0.5, 3.0].
    assert_eq!(text_gamma(&parsed("text-gamma = 10.0")), 3.0);
    assert_eq!(text_gamma(&parsed("text-gamma = 0.1")), 0.5);
}

#[test]
fn a_utf8_bom_does_not_hide_the_first_key() {
    // Notepad and PowerShell's `-Encoding utf8` both write one.
    assert_eq!(
        parsed("\u{feff}window-save-state = always").lifetime.window_save_state,
        WindowSaveState::Always
    );
}

#[test]
fn search_colors_default_to_ghosttys_and_accept_cell_keywords() {
    let c = Config::default();
    assert_eq!(
        c.colors.search_bg,
        TerminalColor::Color(Rgb::new(0xFF, 0xE0, 0x82))
    );
    assert_eq!(c.colors.search_fg, TerminalColor::Color(Rgb::new(0, 0, 0)));
    assert_eq!(
        c.colors.search_selected_bg,
        TerminalColor::Color(Rgb::new(0xF2, 0xA5, 0x7E))
    );
    // The two keywords defer to the cell rather than naming a color.
    assert_eq!(
        parsed("search-background = cell-foreground").colors.search_bg,
        TerminalColor::CellForeground
    );
    assert_eq!(
        parsed("search-foreground = cell-background").colors.search_fg,
        TerminalColor::CellBackground
    );
    // X11 names work here like every other color key.
    assert_eq!(
        parsed("search-selected-background = red").colors.search_selected_bg,
        TerminalColor::Color(Rgb::new(0xFF, 0, 0))
    );
    let (fg, bg) = (Rgb::new(1, 2, 3), Rgb::new(4, 5, 6));
    assert_eq!(TerminalColor::CellForeground.resolve(fg, bg), fg);
    assert_eq!(TerminalColor::CellBackground.resolve(fg, bg), bg);
    assert_eq!(TerminalColor::Color(fg).resolve(bg, bg), fg);
}

#[test]
fn the_new_config_keys_parse() {
    assert_eq!(
        parsed("window-new-tab-position = end").windows.new_tab_position,
        NewTabPosition::End
    );
    // The default is `current`, not `end`.
    assert_eq!(Config::default().windows.new_tab_position, NewTabPosition::Current);
    assert_eq!(
        parsed("window-padding-balance = true").backdrop.window_padding_balance,
        PaddingBalance::Balanced
    );
    assert_eq!(
        parsed("window-padding-balance = equal").backdrop.window_padding_balance,
        PaddingBalance::Equal
    );
    assert_eq!(
        Config::default().backdrop.window_padding_balance,
        PaddingBalance::Off
    );
    assert_eq!(
        parsed("split-divider-color = #ff8800").colors.split_divider_color,
        Some(Rgb::new(0xFF, 0x88, 0x00))
    );
    assert_eq!(Config::default().colors.split_divider_color, None);
    // Typing clears the selection, copying does not.
    assert!(Config::default().selection.selection_clear_on_typing);
    assert!(!Config::default().selection.selection_clear_on_copy);
    assert!(parsed("selection-clear-on-copy = true").selection.selection_clear_on_copy);
    assert!(!parsed("selection-clear-on-typing = false").selection.selection_clear_on_typing);
}

#[test]
fn working_directory_resolves_its_special_values() {
    // `inherit` is the launching process's directory, which is what `None`
    // already means downstream.
    assert_eq!(parsed("working-directory = inherit").windows.working_directory, None);
    assert_eq!(Config::default().windows.working_directory, None);
    assert_eq!(
        parsed(r"working-directory = C:\src").windows.working_directory,
        Some(located(None, r"C:\src"))
    );
    // `home` and `~/` resolve under the home directory.
    let home = Some("/home/me");
    assert_eq!(
        parsed("working-directory = home").windows.working_directory,
        Some(located(None, "/home/me"))
    );
    assert_eq!(
        parsed("working-directory = ~/src").windows.working_directory,
        Some(located(home, "src"))
    );
}

#[test]
fn selection_word_chars_parses_characters_not_bytes() {
    // Empty by default = "the engine's own boundaries", so the list isn't
    // duplicated here where it could drift from the engine's.
    assert!(Config::default().selection.selection_word_chars.is_empty());

    let c = parsed("selection-word-chars =  \t'\"|:,()[]{}<>$").selection.selection_word_chars;
    // NUL is always a boundary, and an explicit list replaces the
    // engine's defaults wholesale — so it has to be prepended here.
    assert_eq!(c[0], '\0');
    assert!(c.contains(&'(') && c.contains(&'$') && c.contains(&':'));

    // A multi-byte boundary (Ghostty's own default list contains U+2502)
    // must survive as one character, not three.
    let c = parsed("selection-word-chars = │").selection.selection_word_chars;
    assert_eq!(c, vec!['\0', '│']);

    // `\t` is an escape, as in Ghostty's documented default.
    let c = parsed(r"selection-word-chars = \t").selection.selection_word_chars;
    assert_eq!(c, vec!['\0', '\t']);
    let c = parsed(r"selection-word-chars = \\").selection.selection_word_chars;
    assert_eq!(c, vec!['\0', '\\']);

    // An empty value resets to the default (the engine's list).
    assert!(
        parsed("selection-word-chars = abc\nselection-word-chars =")
            .selection.selection_word_chars
            .is_empty()
    );
}

#[test]
fn font_synthetic_style_has_the_packed_struct_grammar() {
    // On by default, all three.
    assert_eq!(Config::default().fonts.font_synthetic_style, SyntheticStyle::all(true));
    // A bare bool sets every flag.
    assert_eq!(
        parsed("font-synthetic-style = false").fonts.font_synthetic_style,
        SyntheticStyle::all(false)
    );
    assert_eq!(
        parsed("font-synthetic-style = true").fonts.font_synthetic_style,
        SyntheticStyle::all(true)
    );
    // A list starts from the *defaults*, so `no-bold` disables only bold —
    // that is the easy mistake, and it must not be
    // "helpfully" extended to bold-italic.
    let s = parsed("font-synthetic-style = no-bold").fonts.font_synthetic_style;
    assert!(!s.bold && s.italic && s.bold_italic);
    let s = parsed("font-synthetic-style = no-bold,no-italic").fonts.font_synthetic_style;
    assert!(!s.bold && !s.italic && s.bold_italic);
    assert!(!parsed("font-synthetic-style = no-bold-italic").fonts.font_synthetic_style.bold_italic);
    // One unknown token rejects the whole value rather than half-applying it.
    assert_eq!(
        parsed("font-synthetic-style = no-bold,nope").fonts.font_synthetic_style,
        SyntheticStyle::all(true)
    );
    // An empty value resets to the default.
    assert_eq!(
        parsed("font-synthetic-style = false\nfont-synthetic-style =").fonts.font_synthetic_style,
        SyntheticStyle::all(true)
    );
}

#[test]
fn adjust_metrics_are_deltas_not_settings() {
    // `1` adds a pixel, it does not set the value to 1.
    assert_eq!(MetricModifier::parse("1"), Some(MetricModifier::Pixels(1)));
    assert_eq!(MetricModifier::parse("-2"), Some(MetricModifier::Pixels(-2)));
    assert_eq!(
        MetricModifier::parse("20%"),
        Some(MetricModifier::Percent("20".to_string()))
    );
    assert_eq!(MetricModifier::parse("nope"), None);

    assert_eq!(applied(&MetricModifier::Unset, 4.0), 4.0);
    assert_eq!(applied(&MetricModifier::Pixels(1), 4.0), 5.0);
    assert_eq!(applied(&MetricModifier::Percent("50".to_string()), 4.0), 6.0);
    // Clamped to at least 1: a zero-thickness line is invisible, which reads
    // as a missing glyph rather than a too-aggressive setting.
    assert_eq!(thickness(&MetricModifier::Pixels(-10), 2.0), 1.0);
    assert_eq!(thickness(&MetricModifier::Percent("-100".to_string()), 8.0), 1.0);
    // A *position* is not clamped: zero and negative are meaningful there (an
    // overline sits at 0 by definition).
    assert_eq!(applied(&MetricModifier::Pixels(-10), 2.0), -8.0);

    assert_eq!(
        parsed("adjust-box-thickness = 2").adjust.box_thickness,
        MetricModifier::Pixels(2)
    );
    assert_eq!(Config::default().adjust, MetricAdjust::unset());
}

#[test]
fn window_save_state_parses_and_only_always_restores() {
    assert_eq!(Config::default().lifetime.window_save_state, WindowSaveState::Default);
    assert_eq!(
        parsed("window-save-state = always").lifetime.window_save_state,
        WindowSaveState::Always
    );
    assert_eq!(
        parsed("window-save-state = never").lifetime.window_save_state,
        WindowSaveState::Never
    );
    assert_eq!(
        parsed("window-save-state = default").lifetime.window_save_state,
        WindowSaveState::Default
    );
    // `default` means "when the OS asks", and Windows never does.
    assert!(WindowSaveState::Always.restores());
    assert!(!WindowSaveState::Default.restores());
    assert!(!WindowSaveState::Never.restores());
}

#[test]
fn child_exit_keys_parse_with_upstream_defaults() {
    let d = Config::default();
    assert!(!d.commands.wait_after_command);
    assert_eq!(d.commands.abnormal_command_exit_runtime_ms, 250);
    assert!(parsed("wait-after-command = true").commands.wait_after_command);
    assert!(!parsed("wait-after-command = true\nwait-after-command =").commands.wait_after_command);
    assert_eq!(
        parsed("abnormal-command-exit-runtime = 1000").commands.abnormal_command_exit_runtime_ms,
        1000
    );
    // Garbage keeps the current value; empty resets.
    assert_eq!(
        parsed("abnormal-command-exit-runtime = 9\nabnormal-command-exit-runtime = x")
            .commands.abnormal_command_exit_runtime_ms,
        9
    );
    assert_eq!(
        parsed("abnormal-command-exit-runtime = 9\nabnormal-command-exit-runtime =")
            .commands.abnormal_command_exit_runtime_ms,
        250
    );
    assert_eq!(parsed("initial-command = cmd.exe").commands.initial_command.as_deref(), Some("cmd.exe"));
    assert_eq!(parsed("initial-command = x\ninitial-command =").commands.initial_command, None);
}

#[test]
fn env_is_an_ordered_map_with_reset_and_removal() {
    let kv = |s: &[(&str, &str)]| {
        s.iter()
            .map(|(k, v)| (k.to_string(), v.to_string()))
            .collect::<Vec<_>>()
    };
    assert_eq!(parsed("env = A=1\nenv = B=x=y").commands.env, kv(&[("A", "1"), ("B", "x=y")]));
    // Re-setting overwrites in place; `KEY=` removes; empty resets all.
    assert_eq!(parsed("env = A=1\nenv = B=2\nenv = A=3").commands.env, kv(&[("A", "3"), ("B", "2")]));
    assert_eq!(parsed("env = A=1\nenv = B=2\nenv = A=").commands.env, kv(&[("B", "2")]));
    assert!(parsed("env = A=1\nenv =").commands.env.is_empty());
    // No `=` at all is not a pair.
    assert!(parsed("env = A").commands.env.is_empty());
}

#[test]
fn input_parses_raw_and_path_with_zig_escapes() {
    let c = parsed("input = raw:echo hi\\r\ninput = plain\\x1b[A\ninput = path:C:\\\\x.txt");
    assert_eq!(
        c.commands.input,
        vec![
            InputSource::Raw(b"echo hi\r".to_vec()),
            InputSource::Raw(b"plain\x1b[A".to_vec()),
            InputSource::Path("C:\\x.txt".to_string()),
        ]
    );
    // Quoted values are unquoted first; `\u{..}` is UTF-8 encoded.
    assert_eq!(
        parsed("input = \"a\\u{e9}\\n\"").commands.input,
        vec![InputSource::Raw("a\u{e9}\n".as_bytes().to_vec())]
    );
    // An invalid escape rejects that value only; empty resets.
    assert_eq!(parsed("input = a\ninput = bad\\q").commands.input.len(), 1);
    assert!(parsed("input = a\ninput =").commands.input.is_empty());
}

#[test]
fn input_resolution_is_all_or_nothing() {
    let path = |p: &str| InputSource::Path(p.to_string());
    let ok = [InputSource::Raw(b"a".to_vec()), path("in.txt"), InputSource::Raw(b"b".to_vec())];
    let read = [None, Some(b"FILE".to_vec()), None];
    assert_eq!(resolve_input(&ok, &read).as_deref(), Some(&b"aFILEb"[..]));
    let bad = [InputSource::Raw(b"a".to_vec()), path("missing")];
    assert_eq!(resolve_input(&bad, &[None, None]), None);
}

#[test]
fn confirm_close_surface_parses_ghostty_enum() {
    assert_eq!(Config::default().lifetime.confirm_close, ConfirmClose::WhenBusy);
    assert_eq!(parsed("confirm-close-surface = false").lifetime.confirm_close, ConfirmClose::Never);
    assert_eq!(parsed("confirm-close-surface = true").lifetime.confirm_close, ConfirmClose::WhenBusy);
    assert_eq!(parsed("confirm-close-surface = always").lifetime.confirm_close, ConfirmClose::Always);
    assert_eq!(
        parsed("confirm-close-surface = false\nconfirm-close-surface = bogus").lifetime.confirm_close,
        ConfirmClose::Never
    );
    assert_eq!(
        parsed("confirm-close-surface = false\nconfirm-close-surface =").lifetime.confirm_close,
        ConfirmClose::WhenBusy
    );
}

#[test]
fn confirm_close_decision_table() {
    let nc = needs_confirm;
    // `false` never asks, whatever the pane is doing.
    for busy in [None, Some(true), Some(false)] {
        assert!(!nc(ConfirmClose::Never, busy), "{busy:?}");
        assert!(nc(ConfirmClose::Always, busy), "{busy:?}");
    }
    // `true` asks only when something is (or might be) running.
    assert!(nc(ConfirmClose::WhenBusy, Some(true)));
    assert!(!nc(ConfirmClose::WhenBusy, Some(false)));
    // Unknown → confirm: a shell with no OSC 133 marks must not lose work.
    assert!(nc(ConfirmClose::WhenBusy, None));
}

#[test]
fn resize_overlay_keys_parse_ghostty_values() {
    let d = Config::default();
    assert_eq!(d.layout.resize_overlay, ResizeOverlay::AfterFirst);
    assert_eq!(d.layout.resize_overlay_position, ResizeOverlayPosition::Center);
    assert_eq!(d.layout.resize_overlay_duration_ms, 750);

    assert_eq!(parsed("resize-overlay = always").layout.resize_overlay, ResizeOverlay::Always);
    assert_eq!(parsed("resize-overlay = never").layout.resize_overlay, ResizeOverlay::Never);
    assert_eq!(
        parsed("resize-overlay-position = bottom-right").layout.resize_overlay_position,
        ResizeOverlayPosition::BottomRight
    );
    // Garbage keeps the current value; empty resets.
    assert_eq!(
        parsed("resize-overlay = never\nresize-overlay = bogus").layout.resize_overlay,
        ResizeOverlay::Never
    );
    assert_eq!(
        parsed("resize-overlay = never\nresize-overlay =").layout.resize_overlay,
        ResizeOverlay::AfterFirst
    );
}

/// The default policy, so each test below varies one knob at a time.
fn policy() -> ClipboardPolicy {
    Config::default().clipboard.policy
}

#[test]
fn clipboard_defaults_match_ghostty() {
    let p = policy();
    // Reads leak the clipboard *out* to the program, so they're asked for;
    // writes only overwrite it, so they're allowed.
    assert_eq!(p.read, ClipboardAccess::Ask);
    assert_eq!(p.write, ClipboardAccess::Allow);
    assert!(p.trim_trailing_spaces);
    assert!(p.paste_protection);
    assert!(p.paste_bracketed_safe);
}

#[test]
fn clipboard_access_keys_parse_ghostty_values() {
    assert_eq!(parsed("clipboard-read = allow").clipboard.policy.read, ClipboardAccess::Allow);
    assert_eq!(parsed("clipboard-read = deny").clipboard.policy.read, ClipboardAccess::Deny);
    assert_eq!(parsed("clipboard-write = ask").clipboard.policy.write, ClipboardAccess::Ask);
    // Garbage keeps the current value; empty resets to the default.
    assert_eq!(
        parsed("clipboard-write = deny\nclipboard-write = maybe")
            .clipboard.policy
            .write,
        ClipboardAccess::Deny
    );
    assert_eq!(
        parsed("clipboard-write = deny\nclipboard-write =").clipboard.policy.write,
        ClipboardAccess::Allow
    );
}

#[test]
fn plain_text_is_always_safe_to_paste() {
    assert!(!paste_is_unsafe(policy(), false, "hello"));
    assert!(!paste_is_unsafe(policy(), true, "hello"));
    // A trailing-newline-free multi-token command is still one line.
    assert!(!paste_is_unsafe(policy(), false, "git commit -m 'x'"));
}

#[test]
fn newlines_are_unsafe_unless_the_program_brackets_the_paste() {
    // Unbracketed, a newline is a command the shell runs immediately.
    assert!(paste_is_unsafe(policy(), false, "ls\nrm -rf /"));
    assert!(paste_is_unsafe(policy(), false, "trailing\n"));
    // Bracketed, the program has promised to treat it as data.
    assert!(!paste_is_unsafe(policy(), true, "ls\nrm -rf /"));
}

#[test]
fn the_end_marker_is_never_trusted_even_when_bracketed() {
    // This is the attack `clipboard-paste-bracketed-safe` cannot defend
    // against: the payload closes the bracket itself, so everything after
    // it arrives as if typed. Checked *before* the bracketed-safe bail-out.
    let attack = "safe\x1b[201~rm -rf /";
    assert!(paste_is_unsafe(policy(), true, attack));
    assert!(paste_is_unsafe(policy(), false, attack));
    // And still flagged with bracketed-safe explicitly on.
    let trusting = ClipboardPolicy {
        paste_bracketed_safe: true,
        ..policy()
    };
    assert!(paste_is_unsafe(trusting, true, attack));
}

#[test]
fn distrusting_bracketing_falls_back_to_the_plain_rule() {
    let strict = ClipboardPolicy {
        paste_bracketed_safe: false,
        ..policy()
    };
    // Bracketing no longer excuses a newline…
    assert!(paste_is_unsafe(strict, true, "ls\nrm -rf /"));
    // …but plain text is still fine.
    assert!(!paste_is_unsafe(strict, true, "hello"));
}

#[test]
fn disabling_protection_allows_everything() {
    let off = ClipboardPolicy {
        paste_protection: false,
        ..policy()
    };
    assert!(!paste_is_unsafe(off, false, "ls\nrm -rf /"));
    assert!(!paste_is_unsafe(off, true, "safe\x1b[201~rm -rf /"));
}

#[test]
fn scrollbar_key_parses_ghostty_values() {
    assert_eq!(Config::default().layout.scrollbar, Scrollbar::System);
    assert_eq!(parsed("scrollbar = never").layout.scrollbar, Scrollbar::Never);
    assert_eq!(parsed("scrollbar = system").layout.scrollbar, Scrollbar::System);
    // Ghostty has no third value; anything else keeps the current one…
    assert_eq!(
        parsed("scrollbar = never\nscrollbar = always").layout.scrollbar,
        Scrollbar::Never
    );
    // …and an empty value resets to the default.
    assert_eq!(parsed("scrollbar = never\nscrollbar =").layout.scrollbar, Scrollbar::System);
}

#[test]
fn resize_overlay_duration_parses_ghostty_grammar() {
    let ms = |s: &str| parsed(&format!("resize-overlay-duration = {s}")).layout.resize_overlay_duration_ms;
    assert_eq!(ms("750ms"), 750);
    assert_eq!(ms("45s"), 45_000);
    // Components add…
    assert_eq!(ms("1h30m"), 5_400_000_u64.min(60_000));
    // …and repeat rather than overwrite (1h1h == 2h), though both clamp here.
    assert_eq!(ms("2s500ms"), 2_500);
    // A bare integer is milliseconds (a giest superset).
    assert_eq!(ms("300"), 300);
    // Clamped at both ends.
    assert_eq!(ms("10ms"), 250);
    assert_eq!(ms("999y"), 60_000);
    // Sub-millisecond parses but contributes nothing, then clamps up.
    assert_eq!(ms("500us"), 250);
    // Garbage keeps the current value.
    assert_eq!(
        parsed("resize-overlay-duration = 2s\nresize-overlay-duration = soon")
            .layout.resize_overlay_duration_ms,
        2_000
    );
}

#[test]
fn font_style_has_three_meanings_not_two() {
    let one = |body: &str| parsed(body).fonts.font_styles[0].clone();
    assert_eq!(one("font-style = default"), FontStyle::Default);
    assert_eq!(one("font-style = false"), FontStyle::Disabled);
    assert_eq!(one("font-style = Heavy"), FontStyle::Named("Heavy".into()));
    // A style name can contain spaces ("Light Italic" is a real subfamily),
    // so only the surrounding whitespace goes.
    assert_eq!(
        one("font-style =  Light Italic "),
        FontStyle::Named("Light Italic".into())
    );
    // `true` has no meaning of its own here, and *is* a name a
    // font could advertise — so it is a name, not the opposite of `false`.
    assert_eq!(one("font-style = true"), FontStyle::Named("true".into()));
    // An empty value resets, like every other key.
    assert_eq!(one("font-style = Heavy\nfont-style ="), FontStyle::Default);
}

#[test]
fn each_font_style_slot_is_independent() {
    let c = parsed(
        "font-style = Light\n\
         font-style-bold = Semibold\n\
         font-style-italic = false\n\
         font-style-bold-italic = default",
    );
    assert_eq!(c.fonts.font_styles[0], FontStyle::Named("Light".into()));
    assert_eq!(c.fonts.font_styles[1], FontStyle::Named("Semibold".into()));
    assert_eq!(c.fonts.font_styles[2], FontStyle::Disabled);
    assert_eq!(c.fonts.font_styles[3], FontStyle::Default);
}

#[test]
fn font_variation_parses_ghosttys_grammar() {
    let one = |body: &str| parsed(body).fonts.font_variations[0].clone();
    assert_eq!(
        one("font-variation = wght=200"),
        vec![FontVariation { tag: "wght".to_string(), value: "200".to_string() }]
    );
    // Space is trimmed around **both** halves — unlike `font-feature`, whose
    // value is handed to rustybuzz's stricter parser.
    assert_eq!(number(&one("font-variation = wght = 200.5")[0].value), 200.5);
    // Repeatable: one axis per line, appending.
    assert_eq!(
        one("font-variation = wght=200\nfont-variation = wdth=90")
            .iter()
            .map(|v| (v.tag_str(), number(&v.value)))
            .collect::<Vec<_>>(),
        vec![("wght".to_string(), 200.0), ("wdth".to_string(), 90.0)]
    );
    // …and **not** comma-split, which `font-feature` is: Ghostty takes one
    // axis per occurrence, so accepting a list here would bind a config a
    // real Ghostty rejects.
    assert!(one("font-variation = wght=200, wdth=90").is_empty());
    // An empty value resets the slot, like every other repeatable key.
    assert!(one("font-variation = wght=200\nfont-variation =").is_empty());
    // A tag must be exactly four ASCII characters, and the value a number.
    for bad in ["wgh=200", "weight=200", "wght=heavy", "wght", "=200", "wgh†=200"] {
        assert!(
            one(&format!("font-variation = {bad}")).is_empty(),
            "should reject {bad:?}"
        );
    }
}

#[test]
fn each_font_variation_slot_is_its_own_list() {
    // Each style gets **only** its own key's list, so
    // `font-variation` alone leaves the bold face at the font's default.
    // Nothing is inherited from the regular slot.
    let c = parsed(
        "font-variation = wght=300\n\
         font-variation-bold = wght=700\n\
         font-variation-italic = slnt=-10\n\
         font-variation-bold-italic = wght=700\n\
         font-variation-bold-italic = slnt=-10",
    );
    assert_eq!(c.fonts.font_variations[0].len(), 1);
    assert_eq!(number(&c.fonts.font_variations[1][0].value), 700.0);
    assert_eq!(c.fonts.font_variations[2][0].tag_str(), "slnt");
    assert_eq!(c.fonts.font_variations[3].len(), 2);
    // The regular slot is untouched by the others.
    assert_eq!(number(&c.fonts.font_variations[0][0].value), 300.0);
}

#[test]
fn undo_timeout_parses_the_duration_grammar_and_defaults_to_five_seconds() {
    let ms = |s: &str| parsed(&format!("undo-timeout = {s}")).commands.undo_timeout_ms;
    assert_eq!(Config::default().commands.undo_timeout_ms, 5_000);
    assert_eq!(ms("45s"), 45_000);
    assert_eq!(ms("1h30m"), 5_400_000);
    // **Unclamped, both ends, deliberately**: Ghostty documents `0` as
    // "undo is off" and a very large value as the sanctioned way to keep
    // operations around, so a clamp here would break both.
    assert_eq!(ms("0"), 0);
    assert_eq!(ms("1y"), 31_536_000_000);
    // Garbage keeps the current value rather than resetting to the default.
    assert_eq!(parsed("undo-timeout = 2s\nundo-timeout = later").commands.undo_timeout_ms, 2_000);
}

#[test]
fn show_resize_overlay_gates_the_first_layout() {
    let show = show_resize_overlay;
    // The whole point of `after-first`: a session's initial sizing is not a
    // "resize" the user did, so it must not flash.
    assert!(!show(ResizeOverlay::AfterFirst, true));
    assert!(show(ResizeOverlay::AfterFirst, false));
    assert!(show(ResizeOverlay::Always, true));
    assert!(show(ResizeOverlay::Always, false));
    assert!(!show(ResizeOverlay::Never, true));
    assert!(!show(ResizeOverlay::Never, false));
}

#[test]
fn osc_color_report_format_parses_each_value() {
    assert_eq!(Config::default().colors.osc_color_report_format, OscColorReportFormat::Bits16);
    assert_eq!(
        parsed("osc-color-report-format = none").colors.osc_color_report_format,
        OscColorReportFormat::Off
    );
    assert_eq!(
        parsed("osc-color-report-format = 8-bit").colors.osc_color_report_format,
        OscColorReportFormat::Bits8
    );
    // Garbage keeps the current value; empty resets.
    assert_eq!(
        parsed("osc-color-report-format = none\nosc-color-report-format = bogus")
            .colors.osc_color_report_format,
        OscColorReportFormat::Off
    );
    assert_eq!(
        parsed("osc-color-report-format = none\nosc-color-report-format =")
            .colors.osc_color_report_format,
        OscColorReportFormat::Bits16
    );
}

#[test]
fn bell_features_defaults_match_ghostty() {
    let b = Config::default().engine.bell;
    // Attention and title are on, everything else is off.
    assert!(b.attention && b.title);
    assert!(!b.system && !b.audio && !b.border);
}

#[test]
fn bell_features_parses_feature_list() {
    // A feature list starts from the *defaults*, so attention/title survive.
    let b = parsed("bell-features = audio").engine.bell;
    assert!(b.audio && b.attention && b.title);
    assert!(!b.system && !b.border);

    // `no-` disables one feature and leaves the rest at their defaults.
    let b = parsed("bell-features = no-title").engine.bell;
    assert!(!b.title && b.attention);

    let b = parsed("bell-features = system,border,no-attention").engine.bell;
    assert!(b.system && b.border && b.title);
    assert!(!b.attention && !b.audio);
}

#[test]
fn bell_features_bool_shorthand_sets_all() {
    for v in ["true", "t", "1"] {
        let b = parsed(&format!("bell-features = {v}")).engine.bell;
        assert!(b.system && b.audio && b.attention && b.title && b.border, "{v}");
    }
    for v in ["false", "f", "0"] {
        let b = parsed(&format!("bell-features = {v}")).engine.bell;
        assert!(!b.system && !b.audio && !b.attention && !b.title && !b.border, "{v}");
    }
    // Ghostty's packed-struct parser takes a *stricter* bool set than its
    // ordinary one, so these are unknown feature names, not booleans — and an
    // unknown name keeps the current value (see the wholesale-reject test).
    let b = parsed("bell-features = border\nbell-features = on").engine.bell;
    assert!(b.border, "'on' is not a packed-struct boolean");
}

#[test]
fn bell_features_rejects_unknown_token_wholesale() {
    // The valid `audio` before the bad token must NOT be kept.
    let c = parsed("bell-features = audio,bogus");
    assert_eq!(c.engine.bell, BellFeatures::default());
}

#[test]
fn bell_features_replaces_rather_than_accumulates() {
    // The second line wins outright: `system` is dropped, not merged.
    let b = parsed("bell-features = system\nbell-features = border").engine.bell;
    assert!(b.border && !b.system);
}

#[test]
fn bell_features_empty_resets_to_default() {
    let b = parsed("bell-features = true\nbell-features =").engine.bell;
    assert_eq!(b, BellFeatures::default());
}

#[test]
fn bell_audio_keys_parse() {
    assert_eq!(Config::default().engine.bell_audio_path, None);
    assert_eq!(bell_audio_volume(&Config::default()), 0.5);
    assert_eq!(
        parsed(r"bell-audio-path = C:\sounds\ding.wav").engine.bell_audio_path.as_deref(),
        Some(r"C:\sounds\ding.wav")
    );
    // Parsed and clamped even though playback can't honor it yet.
    assert_eq!(bell_audio_volume(&parsed("bell-audio-volume = 0.25")), 0.25);
    assert_eq!(bell_audio_volume(&parsed("bell-audio-volume = 9")), 1.0);
}

#[test]
fn background_opacity_parses_and_clamps() {
    assert_eq!(background_opacity(&Config::default()), 1.0);
    assert_eq!(background_opacity(&parsed("background-opacity = 0.85")), 0.85);
    // Ghostty clamps out-of-range opacities instead of rejecting them.
    assert_eq!(background_opacity(&parsed("background-opacity = -1")), 0.0);
    assert_eq!(background_opacity(&parsed("background-opacity = 2")), 1.0);
    // Empty resets; garbage keeps the current value.
    assert_eq!(
        background_opacity(&parsed("background-opacity = 0.5\nbackground-opacity =")),
        1.0
    );
    assert_eq!(
        background_opacity(&parsed("background-opacity = 0.5\nbackground-opacity = nope")),
        0.5
    );
}

#[test]
fn background_opacity_cells_parses() {
    assert!(!Config::default().backdrop.background_opacity_cells);
    assert!(parsed("background-opacity-cells = true").backdrop.background_opacity_cells);
    assert!(!parsed("background-opacity-cells = false").backdrop.background_opacity_cells);
    assert!(
        !parsed("background-opacity-cells = true\nbackground-opacity-cells =")
            .backdrop.background_opacity_cells
    );
}

#[test]
fn unfocused_split_opacity_clamps_to_ghostty_range() {
    assert_eq!(unfocused_split_opacity(&Config::default()), 0.7);
    assert_eq!(unfocused_split_opacity(&parsed("unfocused-split-opacity = 0.4")), 0.4);
    // The floor is 0.15, not 0 — Ghostty disallows a fully invisible split.
    assert_eq!(unfocused_split_opacity(&parsed("unfocused-split-opacity = 0.0")), 0.15);
    assert_eq!(unfocused_split_opacity(&parsed("unfocused-split-opacity = 2.0")), 1.0);
}

#[test]
fn unfocused_split_fill_defaults_none_and_parses_named_color() {
    assert_eq!(Config::default().backdrop.unfocused_split_fill, None);
    assert_eq!(
        parsed("unfocused-split-fill = #f80").backdrop.unfocused_split_fill,
        Some(Rgb::new(0xff, 0x88, 0x00))
    );
    assert_eq!(
        parsed("unfocused-split-fill = rebeccapurple").backdrop.unfocused_split_fill,
        Some(Rgb::new(0x66, 0x33, 0x99))
    );
}

#[test]
fn cursor_and_faint_opacity_parse_and_clamp() {
    assert_eq!(cursor_opacity(&Config::default()), 1.0);
    // Faint text is drawn at half strength.
    assert_eq!(faint_opacity(&Config::default()), 0.5);
    assert_eq!(cursor_opacity(&parsed("cursor-opacity = 0.4")), 0.4);
    assert_eq!(cursor_opacity(&parsed("cursor-opacity = 5")), 1.0);
    assert_eq!(faint_opacity(&parsed("faint-opacity = 0.1")), 0.1);
    assert_eq!(faint_opacity(&parsed("faint-opacity = -3")), 0.0);
}

#[test]
fn background_blur_parses_ghostty_grammar() {
    assert_eq!(Config::default().backdrop.background_blur, BackgroundBlur::Off);
    assert_eq!(parsed("background-blur = true").backdrop.background_blur, BackgroundBlur::On);
    assert_eq!(parsed("background-blur = false").backdrop.background_blur, BackgroundBlur::Off);
    // Ghostty's parseBool takes `0`/`1`, so those are bools — NOT radii.
    assert_eq!(parsed("background-blur = 0").backdrop.background_blur, BackgroundBlur::Off);
    assert_eq!(parsed("background-blur = 1").backdrop.background_blur, BackgroundBlur::On);
    // Only 2 and up reach the numeric branch.
    assert_eq!(
        parsed("background-blur = 20").backdrop.background_blur,
        BackgroundBlur::Radius(20)
    );
    // Out of u8 range: keep the current value, like Ghostty's parseInt error.
    assert_eq!(
        parsed("background-blur = 20\nbackground-blur = 300").backdrop.background_blur,
        BackgroundBlur::Radius(20)
    );
    // macOS glass implies plain `true` off macOS.
    assert_eq!(
        parsed("background-blur = macos-glass-clear").backdrop.background_blur,
        BackgroundBlur::On
    );

    assert_eq!(BackgroundBlur::On.intensity(), 20);
    // `Radius(0)` is disabled, matching Ghostty.
    assert!(!BackgroundBlur::Radius(0).enabled());
    assert!(BackgroundBlur::Radius(1).enabled());
}

#[test]
fn window_geometry_keys() {
    let d = Config::default();
    assert_eq!((d.layout.window_width, d.layout.window_height), (0, 0), "0 means unset");
    assert_eq!(d.layout.window_position_x, None);

    assert_eq!(parsed("window-width = 120").layout.window_width, 120);
    assert_eq!(parsed("window-height = 40").layout.window_height, 40);
    // Ghostty's 10x4 floor: a window below it is unusable, not merely small.
    assert_eq!(parsed("window-width = 2").layout.window_width, 10);
    assert_eq!(parsed("window-height = 1").layout.window_height, 4);
    // …but zero still means "let the OS decide", not "the minimum".
    assert_eq!(parsed("window-width = 0").layout.window_width, 0);
    // Garbage keeps the current value; empty resets.
    assert_eq!(parsed("window-width = 80\nwindow-width = wide").layout.window_width, 80);
    assert_eq!(parsed("window-width = 80\nwindow-width =").layout.window_width, 0);

    assert_eq!(parsed("window-position-x = 100").layout.window_position_x, Some(100));
    // Negative is legal: a monitor left of the primary has negative x.
    assert_eq!(parsed("window-position-y = -40").layout.window_position_y, Some(-40));
    assert_eq!(
        parsed("window-position-x = 10\nwindow-position-x =").layout.window_position_x,
        None
    );
}

#[test]
fn mouse_scroll_multiplier_grammar() {
    let d = mouse_scroll_multiplier(&Config::default());
    // Ghostty's split defaults: notched wheels move further per event.
    assert_eq!(d.precision, 1.0);
    assert_eq!(d.discrete, 3.0);

    // A bare number sets both.
    let m = mouse_scroll_multiplier(&parsed("mouse-scroll-multiplier = 2"));
    assert_eq!((m.precision, m.discrete), (2.0, 2.0));

    // Prefixes set them independently — Ghostty's own example.
    let m = mouse_scroll_multiplier(&parsed("mouse-scroll-multiplier = precision:0.1,discrete:3"));
    assert_eq!((m.precision, m.discrete), (0.1, 3.0));

    // One prefix leaves the other alone.
    let m = mouse_scroll_multiplier(&parsed("mouse-scroll-multiplier = discrete:5"));
    assert_eq!((m.precision, m.discrete), (1.0, 5.0));

    // Clamped to Ghostty's range at both ends.
    let m = mouse_scroll_multiplier(&parsed("mouse-scroll-multiplier = 0"));
    assert_eq!(m.discrete, 0.01, "zero would make the wheel a no-op");
    let m = mouse_scroll_multiplier(&parsed("mouse-scroll-multiplier = 999999"));
    assert_eq!(m.discrete, 10_000.0);

    // Garbage keeps the current value rather than half-applying.
    let m = mouse_scroll_multiplier(&parsed("mouse-scroll-multiplier = 4\nmouse-scroll-multiplier = sideways:2"));
    assert_eq!((m.precision, m.discrete), (4.0, 4.0));
    // Empty resets.
    let m = mouse_scroll_multiplier(&parsed("mouse-scroll-multiplier = 4\nmouse-scroll-multiplier ="));
    assert_eq!((m.precision, m.discrete), (1.0, 3.0));
}

#[test]
fn scroll_to_bottom_flags() {
    let d = Config::default().mouse.scroll_to_bottom;
    // Ghostty's default is `keystroke, no-output`.
    assert!(d.keystroke && !d.output);

    let s = parsed("scroll-to-bottom = output").mouse.scroll_to_bottom;
    assert!(s.keystroke && s.output, "a list starts from the defaults");
    let s = parsed("scroll-to-bottom = no-keystroke").mouse.scroll_to_bottom;
    assert!(!s.keystroke && !s.output);
    let s = parsed("scroll-to-bottom = no-keystroke,output").mouse.scroll_to_bottom;
    assert!(!s.keystroke && s.output);
    // An unknown name rejects the whole value.
    let s = parsed("scroll-to-bottom = no-keystroke\nscroll-to-bottom = output,bogus")
        .mouse.scroll_to_bottom;
    assert!(!s.keystroke, "a bad value must not half-apply");
}

#[test]
fn notify_on_command_finish_keys_match_ghostty() {
    let d = Config::default();
    // Opt-in: nothing happens until you ask for it.
    assert_eq!(d.commands.notify_on_command_finish, NotifyOnCommandFinish::Never);
    assert!(d.commands.notify_on_command_finish_action.bell);
    assert!(!d.commands.notify_on_command_finish_action.notify);
    assert_eq!(d.commands.notify_on_command_finish_after_ms, 5_000);

    for (v, want) in [
        ("never", NotifyOnCommandFinish::Never),
        ("unfocused", NotifyOnCommandFinish::Unfocused),
        ("always", NotifyOnCommandFinish::Always),
    ] {
        assert_eq!(
            parsed(&format!("notify-on-command-finish = {v}")).commands.notify_on_command_finish,
            want
        );
    }
    // Unknown keeps the current value; empty resets to the default.
    assert_eq!(
        parsed("notify-on-command-finish = always\nnotify-on-command-finish = bogus")
            .commands.notify_on_command_finish,
        NotifyOnCommandFinish::Always
    );
    assert_eq!(
        parsed("notify-on-command-finish = always\nnotify-on-command-finish =")
            .commands.notify_on_command_finish,
        NotifyOnCommandFinish::Never
    );

    // Ghostty's own documented example.
    let a = parsed("notify-on-command-finish-action = no-bell,notify")
        .commands.notify_on_command_finish_action;
    assert!(!a.bell && a.notify);
    // A list starts from the defaults, so naming only `notify` leaves the
    // bell on — same rule as `bell-features`.
    let a = parsed("notify-on-command-finish-action = notify").commands.notify_on_command_finish_action;
    assert!(a.bell && a.notify);
    // One unknown name rejects the whole value.
    let a = parsed("notify-on-command-finish-action = no-bell\nnotify-on-command-finish-action = bell,nope")
        .commands.notify_on_command_finish_action;
    assert!(!a.bell, "a bad value must not half-apply");

    // Ghostty's additive duration grammar, shared with resize-overlay.
    assert_eq!(
        parsed("notify-on-command-finish-after = 45s").commands.notify_on_command_finish_after_ms,
        45_000
    );
    assert_eq!(
        parsed("notify-on-command-finish-after = 1h30m").commands.notify_on_command_finish_after_ms,
        5_400_000
    );
    // Zero means "every command" — this key is deliberately not clamped the
    // way `resize-overlay-duration` is.
    assert_eq!(
        parsed("notify-on-command-finish-after = 0").commands.notify_on_command_finish_after_ms,
        0
    );
}

#[test]
fn notify_focus_gate() {
    let go = should_notify_on_finish;
    // never: nothing, either way.
    assert!(!go(NotifyOnCommandFinish::Never, true));
    assert!(!go(NotifyOnCommandFinish::Never, false));
    // unfocused: only when you've looked away.
    assert!(!go(NotifyOnCommandFinish::Unfocused, true));
    assert!(go(NotifyOnCommandFinish::Unfocused, false));
    // always: both.
    assert!(go(NotifyOnCommandFinish::Always, true));
    assert!(go(NotifyOnCommandFinish::Always, false));
}

#[test]
fn background_image_keys_match_ghostty() {
    let d = Config::default();
    assert_eq!(d.backdrop.background_image, None);
    assert_eq!(background_image_opacity(&d), 1.0);
    assert_eq!(d.backdrop.background_image_position, BackgroundImagePosition::Center);
    assert_eq!(d.backdrop.background_image_fit, BackgroundImageFit::Contain);
    assert!(!d.backdrop.background_image_repeat);

    // The path is stored raw; resolution happens at the use site.
    assert_eq!(
        parsed(r"background-image = C:\pics\wall.png")
            .backdrop.background_image
            .as_deref(),
        Some(r"C:\pics\wall.png")
    );
    assert_eq!(
        parsed("background-image = wall.png\nbackground-image =").backdrop.background_image,
        None
    );

    for (v, want) in [
        ("contain", BackgroundImageFit::Contain),
        ("cover", BackgroundImageFit::Cover),
        ("stretch", BackgroundImageFit::Stretch),
        ("none", BackgroundImageFit::Unscaled),
    ] {
        assert_eq!(
            parsed(&format!("background-image-fit = {v}")).backdrop.background_image_fit,
            want
        );
    }
    // An unknown value keeps the current setting rather than resetting.
    assert_eq!(
        parsed("background-image-fit = cover\nbackground-image-fit = bogus").backdrop.background_image_fit,
        BackgroundImageFit::Cover
    );

    for (v, want) in [
        ("top-left", BackgroundImagePosition::TopLeft),
        ("top-center", BackgroundImagePosition::TopCenter),
        ("top-right", BackgroundImagePosition::TopRight),
        ("center-left", BackgroundImagePosition::CenterLeft),
        ("center", BackgroundImagePosition::Center),
        // Ghostty's enum spells the middle both ways.
        ("center-center", BackgroundImagePosition::Center),
        ("center-right", BackgroundImagePosition::CenterRight),
        ("bottom-left", BackgroundImagePosition::BottomLeft),
        ("bottom-center", BackgroundImagePosition::BottomCenter),
        ("bottom-right", BackgroundImagePosition::BottomRight),
    ] {
        assert_eq!(
            parsed(&format!("background-image-position = {v}")).backdrop.background_image_position,
            want,
            "{v}"
        );
    }

    assert!(parsed("background-image-repeat = true").backdrop.background_image_repeat);
    assert!(!parsed("background-image-repeat = true\nbackground-image-repeat =")
        .backdrop.background_image_repeat);
}

#[test]
fn background_image_opacity_allows_values_above_one() {
    // Ghostty documents >1 as meaningful (the image ends up more opaque than
    // the background color), so this must NOT clamp to 1.0 the way
    // `background-opacity` does.
    assert_eq!(
        background_image_opacity(&parsed("background-image-opacity = 1.5")),
        1.5
    );
    assert_eq!(
        background_image_opacity(&parsed("background-image-opacity = 0.25")),
        0.25
    );
    // Negative is nonsense and clamps to zero (fully hidden image).
    assert_eq!(
        background_image_opacity(&parsed("background-image-opacity = -1")),
        0.0
    );
    assert_eq!(
        background_image_opacity(&parsed("background-image-opacity = 2\nbackground-image-opacity =")),
        1.0
    );
}

#[test]
fn path_values_resolve_relative_to_the_config_dir() {
    let dir = Some(r"C:\Users\me\AppData\Roaming\giest");
    assert_eq!(resolve_path("wall.png", dir), Some(located(dir, "wall.png")));
    assert_eq!(
        resolve_path(r"C:\pics\wall.png", dir),
        Some(located(dir, r"C:\pics\wall.png"))
    );
    // Blank means unset, not "the config directory".
    assert_eq!(resolve_path("   ", dir), None);
    // With no config file at all, a relative path stays relative.
    assert_eq!(resolve_path("wall.png", None), Some(located(None, "wall.png")));
}

#[test]
fn font_family_and_feature_keys_parse() {
    let c = parsed(
        "font-family = Cascadia Code\n\
         font-family-bold = Cascadia Code SemiBold\n\
         font-family-italic = Cascadia Code Italic\n\
         font-feature = -calt\n\
         font-feature = ss01, cv01",
    );
    assert_eq!(c.fonts.font_family, vec!["Cascadia Code"]);
    assert_eq!(c.fonts.font_family_bold.as_deref(), Some("Cascadia Code SemiBold"));
    assert_eq!(c.fonts.font_family_italic.as_deref(), Some("Cascadia Code Italic"));
    assert_eq!(c.fonts.font_family_bold_italic, None);
    // Repeatable; each value is a comma-separated list.
    assert_eq!(c.fonts.font_features, vec!["-calt", "ss01", "cv01"]);
    // Comma-only split (not whitespace): a feature's own value syntax keeps
    // its spaces, so `liga off` is one feature the shaper resolves to liga=0.
    assert_eq!(parsed("font-feature = liga off").fonts.font_features, vec!["liga off"]);

    // Defaults and resets.
    assert!(Config::default().fonts.font_family.is_empty());
    assert!(Config::default().fonts.font_features.is_empty());
    assert!(
        parsed("font-family = Foo\nfont-family =")
            .fonts.font_family
            .is_empty()
    );
    // Repeatable: each line appends to the fallback chain, in order.
    assert_eq!(
        parsed("font-family = Foo\nfont-family = Bar").fonts.font_family,
        vec!["Foo", "Bar"]
    );
    // Only an empty value resets; `clear` is not special (stored as a literal
    // token the shaper later drops — matching Ghostty).
    assert!(parsed("font-feature = -calt\nfont-feature =").fonts.font_features.is_empty());
    assert_eq!(
        parsed("font-feature = -calt\nfont-feature = clear").fonts.font_features,
        vec!["-calt", "clear"]
    );
}

#[test]
fn cursor_style_and_blink_parse() {
    let d = Config::default();
    assert_eq!(d.colors.cursor_style, CursorShape::Block);
    assert_eq!(d.colors.cursor_style_blink, None);

    assert_eq!(parsed("cursor-style = bar").colors.cursor_style, CursorShape::Bar);
    assert_eq!(
        parsed("cursor-style = underline").colors.cursor_style,
        CursorShape::Underline
    );
    // Garbage keeps the current; empty resets to default.
    assert_eq!(parsed("cursor-style = wat").colors.cursor_style, CursorShape::Block);
    assert_eq!(parsed("cursor-style =").colors.cursor_style, CursorShape::Block);

    assert_eq!(
        parsed("cursor-style-blink = true").colors.cursor_style_blink,
        Some(true)
    );
    assert_eq!(
        parsed("cursor-style-blink = false").colors.cursor_style_blink,
        Some(false)
    );
    assert_eq!(parsed("cursor-style-blink =").colors.cursor_style_blink, None);
}

#[test]
fn bold_color_and_bold_is_bright_parse() {
    assert_eq!(Config::default().colors.bold_color, BoldColor::Off);
    assert_eq!(parsed("bold-color = bright").colors.bold_color, BoldColor::Bright);
    assert_eq!(
        parsed("bold-color = #ff8800").colors.bold_color,
        BoldColor::Color(Rgb::new(0xff, 0x88, 0x00))
    );
    // Deprecated alias.
    assert_eq!(parsed("bold-is-bright = true").colors.bold_color, BoldColor::Bright);
    assert_eq!(parsed("bold-is-bright = false").colors.bold_color, BoldColor::Off);
    // Empty resets; garbage keeps the current (default here).
    assert_eq!(parsed("bold-color =").colors.bold_color, BoldColor::Off);
    assert_eq!(parsed("bold-color = nonsense").colors.bold_color, BoldColor::Off);
}

#[test]
fn minimum_contrast_parses_and_clamps() {
    assert_eq!(min_contrast(&Config::default()), 1.0);
    assert_eq!(min_contrast(&parsed("minimum-contrast = 4.5")), 4.5);
    // Clamped to [1.0, 21.0].
    assert_eq!(min_contrast(&parsed("minimum-contrast = 0.2")), 1.0);
    assert_eq!(min_contrast(&parsed("minimum-contrast = 99")), 21.0);
    assert_eq!(min_contrast(&parsed("minimum-contrast =")), 1.0);
}

#[test]
fn theme_spec_selects_dark_variant() {
    // A bare name passes through; the dual `light:/dark:` form picks dark.
    assert_eq!(select_theme_variant("dracula"), "dracula");
    assert_eq!(select_theme_variant("light:rosewater,dark:mocha"), "mocha");
    assert_eq!(select_theme_variant("dark:nord"), "nord");
    assert_eq!(select_theme_variant("light:onlylight"), "onlylight");
    assert_eq!(select_theme_variant(""), "");
}

#[test]
fn unresolved_theme_is_ignored_but_other_keys_apply() {
    // `theme` resolves out-of-band; an unknown theme is ignored and must not
    // discard the supported keys around it.
    let c = parsed("theme = does-not-exist\nfont-size = 21\nbackground = #010203");
    assert_eq!(font_points(&c), 21.0);
    assert_eq!(c.colors.bg, Rgb::new(1, 2, 3));
}

#[test]
fn diagnostics_collect_unknown_keys_bad_values_and_malformed_lines() {
    let c = parsed("frobnicate = 1\nnot a key value line\nfont-size = 15\nbell-features = bogus");
    // Parsing otherwise proceeds exactly as before: the good line applies.
    assert_eq!(font_points(&c), 15.0);
    assert_eq!(c.diagnostics.len(), 3, "{:?}", c.diagnostics);
    assert!(c.diagnostics[0].contains("frobnicate"));
    assert!(c.diagnostics[1].contains("malformed config line 2"));
    assert!(c.diagnostics[2].contains("bell-features"));
    // The stderr prefix is stripped for the dialog.
    assert!(c.diagnostics.iter().all(|d| !d.starts_with("giest: ")));
}

#[test]
fn diagnostics_are_empty_for_a_clean_config_and_do_not_leak_between_loads() {
    let _ = parsed("frobnicate = 1");
    let c = parsed("font-size = 12");
    assert!(c.diagnostics.is_empty(), "{:?}", c.diagnostics);
}

#[test]
fn diagnostics_report_a_missing_theme() {
    let c = parsed("theme = does-not-exist");
    assert!(c.diagnostics.iter().any(|d| d.contains("does-not-exist")));
}

#[test]
fn diagnostics_cover_unreadable_includes_across_files() {
    let c = load(
        &[
            ("inc", "nope = 1"),
            ("config", "config-file = inc\nconfig-file = missing\nconfig-file = ?quiet"),
        ],
        "config",
    );
    assert_eq!(c.diagnostics.len(), 2, "{:?}", c.diagnostics);
    assert!(c.diagnostics.iter().any(|d| d.contains("'nope'")));
    assert!(c.diagnostics.iter().any(|d| d.contains("missing")));
}

#[test]
fn app_notifications_defaults_are_all_on() {
    let d = Config::default().engine.app_notifications;
    assert!(d.clipboard_copy && d.config_reload);
}

#[test]
fn app_notifications_parses_flags_from_defaults() {
    let c = parsed("app-notifications = no-clipboard-copy");
    assert!(!c.engine.app_notifications.clipboard_copy);
    assert!(c.engine.app_notifications.config_reload);
    let c = parsed("app-notifications = no-config-reload, clipboard-copy");
    assert!(c.engine.app_notifications.clipboard_copy && !c.engine.app_notifications.config_reload);
    // A second line replaces rather than accumulates.
    let c = parsed(
        "app-notifications = no-clipboard-copy\napp-notifications = no-config-reload",
    );
    assert!(c.engine.app_notifications.clipboard_copy && !c.engine.app_notifications.config_reload);
}

#[test]
fn app_notifications_bool_shorthand_errors_and_reset() {
    assert_eq!(
        parsed("app-notifications = false").engine.app_notifications,
        AppNotifications { clipboard_copy: false, config_reload: false }
    );
    // Only the strict packed-struct booleans; `off` is an unknown flag and
    // rejects the value wholesale (the previous value stays).
    let c = parsed("app-notifications = false\napp-notifications = off");
    assert!(!c.engine.app_notifications.clipboard_copy);
    assert!(c.diagnostics.iter().any(|d| d.contains("app-notifications")));
    let c = parsed("app-notifications = false\napp-notifications =");
    assert_eq!(c.engine.app_notifications, AppNotifications::default());
}

#[test]
fn key_remap_is_repeatable_and_resettable() {
    let c = parsed("key-remap = ctrl=alt\nkey-remap = bogus\nkey-remap = left_shift=super");
    assert_eq!(c.commands.key_remap.len(), 2);
    assert!(parsed("key-remap = ctrl=alt\nkey-remap =").commands.key_remap.is_empty());
}

#[test]
fn shell_integration_keys_parse_with_upstream_defaults() {
    let integration = |s: &str| parsed(s).commands.shell_integration;
    let features = |s: &str| parsed(s).commands.shell_integration_features;
    let d = Config::default();
    assert_eq!(d.commands.shell_integration, ShellIntegration::Detect);
    let f = d.commands.shell_integration_features;
    assert!(f.cursor && f.title && f.path);
    assert!(!f.sudo && !f.ssh_env && !f.ssh_terminfo);

    assert_eq!(integration("shell-integration = none"), ShellIntegration::Off);
    assert_eq!(integration("shell-integration = zsh"), ShellIntegration::Zsh);
    assert_eq!(integration("shell-integration = nushell"), ShellIntegration::Nushell);
    // Invalid keeps the prior value; empty resets.
    assert_eq!(
        integration("shell-integration = fish\nshell-integration = wat"),
        ShellIntegration::Fish
    );
    assert_eq!(
        integration("shell-integration = fish\nshell-integration ="),
        ShellIntegration::Detect
    );

    let f = features("shell-integration-features = no-cursor,sudo");
    assert!(!f.cursor && f.sudo && f.title && f.path);
    // Omitted features take their *default*, not the previous line's value.
    let f = features("shell-integration-features = no-title\nshell-integration-features = sudo");
    assert!(f.title && f.sudo);
    let f = features("shell-integration-features = false");
    assert_eq!(
        f,
        ShellFeatures {
            cursor: false,
            sudo: false,
            title: false,
            ssh_env: false,
            ssh_terminfo: false,
            path: false
        }
    );
    assert!(features("shell-integration-features = true").ssh_terminfo);
    // An unknown feature rejects the whole value.
    let f = features("shell-integration-features = no-cursor,bogus");
    assert!(f.cursor);
}
