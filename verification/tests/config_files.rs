//! Themes, problems and the small grammars of a configuration.

use giest::config::apply::set_font_style;
use giest::config::color::xterm_palette;
use giest::config::lines::{config_value, parse_include, unquote};
use giest::config::set::{limit, parse_font_variation, parse_scroll_multiplier};
use giest::config::{
    config_file, giest_ansi16, home_directory, input_readable, parse_codepoint_ranges, parse_duration_ms, parse_zig_string,
    theme_files, theme_wanted, x11_colors, Config, CustomShaderAnimation, FontStyle, Located,
    MouseScrollMultiplier, ScrollToBottom, Surroundings, ThemeFile, WindowTheme,
};
use giest::engine::Rgb;

fn surroundings() -> Surroundings {
    Surroundings { home: None, colors: x11_colors("1 2 3\t\tred\n255 0 0\t\tRed\nnot a line\n") }
}

fn themed(body: &str, theme: ThemeFile) -> Config {
    Config::from_ghostty_config(body, &theme, &surroundings())
}

fn parsed(body: &str) -> Config {
    themed(body, ThemeFile::Missing)
}

#[test]
fn a_theme_is_the_base_under_the_own_keys() {
    let theme = ThemeFile::Body("background = #101010\nforeground = #202020".to_string());
    let c = themed("foreground = #303030\ntheme = dusk", theme);
    assert_eq!(c.colors.bg, Rgb::new(0x10, 0x10, 0x10));
    assert_eq!(c.colors.fg, Rgb::new(0x30, 0x30, 0x30));
    assert!(c.diagnostics.is_empty());
    assert_eq!(theme_wanted("theme = light:a, dark:b"), Some("b".to_string()));
    assert_eq!(theme_wanted("theme ="), None);
    assert_eq!(theme_wanted("font-size = 3"), None);
}

#[test]
fn a_theme_that_cannot_be_read_is_reported() {
    let why = ThemeFile::Unreadable("/t/dusk".to_string(), "denied".to_string());
    let c = themed("theme = dusk", why);
    assert_eq!(c.diagnostics, vec!["could not read theme file /t/dusk: denied"]);
    let c = parsed("theme = dusk");
    assert_eq!(
        c.diagnostics,
        vec!["theme 'dusk' not found (looked in <config-dir>/themes/)"]
    );
    // Without the key no file is looked for, whatever it holds.
    let c = themed("", ThemeFile::Body("background = #101010".to_string()));
    assert_eq!(c.colors.bg, Config::default().colors.bg);
}

#[test]
fn an_empty_value_undoes_a_key() {
    for (key, value) in [
        ("maximize", "true"),
        ("window-theme", "dark"),
        ("custom-shader", "a.glsl"),
        ("keybind", "ctrl+a=new_tab"),
        ("font-family", "Foo"),
        ("scrollback-limit", "5"),
    ] {
        let c = parsed(&format!("{key} = {value}\n{key} ="));
        let d = Config::default();
        assert_eq!(c.windows.maximize, d.windows.maximize);
        assert_eq!(c.backdrop.window_theme, WindowTheme::Auto);
        assert!(c.backdrop.custom_shaders.is_empty() && c.fonts.font_family.is_empty());
        assert_eq!(c.commands.keybinds, d.commands.keybinds, "{key}");
        assert_eq!(c.engine.scrollback_limit, d.engine.scrollback_limit);
        assert!(c.diagnostics.is_empty(), "{key}: {:?}", c.diagnostics);
    }
}

#[test]
fn a_key_that_is_not_known_only_reports() {
    let c = parsed("nosuch = 1");
    assert_eq!(c.diagnostics, vec!["ignoring unsupported config key 'nosuch'"]);
    assert_eq!(c.colors.palette, Config::default().colors.palette);
}

#[test]
fn a_malformed_line_is_reported_with_its_number() {
    let c = parsed("maximize = true\n  what is this\n");
    assert!(c.windows.maximize);
    assert_eq!(c.diagnostics, vec!["ignoring malformed config line 2:   what is this"]);
}

#[test]
fn a_palette_entry_marks_its_index() {
    let c = parsed("palette = 77=#010203");
    assert!(c.palette_index_set(77));
    assert!(!c.palette_index_set(76) && !c.palette_index_set(0));
    assert_eq!(c.colors.palette[77], Rgb::new(1, 2, 3));
}

#[test]
fn of_two_names_the_later_counts() {
    assert_eq!(parsed("foreground = RED").colors.fg, Rgb::new(255, 0, 0));
    assert_eq!(parsed("foreground = not").colors.fg, Config::default().colors.fg);
}

#[test]
fn the_colour_cube_has_its_steps() {
    let p = xterm_palette(giest_ansi16());
    assert_eq!(p[17], Rgb::new(0, 0, 95));
    assert_eq!(p[16 + 36 * 2 + 6 * 3 + 5], Rgb::new(135, 175, 255));
    assert_eq!(p[255], Rgb::new(238, 238, 238));
}

#[test]
fn durations_add_up() {
    assert_eq!(parse_duration_ms("1h30m500ms"), Some(5_400_500));
    assert_eq!(parse_duration_ms(" 12 "), Some(12));
    assert_eq!(parse_duration_ms("1500us"), Some(1));
    assert_eq!(parse_duration_ms("1w"), Some(604_800_000));
    assert_eq!(parse_duration_ms("5"), Some(5));
    assert_eq!(parse_duration_ms(""), None);
    assert_eq!(parse_duration_ms("5x"), None);
    assert_eq!(parse_duration_ms("5s3"), None);
}

#[test]
fn escapes_are_bytes() {
    assert_eq!(parse_zig_string(r#"\n\r\t\\\'\"\xff\u{e9}z"#), Some(b"\n\r\t\\'\"\xff\xc3\xa9z".to_vec()));
    assert_eq!(parse_zig_string(r"\x4"), None);
    assert_eq!(parse_zig_string(r"\u{d800}"), None);
    assert_eq!(parse_zig_string(r"\u{41"), None);
    assert_eq!(parse_zig_string(r"\"), None);
}

#[test]
fn ranges_name_characters() {
    assert_eq!(parse_codepoint_ranges("U+41, u+61-U+7A"), Some(vec![(0x41, 0x41), (0x61, 0x7a)]));
    assert_eq!(parse_codepoint_ranges("U+D800"), None);
    assert_eq!(parse_codepoint_ranges("U+62-U+61"), None);
    assert_eq!(parse_codepoint_ranges(""), None);
}

#[test]
fn values_are_unquoted_once() {
    let cs: Vec<char> = "\"a b\"".chars().collect();
    assert_eq!(unquote(&cs), &['a', ' ', 'b']);
    assert_eq!(unquote(&cs[1..]), &cs[1..]);
    assert_eq!(config_value("# k = 1\nk = \"2\"\nk = 3", "k"), Some("3".to_string()));
    assert_eq!(config_value("kk = 1", "k"), None);
}

#[test]
fn an_include_may_be_optional() {
    let (f, optional) = parse_include(" ? a/b ", Some("/c")).unwrap();
    assert_eq!((f.base.as_deref(), f.path.as_str(), optional), (Some("/c"), "a/b", true));
    assert!(parse_include("?", None).is_none());
    assert!(!parse_include("x", None).unwrap().1);
}

#[test]
fn numbers_and_limits() {
    assert_eq!(limit("unlimited", Some(3), Some(7)), None);
    assert_eq!(limit("12", Some(3), Some(7)), Some(12));
    assert_eq!(limit("", Some(3), Some(7)), Some(3));
    assert_eq!(limit("many", Some(3), Some(7)), Some(7));
    assert!(input_readable(true, 10 * 1024 * 1024));
    assert!(!input_readable(true, 10 * 1024 * 1024 + 1) && !input_readable(false, 1));
    assert_eq!(parse_font_variation("wght=1e3").map(|v| v.value), Some("1e3".to_string()));
    assert!(parse_font_variation("wght=x").is_none());
    let m = MouseScrollMultiplier { precision: None, discrete: None };
    let m = parse_scroll_multiplier("precision:2", &m).unwrap();
    assert_eq!((m.precision.as_deref(), m.discrete.as_deref()), (Some("2"), None));
}

#[test]
fn one_style_is_changed_at_a_time() {
    let mut styles =
        [FontStyle::Default, FontStyle::Default, FontStyle::Default, FontStyle::Default];
    set_font_style(&mut styles, "Heavy", 2);
    assert_eq!(styles[2], FontStyle::Named("Heavy".to_string()));
    assert_eq!(styles[0], FontStyle::Default);
    assert!(CustomShaderAnimation::Always.animates(false));
}

#[test]
fn refused_values_are_quoted_in_the_report() {
    let c = parsed("bell-features = a\"b");
    assert_eq!(c.diagnostics.len(), 1);
    assert!(c.diagnostics[0].contains("bell-features"), "{:?}", c.diagnostics);
    let c = parsed("font-variation = no\"pe");
    assert_eq!(
        c.diagnostics,
        vec![
            "font-variation: expected a 4-character axis and a number, e.g. `wght=200`; \
             got \"no\\\"pe\""
        ]
    );
    let c = parsed("adjust-cell-width = x");
    assert_eq!(
        c.diagnostics,
        vec!["ignoring adjustment 'x' (expected a number like '1', '-2' or '20%')"]
    );
}

#[test]
fn a_key_stays_in_its_group() {
    let c = parsed("background = #010203");
    let d = Config::default();
    assert_eq!(c.colors.bg, Rgb::new(1, 2, 3));
    assert_eq!(c.fonts.font_family, d.fonts.font_family);
    assert_eq!(c.windows.maximize, d.windows.maximize);
    assert_eq!(c.engine.scrollback_limit, d.engine.scrollback_limit);
}

#[test]
fn the_own_background_wins_wherever_it_stands() {
    let theme = || ThemeFile::Body("background = #ffffff".to_string());
    let want = Rgb::new(1, 2, 3);
    assert_eq!(themed("background = #010203\ntheme = dusk", theme()).colors.bg, want);
    assert_eq!(themed("theme = dusk\nbackground = #010203\nmaximize = true", theme()).colors.bg, want);
    assert_eq!(
        themed("background = #040506\nbackground = #010203\ntheme = dusk", theme()).colors.bg,
        want
    );
}

#[test]
fn a_duration_behind_another_adds_to_it() {
    let ms = |s: &str| parse_duration_ms(s).unwrap();
    assert_eq!(ms("1h1h"), ms("2h"));
    assert_eq!(ms("3s20ms"), ms("3s") + ms("20ms"));
}

#[test]
fn an_unreadable_value_keeps_the_setting() {
    assert!(parsed("maximize = true\nmaximize = bogus").windows.maximize);
    assert!(!parsed("maximize = true\nmaximize =").windows.maximize);
    assert!(!parsed("window-vsync = false\nwindow-vsync = maybe").windows.window_vsync);
    let c = parsed("clipboard-paste-protection = no\nclipboard-paste-protection = ?");
    assert!(!c.clipboard.policy.paste_protection);
    let c = parsed("scrollback-limit-lines = 5\nscrollback-limit-lines = x");
    assert_eq!(c.engine.scrollback_limit_lines, Some(5));
    let c = parsed("scrollback-limit-bytes = 5\nscrollback-limit-bytes = x");
    assert_eq!(c.engine.scrollback_limit, 5);
    let c = parsed("clipboard-write-limit-bytes = unlimited\nclipboard-write-limit-bytes = x");
    assert_eq!(c.clipboard.policy.write_limit, None);
    let c = parsed("grapheme-width-method = legacy\ngrapheme-width-method = x");
    assert!(!c.engine.grapheme_unicode);
}

#[test]
fn scroll_to_bottom_takes_a_bare_boolean() {
    let s = |v: &str| parsed(&format!("scroll-to-bottom = {v}")).mouse.scroll_to_bottom;
    assert_eq!(s("true"), ScrollToBottom { keystroke: true, output: true });
    assert_eq!(s("f"), ScrollToBottom { keystroke: false, output: false });
    // `yes` is no flag and no bare boolean of a list.
    assert_eq!(s("yes"), ScrollToBottom { keystroke: true, output: false });
}

fn located(base: Option<&str>, path: &str) -> Located {
    Located { base: base.map(str::to_string), path: path.to_string() }
}

#[test]
fn the_config_file_is_the_given_one_or_the_users() {
    assert_eq!(config_file(Some("x"), Some("y")), Some(located(None, "x")));
    assert_eq!(config_file(None, Some("y")), Some(located(Some("y"), "giest\\config")));
    assert_eq!(config_file(None, None), None);
    assert_eq!(home_directory(Some("p"), Some("d"), None), Some(located(None, "p")));
    assert_eq!(home_directory(None, Some("C:"), Some("\\u")), Some(located(Some("C:"), "\\u")));
    assert_eq!(home_directory(None, Some("C:"), None), None);
}

#[test]
fn a_theme_is_looked_for_as_a_path_first() {
    assert_eq!(
        theme_files("~/dusk", Some("/h"), Some("/c/themes")),
        vec![located(Some("/h"), "dusk"), located(Some("/c/themes"), "~/dusk")]
    );
    assert_eq!(theme_files("dusk", None, None), vec![located(None, "dusk")]);
}

#[test]
fn durations_add_in_milliseconds_up_to_the_largest_number() {
    let ms = |s: &str| parse_duration_ms(s).unwrap();
    assert_eq!(ms("2m5ms"), ms("2m") + ms("5ms"));
    assert_eq!(ms("999999999999y1h"), u64::MAX);
    // Less than a millisecond counts for nothing, but two halves make one.
    assert_eq!((ms("500us"), ms("500us500us")), (0, 1));
}
