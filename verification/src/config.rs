//! Terminal configuration: Ghostty's `key = value` format over built-in
//! defaults.

pub mod apply;
pub mod color;
pub mod entry;
pub mod flags;
pub mod grammar;
pub mod laws;
pub mod lines;
pub mod meaning;
pub mod load;
pub mod parts;
pub mod set;
pub mod settings;
pub mod values;
pub mod words;

pub use self::color::{
    giest_ansi16, parse_color, parse_hex, parse_palette_entry, x11_colors, ColorNames,
    TerminalColor,
};
pub use self::entry::{parse_command_palette_entry, PaletteEntry};
pub use self::flags::{
    AppNotifications, BellFeatures, NotifyOnCommandFinishAction, ScrollToBottom, ShellFeatures,
    SyntheticStyle,
};
pub use self::grammar::{
    map_clipboard_text, parse_clipboard_map, parse_codepoint_ranges, parse_duration_ms,
    parse_zig_string, ClipboardMap,
};
pub use self::lines::{
    config_file, expand_home, home_directory, input_readable, resolve_input, resolve_path,
    select_theme_variant, theme_files, FontStyle, InputSource, Located,
};
pub use self::load::{theme_wanted, IncludeFailure, Includes, ThemeFile};
pub use self::set::{FontVariation, MetricModifier, MouseScrollMultiplier};
pub use self::settings::{Config, FontCodepointMap, MetricAdjust, Surroundings};
pub use self::values::{
    needs_confirm, paste_is_unsafe, should_notify_on_finish, show_resize_overlay, BackgroundBlur,
    BackgroundImageFit, BackgroundImagePosition, ClipboardAccess, ClipboardPolicy, ConfirmClose,
    ConptyPassthrough, CopyOnSelect, CustomShaderAnimation, MiddleClickAction, MouseShiftCapture,
    NewTabPosition, NotifyOnCommandFinish, OscColorReportFormat, PaddingBalance, ResizeOverlay,
    ResizeOverlayPosition, RightClickAction, Scrollbar, ShellIntegration, ShowTabBar,
    WindowDecoration, WindowSaveState, WindowTheme,
};
