//! Lines about windows, sessions, the selection, the mouse and the clipboard.

use crate::config::apply::{
    clipboard_key, geometry_key, lifetime_key, mouse_key, selection_key, windows_key,
};
use crate::config::color::color_value;
use crate::config::flags::packed;
use crate::config::lines::{LocatedView, word_chars};
use crate::config::load::parsed;
use crate::config::meaning::{
    lemma_clipboard_keys, lemma_clipboard_reached, lemma_geometry_keys, lemma_geometry_reached,
    lemma_lifetime_keys, lemma_lifetime_reached, lemma_mouse_keys, lemma_mouse_reached, lemma_says,
    lemma_selection_keys, lemma_selection_reached, lemma_windows_keys, lemma_windows_reached,
    lemma_words, plain_key, plain_value, said, says_no, says_yes,
};
use crate::config::meaning::reading::{
    ascii_digits, asked_or, flag_names, flag_word, law_flag_lists, law_numbers_are_told_from_words,
    law_units_of_time, lemma_decimal_is_tight, lemma_flag_name, lemma_no_number, lemma_plain_number,
    lemma_tight_stays, no_number, plain_number, written_number,
};
use crate::config::set::{
    is_number, limit_or, scroll_multiplier, scroll_parts, switched, ScrollView,
};
use crate::config::settings::{
    ClipboardView, ConfigView, LayoutView, LifetimeView, MouseView, SelectionView, SurroundingsView,
    WindowsView,
};
use crate::config::values::{
    ClipboardAccess, ClipboardPolicy, ConfirmClose, CopyOnSelect, MiddleClickAction,
    MouseShiftCapture, NewTabPosition, ResizeOverlay, ResizeOverlayPosition, RightClickAction,
    Scrollbar, ShowTabBar, WindowDecoration, WindowSaveState,
};
use crate::text::{
    begins, decimal, is_white, joined, law_parts_at_the_first, lemma_decimal, lemma_first_index,
    lower, split, tight, trim,
};
use vstd::prelude::*;

verus! {

/// `window-new-tab-position` takes these words in whichever case; no value
/// resets it, and any other leaves it as it was.
pub proof fn law_window_new_tab_position(c: ConfigView, v: Seq<char>, e: SurroundingsView)
    requires
        plain_value(v),
    ensures
        ({
            let n = parsed(c, said("window-new-tab-position"@, v), e);
            let s = n.windows.new_tab_position;
            &&& n == (ConfigView { windows: WindowsView { new_tab_position: s, ..c.windows }, ..c })
            &&& lower(v) == "current"@ ==> s == NewTabPosition::Current
            &&& lower(v) == "end"@ ==> s == NewTabPosition::End
            &&& v.len() == 0 ==> s == NewTabPosition::Current
            &&& v.len() > 0 && lower(v) != "current"@ && lower(v) != "end"@
                ==> s == c.windows.new_tab_position
        }),
{
    lemma_windows_keys();
    lemma_windows_reached(c, "window-new-tab-position"@, v, e);
    reveal(windows_key);
    lemma_words();
    assert(lower(v).len() == v.len());
}

/// `window-decoration` takes these words in whichever case; no value resets it,
/// and any other leaves it as it was.
pub proof fn law_window_decoration(c: ConfigView, v: Seq<char>, e: SurroundingsView)
    requires
        plain_value(v),
    ensures
        ({
            let n = parsed(c, said("window-decoration"@, v), e);
            let s = n.windows.window_decoration;
            &&& n == (ConfigView {
                windows: WindowsView { window_decoration: s, ..c.windows },
                ..c
            })
            &&& lower(v) == "auto"@ || lower(v) == "true"@ ==> s == WindowDecoration::Auto
            &&& lower(v) == "client"@ ==> s == WindowDecoration::Client
            &&& lower(v) == "server"@ ==> s == WindowDecoration::Server
            &&& lower(v) == "none"@ || lower(v) == "false"@ ==> s == WindowDecoration::Off
            &&& v.len() == 0 ==> s == WindowDecoration::Auto
            &&& v.len() > 0 && lower(v) != "auto"@ && lower(v) != "true"@ && lower(v) != "client"@
                && lower(v) != "server"@ && lower(v) != "none"@ && lower(v) != "false"@
                ==> s == c.windows.window_decoration
        }),
{
    lemma_windows_keys();
    lemma_windows_reached(c, "window-decoration"@, v, e);
    reveal(windows_key);
    lemma_words();
    assert(lower(v).len() == v.len());
}

/// `window-titlebar-background` is a colour; no value resets it, and what is no
/// colour leaves it as it was.
pub proof fn law_window_titlebar_background(c: ConfigView, v: Seq<char>, e: SurroundingsView)
    requires
        plain_value(v),
    ensures
        ({
            let n = parsed(c, said("window-titlebar-background"@, v), e);
            let s = n.windows.window_titlebar_background;
            &&& n == (ConfigView {
                windows: WindowsView { window_titlebar_background: s, ..c.windows },
                ..c
            })
            &&& v.len() > 0 && color_value(v, e.colors) is Some ==> s == color_value(v, e.colors)
            &&& v.len() == 0 ==> s is None
            &&& v.len() > 0 && color_value(v, e.colors) is None
                ==> s == c.windows.window_titlebar_background
        }),
{
    lemma_windows_keys();
    lemma_windows_reached(c, "window-titlebar-background"@, v, e);
    reveal(windows_key);
}

/// `window-titlebar-foreground` is a colour; no value resets it, and what is no
/// colour leaves it as it was.
pub proof fn law_window_titlebar_foreground(c: ConfigView, v: Seq<char>, e: SurroundingsView)
    requires
        plain_value(v),
    ensures
        ({
            let n = parsed(c, said("window-titlebar-foreground"@, v), e);
            let s = n.windows.window_titlebar_foreground;
            &&& n == (ConfigView {
                windows: WindowsView { window_titlebar_foreground: s, ..c.windows },
                ..c
            })
            &&& v.len() > 0 && color_value(v, e.colors) is Some ==> s == color_value(v, e.colors)
            &&& v.len() == 0 ==> s is None
            &&& v.len() > 0 && color_value(v, e.colors) is None
                ==> s == c.windows.window_titlebar_foreground
        }),
{
    lemma_windows_keys();
    lemma_windows_reached(c, "window-titlebar-foreground"@, v, e);
    reveal(windows_key);
}

/// `window-show-tab-bar` takes these words in whichever case; no value resets
/// it, and any other leaves it as it was.
pub proof fn law_window_show_tab_bar(c: ConfigView, v: Seq<char>, e: SurroundingsView)
    requires
        plain_value(v),
    ensures
        ({
            let n = parsed(c, said("window-show-tab-bar"@, v), e);
            let s = n.windows.window_show_tab_bar;
            &&& n == (ConfigView {
                windows: WindowsView { window_show_tab_bar: s, ..c.windows },
                ..c
            })
            &&& lower(v) == "always"@ ==> s == ShowTabBar::Always
            &&& lower(v) == "auto"@ ==> s == ShowTabBar::Auto
            &&& lower(v) == "never"@ ==> s == ShowTabBar::Never
            &&& v.len() == 0 ==> s == ShowTabBar::Always
            &&& v.len() > 0 && lower(v) != "always"@ && lower(v) != "auto"@ && lower(v) != "never"@
                ==> s == c.windows.window_show_tab_bar
        }),
{
    lemma_windows_keys();
    lemma_windows_reached(c, "window-show-tab-bar"@, v, e);
    reveal(windows_key);
    lemma_words();
    assert(lower(v).len() == v.len());
}

/// `maximize` is turned on and off; no value resets it, and any other leaves it as it was.
pub proof fn law_maximize(c: ConfigView, v: Seq<char>, e: SurroundingsView)
    requires
        plain_value(v),
    ensures
        ({
            let n = parsed(c, said("maximize"@, v), e);
            let s = n.windows.maximize;
            &&& n == (ConfigView { windows: WindowsView { maximize: s, ..c.windows }, ..c })
            &&& says_yes(v) ==> s
            &&& says_no(v) ==> !s
            &&& v.len() == 0 ==> s == false
            &&& v.len() > 0 && !says_yes(v) && !says_no(v) ==> s == c.windows.maximize
        }),
{
    lemma_windows_keys();
    lemma_windows_reached(c, "maximize"@, v, e);
    reveal(windows_key);
    lemma_says(v);
}

/// `title` is the text that was written; no value is none.
pub proof fn law_title(c: ConfigView, v: Seq<char>, e: SurroundingsView)
    requires
        plain_value(v),
    ensures
        ({
            let n = parsed(c, said("title"@, v), e);
            let s = n.windows.title;
            &&& n == (ConfigView { windows: WindowsView { title: s, ..c.windows }, ..c })
            &&& v.len() > 0 ==> s == Some(v)
            &&& v.len() == 0 ==> s is None
        }),
{
    lemma_windows_keys();
    lemma_windows_reached(c, "title"@, v, e);
    reveal(windows_key);
}

/// `window-subtitle` takes these words in whichever case; no value resets it,
/// and any other leaves it as it was.
pub proof fn law_window_subtitle(c: ConfigView, v: Seq<char>, e: SurroundingsView)
    requires
        plain_value(v),
    ensures
        ({
            let n = parsed(c, said("window-subtitle"@, v), e);
            let s = n.windows.window_subtitle;
            &&& n == (ConfigView { windows: WindowsView { window_subtitle: s, ..c.windows }, ..c })
            &&& lower(v) == "working-directory"@ ==> s == true
            &&& lower(v) == "false"@ ==> s == false
            &&& v.len() == 0 ==> s == false
            &&& v.len() > 0 && lower(v) != "working-directory"@ && lower(v) != "false"@
                ==> s == c.windows.window_subtitle
        }),
{
    lemma_windows_keys();
    lemma_windows_reached(c, "window-subtitle"@, v, e);
    reveal(windows_key);
    lemma_words();
    assert(lower(v).len() == v.len());
}

/// `window-title-font-family` is the text that was written; no value is none.
pub proof fn law_window_title_font_family(c: ConfigView, v: Seq<char>, e: SurroundingsView)
    requires
        plain_value(v),
    ensures
        ({
            let n = parsed(c, said("window-title-font-family"@, v), e);
            let s = n.windows.window_title_font_family;
            &&& n == (ConfigView {
                windows: WindowsView { window_title_font_family: s, ..c.windows },
                ..c
            })
            &&& v.len() > 0 ==> s == Some(v)
            &&& v.len() == 0 ==> s is None
        }),
{
    lemma_windows_keys();
    lemma_windows_reached(c, "window-title-font-family"@, v, e);
    reveal(windows_key);
}

/// `window-step-resize` is turned on and off; no value resets it, and any other
/// leaves it as it was.
pub proof fn law_window_step_resize(c: ConfigView, v: Seq<char>, e: SurroundingsView)
    requires
        plain_value(v),
    ensures
        ({
            let n = parsed(c, said("window-step-resize"@, v), e);
            let s = n.windows.window_step_resize;
            &&& n == (ConfigView {
                windows: WindowsView { window_step_resize: s, ..c.windows },
                ..c
            })
            &&& says_yes(v) ==> s
            &&& says_no(v) ==> !s
            &&& v.len() == 0 ==> s == false
            &&& v.len() > 0 && !says_yes(v) && !says_no(v) ==> s == c.windows.window_step_resize
        }),
{
    lemma_windows_keys();
    lemma_windows_reached(c, "window-step-resize"@, v, e);
    reveal(windows_key);
    lemma_says(v);
}

/// `window-vsync` is turned on and off; no value resets it, and any other leaves it as it was.
pub proof fn law_window_vsync(c: ConfigView, v: Seq<char>, e: SurroundingsView)
    requires
        plain_value(v),
    ensures
        ({
            let n = parsed(c, said("window-vsync"@, v), e);
            let s = n.windows.window_vsync;
            &&& n == (ConfigView { windows: WindowsView { window_vsync: s, ..c.windows }, ..c })
            &&& says_yes(v) ==> s
            &&& says_no(v) ==> !s
            &&& v.len() == 0 ==> s == true
            &&& v.len() > 0 && !says_yes(v) && !says_no(v) ==> s == c.windows.window_vsync
        }),
{
    lemma_windows_keys();
    lemma_windows_reached(c, "window-vsync"@, v, e);
    reveal(windows_key);
    lemma_says(v);
}

/// `quit-after-last-window-closed` is turned on and off; no value resets it,
/// and any other leaves it as it was.
pub proof fn law_quit_after_last_window_closed(c: ConfigView, v: Seq<char>, e: SurroundingsView)
    requires
        plain_value(v),
    ensures
        ({
            let n = parsed(c, said("quit-after-last-window-closed"@, v), e);
            let s = n.lifetime.quit_after_last_window_closed;
            &&& n == (ConfigView {
                lifetime: LifetimeView { quit_after_last_window_closed: s, ..c.lifetime },
                ..c
            })
            &&& says_yes(v) ==> s
            &&& says_no(v) ==> !s
            &&& v.len() == 0 ==> s == true
            &&& v.len() > 0 && !says_yes(v) && !says_no(v)
                ==> s == c.lifetime.quit_after_last_window_closed
        }),
{
    lemma_lifetime_keys();
    lemma_lifetime_reached(c, "quit-after-last-window-closed"@, v, e);
    reveal(lifetime_key);
    lemma_says(v);
}

/// `quit-after-last-window-closed-delay` is a time, in milliseconds or with a
/// unit; no value resets it, and a word leaves it as it was.
pub proof fn law_quit_after_last_window_closed_delay(
    c: ConfigView,
    v: Seq<char>,
    k: nat,
    e: SurroundingsView,
)
    requires
        plain_value(v),
        k * 31_536_000_000 <= u64::MAX,
    ensures
        ({
            let n = parsed(c, said("quit-after-last-window-closed-delay"@, v), e);
            let s = n.lifetime.quit_after_last_window_closed_delay_ms;
            &&& n == (ConfigView {
                lifetime: LifetimeView { quit_after_last_window_closed_delay_ms: s, ..c.lifetime },
                ..c
            })
            &&& v == decimal(k) ==> s == Some(k as u64)
            &&& v == decimal(k) + "s"@ ==> s == Some((1000 * k) as u64)
            &&& v.len() == 0 ==> s is None
            &&& no_number(v) ==> s == c.lifetime.quit_after_last_window_closed_delay_ms
        }),
{
    lemma_lifetime_keys();
    lemma_lifetime_reached(c, "quit-after-last-window-closed-delay"@, v, e);
    reveal(lifetime_key);
    law_units_of_time(k);
    lemma_decimal_is_tight(k);
    reveal_strlit("s");
    if no_number(v) {
        lemma_no_number(v);
        lemma_tight_stays(v);
    }
}

/// `initial-window` is turned on and off; no value resets it, and any other leaves it as it was.
pub proof fn law_initial_window(c: ConfigView, v: Seq<char>, e: SurroundingsView)
    requires
        plain_value(v),
    ensures
        ({
            let n = parsed(c, said("initial-window"@, v), e);
            let s = n.lifetime.initial_window;
            &&& n == (ConfigView {
                lifetime: LifetimeView { initial_window: s, ..c.lifetime },
                ..c
            })
            &&& says_yes(v) ==> s
            &&& says_no(v) ==> !s
            &&& v.len() == 0 ==> s == true
            &&& v.len() > 0 && !says_yes(v) && !says_no(v) ==> s == c.lifetime.initial_window
        }),
{
    lemma_lifetime_keys();
    lemma_lifetime_reached(c, "initial-window"@, v, e);
    reveal(lifetime_key);
    lemma_says(v);
}

/// `confirm-close-surface` takes these words in whichever case; no value resets
/// it, and any other leaves it as it was.
pub proof fn law_confirm_close_surface(c: ConfigView, v: Seq<char>, e: SurroundingsView)
    requires
        plain_value(v),
    ensures
        ({
            let n = parsed(c, said("confirm-close-surface"@, v), e);
            let s = n.lifetime.confirm_close;
            &&& n == (ConfigView { lifetime: LifetimeView { confirm_close: s, ..c.lifetime }, ..c })
            &&& lower(v) == "false"@ || lower(v) == "no"@ || lower(v) == "off"@ || lower(v) == "0"@
                ==> s == ConfirmClose::Never
            &&& lower(v) == "true"@ || lower(v) == "yes"@ || lower(v) == "on"@ || lower(v) == "1"@
                ==> s == ConfirmClose::WhenBusy
            &&& lower(v) == "always"@ ==> s == ConfirmClose::Always
            &&& v.len() == 0 ==> s == ConfirmClose::WhenBusy
            &&& v.len() > 0 && lower(v) != "false"@ && lower(v) != "no"@ && lower(v) != "off"@
                && lower(v) != "0"@ && lower(v) != "true"@ && lower(v) != "yes"@
                && lower(v) != "on"@ && lower(v) != "1"@ && lower(v) != "always"@
                ==> s == c.lifetime.confirm_close
        }),
{
    lemma_lifetime_keys();
    lemma_lifetime_reached(c, "confirm-close-surface"@, v, e);
    reveal(lifetime_key);
    lemma_words();
    assert(lower(v).len() == v.len());
}

/// `window-save-state` takes these words in whichever case; no value resets it,
/// and any other leaves it as it was.
pub proof fn law_window_save_state(c: ConfigView, v: Seq<char>, e: SurroundingsView)
    requires
        plain_value(v),
    ensures
        ({
            let n = parsed(c, said("window-save-state"@, v), e);
            let s = n.lifetime.window_save_state;
            &&& n == (ConfigView {
                lifetime: LifetimeView { window_save_state: s, ..c.lifetime },
                ..c
            })
            &&& lower(v) == "default"@ ==> s == WindowSaveState::Default
            &&& lower(v) == "never"@ ==> s == WindowSaveState::Never
            &&& lower(v) == "always"@ ==> s == WindowSaveState::Always
            &&& v.len() == 0 ==> s == WindowSaveState::Default
            &&& v.len() > 0 && lower(v) != "default"@ && lower(v) != "never"@
                && lower(v) != "always"@
                ==> s == c.lifetime.window_save_state
        }),
{
    lemma_lifetime_keys();
    lemma_lifetime_reached(c, "window-save-state"@, v, e);
    reveal(lifetime_key);
    lemma_words();
    assert(lower(v).len() == v.len());
}

/// `window-width` is a number of cells, at least 10; zero and no value leave it
/// open, and a word leaves it as it was.
pub proof fn law_window_width(c: ConfigView, v: Seq<char>, k: nat, e: SurroundingsView)
    requires
        plain_value(v),
    ensures
        ({
            let n = parsed(c, said("window-width"@, v), e);
            let s = n.layout.window_width;
            &&& n == (ConfigView { layout: LayoutView { window_width: s, ..c.layout }, ..c })
            &&& v == decimal(k) && 10 <= k <= u32::MAX ==> s == k
            &&& v == decimal(k) && 0 < k < 10 ==> s == 10
            &&& v == decimal(0) ==> s == 0
            &&& v.len() == 0 ==> s == 0
            &&& no_number(v) ==> s == c.layout.window_width
        }),
{
    lemma_geometry_keys();
    lemma_geometry_reached(c, "window-width"@, v, e);
    reveal(geometry_key);
    lemma_decimal_is_tight(k);
    lemma_decimal_is_tight(0);
    if no_number(v) {
        lemma_no_number(v);
    }
}

/// `window-height` is a number of cells, at least 4; zero and no value leave it
/// open, and a word leaves it as it was.
pub proof fn law_window_height(c: ConfigView, v: Seq<char>, k: nat, e: SurroundingsView)
    requires
        plain_value(v),
    ensures
        ({
            let n = parsed(c, said("window-height"@, v), e);
            let s = n.layout.window_height;
            &&& n == (ConfigView { layout: LayoutView { window_height: s, ..c.layout }, ..c })
            &&& v == decimal(k) && 4 <= k <= u32::MAX ==> s == k
            &&& v == decimal(k) && 0 < k < 4 ==> s == 4
            &&& v == decimal(0) ==> s == 0
            &&& v.len() == 0 ==> s == 0
            &&& no_number(v) ==> s == c.layout.window_height
        }),
{
    lemma_geometry_keys();
    lemma_geometry_reached(c, "window-height"@, v, e);
    reveal(geometry_key);
    lemma_decimal_is_tight(k);
    lemma_decimal_is_tight(0);
    if no_number(v) {
        lemma_no_number(v);
    }
}

/// `window-position-x` is a whole number, above or below zero; no value leaves
/// it open, and a word leaves it as it was.
pub proof fn law_window_position_x(c: ConfigView, v: Seq<char>, k: nat, e: SurroundingsView)
    requires
        plain_value(v),
    ensures
        ({
            let n = parsed(c, said("window-position-x"@, v), e);
            let s = n.layout.window_position_x;
            &&& n == (ConfigView { layout: LayoutView { window_position_x: s, ..c.layout }, ..c })
            &&& v == decimal(k) && k <= i16::MAX ==> s == Some(k as i16)
            &&& v == seq!['-'] + decimal(k) && k <= 32768 ==> s == Some(-(k as int) as i16)
            &&& v.len() == 0 ==> s is None
            &&& no_number(v) ==> s == c.layout.window_position_x
        }),
{
    lemma_geometry_keys();
    lemma_geometry_reached(c, "window-position-x"@, v, e);
    reveal(geometry_key);
    lemma_decimal_is_tight(k);
    lemma_decimal(k);
    if v == seq!['-'] + decimal(k) {
        assert(v.skip(1) =~= decimal(k));
    }
    if no_number(v) {
        lemma_no_number(v);
    }
}

/// `window-position-y` is a whole number, above or below zero; no value leaves
/// it open, and a word leaves it as it was.
pub proof fn law_window_position_y(c: ConfigView, v: Seq<char>, k: nat, e: SurroundingsView)
    requires
        plain_value(v),
    ensures
        ({
            let n = parsed(c, said("window-position-y"@, v), e);
            let s = n.layout.window_position_y;
            &&& n == (ConfigView { layout: LayoutView { window_position_y: s, ..c.layout }, ..c })
            &&& v == decimal(k) && k <= i16::MAX ==> s == Some(k as i16)
            &&& v == seq!['-'] + decimal(k) && k <= 32768 ==> s == Some(-(k as int) as i16)
            &&& v.len() == 0 ==> s is None
            &&& no_number(v) ==> s == c.layout.window_position_y
        }),
{
    lemma_geometry_keys();
    lemma_geometry_reached(c, "window-position-y"@, v, e);
    reveal(geometry_key);
    lemma_decimal_is_tight(k);
    lemma_decimal(k);
    if v == seq!['-'] + decimal(k) {
        assert(v.skip(1) =~= decimal(k));
    }
    if no_number(v) {
        lemma_no_number(v);
    }
}

/// `resize-overlay` takes these words in whichever case; no value resets it,
/// and any other leaves it as it was.
pub proof fn law_resize_overlay(c: ConfigView, v: Seq<char>, e: SurroundingsView)
    requires
        plain_value(v),
    ensures
        ({
            let n = parsed(c, said("resize-overlay"@, v), e);
            let s = n.layout.resize_overlay;
            &&& n == (ConfigView { layout: LayoutView { resize_overlay: s, ..c.layout }, ..c })
            &&& lower(v) == "always"@ ==> s == ResizeOverlay::Always
            &&& lower(v) == "never"@ ==> s == ResizeOverlay::Never
            &&& lower(v) == "after-first"@ ==> s == ResizeOverlay::AfterFirst
            &&& v.len() == 0 ==> s == ResizeOverlay::AfterFirst
            &&& v.len() > 0 && lower(v) != "always"@ && lower(v) != "never"@
                && lower(v) != "after-first"@
                ==> s == c.layout.resize_overlay
        }),
{
    lemma_geometry_keys();
    lemma_geometry_reached(c, "resize-overlay"@, v, e);
    reveal(geometry_key);
    lemma_words();
    assert(lower(v).len() == v.len());
}

/// `resize-overlay-position` takes these words in whichever case; no value
/// resets it, and any other leaves it as it was.
pub proof fn law_resize_overlay_position(c: ConfigView, v: Seq<char>, e: SurroundingsView)
    requires
        plain_value(v),
    ensures
        ({
            let n = parsed(c, said("resize-overlay-position"@, v), e);
            let s = n.layout.resize_overlay_position;
            &&& n == (ConfigView {
                layout: LayoutView { resize_overlay_position: s, ..c.layout },
                ..c
            })
            &&& lower(v) == "center"@ ==> s == ResizeOverlayPosition::Center
            &&& lower(v) == "top-left"@ ==> s == ResizeOverlayPosition::TopLeft
            &&& lower(v) == "top-center"@ ==> s == ResizeOverlayPosition::TopCenter
            &&& lower(v) == "top-right"@ ==> s == ResizeOverlayPosition::TopRight
            &&& lower(v) == "bottom-left"@ ==> s == ResizeOverlayPosition::BottomLeft
            &&& lower(v) == "bottom-center"@ ==> s == ResizeOverlayPosition::BottomCenter
            &&& lower(v) == "bottom-right"@ ==> s == ResizeOverlayPosition::BottomRight
            &&& v.len() == 0 ==> s == ResizeOverlayPosition::Center
            &&& v.len() > 0 && lower(v) != "center"@ && lower(v) != "top-left"@
                && lower(v) != "top-center"@ && lower(v) != "top-right"@
                && lower(v) != "bottom-left"@ && lower(v) != "bottom-center"@
                && lower(v) != "bottom-right"@
                ==> s == c.layout.resize_overlay_position
        }),
{
    lemma_geometry_keys();
    lemma_geometry_reached(c, "resize-overlay-position"@, v, e);
    reveal(geometry_key);
    lemma_words();
    assert(lower(v).len() == v.len());
}

/// `resize-overlay-duration` is a time, in milliseconds or with a unit; no
/// value resets it, and a word leaves it as it was.
pub proof fn law_resize_overlay_duration(c: ConfigView, v: Seq<char>, k: nat, e: SurroundingsView)
    requires
        plain_value(v),
        k * 31_536_000_000 <= u64::MAX,
    ensures
        ({
            let n = parsed(c, said("resize-overlay-duration"@, v), e);
            let s = n.layout.resize_overlay_duration_ms;
            &&& n == (ConfigView {
                layout: LayoutView { resize_overlay_duration_ms: s, ..c.layout },
                ..c
            })
            &&& v == decimal(k) && 250 <= k <= 60_000 ==> s == k
            &&& v == decimal(k) && k < 250 ==> s == 250
            &&& v == decimal(k) && k > 60_000 ==> s == 60_000
            &&& v == decimal(k) + "s"@ && 1 <= k <= 60 ==> s == 1000 * k
            &&& v.len() == 0 ==> s == 750
            &&& no_number(v) ==> s == c.layout.resize_overlay_duration_ms
        }),
{
    lemma_geometry_keys();
    lemma_geometry_reached(c, "resize-overlay-duration"@, v, e);
    reveal(geometry_key);
    law_units_of_time(k);
    lemma_decimal_is_tight(k);
    reveal_strlit("s");
    if no_number(v) {
        lemma_no_number(v);
        lemma_tight_stays(v);
    }
}

/// `scrollbar` takes these words in whichever case; no value resets it, and any
/// other leaves it as it was.
pub proof fn law_scrollbar(c: ConfigView, v: Seq<char>, e: SurroundingsView)
    requires
        plain_value(v),
    ensures
        ({
            let n = parsed(c, said("scrollbar"@, v), e);
            let s = n.layout.scrollbar;
            &&& n == (ConfigView { layout: LayoutView { scrollbar: s, ..c.layout }, ..c })
            &&& lower(v) == "system"@ ==> s == Scrollbar::System
            &&& lower(v) == "never"@ ==> s == Scrollbar::Never
            &&& v.len() == 0 ==> s == Scrollbar::System
            &&& v.len() > 0 && lower(v) != "system"@ && lower(v) != "never"@
                ==> s == c.layout.scrollbar
        }),
{
    lemma_geometry_keys();
    lemma_geometry_reached(c, "scrollbar"@, v, e);
    reveal(geometry_key);
    lemma_words();
    assert(lower(v).len() == v.len());
}

/// `quick-terminal-position` adds to its list; no value empties it.
pub proof fn law_quick_terminal_position(c: ConfigView, v: Seq<char>, e: SurroundingsView)
    requires
        plain_value(v),
    ensures
        ({
            let n = parsed(c, said("quick-terminal-position"@, v), e);
            let s = n.layout.quick_terminal_position;
            &&& n == (ConfigView {
                layout: LayoutView { quick_terminal_position: s, ..c.layout },
                ..c
            })
            &&& v.len() > 0 ==> s == c.layout.quick_terminal_position.push(v)
            &&& v.len() == 0 ==> s == Seq::<Seq<char>>::empty()
        }),
{
    lemma_geometry_keys();
    lemma_geometry_reached(c, "quick-terminal-position"@, v, e);
    reveal(geometry_key);
}

/// `quick-terminal-size` adds to its list; no value empties it.
pub proof fn law_quick_terminal_size(c: ConfigView, v: Seq<char>, e: SurroundingsView)
    requires
        plain_value(v),
    ensures
        ({
            let n = parsed(c, said("quick-terminal-size"@, v), e);
            let s = n.layout.quick_terminal_size;
            &&& n == (ConfigView { layout: LayoutView { quick_terminal_size: s, ..c.layout }, ..c })
            &&& v.len() > 0 ==> s == c.layout.quick_terminal_size.push(v)
            &&& v.len() == 0 ==> s == Seq::<Seq<char>>::empty()
        }),
{
    lemma_geometry_keys();
    lemma_geometry_reached(c, "quick-terminal-size"@, v, e);
    reveal(geometry_key);
}

/// `quick-terminal-autohide` is turned on and off; no value resets it, and any
/// other leaves it as it was.
pub proof fn law_quick_terminal_autohide(c: ConfigView, v: Seq<char>, e: SurroundingsView)
    requires
        plain_value(v),
    ensures
        ({
            let n = parsed(c, said("quick-terminal-autohide"@, v), e);
            let s = n.layout.quick_terminal_autohide;
            &&& n == (ConfigView {
                layout: LayoutView { quick_terminal_autohide: s, ..c.layout },
                ..c
            })
            &&& says_yes(v) ==> s
            &&& says_no(v) ==> !s
            &&& v.len() == 0 ==> s == false
            &&& v.len() > 0 && !says_yes(v) && !says_no(v) ==> s == c.layout.quick_terminal_autohide
        }),
{
    lemma_geometry_keys();
    lemma_geometry_reached(c, "quick-terminal-autohide"@, v, e);
    reveal(geometry_key);
    lemma_says(v);
}

/// `quick-terminal-animation-duration` keeps the numbers that were written since it was last reset.
pub proof fn law_quick_terminal_animation_duration(c: ConfigView, v: Seq<char>, e: SurroundingsView)
    requires
        plain_value(v),
    ensures
        ({
            let n = parsed(c, said("quick-terminal-animation-duration"@, v), e);
            let s = n.layout.quick_terminal_animation_duration;
            &&& n == (ConfigView {
                layout: LayoutView { quick_terminal_animation_duration: s, ..c.layout },
                ..c
            })
            &&& plain_number(v)
                ==> v.len() > 0 ==> s == c.layout.quick_terminal_animation_duration.push(v)
            &&& v.len() == 0 ==> s == Seq::<Seq<char>>::empty()
            &&& no_number(v) ==> s == c.layout.quick_terminal_animation_duration
        }),
{
    lemma_geometry_keys();
    lemma_geometry_reached(c, "quick-terminal-animation-duration"@, v, e);
    reveal(geometry_key);
    law_numbers_are_told_from_words(v);
}

/// `tab-inherit-working-directory` is turned on and off; no value resets it,
/// and any other leaves it as it was.
pub proof fn law_tab_inherit_working_directory(c: ConfigView, v: Seq<char>, e: SurroundingsView)
    requires
        plain_value(v),
    ensures
        ({
            let n = parsed(c, said("tab-inherit-working-directory"@, v), e);
            let s = n.layout.tab_inherit_working_directory;
            &&& n == (ConfigView {
                layout: LayoutView { tab_inherit_working_directory: s, ..c.layout },
                ..c
            })
            &&& says_yes(v) ==> s
            &&& says_no(v) ==> !s
            &&& v.len() == 0 ==> s == true
            &&& v.len() > 0 && !says_yes(v) && !says_no(v)
                ==> s == c.layout.tab_inherit_working_directory
        }),
{
    lemma_geometry_keys();
    lemma_geometry_reached(c, "tab-inherit-working-directory"@, v, e);
    reveal(geometry_key);
    lemma_says(v);
}

/// `split-inherit-working-directory` is turned on and off; no value resets it,
/// and any other leaves it as it was.
pub proof fn law_split_inherit_working_directory(c: ConfigView, v: Seq<char>, e: SurroundingsView)
    requires
        plain_value(v),
    ensures
        ({
            let n = parsed(c, said("split-inherit-working-directory"@, v), e);
            let s = n.layout.split_inherit_working_directory;
            &&& n == (ConfigView {
                layout: LayoutView { split_inherit_working_directory: s, ..c.layout },
                ..c
            })
            &&& says_yes(v) ==> s
            &&& says_no(v) ==> !s
            &&& v.len() == 0 ==> s == true
            &&& v.len() > 0 && !says_yes(v) && !says_no(v)
                ==> s == c.layout.split_inherit_working_directory
        }),
{
    lemma_geometry_keys();
    lemma_geometry_reached(c, "split-inherit-working-directory"@, v, e);
    reveal(geometry_key);
    lemma_says(v);
}

/// `window-inherit-working-directory` is turned on and off; no value resets it,
/// and any other leaves it as it was.
pub proof fn law_window_inherit_working_directory(c: ConfigView, v: Seq<char>, e: SurroundingsView)
    requires
        plain_value(v),
    ensures
        ({
            let n = parsed(c, said("window-inherit-working-directory"@, v), e);
            let s = n.layout.window_inherit_working_directory;
            &&& n == (ConfigView {
                layout: LayoutView { window_inherit_working_directory: s, ..c.layout },
                ..c
            })
            &&& says_yes(v) ==> s
            &&& says_no(v) ==> !s
            &&& v.len() == 0 ==> s == true
            &&& v.len() > 0 && !says_yes(v) && !says_no(v)
                ==> s == c.layout.window_inherit_working_directory
        }),
{
    lemma_geometry_keys();
    lemma_geometry_reached(c, "window-inherit-working-directory"@, v, e);
    reveal(geometry_key);
    lemma_says(v);
}

/// `selection-clear-on-typing` is turned on and off; no value resets it, and
/// any other leaves it as it was.
pub proof fn law_selection_clear_on_typing(c: ConfigView, v: Seq<char>, e: SurroundingsView)
    requires
        plain_value(v),
    ensures
        ({
            let n = parsed(c, said("selection-clear-on-typing"@, v), e);
            let s = n.selection.selection_clear_on_typing;
            &&& n == (ConfigView {
                selection: SelectionView { selection_clear_on_typing: s, ..c.selection },
                ..c
            })
            &&& says_yes(v) ==> s
            &&& says_no(v) ==> !s
            &&& v.len() == 0 ==> s == true
            &&& v.len() > 0 && !says_yes(v) && !says_no(v)
                ==> s == c.selection.selection_clear_on_typing
        }),
{
    lemma_selection_keys();
    lemma_selection_reached(c, "selection-clear-on-typing"@, v, e);
    reveal(selection_key);
    lemma_says(v);
}

/// `selection-clear-on-copy` is turned on and off; no value resets it, and any
/// other leaves it as it was.
pub proof fn law_selection_clear_on_copy(c: ConfigView, v: Seq<char>, e: SurroundingsView)
    requires
        plain_value(v),
    ensures
        ({
            let n = parsed(c, said("selection-clear-on-copy"@, v), e);
            let s = n.selection.selection_clear_on_copy;
            &&& n == (ConfigView {
                selection: SelectionView { selection_clear_on_copy: s, ..c.selection },
                ..c
            })
            &&& says_yes(v) ==> s
            &&& says_no(v) ==> !s
            &&& v.len() == 0 ==> s == false
            &&& v.len() > 0 && !says_yes(v) && !says_no(v)
                ==> s == c.selection.selection_clear_on_copy
        }),
{
    lemma_selection_keys();
    lemma_selection_reached(c, "selection-clear-on-copy"@, v, e);
    reveal(selection_key);
    lemma_says(v);
}

/// `copy-on-select` takes these words in whichever case; no value resets it,
/// and any other leaves it as it was.
pub proof fn law_copy_on_select(c: ConfigView, v: Seq<char>, e: SurroundingsView)
    requires
        plain_value(v),
    ensures
        ({
            let n = parsed(c, said("copy-on-select"@, v), e);
            let s = n.selection.copy_on_select;
            &&& n == (ConfigView {
                selection: SelectionView { copy_on_select: s, ..c.selection },
                ..c
            })
            &&& lower(v) == "false"@ || lower(v) == "0"@ || lower(v) == "off"@ || lower(v) == "no"@
                || lower(v) == "none"@
                ==> s == CopyOnSelect::Off
            &&& lower(v) == "true"@ || lower(v) == "1"@ || lower(v) == "on"@ || lower(v) == "yes"@
                || lower(v) == "clipboard"@
                ==> s == CopyOnSelect::Clipboard
            &&& lower(v) == "primary"@ ==> s == CopyOnSelect::Primary
            &&& lower(v) == "both"@ ==> s == CopyOnSelect::Both
            &&& v.len() == 0 ==> s == CopyOnSelect::Off
            &&& v.len() > 0 && lower(v) != "false"@ && lower(v) != "0"@ && lower(v) != "off"@
                && lower(v) != "no"@ && lower(v) != "none"@ && lower(v) != "true"@
                && lower(v) != "1"@ && lower(v) != "on"@ && lower(v) != "yes"@
                && lower(v) != "clipboard"@ && lower(v) != "primary"@ && lower(v) != "both"@
                ==> s == c.selection.copy_on_select
        }),
{
    lemma_selection_keys();
    lemma_selection_reached(c, "copy-on-select"@, v, e);
    reveal(selection_key);
    lemma_words();
    assert(lower(v).len() == v.len());
}

/// `right-click-action` takes these words in whichever case; no value resets
/// it, and any other leaves it as it was.
pub proof fn law_right_click_action(c: ConfigView, v: Seq<char>, e: SurroundingsView)
    requires
        plain_value(v),
    ensures
        ({
            let n = parsed(c, said("right-click-action"@, v), e);
            let s = n.selection.right_click_action;
            &&& n == (ConfigView {
                selection: SelectionView { right_click_action: s, ..c.selection },
                ..c
            })
            &&& lower(v) == "context-menu"@ ==> s == RightClickAction::ContextMenu
            &&& lower(v) == "copy"@ ==> s == RightClickAction::Copy
            &&& lower(v) == "paste"@ ==> s == RightClickAction::Paste
            &&& lower(v) == "copy-or-paste"@ ==> s == RightClickAction::CopyOrPaste
            &&& lower(v) == "ignore"@ ==> s == RightClickAction::Ignore
            &&& v.len() == 0 ==> s == RightClickAction::ContextMenu
            &&& v.len() > 0 && lower(v) != "context-menu"@ && lower(v) != "copy"@
                && lower(v) != "paste"@ && lower(v) != "copy-or-paste"@ && lower(v) != "ignore"@
                ==> s == c.selection.right_click_action
        }),
{
    lemma_selection_keys();
    lemma_selection_reached(c, "right-click-action"@, v, e);
    reveal(selection_key);
    lemma_words();
    assert(lower(v).len() == v.len());
}

/// `middle-click-action` takes these words in whichever case; no value resets
/// it, and any other leaves it as it was.
pub proof fn law_middle_click_action(c: ConfigView, v: Seq<char>, e: SurroundingsView)
    requires
        plain_value(v),
    ensures
        ({
            let n = parsed(c, said("middle-click-action"@, v), e);
            let s = n.selection.middle_click_action;
            &&& n == (ConfigView {
                selection: SelectionView { middle_click_action: s, ..c.selection },
                ..c
            })
            &&& lower(v) == "primary-paste"@ ==> s == MiddleClickAction::PrimaryPaste
            &&& lower(v) == "clipboard-paste"@ ==> s == MiddleClickAction::ClipboardPaste
            &&& lower(v) == "ignore"@ ==> s == MiddleClickAction::Ignore
            &&& v.len() == 0 ==> s == MiddleClickAction::PrimaryPaste
            &&& v.len() > 0 && lower(v) != "primary-paste"@ && lower(v) != "clipboard-paste"@
                && lower(v) != "ignore"@
                ==> s == c.selection.middle_click_action
        }),
{
    lemma_selection_keys();
    lemma_selection_reached(c, "middle-click-action"@, v, e);
    reveal(selection_key);
    lemma_words();
    assert(lower(v).len() == v.len());
}

/// `link-osc8` is turned on and off; no value resets it, and any other leaves it as it was.
pub proof fn law_link_osc8(c: ConfigView, v: Seq<char>, e: SurroundingsView)
    requires
        plain_value(v),
    ensures
        ({
            let n = parsed(c, said("link-osc8"@, v), e);
            let s = n.selection.link_osc8;
            &&& n == (ConfigView { selection: SelectionView { link_osc8: s, ..c.selection }, ..c })
            &&& says_yes(v) ==> s
            &&& says_no(v) ==> !s
            &&& v.len() == 0 ==> s == true
            &&& v.len() > 0 && !says_yes(v) && !says_no(v) ==> s == c.selection.link_osc8
        }),
{
    lemma_selection_keys();
    lemma_selection_reached(c, "link-osc8"@, v, e);
    reveal(selection_key);
    lemma_says(v);
}

/// `link-url` is turned on and off; no value resets it, and any other leaves it as it was.
pub proof fn law_link_url(c: ConfigView, v: Seq<char>, e: SurroundingsView)
    requires
        plain_value(v),
    ensures
        ({
            let n = parsed(c, said("link-url"@, v), e);
            let s = n.selection.link_url;
            &&& n == (ConfigView { selection: SelectionView { link_url: s, ..c.selection }, ..c })
            &&& says_yes(v) ==> s
            &&& says_no(v) ==> !s
            &&& v.len() == 0 ==> s == true
            &&& v.len() > 0 && !says_yes(v) && !says_no(v) ==> s == c.selection.link_url
        }),
{
    lemma_selection_keys();
    lemma_selection_reached(c, "link-url"@, v, e);
    reveal(selection_key);
    lemma_says(v);
}

/// `mouse-shift-capture` takes these words in whichever case; no value resets
/// it, and any other leaves it as it was.
pub proof fn law_mouse_shift_capture(c: ConfigView, v: Seq<char>, e: SurroundingsView)
    requires
        plain_value(v),
    ensures
        ({
            let n = parsed(c, said("mouse-shift-capture"@, v), e);
            let s = n.mouse.mouse_shift_capture;
            &&& n == (ConfigView { mouse: MouseView { mouse_shift_capture: s, ..c.mouse }, ..c })
            &&& lower(v) == "false"@ ==> s == MouseShiftCapture::False
            &&& lower(v) == "true"@ ==> s == MouseShiftCapture::True
            &&& lower(v) == "always"@ ==> s == MouseShiftCapture::Always
            &&& lower(v) == "never"@ ==> s == MouseShiftCapture::Never
            &&& v.len() == 0 ==> s == MouseShiftCapture::False
            &&& v.len() > 0 && lower(v) != "false"@ && lower(v) != "true"@ && lower(v) != "always"@
                && lower(v) != "never"@
                ==> s == c.mouse.mouse_shift_capture
        }),
{
    lemma_mouse_keys();
    lemma_mouse_reached(c, "mouse-shift-capture"@, v, e);
    reveal(mouse_key);
    lemma_words();
    assert(lower(v).len() == v.len());
}

/// `mouse-hide-while-typing` is turned on and off; no value resets it, and any
/// other leaves it as it was.
pub proof fn law_mouse_hide_while_typing(c: ConfigView, v: Seq<char>, e: SurroundingsView)
    requires
        plain_value(v),
    ensures
        ({
            let n = parsed(c, said("mouse-hide-while-typing"@, v), e);
            let s = n.mouse.mouse_hide_while_typing;
            &&& n == (ConfigView {
                mouse: MouseView { mouse_hide_while_typing: s, ..c.mouse },
                ..c
            })
            &&& says_yes(v) ==> s
            &&& says_no(v) ==> !s
            &&& v.len() == 0 ==> s == false
            &&& v.len() > 0 && !says_yes(v) && !says_no(v) ==> s == c.mouse.mouse_hide_while_typing
        }),
{
    lemma_mouse_keys();
    lemma_mouse_reached(c, "mouse-hide-while-typing"@, v, e);
    reveal(mouse_key);
    lemma_says(v);
}

/// `mouse-reporting` is turned on and off; no value resets it, and any other leaves it as it was.
pub proof fn law_mouse_reporting(c: ConfigView, v: Seq<char>, e: SurroundingsView)
    requires
        plain_value(v),
    ensures
        ({
            let n = parsed(c, said("mouse-reporting"@, v), e);
            let s = n.mouse.mouse_reporting;
            &&& n == (ConfigView { mouse: MouseView { mouse_reporting: s, ..c.mouse }, ..c })
            &&& says_yes(v) ==> s
            &&& says_no(v) ==> !s
            &&& v.len() == 0 ==> s == true
            &&& v.len() > 0 && !says_yes(v) && !says_no(v) ==> s == c.mouse.mouse_reporting
        }),
{
    lemma_mouse_keys();
    lemma_mouse_reached(c, "mouse-reporting"@, v, e);
    reveal(mouse_key);
    lemma_says(v);
}

/// `focus-follows-mouse` is turned on and off; no value resets it, and any
/// other leaves it as it was.
pub proof fn law_focus_follows_mouse(c: ConfigView, v: Seq<char>, e: SurroundingsView)
    requires
        plain_value(v),
    ensures
        ({
            let n = parsed(c, said("focus-follows-mouse"@, v), e);
            let s = n.mouse.focus_follows_mouse;
            &&& n == (ConfigView { mouse: MouseView { focus_follows_mouse: s, ..c.mouse }, ..c })
            &&& says_yes(v) ==> s
            &&& says_no(v) ==> !s
            &&& v.len() == 0 ==> s == false
            &&& v.len() > 0 && !says_yes(v) && !says_no(v) ==> s == c.mouse.focus_follows_mouse
        }),
{
    lemma_mouse_keys();
    lemma_mouse_reached(c, "focus-follows-mouse"@, v, e);
    reveal(mouse_key);
    lemma_says(v);
}

/// `click-repeat-interval` is the number that was written, as far as it goes;
/// no value resets it, and a word leaves it as it was.
pub proof fn law_click_repeat_interval(c: ConfigView, v: Seq<char>, k: nat, e: SurroundingsView)
    requires
        plain_value(v),
    ensures
        ({
            let n = parsed(c, said("click-repeat-interval"@, v), e);
            let s = n.mouse.click_repeat_interval;
            &&& n == (ConfigView { mouse: MouseView { click_repeat_interval: s, ..c.mouse }, ..c })
            &&& v == decimal(k) && k <= u32::MAX ==> s == k
            &&& v == decimal(k) && k > u32::MAX ==> s == c.mouse.click_repeat_interval
            &&& v.len() == 0 ==> s == 0
            &&& no_number(v) ==> s == c.mouse.click_repeat_interval
        }),
{
    lemma_mouse_keys();
    lemma_mouse_reached(c, "click-repeat-interval"@, v, e);
    reveal(mouse_key);
    lemma_decimal_is_tight(k);
    if no_number(v) {
        lemma_no_number(v);
    }
}

/// `cursor-click-to-move` is turned on and off; no value resets it, and any
/// other leaves it as it was.
pub proof fn law_cursor_click_to_move(c: ConfigView, v: Seq<char>, e: SurroundingsView)
    requires
        plain_value(v),
    ensures
        ({
            let n = parsed(c, said("cursor-click-to-move"@, v), e);
            let s = n.mouse.cursor_click_to_move;
            &&& n == (ConfigView { mouse: MouseView { cursor_click_to_move: s, ..c.mouse }, ..c })
            &&& says_yes(v) ==> s
            &&& says_no(v) ==> !s
            &&& v.len() == 0 ==> s == true
            &&& v.len() > 0 && !says_yes(v) && !says_no(v) ==> s == c.mouse.cursor_click_to_move
        }),
{
    lemma_mouse_keys();
    lemma_mouse_reached(c, "cursor-click-to-move"@, v, e);
    reveal(mouse_key);
    lemma_says(v);
}

/// `clipboard-read` allows, denies or asks; no value resets it, and any other leaves it as it was.
pub proof fn law_clipboard_read(c: ConfigView, v: Seq<char>, e: SurroundingsView)
    requires
        plain_value(v),
    ensures
        ({
            let n = parsed(c, said("clipboard-read"@, v), e);
            let s = n.clipboard.policy.read;
            &&& n == (ConfigView {
                clipboard: ClipboardView {
                    policy: ClipboardPolicy { read: s, ..c.clipboard.policy },
                    ..c.clipboard
                },
                ..c
            })
            &&& lower(v) == "allow"@ ==> s == ClipboardAccess::Allow
            &&& lower(v) == "deny"@ ==> s == ClipboardAccess::Deny
            &&& lower(v) == "ask"@ ==> s == ClipboardAccess::Ask
            &&& v.len() == 0 ==> s == ClipboardAccess::Ask
            &&& v.len() > 0 && lower(v) != "allow"@ && lower(v) != "deny"@ && lower(v) != "ask"@
                ==> s == c.clipboard.policy.read
        }),
{
    lemma_clipboard_keys();
    lemma_clipboard_reached(c, "clipboard-read"@, v, e);
    reveal(clipboard_key);
    lemma_words();
    assert(lower(v).len() == v.len());
}

/// `clipboard-write` allows, denies or asks; no value resets it, and any other leaves it as it was.
pub proof fn law_clipboard_write(c: ConfigView, v: Seq<char>, e: SurroundingsView)
    requires
        plain_value(v),
    ensures
        ({
            let n = parsed(c, said("clipboard-write"@, v), e);
            let s = n.clipboard.policy.write;
            &&& n == (ConfigView {
                clipboard: ClipboardView {
                    policy: ClipboardPolicy { write: s, ..c.clipboard.policy },
                    ..c.clipboard
                },
                ..c
            })
            &&& lower(v) == "allow"@ ==> s == ClipboardAccess::Allow
            &&& lower(v) == "deny"@ ==> s == ClipboardAccess::Deny
            &&& lower(v) == "ask"@ ==> s == ClipboardAccess::Ask
            &&& v.len() == 0 ==> s == ClipboardAccess::Allow
            &&& v.len() > 0 && lower(v) != "allow"@ && lower(v) != "deny"@ && lower(v) != "ask"@
                ==> s == c.clipboard.policy.write
        }),
{
    lemma_clipboard_keys();
    lemma_clipboard_reached(c, "clipboard-write"@, v, e);
    reveal(clipboard_key);
    lemma_words();
    assert(lower(v).len() == v.len());
}

/// `clipboard-trim-trailing-spaces` is turned on and off; no value resets it,
/// and any other leaves it as it was.
pub proof fn law_clipboard_trim_trailing_spaces(c: ConfigView, v: Seq<char>, e: SurroundingsView)
    requires
        plain_value(v),
    ensures
        ({
            let n = parsed(c, said("clipboard-trim-trailing-spaces"@, v), e);
            let s = n.clipboard.policy.trim_trailing_spaces;
            &&& n == (ConfigView {
                clipboard: ClipboardView {
                    policy: ClipboardPolicy { trim_trailing_spaces: s, ..c.clipboard.policy },
                    ..c.clipboard
                },
                ..c
            })
            &&& says_yes(v) ==> s
            &&& says_no(v) ==> !s
            &&& v.len() == 0 ==> s == true
            &&& v.len() > 0 && !says_yes(v) && !says_no(v)
                ==> s == c.clipboard.policy.trim_trailing_spaces
        }),
{
    lemma_clipboard_keys();
    lemma_clipboard_reached(c, "clipboard-trim-trailing-spaces"@, v, e);
    reveal(clipboard_key);
    lemma_says(v);
}

/// `clipboard-paste-protection` is turned on and off; no value resets it, and
/// any other leaves it as it was.
pub proof fn law_clipboard_paste_protection(c: ConfigView, v: Seq<char>, e: SurroundingsView)
    requires
        plain_value(v),
    ensures
        ({
            let n = parsed(c, said("clipboard-paste-protection"@, v), e);
            let s = n.clipboard.policy.paste_protection;
            &&& n == (ConfigView {
                clipboard: ClipboardView {
                    policy: ClipboardPolicy { paste_protection: s, ..c.clipboard.policy },
                    ..c.clipboard
                },
                ..c
            })
            &&& says_yes(v) ==> s
            &&& says_no(v) ==> !s
            &&& v.len() == 0 ==> s == true
            &&& v.len() > 0 && !says_yes(v) && !says_no(v)
                ==> s == c.clipboard.policy.paste_protection
        }),
{
    lemma_clipboard_keys();
    lemma_clipboard_reached(c, "clipboard-paste-protection"@, v, e);
    reveal(clipboard_key);
    lemma_says(v);
}

/// `clipboard-paste-bracketed-safe` is turned on and off; no value resets it,
/// and any other leaves it as it was.
pub proof fn law_clipboard_paste_bracketed_safe(c: ConfigView, v: Seq<char>, e: SurroundingsView)
    requires
        plain_value(v),
    ensures
        ({
            let n = parsed(c, said("clipboard-paste-bracketed-safe"@, v), e);
            let s = n.clipboard.policy.paste_bracketed_safe;
            &&& n == (ConfigView {
                clipboard: ClipboardView {
                    policy: ClipboardPolicy { paste_bracketed_safe: s, ..c.clipboard.policy },
                    ..c.clipboard
                },
                ..c
            })
            &&& says_yes(v) ==> s
            &&& says_no(v) ==> !s
            &&& v.len() == 0 ==> s == true
            &&& v.len() > 0 && !says_yes(v) && !says_no(v)
                ==> s == c.clipboard.policy.paste_bracketed_safe
        }),
{
    lemma_clipboard_keys();
    lemma_clipboard_reached(c, "clipboard-paste-bracketed-safe"@, v, e);
    reveal(clipboard_key);
    lemma_says(v);
}

/// `clipboard-write-limit-bytes` is a number, or `unlimited`; no value resets
/// it, and any other word leaves it as it was.
pub proof fn law_clipboard_write_limit_bytes(
    c: ConfigView,
    v: Seq<char>,
    k: nat,
    e: SurroundingsView,
)
    requires
        plain_value(v),
    ensures
        ({
            let n = parsed(c, said("clipboard-write-limit-bytes"@, v), e);
            let s = n.clipboard.policy.write_limit;
            &&& n == (ConfigView {
                clipboard: ClipboardView {
                    policy: ClipboardPolicy { write_limit: s, ..c.clipboard.policy },
                    ..c.clipboard
                },
                ..c
            })
            &&& v == decimal(k) && k <= usize::MAX ==> s == Some(k as usize)
            &&& v == "unlimited"@ ==> s is None
            &&& v.len() == 0 ==> s == Some(67_108_864usize)
            &&& no_number(v) && v != "unlimited"@ ==> s == c.clipboard.policy.write_limit
        }),
{
    lemma_clipboard_keys();
    lemma_clipboard_reached(c, "clipboard-write-limit-bytes"@, v, e);
    reveal(clipboard_key);
    lemma_words();
    lemma_decimal_is_tight(k);
    if no_number(v) {
        lemma_no_number(v);
    }
    if v == decimal(k) && v == "unlimited"@ {
        reveal_strlit("unlimited");
        assert("unlimited"@[0] == 'u');
    }
    reveal(limit_or);
}

/// `split-preserve-zoom` is turned on and off by these words; no value resets
/// it, and any other leaves it as it was.
pub proof fn law_split_preserve_zoom(c: ConfigView, v: Seq<char>, e: SurroundingsView)
    requires
        plain_value(v),
    ensures
        ({
            let n = parsed(c, said("split-preserve-zoom"@, v), e);
            let s = n.lifetime.split_preserve_zoom_navigation;
            &&& n == (ConfigView {
                lifetime: LifetimeView { split_preserve_zoom_navigation: s, ..c.lifetime },
                ..c
            })
            &&& lower(v) == "navigation"@ || lower(v) == "true"@ ==> s
            &&& lower(v) == "no-navigation"@ || lower(v) == "false"@ ==> !s
            &&& v.len() == 0 ==> s == false
            &&& v.len() > 0 && !v.contains(',') && lower(v) != "navigation"@
                && lower(v) != "no-navigation"@ && lower(v) != "true"@ && lower(v) != "false"@
                ==> s == c.lifetime.split_preserve_zoom_navigation
        }),
{
    lemma_lifetime_keys();
    lemma_lifetime_reached(c, "split-preserve-zoom"@, v, e);
    reveal(lifetime_key);
    lemma_words();
    assert(lower(v).len() == v.len());
    lemma_tight_stays(v);
    lemma_first_index(v, ',');
    reveal_strlit("navigation");
    reveal_strlit("no-navigation");
    reveal_strlit("true");
    reveal_strlit("false");
    if v.len() == 0 {
        assert(lower(v) =~= v);
        reveal_with_fuel(switched, 2);
    }
    if v.contains(',') {
        let i = v.index_of(',');
        assert(lower(v)[i] == ',');
        lemma_no_comma("navigation"@);
        lemma_no_comma("no-navigation"@);
        lemma_no_comma("true"@);
        lemma_no_comma("false"@);
    } else {
        assert(split(v, ',') =~= seq![v]);
        assert(seq![v].drop_last() =~= Seq::<Seq<char>>::empty());
        reveal_with_fuel(switched, 2);
    }
}
proof fn lemma_no_comma(w: Seq<char>)
    requires
        plain_key(w),
    ensures
        forall|i: int| 0 <= i < w.len() ==> #[trigger] w[i] != ',',
{
    assert forall|i: int| 0 <= i < w.len() implies #[trigger] w[i] != ',' by {
        assert(w[i] == w[i]);
    }
}

/// `working-directory` is a path, one below the home directory behind a tilde,
/// the home directory itself, or none.
pub proof fn law_working_directory(c: ConfigView, v: Seq<char>, w: Seq<char>, e: SurroundingsView)
    requires
        plain_value(v),
    ensures
        ({
            let n = parsed(c, said("working-directory"@, v), e);
            let s = n.windows.working_directory;
            &&& n == (ConfigView {
                windows: WindowsView { working_directory: s, ..c.windows },
                ..c
            })
            &&& v.len() == 0 || v == "inherit"@ ==> s is None
            &&& v == "home"@
                ==> (match e.home { Some(h) => s
                    == Some(LocatedView { base: None, path: h }), None => s is None })
            &&& v == seq!['~', '/'] + w || v == seq!['~', '\\'] + w
                ==> (match e.home { Some(h) => s
                    == Some(LocatedView { base: Some(h), path: w }), None => s is None })
            &&& v.len() > 0 && v[0] != '~' && v != "inherit"@ && v != "home"@
                ==> s == Some(LocatedView { base: None, path: v })
        }),
{
    lemma_windows_keys();
    lemma_windows_reached(c, "working-directory"@, v, e);
    reveal(windows_key);
    lemma_words();
    reveal_strlit("~/");
    reveal_strlit("~\\");
    reveal_strlit("home");
    reveal_strlit("inherit");
    assert("~/"@ =~= seq!['~', '/']);
    assert("~\\"@ =~= seq!['~', '\\']);
    assert("home"@[0] == 'h' && "inherit"@[0] == 'i');
    let a = seq!['~', '/'] + w;
    let b = seq!['~', '\\'] + w;
    assert(a.take(2) =~= "~/"@ && a.skip(2) =~= w);
    assert(b.take(2) =~= "~\\"@ && b.skip(2) =~= w);
    assert(b.take(2)[1] == '\\');
    assert(a[0] == '~' && b[0] == '~');
    if v.len() >= 2 {
        assert(v.take(2)[0] == v[0]);
    }
}

/// `fullscreen` is turned on, in any of its kinds, and off; no value turns it
/// off, and any other leaves it as it was.
pub proof fn law_fullscreen(c: ConfigView, v: Seq<char>, e: SurroundingsView)
    requires
        plain_value(v),
    ensures
        ({
            let n = parsed(c, said("fullscreen"@, v), e);
            let s = n.windows.fullscreen;
            &&& n == (ConfigView { windows: WindowsView { fullscreen: s, ..c.windows }, ..c })
            &&& says_yes(v) || lower(v) == "non-native"@ || lower(v) == "non-native-visible-menu"@
                || lower(v) == "non-native-padded-notch"@
                ==> s
            &&& says_no(v) ==> !s
            &&& v.len() == 0 ==> !s
            &&& v.len() > 0 && !says_yes(v) && !says_no(v) && lower(v) != "non-native"@
                && lower(v) != "non-native-visible-menu"@ && lower(v) != "non-native-padded-notch"@
                ==> s == c.windows.fullscreen
        }),
{
    lemma_windows_keys();
    lemma_windows_reached(c, "fullscreen"@, v, e);
    reveal(windows_key);
    lemma_words();
    lemma_says(v);
    assert(lower(v).len() == v.len());
}

/// `quick-terminal-screen` takes no screen but the main one; another is a problem.
pub proof fn law_quick_terminal_screen(c: ConfigView, v: Seq<char>, e: SurroundingsView)
    requires
        plain_value(v),
    ensures
        ({
            let n = parsed(c, said("quick-terminal-screen"@, v), e);
            let s = n.diagnostics;
            &&& n == (ConfigView { diagnostics: s, ..c })
            &&& v.len() == 0 || lower(v) == "main"@ ==> s == c.diagnostics
            &&& v.len() > 0 && lower(v) != "main"@ ==> s.len() == c.diagnostics.len() + 1
        }),
{
    lemma_geometry_keys();
    lemma_geometry_reached(c, "quick-terminal-screen"@, v, e);
    reveal(geometry_key);
    lemma_words();
    reveal_strlit("main");
    assert(lower("main"@) =~= "main"@) by {
        assert("main"@[0] == 'm' && "main"@[1] == 'a' && "main"@[2] == 'i' && "main"@[3] == 'n');
    }
}
/// Characters without a backslash stand for themselves.
pub proof fn law_word_characters(w: Seq<char>, rest: Seq<char>)
    requires
        !w.contains('\\'),
    ensures
        word_chars(w + rest) == w + word_chars(rest),
        word_chars(seq!['\\', 't'] + rest) == seq!['\t'] + word_chars(rest),
        word_chars(seq!['\\', 'n'] + rest) == seq!['\n'] + word_chars(rest),
        word_chars(seq!['\\', '\\'] + rest) == seq!['\\'] + word_chars(rest),
    decreases w.len(),
{
    assert((seq!['\\', 't'] + rest).skip(2) =~= rest);
    assert((seq!['\\', 'n'] + rest).skip(2) =~= rest);
    assert((seq!['\\', '\\'] + rest).skip(2) =~= rest);
    if w.len() == 0 {
        assert(w + rest =~= rest);
        assert(w + word_chars(rest) =~= word_chars(rest));
    } else {
        assert(w[0] != '\\') by {
            assert(w.contains(w[0]));
        }
        assert forall|x: char| w.skip(1).contains(x) implies w.contains(x) by {
            let i = w.skip(1).index_of(x);
            assert(w[i + 1] == x);
        }
        law_word_characters(w.skip(1), rest);
        assert((w + rest).skip(1) =~= w.skip(1) + rest);
        assert(seq![w[0]] + (w.skip(1) + word_chars(rest)) =~= w + word_chars(rest));
    }
}

/// `selection-word-chars` lists the characters that end a word, the empty cell
/// first; no value resets it.
pub proof fn law_selection_word_chars(c: ConfigView, v: Seq<char>, e: SurroundingsView)
    requires
        plain_value(v),
    ensures
        ({
            let n = parsed(c, said("selection-word-chars"@, v), e);
            let s = n.selection.selection_word_chars;
            &&& n == (ConfigView {
                selection: SelectionView { selection_word_chars: s, ..c.selection },
                ..c
            })
            &&& v.len() > 0 && !v.contains('\\') ==> s == seq!['\0'] + v
            &&& v.len() == 0 ==> s.len() == 0
        }),
{
    lemma_selection_keys();
    lemma_selection_reached(c, "selection-word-chars"@, v, e);
    reveal(selection_key);
    if !v.contains('\\') {
        let none = Seq::<char>::empty();
        law_word_characters(v, none);
        assert(v + none =~= v);
    }
}

/// `mouse-scroll-multiplier` is one number for both kinds of scrolling, or one
/// for the kind that it names.
pub proof fn law_mouse_scroll_multiplier(
    c: ConfigView,
    v: Seq<char>,
    w: Seq<char>,
    e: SurroundingsView,
)
    requires
        plain_value(v),
    ensures
        ({
            let n = parsed(c, said("mouse-scroll-multiplier"@, v), e);
            let s = n.mouse.mouse_scroll_multiplier;
            &&& n == (ConfigView {
                mouse: MouseView { mouse_scroll_multiplier: s, ..c.mouse },
                ..c
            })
            &&& plain_number(v) ==> s.precision == Some(v) && s.discrete == Some(v)
            &&& v.len() == 0 ==> s.precision is None && s.discrete is None
            &&& v == "precision:"@ + w && plain_number(w)
                ==> s.precision == Some(w) && s.discrete == c.mouse.mouse_scroll_multiplier.discrete
            &&& v == "discrete:"@ + w && plain_number(w)
                ==> s.discrete == Some(w)
                    && s.precision == c.mouse.mouse_scroll_multiplier.precision
        }),
{
    lemma_mouse_keys();
    lemma_mouse_reached(c, "mouse-scroll-multiplier"@, v, e);
    reveal(mouse_key);
    lemma_tight_stays(v);
    law_numbers_are_told_from_words(v);
    if plain_number(w) {
        lemma_scroll_part(c.mouse.mouse_scroll_multiplier, w);
    }
}
proof fn lemma_scroll_part(m: ScrollView, w: Seq<char>)
    requires
        plain_number(w),
    ensures
        scroll_multiplier("precision:"@ + w, m) == Some(
            ScrollView { precision: Some(w), discrete: m.discrete },
        ),
        scroll_multiplier("discrete:"@ + w, m) == Some(
            ScrollView { precision: m.precision, discrete: Some(w) },
        ),
        "precision:"@.len() == 10,
        "discrete:"@.len() == 9,
{
    reveal_strlit("precision:");
    reveal_strlit("discrete:");
    reveal_strlit("precision");
    reveal_strlit("discrete");
    lemma_plain_number(w);
    let p = "precision"@;
    let d = "discrete"@;
    assert("precision:"@ =~= p.push(':'));
    assert("discrete:"@ =~= d.push(':'));
    lemma_one_scroll_part(m, p, w);
    lemma_one_scroll_part(m, d, w);
    assert(p.len() != d.len());
}

proof fn lemma_one_scroll_part(m: ScrollView, name: Seq<char>, w: Seq<char>)
    requires
        plain_number(w),
        plain_key(name),
        name[0] == 'p' || name[0] == 'd',
    ensures
        scroll_multiplier(name.push(':') + w, m) == (if name == "precision"@ {
            Some(ScrollView { precision: Some(w), ..m })
        } else if name == "discrete"@ {
            Some(ScrollView { discrete: Some(w), ..m })
        } else {
            None
        }),
{
    lemma_plain_number(w);
    let v = name.push(':') + w;
    assert(v.last() == w.last());
    assert(v[0] == name[0]);
    lemma_tight_stays(v);
    lemma_tight_stays(w);
    assert(no_number(v));
    lemma_no_number(v);
    assert(lower(name) =~= name) by {
        assert forall|i: int| 0 <= i < name.len() implies lower(name)[i] == name[i] by {
            assert(name[i] == name[i]);
        }
    }
    assert(!is_white(name.last())) by {
        assert(name[name.len() - 1] == name.last());
    }
    lemma_tight_stays(name);
    assert(!name.contains(':')) by {
        if name.contains(':') {
            let i = name.index_of(':');
            assert(name[i] == ':');
        }
    }
    law_parts_at_the_first(name, ':', w);
    lemma_number_holds_no_comma(w);
    assert(!v.contains(',')) by {
        if v.contains(',') {
            let i = v.index_of(',');
            if i < name.len() {
                assert(name[i] == ',');
            } else if i > name.len() {
                assert(w[i - name.len() - 1] == ',');
            }
        }
    }
    lemma_first_index(v, ',');
    assert(split(v, ',') =~= seq![v]);
    assert(seq![v].drop_last() =~= Seq::<Seq<char>>::empty());
    reveal_with_fuel(scroll_parts, 2);
}

proof fn lemma_number_holds_no_comma(w: Seq<char>)
    requires
        plain_number(w),
    ensures
        !w.contains(','),
{
    let (minus, whole, part) = choose|minus: bool, whole: Seq<char>, part: Option<Seq<char>>|
        #![trigger written_number(minus, whole, part)]
        w == written_number(minus, whole, part) && whole.len() > 0 && ascii_digits(whole) && (
        part matches Some(p) ==> ascii_digits(p));
    if w.contains(',') {
        let i = w.index_of(',');
        let k = if minus {
            i - 1
        } else {
            i
        };
        if k >= 0 {
            if k < whole.len() {
                assert(w[i] == whole[k]);
                assert(48 <= whole[k] as int <= 57);
            } else if let Some(p) = part {
                if k > whole.len() {
                    assert(w[i] == p[k - whole.len() - 1]);
                    assert(48 <= p[k - whole.len() - 1] as int <= 57);
                }
            }
        }
    }
}

/// The flags of `scroll-to-bottom`, in order.
pub open spec fn scroll_to_bottom_names() -> Seq<Seq<char>> {
    seq!["keystroke"@, "output"@]
}

proof fn lemma_scroll_to_bottom_names()
    ensures
        flag_names(scroll_to_bottom_names()),
        forall|i: int|
            0 <= i < 2 ==> (#[trigger] scroll_to_bottom_names()[i]).len() > 1 && scroll_to_bottom_names()[i]
                != "true"@ && scroll_to_bottom_names()[i] != "false"@,
{
    lemma_words();
    let names = scroll_to_bottom_names();
    reveal_strlit("keystroke");
    reveal_strlit("output");
    assert(names[0] == "keystroke"@);
    assert("keystroke"@[0] == 'k');
    assert("keystroke"@[1] == 'e');
    assert("keystroke"@[2] == 'y');
    lemma_flag_name("keystroke"@);
    assert(names[1] == "output"@);
    assert("output"@[0] == 'o');
    assert("output"@[1] == 'u');
    assert("output"@[2] == 't');
    lemma_flag_name("output"@);
    assert forall|i: int| 0 <= i < names.len() implies {
        let n = #[trigger] names[i];
        &&& n.len() > 1 && n != "true"@ && n != "false"@
        &&& n.len() > 0
        &&& lower(n) == n
        &&& tight(n)
        &&& !n.contains(',')
        &&& !begins(n, seq!['n', 'o', '-'])
    } by {
        if i == 0 {
            assert(names[i] == "keystroke"@);
        } else if i == 1 {
            assert(names[i] == "output"@);
        }
    }
    assert forall|i: int, j: int|
        0 <= i < names.len() && 0 <= j < names.len() && i != j implies #[trigger] names[i]
        != #[trigger] names[j] by {
        let a = names[i];
        let b = names[j];
        assert(a == "keystroke"@ && i == 0 || a == "output"@ && i == 1);
        assert(b == "keystroke"@ && j == 0 || b == "output"@ && j == 1);
    }
}

/// `scroll-to-bottom` turns its flags on and off, the last word on a flag
/// counting and the others taking their defaults; one word turns all of them on
/// or off, and no value resets them.
pub proof fn law_scroll_to_bottom(
    c: ConfigView,
    v: Seq<char>,
    asked: Seq<(int, bool)>,
    e: SurroundingsView,
)
    requires
        plain_value(v),
        asked.len() > 0,
        forall|k: int| 0 <= k < asked.len() ==> 0 <= (#[trigger] asked[k]).0 < 2,
    ensures
        ({
            let n = parsed(c, said("scroll-to-bottom"@, v), e);
            let s = n.mouse.scroll_to_bottom;
            &&& n == (ConfigView {
                mouse: MouseView { scroll_to_bottom: s, ..c.mouse },
                diagnostics: n.diagnostics,
                ..c
            })
            &&& v == joined(Seq::new(asked.len(), |k: int| flag_word(scroll_to_bottom_names(), asked[k])), ',')
                && v.len() > 0
                ==> n.diagnostics == c.diagnostics && s.keystroke == asked_or(asked, 0, true)
                    && s.output == asked_or(asked, 1, false)
            &&& v == "true"@ || v == "t"@ || v == "1"@ ==> s.keystroke && s.output
            &&& v == "false"@ || v == "f"@ || v == "0"@ ==> !s.keystroke && !s.output
            &&& v.len() == 0 ==> s.keystroke && !s.output
        }),
{
    lemma_mouse_keys();
    lemma_mouse_reached(c, "scroll-to-bottom"@, v, e);
    reveal(mouse_key);
    lemma_words();
    lemma_scroll_to_bottom_names();
    law_flag_lists(scroll_to_bottom_names(), seq![true, false], asked);
    lemma_tight_stays(v);
    let all = Seq::new(asked.len(), |k: int| flag_word(scroll_to_bottom_names(), asked[k]));
    if v == joined(all, ',') {
        let f = packed(v, scroll_to_bottom_names(), seq![true, false])->0;
        assert(f[0] == asked_or(asked, 0, true));
        assert(f[1] == asked_or(asked, 1, false));
    }
}

} // verus!
