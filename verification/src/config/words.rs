//! Settings whose values are words out of a fixed list. An empty value resets
//! the setting; a word that is not on the list leaves it as it was, unless its
//! key says otherwise.

use crate::config::values::{
    BackgroundImageFit, BackgroundImagePosition, ConfirmClose, ConptyPassthrough, CopyOnSelect,
    CustomShaderAnimation, MiddleClickAction, MouseShiftCapture, NewTabPosition,
    NotifyOnCommandFinish, OscColorReportFormat, PaddingBalance, ResizeOverlay,
    ResizeOverlayPosition, RightClickAction, Scrollbar, ShellIntegration, ShowTabBar,
    WindowDecoration, WindowSaveState, WindowTheme,
};
use crate::engine::{BoldColor, CursorShape};
use crate::text::{chars, lower, lowered, spells};
use vstd::prelude::*;

verus! {

/// The value of `window-new-tab-position` after it is given `v`.
pub open spec fn new_tab_position_or(v: Seq<char>, current: NewTabPosition) -> NewTabPosition {
    let w = lower(v);
    if v.len() == 0 {
        NewTabPosition::Current
    } else if w == "current"@ {
        NewTabPosition::Current
    } else if w == "end"@ {
        NewTabPosition::End
    } else {
        current
    }
}

/// The value of `window-new-tab-position` after it is given `v`.
pub fn new_tab_position(v: &str, current: NewTabPosition) -> (r: NewTabPosition)
    ensures
        r == new_tab_position_or(v@, current),
{
    if v.is_empty() {
        return NewTabPosition::Current;
    }
    let cs = chars(v);
    let w = lowered(cs.as_slice());
    let w = w.as_slice();
    if spells(w, "current") {
        NewTabPosition::Current
    } else if spells(w, "end") {
        NewTabPosition::End
    } else {
        current
    }
}

/// The value of `window-padding-balance` after it is given `v`.
pub open spec fn padding_balance_or(v: Seq<char>, current: PaddingBalance) -> PaddingBalance {
    let w = lower(v);
    if v.len() == 0 {
        PaddingBalance::Off
    } else if w == "false"@ || w == "no"@ || w == "off"@ || w == "0"@ {
        PaddingBalance::Off
    } else if w == "true"@ || w == "yes"@ || w == "on"@ || w == "1"@ {
        PaddingBalance::Balanced
    } else if w == "equal"@ {
        PaddingBalance::Equal
    } else {
        current
    }
}

/// The value of `window-padding-balance` after it is given `v`.
pub fn padding_balance(v: &str, current: PaddingBalance) -> (r: PaddingBalance)
    ensures
        r == padding_balance_or(v@, current),
{
    if v.is_empty() {
        return PaddingBalance::Off;
    }
    let cs = chars(v);
    let w = lowered(cs.as_slice());
    let w = w.as_slice();
    if spells(w, "false") || spells(w, "no") || spells(w, "off") || spells(w, "0") {
        PaddingBalance::Off
    } else if spells(w, "true") || spells(w, "yes") || spells(w, "on") || spells(w, "1") {
        PaddingBalance::Balanced
    } else if spells(w, "equal") {
        PaddingBalance::Equal
    } else {
        current
    }
}

/// The value of `cursor-style` after it is given `v`.
pub open spec fn cursor_style_or(v: Seq<char>, current: CursorShape) -> CursorShape {
    let w = lower(v);
    if v.len() == 0 {
        CursorShape::Block
    } else if w == "block"@ {
        CursorShape::Block
    } else if w == "bar"@ {
        CursorShape::Bar
    } else if w == "underline"@ {
        CursorShape::Underline
    } else if w == "block_hollow"@ || w == "block-hollow"@ {
        CursorShape::HollowBlock
    } else {
        current
    }
}

/// The value of `cursor-style` after it is given `v`.
pub fn cursor_style(v: &str, current: CursorShape) -> (r: CursorShape)
    ensures
        r == cursor_style_or(v@, current),
{
    if v.is_empty() {
        return CursorShape::Block;
    }
    let cs = chars(v);
    let w = lowered(cs.as_slice());
    let w = w.as_slice();
    if spells(w, "block") {
        CursorShape::Block
    } else if spells(w, "bar") {
        CursorShape::Bar
    } else if spells(w, "underline") {
        CursorShape::Underline
    } else if spells(w, "block_hollow") || spells(w, "block-hollow") {
        CursorShape::HollowBlock
    } else {
        current
    }
}

/// The value of `cursor-style-blink` after it is given `v`.
pub open spec fn cursor_style_blink_or(v: Seq<char>, current: Option<bool>) -> Option<bool> {
    let w = lower(v);
    if v.len() == 0 {
        None
    } else if w == "true"@ || w == "1"@ || w == "on"@ || w == "yes"@ {
        Some(true)
    } else if w == "false"@ || w == "0"@ || w == "off"@ || w == "no"@ {
        Some(false)
    } else {
        current
    }
}

/// The value of `cursor-style-blink` after it is given `v`.
pub fn cursor_style_blink(v: &str, current: Option<bool>) -> (r: Option<bool>)
    ensures
        r == cursor_style_blink_or(v@, current),
{
    if v.is_empty() {
        return None;
    }
    let cs = chars(v);
    let w = lowered(cs.as_slice());
    let w = w.as_slice();
    if spells(w, "true") || spells(w, "1") || spells(w, "on") || spells(w, "yes") {
        Some(true)
    } else if spells(w, "false") || spells(w, "0") || spells(w, "off") || spells(w, "no") {
        Some(false)
    } else {
        current
    }
}

/// The value of `bold-is-bright` after it is given `v`.
pub open spec fn bold_is_bright_or(v: Seq<char>, current: BoldColor) -> BoldColor {
    let w = lower(v);
    if v.len() == 0 {
        BoldColor::Off
    } else if w == "true"@ || w == "1"@ || w == "on"@ || w == "yes"@ {
        BoldColor::Bright
    } else if w == "false"@ || w == "0"@ || w == "off"@ || w == "no"@ {
        BoldColor::Off
    } else {
        current
    }
}

/// The value of `bold-is-bright` after it is given `v`.
pub fn bold_is_bright(v: &str, current: BoldColor) -> (r: BoldColor)
    ensures
        r == bold_is_bright_or(v@, current),
{
    if v.is_empty() {
        return BoldColor::Off;
    }
    let cs = chars(v);
    let w = lowered(cs.as_slice());
    let w = w.as_slice();
    if spells(w, "true") || spells(w, "1") || spells(w, "on") || spells(w, "yes") {
        BoldColor::Bright
    } else if spells(w, "false") || spells(w, "0") || spells(w, "off") || spells(w, "no") {
        BoldColor::Off
    } else {
        current
    }
}

/// The value of `background-image-position` after it is given `v`.
pub open spec fn image_position_or(
    v: Seq<char>,
    current: BackgroundImagePosition,
) -> BackgroundImagePosition {
    let w = lower(v);
    if v.len() == 0 {
        BackgroundImagePosition::Center
    } else if w == "top-left"@ {
        BackgroundImagePosition::TopLeft
    } else if w == "top-center"@ {
        BackgroundImagePosition::TopCenter
    } else if w == "top-right"@ {
        BackgroundImagePosition::TopRight
    } else if w == "center-left"@ {
        BackgroundImagePosition::CenterLeft
    } else if w == "center"@ || w == "center-center"@ {
        BackgroundImagePosition::Center
    } else if w == "center-right"@ {
        BackgroundImagePosition::CenterRight
    } else if w == "bottom-left"@ {
        BackgroundImagePosition::BottomLeft
    } else if w == "bottom-center"@ {
        BackgroundImagePosition::BottomCenter
    } else if w == "bottom-right"@ {
        BackgroundImagePosition::BottomRight
    } else {
        current
    }
}

/// The value of `background-image-position` after it is given `v`.
pub fn image_position(v: &str, current: BackgroundImagePosition) -> (r: BackgroundImagePosition)
    ensures
        r == image_position_or(v@, current),
{
    if v.is_empty() {
        return BackgroundImagePosition::Center;
    }
    let cs = chars(v);
    let w = lowered(cs.as_slice());
    let w = w.as_slice();
    if spells(w, "top-left") {
        BackgroundImagePosition::TopLeft
    } else if spells(w, "top-center") {
        BackgroundImagePosition::TopCenter
    } else if spells(w, "top-right") {
        BackgroundImagePosition::TopRight
    } else if spells(w, "center-left") {
        BackgroundImagePosition::CenterLeft
    } else if spells(w, "center") || spells(w, "center-center") {
        BackgroundImagePosition::Center
    } else if spells(w, "center-right") {
        BackgroundImagePosition::CenterRight
    } else if spells(w, "bottom-left") {
        BackgroundImagePosition::BottomLeft
    } else if spells(w, "bottom-center") {
        BackgroundImagePosition::BottomCenter
    } else if spells(w, "bottom-right") {
        BackgroundImagePosition::BottomRight
    } else {
        current
    }
}

/// The value of `background-image-fit` after it is given `v`.
pub open spec fn image_fit_or(v: Seq<char>, current: BackgroundImageFit) -> BackgroundImageFit {
    let w = lower(v);
    if v.len() == 0 {
        BackgroundImageFit::Contain
    } else if w == "contain"@ {
        BackgroundImageFit::Contain
    } else if w == "cover"@ {
        BackgroundImageFit::Cover
    } else if w == "stretch"@ {
        BackgroundImageFit::Stretch
    } else if w == "none"@ {
        BackgroundImageFit::Unscaled
    } else {
        current
    }
}

/// The value of `background-image-fit` after it is given `v`.
pub fn image_fit(v: &str, current: BackgroundImageFit) -> (r: BackgroundImageFit)
    ensures
        r == image_fit_or(v@, current),
{
    if v.is_empty() {
        return BackgroundImageFit::Contain;
    }
    let cs = chars(v);
    let w = lowered(cs.as_slice());
    let w = w.as_slice();
    if spells(w, "contain") {
        BackgroundImageFit::Contain
    } else if spells(w, "cover") {
        BackgroundImageFit::Cover
    } else if spells(w, "stretch") {
        BackgroundImageFit::Stretch
    } else if spells(w, "none") {
        BackgroundImageFit::Unscaled
    } else {
        current
    }
}

/// The value of `window-theme` after it is given `v`.
pub open spec fn window_theme_or(v: Seq<char>, current: WindowTheme) -> WindowTheme {
    let w = lower(v);
    if v.len() == 0 {
        WindowTheme::Auto
    } else if w == "auto"@ || w == "system"@ {
        WindowTheme::Auto
    } else if w == "dark"@ {
        WindowTheme::Dark
    } else if w == "light"@ {
        WindowTheme::Light
    } else {
        current
    }
}

/// The value of `window-theme` after it is given `v`.
pub fn window_theme(v: &str, current: WindowTheme) -> (r: WindowTheme)
    ensures
        r == window_theme_or(v@, current),
{
    if v.is_empty() {
        return WindowTheme::Auto;
    }
    let cs = chars(v);
    let w = lowered(cs.as_slice());
    let w = w.as_slice();
    if spells(w, "auto") || spells(w, "system") {
        WindowTheme::Auto
    } else if spells(w, "dark") {
        WindowTheme::Dark
    } else if spells(w, "light") {
        WindowTheme::Light
    } else {
        current
    }
}

/// The value of `conpty-passthrough` after it is given `v`.
pub open spec fn conpty_or(v: Seq<char>) -> ConptyPassthrough {
    let w = lower(v);
    if v.len() == 0 {
        ConptyPassthrough::Auto
    } else if w == "auto"@ {
        ConptyPassthrough::Auto
    } else if w == "1"@ || w == "t"@ || w == "true"@ {
        ConptyPassthrough::On
    } else if w == "0"@ || w == "f"@ || w == "false"@ {
        ConptyPassthrough::Off
    } else {
        ConptyPassthrough::Auto
    }
}

/// The value of `conpty-passthrough` after it is given `v`.
pub fn conpty(v: &str) -> (r: ConptyPassthrough)
    ensures
        r == conpty_or(v@),
{
    if v.is_empty() {
        return ConptyPassthrough::Auto;
    }
    let cs = chars(v);
    let w = lowered(cs.as_slice());
    let w = w.as_slice();
    if spells(w, "auto") {
        ConptyPassthrough::Auto
    } else if spells(w, "1") || spells(w, "t") || spells(w, "true") {
        ConptyPassthrough::On
    } else if spells(w, "0") || spells(w, "f") || spells(w, "false") {
        ConptyPassthrough::Off
    } else {
        ConptyPassthrough::Auto
    }
}

/// The value of `copy-on-select` after it is given `v`.
pub open spec fn copy_on_select_or(v: Seq<char>, current: CopyOnSelect) -> CopyOnSelect {
    let w = lower(v);
    if v.len() == 0 {
        CopyOnSelect::Off
    } else if w == "false"@ || w == "0"@ || w == "off"@ || w == "no"@ || w == "none"@ {
        CopyOnSelect::Off
    } else if w == "true"@ || w == "1"@ || w == "on"@ || w == "yes"@ || w == "clipboard"@ {
        CopyOnSelect::Clipboard
    } else if w == "primary"@ {
        CopyOnSelect::Primary
    } else if w == "both"@ {
        CopyOnSelect::Both
    } else {
        current
    }
}

/// The value of `copy-on-select` after it is given `v`.
pub fn copy_on_select(v: &str, current: CopyOnSelect) -> (r: CopyOnSelect)
    ensures
        r == copy_on_select_or(v@, current),
{
    if v.is_empty() {
        return CopyOnSelect::Off;
    }
    let cs = chars(v);
    let w = lowered(cs.as_slice());
    let w = w.as_slice();
    if spells(w, "false") || spells(w, "0") || spells(w, "off") || spells(w, "no")
        || spells(w, "none") {
        CopyOnSelect::Off
    } else if spells(w, "true") || spells(w, "1") || spells(w, "on") || spells(w, "yes")
        || spells(w, "clipboard") {
        CopyOnSelect::Clipboard
    } else if spells(w, "primary") {
        CopyOnSelect::Primary
    } else if spells(w, "both") {
        CopyOnSelect::Both
    } else {
        current
    }
}

/// The value of `mouse-shift-capture` after it is given `v`.
pub open spec fn shift_capture_or(v: Seq<char>, current: MouseShiftCapture) -> MouseShiftCapture {
    let w = lower(v);
    if v.len() == 0 {
        MouseShiftCapture::False
    } else if w == "false"@ {
        MouseShiftCapture::False
    } else if w == "true"@ {
        MouseShiftCapture::True
    } else if w == "always"@ {
        MouseShiftCapture::Always
    } else if w == "never"@ {
        MouseShiftCapture::Never
    } else {
        current
    }
}

/// The value of `mouse-shift-capture` after it is given `v`.
pub fn shift_capture(v: &str, current: MouseShiftCapture) -> (r: MouseShiftCapture)
    ensures
        r == shift_capture_or(v@, current),
{
    if v.is_empty() {
        return MouseShiftCapture::False;
    }
    let cs = chars(v);
    let w = lowered(cs.as_slice());
    let w = w.as_slice();
    if spells(w, "false") {
        MouseShiftCapture::False
    } else if spells(w, "true") {
        MouseShiftCapture::True
    } else if spells(w, "always") {
        MouseShiftCapture::Always
    } else if spells(w, "never") {
        MouseShiftCapture::Never
    } else {
        current
    }
}

/// The value of `right-click-action` after it is given `v`.
pub open spec fn right_click_or(v: Seq<char>, current: RightClickAction) -> RightClickAction {
    let w = lower(v);
    if v.len() == 0 {
        RightClickAction::ContextMenu
    } else if w == "context-menu"@ {
        RightClickAction::ContextMenu
    } else if w == "copy"@ {
        RightClickAction::Copy
    } else if w == "paste"@ {
        RightClickAction::Paste
    } else if w == "copy-or-paste"@ {
        RightClickAction::CopyOrPaste
    } else if w == "ignore"@ {
        RightClickAction::Ignore
    } else {
        current
    }
}

/// The value of `right-click-action` after it is given `v`.
pub fn right_click(v: &str, current: RightClickAction) -> (r: RightClickAction)
    ensures
        r == right_click_or(v@, current),
{
    if v.is_empty() {
        return RightClickAction::ContextMenu;
    }
    let cs = chars(v);
    let w = lowered(cs.as_slice());
    let w = w.as_slice();
    if spells(w, "context-menu") {
        RightClickAction::ContextMenu
    } else if spells(w, "copy") {
        RightClickAction::Copy
    } else if spells(w, "paste") {
        RightClickAction::Paste
    } else if spells(w, "copy-or-paste") {
        RightClickAction::CopyOrPaste
    } else if spells(w, "ignore") {
        RightClickAction::Ignore
    } else {
        current
    }
}

/// The value of `middle-click-action` after it is given `v`.
pub open spec fn middle_click_or(v: Seq<char>, current: MiddleClickAction) -> MiddleClickAction {
    let w = lower(v);
    if v.len() == 0 {
        MiddleClickAction::PrimaryPaste
    } else if w == "primary-paste"@ {
        MiddleClickAction::PrimaryPaste
    } else if w == "clipboard-paste"@ {
        MiddleClickAction::ClipboardPaste
    } else if w == "ignore"@ {
        MiddleClickAction::Ignore
    } else {
        current
    }
}

/// The value of `middle-click-action` after it is given `v`.
pub fn middle_click(v: &str, current: MiddleClickAction) -> (r: MiddleClickAction)
    ensures
        r == middle_click_or(v@, current),
{
    if v.is_empty() {
        return MiddleClickAction::PrimaryPaste;
    }
    let cs = chars(v);
    let w = lowered(cs.as_slice());
    let w = w.as_slice();
    if spells(w, "primary-paste") {
        MiddleClickAction::PrimaryPaste
    } else if spells(w, "clipboard-paste") {
        MiddleClickAction::ClipboardPaste
    } else if spells(w, "ignore") {
        MiddleClickAction::Ignore
    } else {
        current
    }
}

/// The value of `confirm-close-surface` after it is given `v`.
pub open spec fn confirm_close_or(v: Seq<char>, current: ConfirmClose) -> ConfirmClose {
    let w = lower(v);
    if v.len() == 0 {
        ConfirmClose::WhenBusy
    } else if w == "false"@ || w == "no"@ || w == "off"@ || w == "0"@ {
        ConfirmClose::Never
    } else if w == "true"@ || w == "yes"@ || w == "on"@ || w == "1"@ {
        ConfirmClose::WhenBusy
    } else if w == "always"@ {
        ConfirmClose::Always
    } else {
        current
    }
}

/// The value of `confirm-close-surface` after it is given `v`.
pub fn confirm_close(v: &str, current: ConfirmClose) -> (r: ConfirmClose)
    ensures
        r == confirm_close_or(v@, current),
{
    if v.is_empty() {
        return ConfirmClose::WhenBusy;
    }
    let cs = chars(v);
    let w = lowered(cs.as_slice());
    let w = w.as_slice();
    if spells(w, "false") || spells(w, "no") || spells(w, "off") || spells(w, "0") {
        ConfirmClose::Never
    } else if spells(w, "true") || spells(w, "yes") || spells(w, "on") || spells(w, "1") {
        ConfirmClose::WhenBusy
    } else if spells(w, "always") {
        ConfirmClose::Always
    } else {
        current
    }
}

/// The value of `window-save-state` after it is given `v`.
pub open spec fn save_state_or(v: Seq<char>, current: WindowSaveState) -> WindowSaveState {
    let w = lower(v);
    if v.len() == 0 {
        WindowSaveState::Default
    } else if w == "default"@ {
        WindowSaveState::Default
    } else if w == "never"@ {
        WindowSaveState::Never
    } else if w == "always"@ {
        WindowSaveState::Always
    } else {
        current
    }
}

/// The value of `window-save-state` after it is given `v`.
pub fn save_state(v: &str, current: WindowSaveState) -> (r: WindowSaveState)
    ensures
        r == save_state_or(v@, current),
{
    if v.is_empty() {
        return WindowSaveState::Default;
    }
    let cs = chars(v);
    let w = lowered(cs.as_slice());
    let w = w.as_slice();
    if spells(w, "default") {
        WindowSaveState::Default
    } else if spells(w, "never") {
        WindowSaveState::Never
    } else if spells(w, "always") {
        WindowSaveState::Always
    } else {
        current
    }
}

/// The value of `resize-overlay` after it is given `v`.
pub open spec fn resize_overlay_or(v: Seq<char>, current: ResizeOverlay) -> ResizeOverlay {
    let w = lower(v);
    if v.len() == 0 {
        ResizeOverlay::AfterFirst
    } else if w == "always"@ {
        ResizeOverlay::Always
    } else if w == "never"@ {
        ResizeOverlay::Never
    } else if w == "after-first"@ {
        ResizeOverlay::AfterFirst
    } else {
        current
    }
}

/// The value of `resize-overlay` after it is given `v`.
pub fn resize_overlay(v: &str, current: ResizeOverlay) -> (r: ResizeOverlay)
    ensures
        r == resize_overlay_or(v@, current),
{
    if v.is_empty() {
        return ResizeOverlay::AfterFirst;
    }
    let cs = chars(v);
    let w = lowered(cs.as_slice());
    let w = w.as_slice();
    if spells(w, "always") {
        ResizeOverlay::Always
    } else if spells(w, "never") {
        ResizeOverlay::Never
    } else if spells(w, "after-first") {
        ResizeOverlay::AfterFirst
    } else {
        current
    }
}

/// The value of `resize-overlay-position` after it is given `v`.
pub open spec fn overlay_position_or(
    v: Seq<char>,
    current: ResizeOverlayPosition,
) -> ResizeOverlayPosition {
    let w = lower(v);
    if v.len() == 0 {
        ResizeOverlayPosition::Center
    } else if w == "center"@ {
        ResizeOverlayPosition::Center
    } else if w == "top-left"@ {
        ResizeOverlayPosition::TopLeft
    } else if w == "top-center"@ {
        ResizeOverlayPosition::TopCenter
    } else if w == "top-right"@ {
        ResizeOverlayPosition::TopRight
    } else if w == "bottom-left"@ {
        ResizeOverlayPosition::BottomLeft
    } else if w == "bottom-center"@ {
        ResizeOverlayPosition::BottomCenter
    } else if w == "bottom-right"@ {
        ResizeOverlayPosition::BottomRight
    } else {
        current
    }
}

/// The value of `resize-overlay-position` after it is given `v`.
pub fn overlay_position(v: &str, current: ResizeOverlayPosition) -> (r: ResizeOverlayPosition)
    ensures
        r == overlay_position_or(v@, current),
{
    if v.is_empty() {
        return ResizeOverlayPosition::Center;
    }
    let cs = chars(v);
    let w = lowered(cs.as_slice());
    let w = w.as_slice();
    if spells(w, "center") {
        ResizeOverlayPosition::Center
    } else if spells(w, "top-left") {
        ResizeOverlayPosition::TopLeft
    } else if spells(w, "top-center") {
        ResizeOverlayPosition::TopCenter
    } else if spells(w, "top-right") {
        ResizeOverlayPosition::TopRight
    } else if spells(w, "bottom-left") {
        ResizeOverlayPosition::BottomLeft
    } else if spells(w, "bottom-center") {
        ResizeOverlayPosition::BottomCenter
    } else if spells(w, "bottom-right") {
        ResizeOverlayPosition::BottomRight
    } else {
        current
    }
}

/// The value of `scrollbar` after it is given `v`.
pub open spec fn scrollbar_or(v: Seq<char>, current: Scrollbar) -> Scrollbar {
    let w = lower(v);
    if v.len() == 0 {
        Scrollbar::System
    } else if w == "system"@ {
        Scrollbar::System
    } else if w == "never"@ {
        Scrollbar::Never
    } else {
        current
    }
}

/// The value of `scrollbar` after it is given `v`.
pub fn scrollbar(v: &str, current: Scrollbar) -> (r: Scrollbar)
    ensures
        r == scrollbar_or(v@, current),
{
    if v.is_empty() {
        return Scrollbar::System;
    }
    let cs = chars(v);
    let w = lowered(cs.as_slice());
    let w = w.as_slice();
    if spells(w, "system") {
        Scrollbar::System
    } else if spells(w, "never") {
        Scrollbar::Never
    } else {
        current
    }
}

/// The value of `osc-color-report-format` after it is given `v`.
pub open spec fn report_format_or(
    v: Seq<char>,
    current: OscColorReportFormat,
) -> OscColorReportFormat {
    let w = lower(v);
    if v.len() == 0 {
        OscColorReportFormat::Bits16
    } else if w == "none"@ {
        OscColorReportFormat::Off
    } else if w == "8-bit"@ {
        OscColorReportFormat::Bits8
    } else if w == "16-bit"@ {
        OscColorReportFormat::Bits16
    } else {
        current
    }
}

/// The value of `osc-color-report-format` after it is given `v`.
pub fn report_format(v: &str, current: OscColorReportFormat) -> (r: OscColorReportFormat)
    ensures
        r == report_format_or(v@, current),
{
    if v.is_empty() {
        return OscColorReportFormat::Bits16;
    }
    let cs = chars(v);
    let w = lowered(cs.as_slice());
    let w = w.as_slice();
    if spells(w, "none") {
        OscColorReportFormat::Off
    } else if spells(w, "8-bit") {
        OscColorReportFormat::Bits8
    } else if spells(w, "16-bit") {
        OscColorReportFormat::Bits16
    } else {
        current
    }
}

/// The value of `custom-shader-animation` after it is given `v`.
pub open spec fn shader_animation_or(
    v: Seq<char>,
    current: CustomShaderAnimation,
) -> CustomShaderAnimation {
    let w = lower(v);
    if v.len() == 0 {
        CustomShaderAnimation::True
    } else if w == "true"@ || w == "1"@ || w == "on"@ || w == "yes"@ {
        CustomShaderAnimation::True
    } else if w == "false"@ || w == "0"@ || w == "off"@ || w == "no"@ {
        CustomShaderAnimation::False
    } else if w == "always"@ {
        CustomShaderAnimation::Always
    } else {
        current
    }
}

/// The value of `custom-shader-animation` after it is given `v`.
pub fn shader_animation(v: &str, current: CustomShaderAnimation) -> (r: CustomShaderAnimation)
    ensures
        r == shader_animation_or(v@, current),
{
    if v.is_empty() {
        return CustomShaderAnimation::True;
    }
    let cs = chars(v);
    let w = lowered(cs.as_slice());
    let w = w.as_slice();
    if spells(w, "true") || spells(w, "1") || spells(w, "on") || spells(w, "yes") {
        CustomShaderAnimation::True
    } else if spells(w, "false") || spells(w, "0") || spells(w, "off") || spells(w, "no") {
        CustomShaderAnimation::False
    } else if spells(w, "always") {
        CustomShaderAnimation::Always
    } else {
        current
    }
}

/// The value of `notify-on-command-finish` after it is given `v`.
pub open spec fn notify_when_or(
    v: Seq<char>,
    current: NotifyOnCommandFinish,
) -> NotifyOnCommandFinish {
    let w = lower(v);
    if v.len() == 0 {
        NotifyOnCommandFinish::Never
    } else if w == "never"@ {
        NotifyOnCommandFinish::Never
    } else if w == "unfocused"@ {
        NotifyOnCommandFinish::Unfocused
    } else if w == "always"@ {
        NotifyOnCommandFinish::Always
    } else {
        current
    }
}

/// The value of `notify-on-command-finish` after it is given `v`.
pub fn notify_when(v: &str, current: NotifyOnCommandFinish) -> (r: NotifyOnCommandFinish)
    ensures
        r == notify_when_or(v@, current),
{
    if v.is_empty() {
        return NotifyOnCommandFinish::Never;
    }
    let cs = chars(v);
    let w = lowered(cs.as_slice());
    let w = w.as_slice();
    if spells(w, "never") {
        NotifyOnCommandFinish::Never
    } else if spells(w, "unfocused") {
        NotifyOnCommandFinish::Unfocused
    } else if spells(w, "always") {
        NotifyOnCommandFinish::Always
    } else {
        current
    }
}

/// The value of `window-decoration` after it is given `v`.
pub open spec fn decoration_or(v: Seq<char>, current: WindowDecoration) -> WindowDecoration {
    let w = lower(v);
    if v.len() == 0 {
        WindowDecoration::Auto
    } else if w == "auto"@ || w == "true"@ {
        WindowDecoration::Auto
    } else if w == "client"@ {
        WindowDecoration::Client
    } else if w == "server"@ {
        WindowDecoration::Server
    } else if w == "none"@ || w == "false"@ {
        WindowDecoration::Off
    } else {
        current
    }
}

/// The value of `window-decoration` after it is given `v`.
pub fn decoration(v: &str, current: WindowDecoration) -> (r: WindowDecoration)
    ensures
        r == decoration_or(v@, current),
{
    if v.is_empty() {
        return WindowDecoration::Auto;
    }
    let cs = chars(v);
    let w = lowered(cs.as_slice());
    let w = w.as_slice();
    if spells(w, "auto") || spells(w, "true") {
        WindowDecoration::Auto
    } else if spells(w, "client") {
        WindowDecoration::Client
    } else if spells(w, "server") {
        WindowDecoration::Server
    } else if spells(w, "none") || spells(w, "false") {
        WindowDecoration::Off
    } else {
        current
    }
}

/// The value of `window-show-tab-bar` after it is given `v`.
pub open spec fn tab_bar_or(v: Seq<char>, current: ShowTabBar) -> ShowTabBar {
    let w = lower(v);
    if v.len() == 0 {
        ShowTabBar::Always
    } else if w == "always"@ {
        ShowTabBar::Always
    } else if w == "auto"@ {
        ShowTabBar::Auto
    } else if w == "never"@ {
        ShowTabBar::Never
    } else {
        current
    }
}

/// The value of `window-show-tab-bar` after it is given `v`.
pub fn tab_bar(v: &str, current: ShowTabBar) -> (r: ShowTabBar)
    ensures
        r == tab_bar_or(v@, current),
{
    if v.is_empty() {
        return ShowTabBar::Always;
    }
    let cs = chars(v);
    let w = lowered(cs.as_slice());
    let w = w.as_slice();
    if spells(w, "always") {
        ShowTabBar::Always
    } else if spells(w, "auto") {
        ShowTabBar::Auto
    } else if spells(w, "never") {
        ShowTabBar::Never
    } else {
        current
    }
}

/// The value of `window-subtitle` after it is given `v`.
pub open spec fn subtitle_or(v: Seq<char>, current: bool) -> bool {
    let w = lower(v);
    if v.len() == 0 {
        false
    } else if w == "working-directory"@ {
        true
    } else if w == "false"@ {
        false
    } else {
        current
    }
}

/// The value of `window-subtitle` after it is given `v`.
pub fn subtitle(v: &str, current: bool) -> (r: bool)
    ensures
        r == subtitle_or(v@, current),
{
    if v.is_empty() {
        return false;
    }
    let cs = chars(v);
    let w = lowered(cs.as_slice());
    let w = w.as_slice();
    if spells(w, "working-directory") {
        true
    } else if spells(w, "false") {
        false
    } else {
        current
    }
}

/// The value of `grapheme-width-method` after it is given `v`.
pub open spec fn grapheme_or(v: Seq<char>, current: bool) -> bool {
    if v.len() == 0 {
        true
    } else if v == "unicode"@ {
        true
    } else if v == "legacy"@ {
        false
    } else {
        current
    }
}

/// The value of `grapheme-width-method` after it is given `v`.
pub fn grapheme(v: &str, current: bool) -> (r: bool)
    ensures
        r == grapheme_or(v@, current),
{
    if v.is_empty() {
        return true;
    }
    let cs = chars(v);
    let v = cs.as_slice();
    if spells(v, "unicode") {
        true
    } else if spells(v, "legacy") {
        false
    } else {
        current
    }
}

/// The value of `shell-integration` after it is given `v`.
#[verifier::opaque]
pub open spec fn shell_integration_or(v: Seq<char>, current: ShellIntegration) -> ShellIntegration {
    let w = lower(v);
    if v.len() == 0 {
        ShellIntegration::Detect
    } else if w == "none"@ {
        ShellIntegration::Off
    } else if w == "detect"@ {
        ShellIntegration::Detect
    } else if w == "bash"@ {
        ShellIntegration::Bash
    } else if w == "elvish"@ {
        ShellIntegration::Elvish
    } else if w == "fish"@ {
        ShellIntegration::Fish
    } else if w == "nushell"@ {
        ShellIntegration::Nushell
    } else if w == "zsh"@ {
        ShellIntegration::Zsh
    } else {
        current
    }
}

/// The value of `shell-integration` after it is given `v`.
pub fn shell_integration(v: &str, current: ShellIntegration) -> (r: ShellIntegration)
    ensures
        r == shell_integration_or(v@, current),
{
    proof {
        reveal(shell_integration_or);
    }
    if v.is_empty() {
        return ShellIntegration::Detect;
    }
    let cs = chars(v);
    let w = lowered(cs.as_slice());
    let w = w.as_slice();
    if spells(w, "none") {
        ShellIntegration::Off
    } else if spells(w, "detect") {
        ShellIntegration::Detect
    } else if spells(w, "bash") {
        ShellIntegration::Bash
    } else if spells(w, "elvish") {
        ShellIntegration::Elvish
    } else if spells(w, "fish") {
        ShellIntegration::Fish
    } else if spells(w, "nushell") {
        ShellIntegration::Nushell
    } else if spells(w, "zsh") {
        ShellIntegration::Zsh
    } else {
        current
    }
}

} // verus!
