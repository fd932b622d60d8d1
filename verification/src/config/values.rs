//! The values that settings take, and the decisions made from them.

use crate::text::{chars, contains, has, holds};
use vstd::prelude::*;

verus! {

/// What a right-click inside a pane does.
#[derive(Clone, Copy, Debug, PartialEq, Eq, Structural)]
pub enum RightClickAction {
    /// Show a context menu.
    ContextMenu,
    /// Copy the selection.
    Copy,
    /// Paste the clipboard.
    Paste,
    /// Copy if there is a selection, otherwise paste.
    CopyOrPaste,
    /// Do nothing.
    Ignore,
}

/// What a middle-click inside a pane does.
#[derive(Clone, Copy, Debug, PartialEq, Eq, Structural)]
pub enum MiddleClickAction {
    /// Paste the primary selection, or the clipboard while that is empty.
    PrimaryPaste,
    /// Paste the system clipboard.
    ClipboardPaste,
    /// Do nothing.
    Ignore,
}

/// Where a finished selection is copied by itself.
#[derive(Clone, Copy, Debug, PartialEq, Eq, Structural)]
pub enum CopyOnSelect {
    /// Nowhere.
    Off,
    /// The primary buffer only.
    Primary,
    /// The system clipboard only.
    Clipboard,
    /// Both.
    Both,
}

impl CopyOnSelect {
    /// Whether the primary buffer gets a copy.
    pub fn primary(self) -> (r: bool)
        ensures
            r == copies(self).0,
            r == (self is Primary || self is Both),
    {
        matches!(self, CopyOnSelect::Primary | CopyOnSelect::Both)
    }

    /// Whether the clipboard gets a copy.
    pub fn clipboard(self) -> (r: bool)
        ensures
            r == copies(self).1,
            r == (self is Clipboard || self is Both),
    {
        matches!(self, CopyOnSelect::Clipboard | CopyOnSelect::Both)
    }
}

/// Whether Shift+click goes to a mouse-tracking program or extends the
/// selection.
#[derive(Clone, Copy, Debug, PartialEq, Eq, Structural)]
pub enum MouseShiftCapture {
    False,
    True,
    Always,
    Never,
}

impl MouseShiftCapture {
    /// Whether shift goes to the program, given the program's latest request.
    /// `Always` and `Never` hold whatever it asked for.
    pub fn captured(self, program: Option<bool>) -> (r: bool)
        ensures
            r == captures(self, program),
            self is Always ==> r,
            self is Never ==> !r,
            self is False ==> r == (program == Some(true)),
            self is True ==> r == (program != Some(false)),
    {
        match self {
            MouseShiftCapture::Always => true,
            MouseShiftCapture::Never => false,
            MouseShiftCapture::False => match program {
                Some(b) => b,
                None => false,
            },
            MouseShiftCapture::True => match program {
                Some(b) => b,
                None => true,
            },
        }
    }
}

/// Backdrop blur behind a translucent window.
#[derive(Clone, Copy, Debug, PartialEq, Eq, Structural)]
pub enum BackgroundBlur {
    Off,
    /// The default intensity.
    On,
    /// An explicit intensity; zero is off.
    Radius(u8),
}

impl BackgroundBlur {
    /// The intensity as a number: `On` is 20, `Off` is 0.
    pub fn intensity(self) -> (r: u8)
        ensures
            r == strength(self),
            r == match self {
                BackgroundBlur::Off => 0u8,
                BackgroundBlur::On => 20u8,
                BackgroundBlur::Radius(n) => n,
            },
    {
        match self {
            BackgroundBlur::Off => 0,
            BackgroundBlur::On => 20,
            BackgroundBlur::Radius(r) => r,
        }
    }

    /// Whether there is any blur.
    pub fn enabled(self) -> (r: bool)
        ensures
            r == (strength(self) > 0),
            r == !(self is Off || self == BackgroundBlur::Radius(0)),
    {
        self.intensity() > 0
    }
}

/// Where a new tab is inserted.
#[derive(Clone, Copy, Debug, PartialEq, Eq, Structural)]
pub enum NewTabPosition {
    /// After the focused tab.
    Current,
    /// At the end of the strip.
    End,
}

/// How leftover space is distributed round the grid.
#[derive(Clone, Copy, Debug, PartialEq, Eq, Structural)]
pub enum PaddingBalance {
    /// All of it to the right and bottom.
    Off,
    /// Shared, with a cap on the top.
    Balanced,
    /// Shared equally.
    Equal,
}

/// When a custom shader's animation runs.
#[derive(Clone, Copy, Debug, PartialEq, Eq, Structural)]
pub enum CustomShaderAnimation {
    /// Never.
    False,
    /// While the window is focused.
    True,
    /// Even unfocused.
    Always,
}

impl CustomShaderAnimation {
    /// Whether to keep repainting, given the window's focus.
    pub fn animates(self, focused: bool) -> (r: bool)
        ensures
            r == runs(self, focused),
            r == (self is Always || (self is True && focused)),
    {
        match self {
            CustomShaderAnimation::False => false,
            CustomShaderAnimation::True => focused,
            CustomShaderAnimation::Always => true,
        }
    }
}

/// When a finished command raises a notification.
#[derive(Clone, Copy, Debug, PartialEq, Eq, Structural)]
pub enum NotifyOnCommandFinish {
    Never,
    /// Only while the window isn't focused.
    Unfocused,
    Always,
}

/// Whether a finished command should notify.
pub fn should_notify_on_finish(mode: NotifyOnCommandFinish, focused: bool) -> (r: bool)
    ensures
        r == notifies(mode, focused),
        r == (mode is Always || (mode is Unfocused && !focused)),
{
    match mode {
        NotifyOnCommandFinish::Never => false,
        NotifyOnCommandFinish::Unfocused => !focused,
        NotifyOnCommandFinish::Always => true,
    }
}

/// Which shell integration is injected (`shell-integration`).
#[derive(Clone, Copy, Debug, PartialEq, Eq, Structural)]
pub enum ShellIntegration {
    /// None at all.
    Off,
    /// The one of the shell that is started.
    Detect,
    Bash,
    Elvish,
    Fish,
    Nushell,
    Zsh,
}

/// When to confirm before closing a surface.
#[derive(Clone, Copy, Debug, PartialEq, Eq, Structural)]
pub enum ConfirmClose {
    Never,
    /// Only when something looks like it's running.
    WhenBusy,
    Always,
}

/// Whether closing needs confirmation. `busy` is `None` where nobody can tell,
/// and then closing is confirmed.
pub fn needs_confirm(mode: ConfirmClose, busy: Option<bool>) -> (r: bool)
    ensures
        r == confirms(mode, busy),
        r == (mode is Always || (mode is WhenBusy && busy != Some(false))),
{
    match mode {
        ConfirmClose::Never => false,
        ConfirmClose::Always => true,
        ConfirmClose::WhenBusy => match busy {
            Some(b) => b,
            None => true,
        },
    }
}

/// Whether the window layout survives a quit.
#[derive(Clone, Copy, Debug, PartialEq, Eq, Structural)]
pub enum WindowSaveState {
    /// As the system asks, which here is never.
    Default,
    Never,
    /// Save on exit and restore on launch.
    Always,
}

impl WindowSaveState {
    /// Whether a state file is written on exit and read at startup.
    pub fn restores(self) -> (r: bool)
        ensures
            r == (self is Always),
    {
        matches!(self, WindowSaveState::Always)
    }
}

/// Permission for a clipboard operation that a program asks for.
#[derive(Clone, Copy, Debug, PartialEq, Eq, Structural)]
pub enum ClipboardAccess {
    Allow,
    Deny,
    Ask,
}

/// The paste-safety settings.
#[derive(Clone, Copy, Debug, PartialEq, Eq, Structural)]
pub struct ClipboardPolicy {
    pub read: ClipboardAccess,
    pub write: ClipboardAccess,
    pub trim_trailing_spaces: bool,
    pub paste_protection: bool,
    pub paste_bracketed_safe: bool,
    /// Largest write accepted in bytes; `None` is unlimited.
    pub write_limit: Option<usize>,
}

/// The sequence that closes a bracketed paste.
pub open spec fn paste_end() -> Seq<char> {
    "\x1b[201~"@
}

/// Whether a text is unsafe to paste.
///
/// Without protection nothing is. A bracketed paste is where it holds the end
/// marker, which would close the bracket early, and else is not where
/// bracketing is trusted. Any other paste is where it holds a newline or the
/// end marker.
pub open spec fn unsafe_paste(policy: ClipboardPolicy, bracketed: bool, data: Seq<char>) -> bool {
    if !policy.paste_protection {
        false
    } else if bracketed && holds(data, paste_end()) {
        true
    } else if bracketed && policy.paste_bracketed_safe {
        false
    } else {
        data.contains('\n') || holds(data, paste_end())
    }
}

/// Whether `data` needs confirmation before it is pasted.
pub fn paste_is_unsafe(policy: ClipboardPolicy, bracketed: bool, data: &str) -> (r: bool)
    ensures
        r == unsafe_paste(policy, bracketed, data@),
{
    let cs = chars(data);
    if !policy.paste_protection {
        return false;
    }
    if bracketed {
        if contains(cs.as_slice(), "\x1b[201~") {
            return true;
        }
        if policy.paste_bracketed_safe {
            return false;
        }
    }
    has(cs.as_slice(), '\n') || contains(cs.as_slice(), "\x1b[201~")
}

/// The end marker is never trusted: while protection is on, text that holds it
/// is confirmed, bracketed or not and whatever else is set.
pub proof fn law_end_marker_is_never_trusted(
    policy: ClipboardPolicy,
    bracketed: bool,
    data: Seq<char>,
)
    requires
        policy.paste_protection,
        holds(data, paste_end()),
    ensures
        unsafe_paste(policy, bracketed, data),
{
}

/// Text without a newline and without the end marker is never confirmed.
pub proof fn law_plain_text_is_safe(policy: ClipboardPolicy, bracketed: bool, data: Seq<char>)
    requires
        !data.contains('\n'),
        !holds(data, paste_end()),
    ensures
        !unsafe_paste(policy, bracketed, data),
{
}

/// Where bracketing is not trusted, a bracketed paste is judged as any other.
pub proof fn law_distrusted_bracketing_is_no_bracketing(policy: ClipboardPolicy, data: Seq<char>)
    requires
        !policy.paste_bracketed_safe,
    ensures
        unsafe_paste(policy, true, data) == unsafe_paste(policy, false, data),
{
}

/// When to show the grid-size overlay on resize.
#[derive(Clone, Copy, Debug, PartialEq, Eq, Structural)]
pub enum ResizeOverlay {
    Always,
    Never,
    /// On every resize but a surface's first sizing.
    AfterFirst,
}

/// Whether a grid-size change raises the overlay.
pub fn show_resize_overlay(mode: ResizeOverlay, first: bool) -> (r: bool)
    ensures
        r == overlays(mode, first),
        r == (mode is Always || (mode is AfterFirst && !first)),
{
    match mode {
        ResizeOverlay::Never => false,
        ResizeOverlay::Always => true,
        ResizeOverlay::AfterFirst => !first,
    }
}

/// Whether to show the scrollbar.
#[derive(Clone, Copy, Debug, PartialEq, Eq, Structural)]
pub enum Scrollbar {
    /// The platform's overlay.
    System,
    Never,
}

/// How the background image is scaled to the terminal area.
#[derive(Clone, Copy, Debug, PartialEq, Eq, Structural)]
pub enum BackgroundImageFit {
    /// The largest size fully inside.
    Contain,
    /// The smallest size that covers.
    Cover,
    /// The area exactly.
    Stretch,
    /// The image's own size.
    Unscaled,
}

/// Where the background image sits when its fit leaves space.
#[derive(Clone, Copy, Debug, PartialEq, Eq, Structural)]
pub enum BackgroundImagePosition {
    TopLeft,
    TopCenter,
    TopRight,
    CenterLeft,
    Center,
    CenterRight,
    BottomLeft,
    BottomCenter,
    BottomRight,
}

/// Light or dark window chrome.
#[derive(Clone, Copy, Debug, PartialEq, Eq, Structural)]
pub enum WindowTheme {
    /// As the terminal's background.
    Auto,
    Dark,
    Light,
}

/// Where the resize overlay sits within the pane.
#[derive(Clone, Copy, Debug, PartialEq, Eq, Structural)]
pub enum ResizeOverlayPosition {
    Center,
    TopLeft,
    TopCenter,
    TopRight,
    BottomLeft,
    BottomCenter,
    BottomRight,
}

/// Precision of a reply to a colour query.
#[derive(Clone, Copy, Debug, PartialEq, Eq, Structural)]
pub enum OscColorReportFormat {
    /// No reply.
    Off,
    /// `rgb:rr/gg/bb`.
    Bits8,
    /// `rgb:rrrr/gggg/bbbb`.
    Bits16,
}

/// Which pseudoconsole carries the shell.
#[derive(Clone, Copy, Debug, PartialEq, Eq, Structural)]
pub enum ConptyPassthrough {
    Auto,
    On,
    Off,
}

impl ConptyPassthrough {
    /// Whether a pseudoconsole beside the executable is used and asked to pass
    /// output through.
    pub fn apply(self) -> (on: bool)
        ensures
            on == !(self is Off),
    {
        !matches!(self, ConptyPassthrough::Off)
    }
}

/// Which caption and border a window has.
#[derive(Clone, Copy, Debug, PartialEq, Eq, Structural)]
pub enum WindowDecoration {
    Auto,
    Client,
    Server,
    Off,
}

impl WindowDecoration {
    /// Whether the native caption and border are drawn.
    pub fn decorated(self) -> (r: bool)
        ensures
            r == !(self is Off),
    {
        !matches!(self, WindowDecoration::Off)
    }
}

/// When the tab strip is shown.
#[derive(Clone, Copy, Debug, PartialEq, Eq, Structural)]
pub enum ShowTabBar {
    Always,
    Auto,
    Never,
}

impl ShowTabBar {
    /// Whether the strip is shown for a window with `tabs` tabs.
    pub fn visible(self, tabs: usize) -> (r: bool)
        ensures
            r == strip_shown(self, tabs),
            r == (self is Always || (self is Auto && tabs > 1)),
    {
        match self {
            ShowTabBar::Always => true,
            ShowTabBar::Auto => tabs > 1,
            ShowTabBar::Never => false,
        }
    }
}

/// Where a selection is copied: to the primary buffer, to the clipboard.
pub open spec fn copies(c: CopyOnSelect) -> (bool, bool) {
    (c is Primary || c is Both, c is Clipboard || c is Both)
}

/// Whether Shift+click goes to the program, given what the program asked for.
pub open spec fn captures(m: MouseShiftCapture, program: Option<bool>) -> bool {
    match m {
        MouseShiftCapture::Always => true,
        MouseShiftCapture::Never => false,
        MouseShiftCapture::False => program == Some(true),
        MouseShiftCapture::True => program != Some(false),
    }
}

/// How strong a blur is.
pub open spec fn strength(b: BackgroundBlur) -> u8 {
    match b {
        BackgroundBlur::Off => 0,
        BackgroundBlur::On => 20,
        BackgroundBlur::Radius(n) => n,
    }
}

/// Whether a shader's animation runs.
pub open spec fn runs(a: CustomShaderAnimation, focused: bool) -> bool {
    a is Always || (a is True && focused)
}

/// Whether a finished command notifies.
pub open spec fn notifies(mode: NotifyOnCommandFinish, focused: bool) -> bool {
    mode is Always || (mode is Unfocused && !focused)
}

/// Whether closing is confirmed.
pub open spec fn confirms(mode: ConfirmClose, busy: Option<bool>) -> bool {
    mode is Always || (mode is WhenBusy && busy != Some(false))
}

/// Whether a change of size raises the overlay.
pub open spec fn overlays(mode: ResizeOverlay, first: bool) -> bool {
    mode is Always || (mode is AfterFirst && !first)
}

/// Whether the strip of tabs is shown.
pub open spec fn strip_shown(t: ShowTabBar, tabs: usize) -> bool {
    t is Always || (t is Auto && tabs > 1)
}

/// A selection is copied to the place that is named, to both, or to neither.
pub proof fn law_selection_is_copied_where_asked()
    ensures
        copies(CopyOnSelect::Off) == (false, false),
        copies(CopyOnSelect::Primary) == (true, false),
        copies(CopyOnSelect::Clipboard) == (false, true),
        copies(CopyOnSelect::Both) == (true, true),
{
}

/// What a program asks for counts, unless it is always or never captured; where it
/// asks for nothing, the setting counts.
pub proof fn law_program_may_ask_for_shift(m: MouseShiftCapture, asked: bool)
    ensures
        m is True || m is False ==> captures(m, Some(asked)) == asked,
        m is Always ==> captures(m, Some(asked)),
        m is Never ==> !captures(m, Some(asked)),
        captures(m, None) <==> m is True || m is Always,
{
}

/// A blur turned on is one of twenty, one turned off is one of none, and any other
/// is as strong as it says.
pub proof fn law_blur_is_as_strong_as_asked(n: u8)
    ensures
        strength(BackgroundBlur::Off) == strength(BackgroundBlur::Radius(0)),
        strength(BackgroundBlur::On) == strength(BackgroundBlur::Radius(20)),
        strength(BackgroundBlur::Radius(n)) == n,
{
}

/// What always happens does so with the focus and without it, and what never
/// happens does not. Else a shader runs with the focus, and a notification is for
/// those who look elsewhere.
pub proof fn law_focus_decides(focused: bool)
    ensures
        runs(CustomShaderAnimation::Always, focused),
        !runs(CustomShaderAnimation::False, focused),
        runs(CustomShaderAnimation::True, focused) == focused,
        notifies(NotifyOnCommandFinish::Always, focused),
        !notifies(NotifyOnCommandFinish::Never, focused),
        notifies(NotifyOnCommandFinish::Unfocused, focused) != focused,
{
}

/// Closing is confirmed always, never, or while something runs; where nobody can
/// tell, it is as if something ran.
pub proof fn law_closing_is_confirmed_while_busy(busy: Option<bool>)
    ensures
        confirms(ConfirmClose::Always, busy),
        !confirms(ConfirmClose::Never, busy),
        confirms(ConfirmClose::WhenBusy, Some(true)),
        !confirms(ConfirmClose::WhenBusy, Some(false)),
        confirms(ConfirmClose::WhenBusy, None) == confirms(ConfirmClose::WhenBusy, Some(true)),
{
}

/// The overlay is shown always, never, or from the second size on; the strip of
/// tabs always, never, or with more than one tab.
pub proof fn law_overlay_and_strip(first: bool, tabs: usize)
    ensures
        overlays(ResizeOverlay::Always, first),
        !overlays(ResizeOverlay::Never, first),
        overlays(ResizeOverlay::AfterFirst, first) != first,
        strip_shown(ShowTabBar::Always, tabs),
        !strip_shown(ShowTabBar::Never, tabs),
        strip_shown(ShowTabBar::Auto, tabs) <==> tabs >= 2,
{
}

/// Without protection nothing is confirmed. With it, a paste that is not bracketed
/// is confirmed exactly where it holds a newline or the sequence that ends a
/// bracketed one, and a bracketed one that is trusted exactly where it holds that
/// sequence.
pub proof fn law_protected_pastes(policy: ClipboardPolicy, bracketed: bool, data: Seq<char>)
    ensures
        ({
            let end = seq!['\u{1b}', '[', '2', '0', '1', '~'];
            &&& !policy.paste_protection ==> !unsafe_paste(policy, bracketed, data)
            &&& policy.paste_protection ==> (unsafe_paste(policy, false, data) <==> data.contains(
                '\n',
            ) || holds(data, end))
            &&& policy.paste_protection && policy.paste_bracketed_safe ==> (unsafe_paste(
                policy,
                true,
                data,
            ) <==> holds(data, end))
        }),
{
    reveal_strlit("\x1b[201~");
    assert(paste_end() =~= seq!['\u{1b}', '[', '2', '0', '1', '~']);
}

} // verus!
