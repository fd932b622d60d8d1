//! Packed flag lists: `bell-features`, `app-notifications` and their kin.
//!
//! A value is a bare boolean that sets every flag, or a comma-separated list
//! that starts from the flags' defaults. `no-` turns a flag off, and one unknown
//! name rejects the whole value.

use crate::text::{
    chars, lower, lowered, pieces, spells, split, strip_prefix, stripped, trim, trimmed, views,
};
use vstd::prelude::*;

verus! {

/// The words of `names`.
pub open spec fn words(names: Seq<&str>) -> Seq<Seq<char>> {
    Seq::new(names.len(), |i: int| names[i]@)
}

/// Where `name` first stands in `names`; their number where it does not.
pub open spec fn place(names: Seq<Seq<char>>, name: Seq<char>) -> int
    decreases names.len(),
{
    if names.len() == 0 || names[0] == name {
        0
    } else {
        1 + place(names.skip(1), name)
    }
}

/// What one token of a list asks for: a flag's name, and whether it goes on.
pub open spec fn request(token: Seq<char>) -> (Seq<char>, bool) {
    match strip_prefix(token, "no-"@) {
        Some(rest) => (lower(rest), false),
        None => (lower(token), true),
    }
}

/// The flags after the tokens of a list have been applied to `flags` in order.
/// A blank token asks for nothing; a name that is no flag's spoils the list.
pub open spec fn applied(
    tokens: Seq<Seq<char>>,
    names: Seq<Seq<char>>,
    flags: Seq<bool>,
) -> Option<Seq<bool>>
    decreases tokens.len(),
{
    if tokens.len() == 0 {
        Some(flags)
    } else {
        let token = trim(tokens[0]);
        if token.len() == 0 {
            applied(tokens.skip(1), names, flags)
        } else {
            let (name, on) = request(token);
            let i = place(names, name);
            if i < names.len() {
                applied(tokens.skip(1), names, flags.update(i, on))
            } else {
                None
            }
        }
    }
}

/// `n` flags that are all `on`.
pub open spec fn all_flags(n: nat, on: bool) -> Seq<bool> {
    Seq::new(n, |i: int| on)
}

/// Whether a word stands for every flag on.
pub open spec fn bare_true(w: Seq<char>) -> bool {
    w == "1"@ || w == "t"@ || w == "true"@
}

/// Whether a word stands for every flag off.
pub open spec fn bare_false(w: Seq<char>) -> bool {
    w == "0"@ || w == "f"@ || w == "false"@
}

/// The flags that a packed value sets, over `names` and their `defaults`.
pub open spec fn packed(
    value: Seq<char>,
    names: Seq<Seq<char>>,
    defaults: Seq<bool>,
) -> Option<Seq<bool>> {
    let v = trim(value);
    if bare_true(v) {
        Some(all_flags(names.len(), true))
    } else if bare_false(v) {
        Some(all_flags(names.len(), false))
    } else {
        applied(split(v, ','), names, defaults)
    }
}

fn place_of(names: &[&str], name: &[char]) -> (r: usize)
    ensures
        r == place(words(names@), name@),
        r <= names@.len(),
{
    let mut i: usize = 0;
    proof {
        assert(words(names@).skip(0) =~= words(names@));
    }
    while i < names.len()
        invariant
            i <= names@.len(),
            place(words(names@), name@) == i + place(words(names@).skip(i as int), name@),
        decreases names@.len() - i,
    {
        if spells(name, names[i]) {
            return i;
        }
        proof {
            assert(words(names@).skip(i as int).skip(1) =~= words(names@).skip(i as int + 1));
        }
        i = i + 1;
    }
    i
}

/// The flags that the comma-separated `list` leaves, starting from `defaults`.
fn parse_list(list: &[char], names: &[&str], defaults: &[bool]) -> (r: Option<Vec<bool>>)
    requires
        names@.len() == defaults@.len(),
    ensures
        match r {
            Some(f) => applied(split(list@, ','), words(names@), defaults@) == Some(f@)
                && f@.len() == names@.len(),
            None => applied(split(list@, ','), words(names@), defaults@) is None,
        },
{
    let tokens = pieces(list, ',');
    let mut flags: Vec<bool> = vstd::slice::slice_to_vec(defaults);
    let ghost all = views(tokens@);
    let ghost w = words(names@);
    let mut i: usize = 0;
    proof {
        assert(all.skip(0) =~= all);
    }
    while i < tokens.len()
        invariant
            all == views(tokens@),
            all == split(list@, ','),
            w == words(names@),
            i <= tokens@.len(),
            flags@.len() == names@.len(),
            applied(all, w, defaults@) == applied(all.skip(i as int), w, flags@),
        decreases tokens@.len() - i,
    {
        proof {
            assert(all.skip(i as int)[0] == tokens@[i as int]@);
            assert(all.skip(i as int).skip(1) =~= all.skip(i as int + 1));
        }
        let token = trimmed(tokens[i].as_slice());
        if token.len() > 0 {
            let (name, on) = match stripped(token, "no-") {
                Some(rest) => (lowered(rest), false),
                None => (lowered(token), true),
            };
            let k = place_of(names, name.as_slice());
            if k < names.len() {
                flags.set(k, on);
            } else {
                return None;
            }
        }
        i = i + 1;
    }
    Some(flags)
}

fn all_of(n: usize, on: bool) -> (r: Vec<bool>)
    ensures
        r@ == all_flags(n as nat, on),
{
    let mut out: Vec<bool> = Vec::new();
    let mut i: usize = 0;
    while i < n
        invariant
            i <= n,
            out@ == all_flags(i as nat, on),
        decreases n - i,
    {
        out.push(on);
        proof {
            assert(all_flags(i as nat, on).push(on) =~= all_flags((i + 1) as nat, on));
        }
        i = i + 1;
    }
    out
}

/// The flags that a packed value sets.
pub fn parse_packed(value: &str, names: &[&str], defaults: &[bool]) -> (r: Option<Vec<bool>>)
    requires
        names@.len() == defaults@.len(),
    ensures
        match r {
            Some(f) => packed(value@, words(names@), defaults@) == Some(f@)
                && f@.len() == names@.len(),
            None => packed(value@, words(names@), defaults@) is None,
        },
{
    let cs = chars(value);
    let v = trimmed(cs.as_slice());
    if spells(v, "1") || spells(v, "t") || spells(v, "true") {
        return Some(all_of(names.len(), true));
    }
    if spells(v, "0") || spells(v, "f") || spells(v, "false") {
        return Some(all_of(names.len(), false));
    }
    parse_list(v, names, defaults)
}

// ---------------------------------------------------------------- the lists

/// Which in-app toasts are shown (`app-notifications`).
#[derive(Clone, Copy, Debug, PartialEq, Eq, Structural)]
pub struct AppNotifications {
    /// "Copied to clipboard" after an explicit copy.
    pub clipboard_copy: bool,
    /// "Reloaded the configuration" after a reload.
    pub config_reload: bool,
}

impl Default for AppNotifications {
    /// Both on.
    fn default() -> (r: Self)
        ensures
            r == (AppNotifications { clipboard_copy: true, config_reload: true }),
    {
        AppNotifications { clipboard_copy: true, config_reload: true }
    }
}

/// What `app-notifications = value` sets; `None` for an invalid value.
pub open spec fn app_notifications(value: Seq<char>) -> Option<AppNotifications> {
    match packed(value, seq!["clipboard-copy"@, "config-reload"@], seq![true, true]) {
        Some(f) => Some(AppNotifications { clipboard_copy: f[0], config_reload: f[1] }),
        None => None,
    }
}

/// Parse `app-notifications`.
pub fn parse_app_notifications(value: &str) -> (r: Option<AppNotifications>)
    ensures
        r == app_notifications(value@),
{
    let names: [&str; 2] = ["clipboard-copy", "config-reload"];
    let flags: [bool; 2] = [true, true];
    proof {
        assert(words(names@) =~= seq!["clipboard-copy"@, "config-reload"@]);
        assert(flags@ =~= seq![true, true]);
    }
    match parse_packed(value, &names, &flags) {
        Some(f) => Some(AppNotifications { clipboard_copy: f[0], config_reload: f[1] }),
        None => None,
    }
}

/// Which effects fire when a program rings the bell (`bell-features`).
#[derive(Clone, Copy, Debug, PartialEq, Eq, Structural)]
pub struct BellFeatures {
    /// Play the system's alert sound.
    pub system: bool,
    /// Play the configured sound file.
    pub audio: bool,
    /// Ask for attention while the window is unfocused.
    pub attention: bool,
    /// Mark the window title until the window is refocused.
    pub title: bool,
    /// Flash a border round the pane that rang.
    pub border: bool,
}

impl Default for BellFeatures {
    /// `attention` and `title` on, the rest off.
    fn default() -> (r: Self)
        ensures
            r == (BellFeatures {
                system: false,
                audio: false,
                attention: true,
                title: true,
                border: false,
            }),
    {
        BellFeatures { system: false, audio: false, attention: true, title: true, border: false }
    }
}

impl BellFeatures {
    /// Every feature set to `on`.
    pub fn all(on: bool) -> (r: Self)
        ensures
            r == (BellFeatures { system: on, audio: on, attention: on, title: on, border: on }),
    {
        BellFeatures { system: on, audio: on, attention: on, title: on, border: on }
    }
}

/// What `bell-features = value` sets; `None` for an invalid value.
pub open spec fn bell_features(value: Seq<char>) -> Option<BellFeatures> {
    match packed(
        value,
        seq!["system"@, "audio"@, "attention"@, "title"@, "border"@],
        seq![false, false, true, true, false],
    ) {
        Some(f) => Some(
            BellFeatures { system: f[0], audio: f[1], attention: f[2], title: f[3], border: f[4] },
        ),
        None => None,
    }
}

/// Parse `bell-features`.
pub fn parse_bell_features(value: &str) -> (r: Option<BellFeatures>)
    ensures
        r == bell_features(value@),
{
    let names: [&str; 5] = ["system", "audio", "attention", "title", "border"];
    let flags: [bool; 5] = [false, false, true, true, false];
    proof {
        assert(words(names@) =~= seq!["system"@, "audio"@, "attention"@, "title"@, "border"@]);
        assert(flags@ =~= seq![false, false, true, true, false]);
    }
    match parse_packed(value, &names, &flags) {
        Some(f) => Some(
            BellFeatures { system: f[0], audio: f[1], attention: f[2], title: f[3], border: f[4] },
        ),
        None => None,
    }
}

/// Which styles may be synthesized (`font-synthetic-style`).
#[derive(Clone, Copy, Debug, PartialEq, Eq, Structural)]
pub struct SyntheticStyle {
    pub bold: bool,
    pub italic: bool,
    pub bold_italic: bool,
}

impl SyntheticStyle {
    /// Every style set to `on`.
    pub fn all(on: bool) -> (r: Self)
        ensures
            r == (SyntheticStyle { bold: on, italic: on, bold_italic: on }),
    {
        SyntheticStyle { bold: on, italic: on, bold_italic: on }
    }
}

impl Default for SyntheticStyle {
    /// All three on.
    fn default() -> (r: Self)
        ensures
            r == (SyntheticStyle { bold: true, italic: true, bold_italic: true }),
    {
        SyntheticStyle::all(true)
    }
}

/// What `font-synthetic-style = value` sets; `None` for an invalid value.
pub open spec fn synthetic_style(value: Seq<char>) -> Option<SyntheticStyle> {
    match packed(value, seq!["bold"@, "italic"@, "bold-italic"@], seq![true, true, true]) {
        Some(f) => Some(SyntheticStyle { bold: f[0], italic: f[1], bold_italic: f[2] }),
        None => None,
    }
}

/// Parse `font-synthetic-style`. The three flags are independent.
pub fn parse_synthetic_style(value: &str) -> (r: Option<SyntheticStyle>)
    ensures
        r == synthetic_style(value@),
{
    let names: [&str; 3] = ["bold", "italic", "bold-italic"];
    let flags: [bool; 3] = [true, true, true];
    proof {
        assert(words(names@) =~= seq!["bold"@, "italic"@, "bold-italic"@]);
        assert(flags@ =~= seq![true, true, true]);
    }
    match parse_packed(value, &names, &flags) {
        Some(f) => Some(SyntheticStyle { bold: f[0], italic: f[1], bold_italic: f[2] }),
        None => None,
    }
}

/// When the viewport jumps back to the live edge (`scroll-to-bottom`).
#[derive(Clone, Copy, Debug, PartialEq, Eq, Structural)]
pub struct ScrollToBottom {
    /// On a key press that sends data to the shell.
    pub keystroke: bool,
    /// On new output arriving.
    pub output: bool,
}

impl Default for ScrollToBottom {
    /// On a keystroke, not on output.
    fn default() -> (r: Self)
        ensures
            r == (ScrollToBottom { keystroke: true, output: false }),
    {
        ScrollToBottom { keystroke: true, output: false }
    }
}

/// What `scroll-to-bottom = value` sets; `None` for an invalid value.
pub open spec fn scroll_to_bottom(value: Seq<char>) -> Option<ScrollToBottom> {
    match packed(value, seq!["keystroke"@, "output"@], seq![true, false]) {
        Some(f) => Some(ScrollToBottom { keystroke: f[0], output: f[1] }),
        None => None,
    }
}

/// Parse `scroll-to-bottom`.
pub fn parse_scroll_to_bottom(value: &str) -> (r: Option<ScrollToBottom>)
    ensures
        r == scroll_to_bottom(value@),
{
    let names: [&str; 2] = ["keystroke", "output"];
    let flags: [bool; 2] = [true, false];
    proof {
        assert(words(names@) =~= seq!["keystroke"@, "output"@]);
        assert(flags@ =~= seq![true, false]);
    }
    match parse_packed(value, &names, &flags) {
        Some(f) => Some(ScrollToBottom { keystroke: f[0], output: f[1] }),
        None => None,
    }
}

/// How a finished command tells you (`notify-on-command-finish-action`).
#[derive(Clone, Copy, Debug, PartialEq, Eq, Structural)]
pub struct NotifyOnCommandFinishAction {
    pub bell: bool,
    pub notify: bool,
}

impl Default for NotifyOnCommandFinishAction {
    /// Ring, don't notify.
    fn default() -> (r: Self)
        ensures
            r == (NotifyOnCommandFinishAction { bell: true, notify: false }),
    {
        NotifyOnCommandFinishAction { bell: true, notify: false }
    }
}

impl NotifyOnCommandFinishAction {
    /// Both set to `on`.
    pub fn all(on: bool) -> (r: Self)
        ensures
            r == (NotifyOnCommandFinishAction { bell: on, notify: on }),
    {
        NotifyOnCommandFinishAction { bell: on, notify: on }
    }
}

/// What `notify-on-command-finish-action = value` sets; `None` for an invalid
/// value.
pub open spec fn notify_action(value: Seq<char>) -> Option<NotifyOnCommandFinishAction> {
    match packed(value, seq!["bell"@, "notify"@], seq![true, false]) {
        Some(f) => Some(NotifyOnCommandFinishAction { bell: f[0], notify: f[1] }),
        None => None,
    }
}

/// Parse `notify-on-command-finish-action`.
pub fn parse_notify_action(value: &str) -> (r: Option<NotifyOnCommandFinishAction>)
    ensures
        r == notify_action(value@),
{
    let names: [&str; 2] = ["bell", "notify"];
    let flags: [bool; 2] = [true, false];
    proof {
        assert(words(names@) =~= seq!["bell"@, "notify"@]);
        assert(flags@ =~= seq![true, false]);
    }
    match parse_packed(value, &names, &flags) {
        Some(f) => Some(NotifyOnCommandFinishAction { bell: f[0], notify: f[1] }),
        None => None,
    }
}

/// What shell integration does (`shell-integration-features`).
#[derive(Clone, Copy, Debug, PartialEq, Eq, Structural)]
pub struct ShellFeatures {
    pub cursor: bool,
    pub sudo: bool,
    pub title: bool,
    pub ssh_env: bool,
    pub ssh_terminfo: bool,
    pub path: bool,
}

impl Default for ShellFeatures {
    /// `cursor`, `title` and `path` on, the rest off.
    fn default() -> (r: Self)
        ensures
            r == (ShellFeatures {
                cursor: true,
                sudo: false,
                title: true,
                ssh_env: false,
                ssh_terminfo: false,
                path: true,
            }),
    {
        ShellFeatures {
            cursor: true,
            sudo: false,
            title: true,
            ssh_env: false,
            ssh_terminfo: false,
            path: true,
        }
    }
}

/// What `shell-integration-features = value` sets; `None` for an invalid value.
pub open spec fn shell_features(value: Seq<char>) -> Option<ShellFeatures> {
    match packed(
        value,
        seq!["cursor"@, "sudo"@, "title"@, "ssh-env"@, "ssh-terminfo"@, "path"@],
        seq![true, false, true, false, false, true],
    ) {
        Some(f) => Some(
            ShellFeatures {
                cursor: f[0],
                sudo: f[1],
                title: f[2],
                ssh_env: f[3],
                ssh_terminfo: f[4],
                path: f[5],
            },
        ),
        None => None,
    }
}

/// Parse `shell-integration-features`.
pub fn parse_shell_features(value: &str) -> (r: Option<ShellFeatures>)
    ensures
        r == shell_features(value@),
{
    let names: [&str; 6] = ["cursor", "sudo", "title", "ssh-env", "ssh-terminfo", "path"];
    let flags: [bool; 6] = [true, false, true, false, false, true];
    proof {
        assert(words(names@) =~= seq![
            "cursor"@,
            "sudo"@,
            "title"@,
            "ssh-env"@,
            "ssh-terminfo"@,
            "path"@,
        ]);
        assert(flags@ =~= seq![true, false, true, false, false, true]);
    }
    match parse_packed(value, &names, &flags) {
        Some(f) => Some(
            ShellFeatures {
                cursor: f[0],
                sudo: f[1],
                title: f[2],
                ssh_env: f[3],
                ssh_terminfo: f[4],
                path: f[5],
            },
        ),
        None => None,
    }
}

} // verus!
