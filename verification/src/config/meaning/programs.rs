//! Lines about the terminal itself and the programs in it.

use crate::config::apply::{commands_key, engine_key, exit_runtime_or, scrollback_bytes_or};
use crate::config::entry::palette_row;
use crate::config::flags::packed;
use crate::config::grammar::{unescaped, unescaped_text};
use crate::config::lines::InputView;
use crate::config::load::parsed;
use crate::config::meaning::{
    lemma_commands_keys, lemma_commands_reached, lemma_engine_keys, lemma_engine_reached,
    lemma_says, lemma_words, plain_value, said, says_no, says_yes,
};
use crate::config::meaning::reading::{
    asked_or, flag_names, flag_word, law_flag_lists, law_numbers_are_told_from_words,
    law_units_of_time, lemma_decimal_is_tight, lemma_flag_name, lemma_no_number, lemma_tight_stays,
    no_number, plain_number,
};
use crate::config::set::{env_or, env_place, env_without, limit_or};
use crate::config::settings::{CommandsView, ConfigView, EngineView, SurroundingsView};
use crate::config::values::{ConptyPassthrough, NotifyOnCommandFinish, ShellIntegration};
use crate::text::{
    begins, decimal, joined, law_parts_at_the_first, lemma_first_index, lower, tight, trim_start,
};
use vstd::prelude::*;

verus! {

/// `scrollback-limit-bytes` is a number, or `unlimited`; no value resets it,
/// and any other word leaves it as it was.
pub proof fn law_scrollback_limit_bytes(c: ConfigView, v: Seq<char>, k: nat, e: SurroundingsView)
    requires
        plain_value(v),
    ensures
        ({
            let n = parsed(c, said("scrollback-limit-bytes"@, v), e);
            let s = n.engine.scrollback_limit;
            &&& n == (ConfigView { engine: EngineView { scrollback_limit: s, ..c.engine }, ..c })
            &&& v == decimal(k) && k <= usize::MAX ==> s == k
            &&& v == "unlimited"@ ==> s == usize::MAX
            &&& v.len() == 0 ==> s == 10_000
            &&& no_number(v) && v != "unlimited"@ ==> s == c.engine.scrollback_limit
        }),
{
    lemma_engine_keys();
    lemma_engine_reached(c, "scrollback-limit-bytes"@, v, e);
    reveal(engine_key);
    lemma_words();
    lemma_decimal_is_tight(k);
    if no_number(v) {
        lemma_no_number(v);
    }
    if v == decimal(k) && v == "unlimited"@ {
        reveal_strlit("unlimited");
        assert("unlimited"@[0] == 'u');
    }
    reveal(scrollback_bytes_or);
}

/// `scrollback-compression` is turned on and off; no value resets it, and any
/// other leaves it as it was.
pub proof fn law_scrollback_compression(c: ConfigView, v: Seq<char>, e: SurroundingsView)
    requires
        plain_value(v),
    ensures
        ({
            let n = parsed(c, said("scrollback-compression"@, v), e);
            let s = n.engine.scrollback_compression;
            &&& n == (ConfigView {
                engine: EngineView { scrollback_compression: s, ..c.engine },
                ..c
            })
            &&& says_yes(v) ==> s
            &&& says_no(v) ==> !s
            &&& v.len() == 0 ==> s == true
            &&& v.len() > 0 && !says_yes(v) && !says_no(v) ==> s == c.engine.scrollback_compression
        }),
{
    lemma_engine_keys();
    lemma_engine_reached(c, "scrollback-compression"@, v, e);
    reveal(engine_key);
    lemma_says(v);
}

/// `scrollback-limit-lines` is a number, or `unlimited`; no value resets it,
/// and any other word leaves it as it was.
pub proof fn law_scrollback_limit_lines(c: ConfigView, v: Seq<char>, k: nat, e: SurroundingsView)
    requires
        plain_value(v),
    ensures
        ({
            let n = parsed(c, said("scrollback-limit-lines"@, v), e);
            let s = n.engine.scrollback_limit_lines;
            &&& n == (ConfigView {
                engine: EngineView { scrollback_limit_lines: s, ..c.engine },
                ..c
            })
            &&& v == decimal(k) && k <= usize::MAX ==> s == Some(k as usize)
            &&& v == "unlimited"@ ==> s is None
            &&& v.len() == 0 ==> s == None::<usize>
            &&& no_number(v) && v != "unlimited"@ ==> s == c.engine.scrollback_limit_lines
        }),
{
    lemma_engine_keys();
    lemma_engine_reached(c, "scrollback-limit-lines"@, v, e);
    reveal(engine_key);
    lemma_words();
    lemma_decimal_is_tight(k);
    if no_number(v) {
        lemma_no_number(v);
    }
    if v == decimal(k) && v == "unlimited"@ {
        reveal_strlit("unlimited");
        assert("unlimited"@[0] == 'u');
    }
    reveal(limit_or);
}

/// `scrollback-limit` is the number that was written, as far as it goes; no
/// value resets it, and a word leaves it as it was.
pub proof fn law_scrollback_limit(c: ConfigView, v: Seq<char>, k: nat, e: SurroundingsView)
    requires
        plain_value(v),
    ensures
        ({
            let n = parsed(c, said("scrollback-limit"@, v), e);
            let s = n.engine.scrollback_limit;
            &&& n == (ConfigView { engine: EngineView { scrollback_limit: s, ..c.engine }, ..c })
            &&& v == decimal(k) && k <= usize::MAX ==> s == k
            &&& v == decimal(k) && k > usize::MAX ==> s == c.engine.scrollback_limit
            &&& v.len() == 0 ==> s == 10_000
            &&& no_number(v) ==> s == c.engine.scrollback_limit
        }),
{
    lemma_engine_keys();
    lemma_engine_reached(c, "scrollback-limit"@, v, e);
    reveal(engine_key);
    lemma_decimal_is_tight(k);
    if no_number(v) {
        lemma_no_number(v);
    }
}

/// `image-storage-limit` is the number that was written, as far as it goes; no
/// value resets it, and a word leaves it as it was.
pub proof fn law_image_storage_limit(c: ConfigView, v: Seq<char>, k: nat, e: SurroundingsView)
    requires
        plain_value(v),
    ensures
        ({
            let n = parsed(c, said("image-storage-limit"@, v), e);
            let s = n.engine.image_storage_limit;
            &&& n == (ConfigView { engine: EngineView { image_storage_limit: s, ..c.engine }, ..c })
            &&& v == decimal(k) && k <= u32::MAX ==> s == k
            &&& v == decimal(k) && k > u32::MAX ==> s == c.engine.image_storage_limit
            &&& v.len() == 0 ==> s == 320_000_000
            &&& no_number(v) ==> s == c.engine.image_storage_limit
        }),
{
    lemma_engine_keys();
    lemma_engine_reached(c, "image-storage-limit"@, v, e);
    reveal(engine_key);
    lemma_decimal_is_tight(k);
    if no_number(v) {
        lemma_no_number(v);
    }
}

/// `conpty-passthrough` takes these words in whichever case; no value and any
/// other word are the first.
pub proof fn law_conpty_passthrough(c: ConfigView, v: Seq<char>, e: SurroundingsView)
    requires
        plain_value(v),
    ensures
        ({
            let n = parsed(c, said("conpty-passthrough"@, v), e);
            let s = n.engine.conpty_passthrough;
            &&& n == (ConfigView { engine: EngineView { conpty_passthrough: s, ..c.engine }, ..c })
            &&& lower(v) == "auto"@ ==> s == ConptyPassthrough::Auto
            &&& lower(v) == "1"@ || lower(v) == "t"@ || lower(v) == "true"@
                ==> s == ConptyPassthrough::On
            &&& lower(v) == "0"@ || lower(v) == "f"@ || lower(v) == "false"@
                ==> s == ConptyPassthrough::Off
            &&& v.len() == 0 ==> s == ConptyPassthrough::Auto
            &&& v.len() > 0 && lower(v) != "auto"@ && lower(v) != "1"@ && lower(v) != "t"@
                && lower(v) != "true"@ && lower(v) != "0"@ && lower(v) != "f"@
                && lower(v) != "false"@
                ==> s == ConptyPassthrough::Auto
        }),
{
    lemma_engine_keys();
    lemma_engine_reached(c, "conpty-passthrough"@, v, e);
    reveal(engine_key);
    lemma_words();
    assert(lower(v).len() == v.len());
}

/// `title-report` is turned on and off; no value resets it, and any other leaves it as it was.
pub proof fn law_title_report(c: ConfigView, v: Seq<char>, e: SurroundingsView)
    requires
        plain_value(v),
    ensures
        ({
            let n = parsed(c, said("title-report"@, v), e);
            let s = n.engine.title_report;
            &&& n == (ConfigView { engine: EngineView { title_report: s, ..c.engine }, ..c })
            &&& says_yes(v) ==> s
            &&& says_no(v) ==> !s
            &&& v.len() == 0 ==> s == false
            &&& v.len() > 0 && !says_yes(v) && !says_no(v) ==> s == c.engine.title_report
        }),
{
    lemma_engine_keys();
    lemma_engine_reached(c, "title-report"@, v, e);
    reveal(engine_key);
    lemma_says(v);
}

/// `vt-kam-allowed` is turned on and off; no value resets it, and any other leaves it as it was.
pub proof fn law_vt_kam_allowed(c: ConfigView, v: Seq<char>, e: SurroundingsView)
    requires
        plain_value(v),
    ensures
        ({
            let n = parsed(c, said("vt-kam-allowed"@, v), e);
            let s = n.engine.vt_kam_allowed;
            &&& n == (ConfigView { engine: EngineView { vt_kam_allowed: s, ..c.engine }, ..c })
            &&& says_yes(v) ==> s
            &&& says_no(v) ==> !s
            &&& v.len() == 0 ==> s == false
            &&& v.len() > 0 && !says_yes(v) && !says_no(v) ==> s == c.engine.vt_kam_allowed
        }),
{
    lemma_engine_keys();
    lemma_engine_reached(c, "vt-kam-allowed"@, v, e);
    reveal(engine_key);
    lemma_says(v);
}

/// `grapheme-width-method` takes these words; no value resets it, and any other
/// leaves it as it was.
pub proof fn law_grapheme_width_method(c: ConfigView, v: Seq<char>, e: SurroundingsView)
    requires
        plain_value(v),
    ensures
        ({
            let n = parsed(c, said("grapheme-width-method"@, v), e);
            let s = n.engine.grapheme_unicode;
            &&& n == (ConfigView { engine: EngineView { grapheme_unicode: s, ..c.engine }, ..c })
            &&& v == "unicode"@ ==> s == true
            &&& v == "legacy"@ ==> s == false
            &&& v.len() == 0 ==> s == true
            &&& v.len() > 0 && v != "unicode"@ && v != "legacy"@ ==> s == c.engine.grapheme_unicode
        }),
{
    lemma_engine_keys();
    lemma_engine_reached(c, "grapheme-width-method"@, v, e);
    reveal(engine_key);
    lemma_words();
    assert(lower(v).len() == v.len());
}

/// `progress-style` is turned on and off; no value resets it, and any other leaves it as it was.
pub proof fn law_progress_style(c: ConfigView, v: Seq<char>, e: SurroundingsView)
    requires
        plain_value(v),
    ensures
        ({
            let n = parsed(c, said("progress-style"@, v), e);
            let s = n.engine.progress_style;
            &&& n == (ConfigView { engine: EngineView { progress_style: s, ..c.engine }, ..c })
            &&& says_yes(v) ==> s
            &&& says_no(v) ==> !s
            &&& v.len() == 0 ==> s == true
            &&& v.len() > 0 && !says_yes(v) && !says_no(v) ==> s == c.engine.progress_style
        }),
{
    lemma_engine_keys();
    lemma_engine_reached(c, "progress-style"@, v, e);
    reveal(engine_key);
    lemma_says(v);
}

/// `desktop-notifications` is turned on and off; no value resets it, and any
/// other leaves it as it was.
pub proof fn law_desktop_notifications(c: ConfigView, v: Seq<char>, e: SurroundingsView)
    requires
        plain_value(v),
    ensures
        ({
            let n = parsed(c, said("desktop-notifications"@, v), e);
            let s = n.engine.desktop_notifications;
            &&& n == (ConfigView {
                engine: EngineView { desktop_notifications: s, ..c.engine },
                ..c
            })
            &&& says_yes(v) ==> s
            &&& says_no(v) ==> !s
            &&& v.len() == 0 ==> s == true
            &&& v.len() > 0 && !says_yes(v) && !says_no(v) ==> s == c.engine.desktop_notifications
        }),
{
    lemma_engine_keys();
    lemma_engine_reached(c, "desktop-notifications"@, v, e);
    reveal(engine_key);
    lemma_says(v);
}

/// `bell-audio-path` is the text that was written; no value is none.
pub proof fn law_bell_audio_path(c: ConfigView, v: Seq<char>, e: SurroundingsView)
    requires
        plain_value(v),
    ensures
        ({
            let n = parsed(c, said("bell-audio-path"@, v), e);
            let s = n.engine.bell_audio_path;
            &&& n == (ConfigView { engine: EngineView { bell_audio_path: s, ..c.engine }, ..c })
            &&& v.len() > 0 ==> s == Some(v)
            &&& v.len() == 0 ==> s is None
        }),
{
    lemma_engine_keys();
    lemma_engine_reached(c, "bell-audio-path"@, v, e);
    reveal(engine_key);
}

/// `bell-audio-volume` keeps the number that was written; no value resets it,
/// and a word leaves it as it was.
pub proof fn law_bell_audio_volume(c: ConfigView, v: Seq<char>, e: SurroundingsView)
    requires
        plain_value(v),
    ensures
        ({
            let n = parsed(c, said("bell-audio-volume"@, v), e);
            let s = n.engine.bell_audio_volume;
            &&& n == (ConfigView { engine: EngineView { bell_audio_volume: s, ..c.engine }, ..c })
            &&& plain_number(v) ==> s == Some(v)
            &&& v.len() == 0 ==> s is None
            &&& no_number(v) ==> s == c.engine.bell_audio_volume
        }),
{
    lemma_engine_keys();
    lemma_engine_reached(c, "bell-audio-volume"@, v, e);
    reveal(engine_key);
    law_numbers_are_told_from_words(v);
}

/// `initial-command` is the text that was written; no value is none.
pub proof fn law_initial_command(c: ConfigView, v: Seq<char>, e: SurroundingsView)
    requires
        plain_value(v),
    ensures
        ({
            let n = parsed(c, said("initial-command"@, v), e);
            let s = n.commands.initial_command;
            &&& n == (ConfigView {
                commands: CommandsView { initial_command: s, ..c.commands },
                ..c
            })
            &&& v.len() > 0 ==> s == Some(v)
            &&& v.len() == 0 ==> s is None
        }),
{
    lemma_commands_keys();
    lemma_commands_reached(c, "initial-command"@, v, e);
    reveal(commands_key);
}

/// `wait-after-command` is turned on and off; no value resets it, and any other
/// leaves it as it was.
pub proof fn law_wait_after_command(c: ConfigView, v: Seq<char>, e: SurroundingsView)
    requires
        plain_value(v),
    ensures
        ({
            let n = parsed(c, said("wait-after-command"@, v), e);
            let s = n.commands.wait_after_command;
            &&& n == (ConfigView {
                commands: CommandsView { wait_after_command: s, ..c.commands },
                ..c
            })
            &&& says_yes(v) ==> s
            &&& says_no(v) ==> !s
            &&& v.len() == 0 ==> s == false
            &&& v.len() > 0 && !says_yes(v) && !says_no(v) ==> s == c.commands.wait_after_command
        }),
{
    lemma_commands_keys();
    lemma_commands_reached(c, "wait-after-command"@, v, e);
    reveal(commands_key);
    lemma_says(v);
}

/// `shell-integration` takes these words in whichever case; no value resets it,
/// and any other leaves it as it was.
pub proof fn law_shell_integration(c: ConfigView, v: Seq<char>, e: SurroundingsView)
    requires
        plain_value(v),
    ensures
        ({
            let n = parsed(c, said("shell-integration"@, v), e);
            let s = n.commands.shell_integration;
            &&& n == (ConfigView {
                commands: CommandsView { shell_integration: s, ..c.commands },
                ..c
            })
            &&& lower(v) == "none"@ ==> s == ShellIntegration::Off
            &&& lower(v) == "detect"@ ==> s == ShellIntegration::Detect
            &&& lower(v) == "bash"@ ==> s == ShellIntegration::Bash
            &&& lower(v) == "elvish"@ ==> s == ShellIntegration::Elvish
            &&& lower(v) == "fish"@ ==> s == ShellIntegration::Fish
            &&& lower(v) == "nushell"@ ==> s == ShellIntegration::Nushell
            &&& lower(v) == "zsh"@ ==> s == ShellIntegration::Zsh
            &&& v.len() == 0 ==> s == ShellIntegration::Detect
            &&& v.len() > 0 && lower(v) != "none"@ && lower(v) != "detect"@ && lower(v) != "bash"@
                && lower(v) != "elvish"@ && lower(v) != "fish"@ && lower(v) != "nushell"@
                && lower(v) != "zsh"@
                ==> s == c.commands.shell_integration
        }),
{
    lemma_commands_keys();
    lemma_commands_reached(c, "shell-integration"@, v, e);
    reveal(commands_key);
    lemma_words();
    assert(lower(v).len() == v.len());
    reveal(crate::config::words::shell_integration_or);
}

/// `abnormal-command-exit-runtime` is the number that was written, as far as it
/// goes; no value resets it, and a word leaves it as it was.
pub proof fn law_abnormal_command_exit_runtime(
    c: ConfigView,
    v: Seq<char>,
    k: nat,
    e: SurroundingsView,
)
    requires
        plain_value(v),
    ensures
        ({
            let n = parsed(c, said("abnormal-command-exit-runtime"@, v), e);
            let s = n.commands.abnormal_command_exit_runtime_ms;
            &&& n == (ConfigView {
                commands: CommandsView { abnormal_command_exit_runtime_ms: s, ..c.commands },
                ..c
            })
            &&& v == decimal(k) && k <= u32::MAX ==> s == k
            &&& v == decimal(k) && k > u32::MAX ==> s == c.commands.abnormal_command_exit_runtime_ms
            &&& v.len() == 0 ==> s == 250
            &&& no_number(v) ==> s == c.commands.abnormal_command_exit_runtime_ms
        }),
{
    lemma_commands_keys();
    lemma_commands_reached(c, "abnormal-command-exit-runtime"@, v, e);
    reveal(commands_key);
    lemma_decimal_is_tight(k);
    if no_number(v) {
        lemma_no_number(v);
    }
    reveal(exit_runtime_or);
}

/// `command` is the text that was written; no value is none.
pub proof fn law_command(c: ConfigView, v: Seq<char>, e: SurroundingsView)
    requires
        plain_value(v),
    ensures
        ({
            let n = parsed(c, said("command"@, v), e);
            let s = n.commands.shell;
            &&& n == (ConfigView { commands: CommandsView { shell: s, ..c.commands }, ..c })
            &&& v.len() > 0 ==> s == Some(v)
            &&& v.len() == 0 ==> s is None
        }),
{
    lemma_commands_keys();
    lemma_commands_reached(c, "command"@, v, e);
    reveal(commands_key);
}

/// `notify-on-command-finish` takes these words in whichever case; no value
/// resets it, and any other leaves it as it was.
pub proof fn law_notify_on_command_finish(c: ConfigView, v: Seq<char>, e: SurroundingsView)
    requires
        plain_value(v),
    ensures
        ({
            let n = parsed(c, said("notify-on-command-finish"@, v), e);
            let s = n.commands.notify_on_command_finish;
            &&& n == (ConfigView {
                commands: CommandsView { notify_on_command_finish: s, ..c.commands },
                ..c
            })
            &&& lower(v) == "never"@ ==> s == NotifyOnCommandFinish::Never
            &&& lower(v) == "unfocused"@ ==> s == NotifyOnCommandFinish::Unfocused
            &&& lower(v) == "always"@ ==> s == NotifyOnCommandFinish::Always
            &&& v.len() == 0 ==> s == NotifyOnCommandFinish::Never
            &&& v.len() > 0 && lower(v) != "never"@ && lower(v) != "unfocused"@
                && lower(v) != "always"@
                ==> s == c.commands.notify_on_command_finish
        }),
{
    lemma_commands_keys();
    lemma_commands_reached(c, "notify-on-command-finish"@, v, e);
    reveal(commands_key);
    lemma_words();
    assert(lower(v).len() == v.len());
}

/// `notify-on-command-finish-after` is a time, in milliseconds or with a unit;
/// no value resets it, and a word leaves it as it was.
pub proof fn law_notify_on_command_finish_after(
    c: ConfigView,
    v: Seq<char>,
    k: nat,
    e: SurroundingsView,
)
    requires
        plain_value(v),
        k * 31_536_000_000 <= u64::MAX,
    ensures
        ({
            let n = parsed(c, said("notify-on-command-finish-after"@, v), e);
            let s = n.commands.notify_on_command_finish_after_ms;
            &&& n == (ConfigView {
                commands: CommandsView { notify_on_command_finish_after_ms: s, ..c.commands },
                ..c
            })
            &&& v == decimal(k) ==> s == k
            &&& v == decimal(k) + "s"@ ==> s == 1000 * k
            &&& v.len() == 0 ==> s == 5_000
            &&& no_number(v) ==> s == c.commands.notify_on_command_finish_after_ms
        }),
{
    lemma_commands_keys();
    lemma_commands_reached(c, "notify-on-command-finish-after"@, v, e);
    reveal(commands_key);
    law_units_of_time(k);
    lemma_decimal_is_tight(k);
    reveal_strlit("s");
    if no_number(v) {
        lemma_no_number(v);
        lemma_tight_stays(v);
    }
}

/// `undo-timeout` is a time, in milliseconds or with a unit; no value resets
/// it, and a word leaves it as it was.
pub proof fn law_undo_timeout(c: ConfigView, v: Seq<char>, k: nat, e: SurroundingsView)
    requires
        plain_value(v),
        k * 31_536_000_000 <= u64::MAX,
    ensures
        ({
            let n = parsed(c, said("undo-timeout"@, v), e);
            let s = n.commands.undo_timeout_ms;
            &&& n == (ConfigView {
                commands: CommandsView { undo_timeout_ms: s, ..c.commands },
                ..c
            })
            &&& v == decimal(k) ==> s == k
            &&& v == decimal(k) + "s"@ ==> s == 1000 * k
            &&& v.len() == 0 ==> s == 5_000
            &&& no_number(v) ==> s == c.commands.undo_timeout_ms
        }),
{
    lemma_commands_keys();
    lemma_commands_reached(c, "undo-timeout"@, v, e);
    reveal(commands_key);
    law_units_of_time(k);
    lemma_decimal_is_tight(k);
    reveal_strlit("s");
    if no_number(v) {
        lemma_no_number(v);
        lemma_tight_stays(v);
    }
}

/// The flags of `bell-features`, in order.
pub open spec fn bell_features_names() -> Seq<Seq<char>> {
    seq!["system"@, "audio"@, "attention"@, "title"@, "border"@]
}

proof fn lemma_bell_features_names()
    ensures
        flag_names(bell_features_names()),
        forall|i: int|
            0 <= i < 5 ==> (#[trigger] bell_features_names()[i]).len() > 1 && bell_features_names()[i]
                != "true"@ && bell_features_names()[i] != "false"@,
{
    lemma_words();
    let names = bell_features_names();
    reveal_strlit("system");
    reveal_strlit("audio");
    reveal_strlit("attention");
    reveal_strlit("title");
    reveal_strlit("border");
    assert(names[0] == "system"@);
    assert("system"@[0] == 's');
    assert("system"@[1] == 'y');
    assert("system"@[2] == 's');
    lemma_flag_name("system"@);
    assert(names[1] == "audio"@);
    assert("audio"@[0] == 'a');
    assert("audio"@[1] == 'u');
    assert("audio"@[2] == 'd');
    lemma_flag_name("audio"@);
    assert(names[2] == "attention"@);
    assert("attention"@[0] == 'a');
    assert("attention"@[1] == 't');
    assert("attention"@[2] == 't');
    lemma_flag_name("attention"@);
    assert(names[3] == "title"@);
    assert("title"@[0] == 't');
    assert("title"@[1] == 'i');
    assert("title"@[2] == 't');
    lemma_flag_name("title"@);
    assert(names[4] == "border"@);
    assert("border"@[0] == 'b');
    assert("border"@[1] == 'o');
    assert("border"@[2] == 'r');
    lemma_flag_name("border"@);
    assert forall|i: int| 0 <= i < names.len() implies {
        let n = #[trigger] names[i];
        &&& n.len() > 1 && n != "true"@ && n != "false"@
        &&& n.len() > 0
        &&& lower(n) == n
        &&& tight(n)
        &&& !n.contains(',')
        &&& !begins(n, seq!['n', 'o', '-'])
    } by {
        if i == 0 {
            assert(names[i] == "system"@);
        } else if i == 1 {
            assert(names[i] == "audio"@);
        } else if i == 2 {
            assert(names[i] == "attention"@);
        } else if i == 3 {
            assert(names[i] == "title"@);
        } else if i == 4 {
            assert(names[i] == "border"@);
        }
    }
    assert forall|i: int, j: int|
        0 <= i < names.len() && 0 <= j < names.len() && i != j implies #[trigger] names[i]
        != #[trigger] names[j] by {
        let a = names[i];
        let b = names[j];
        assert(a == "system"@ && i == 0 || a == "audio"@ && i == 1 || a == "attention"@ && i == 2
            || a == "title"@ && i == 3 || a == "border"@ && i == 4);
        assert(b == "system"@ && j == 0 || b == "audio"@ && j == 1 || b == "attention"@ && j == 2
            || b == "title"@ && j == 3 || b == "border"@ && j == 4);
    }
}

/// `bell-features` turns its flags on and off, the last word on a flag counting
/// and the others taking their defaults; one word turns all of them on or off,
/// and no value resets them.
pub proof fn law_bell_features(
    c: ConfigView,
    v: Seq<char>,
    asked: Seq<(int, bool)>,
    e: SurroundingsView,
)
    requires
        plain_value(v),
        asked.len() > 0,
        forall|k: int| 0 <= k < asked.len() ==> 0 <= (#[trigger] asked[k]).0 < 5,
    ensures
        ({
            let n = parsed(c, said("bell-features"@, v), e);
            let s = n.engine.bell;
            &&& n == (ConfigView {
                engine: EngineView { bell: s, ..c.engine },
                diagnostics: n.diagnostics,
                ..c
            })
            &&& v == joined(Seq::new(asked.len(), |k: int| flag_word(bell_features_names(), asked[k])), ',')
                && v.len() > 0
                ==> n.diagnostics == c.diagnostics && s.system == asked_or(asked, 0, false)
                    && s.audio == asked_or(asked, 1, false)
                    && s.attention == asked_or(asked, 2, true)
                    && s.title == asked_or(asked, 3, true) && s.border == asked_or(asked, 4, false)
            &&& v == "true"@ || v == "t"@ || v == "1"@
                ==> s.system && s.audio && s.attention && s.title && s.border
            &&& v == "false"@ || v == "f"@ || v == "0"@
                ==> !s.system && !s.audio && !s.attention && !s.title && !s.border
            &&& v.len() == 0 ==> !s.system && !s.audio && s.attention && s.title && !s.border
        }),
{
    lemma_engine_keys();
    lemma_engine_reached(c, "bell-features"@, v, e);
    reveal(engine_key);
    lemma_words();
    lemma_bell_features_names();
    law_flag_lists(bell_features_names(), seq![false, false, true, true, false], asked);
    lemma_tight_stays(v);
    let all = Seq::new(asked.len(), |k: int| flag_word(bell_features_names(), asked[k]));
    if v == joined(all, ',') {
        let f = packed(v, bell_features_names(), seq![false, false, true, true, false])->0;
        assert(f[0] == asked_or(asked, 0, false));
        assert(f[1] == asked_or(asked, 1, false));
        assert(f[2] == asked_or(asked, 2, true));
        assert(f[3] == asked_or(asked, 3, true));
        assert(f[4] == asked_or(asked, 4, false));
    }
}

/// The flags of `app-notifications`, in order.
pub open spec fn app_notifications_names() -> Seq<Seq<char>> {
    seq!["clipboard-copy"@, "config-reload"@]
}

proof fn lemma_app_notifications_names()
    ensures
        flag_names(app_notifications_names()),
        forall|i: int|
            0 <= i < 2 ==> (#[trigger] app_notifications_names()[i]).len() > 1 && app_notifications_names()[i]
                != "true"@ && app_notifications_names()[i] != "false"@,
{
    lemma_words();
    let names = app_notifications_names();
    reveal_strlit("clipboard-copy");
    reveal_strlit("config-reload");
    assert(names[0] == "clipboard-copy"@);
    assert("clipboard-copy"@[0] == 'c');
    assert("clipboard-copy"@[1] == 'l');
    assert("clipboard-copy"@[2] == 'i');
    lemma_flag_name("clipboard-copy"@);
    assert(names[1] == "config-reload"@);
    assert("config-reload"@[0] == 'c');
    assert("config-reload"@[1] == 'o');
    assert("config-reload"@[2] == 'n');
    lemma_flag_name("config-reload"@);
    assert forall|i: int| 0 <= i < names.len() implies {
        let n = #[trigger] names[i];
        &&& n.len() > 1 && n != "true"@ && n != "false"@
        &&& n.len() > 0
        &&& lower(n) == n
        &&& tight(n)
        &&& !n.contains(',')
        &&& !begins(n, seq!['n', 'o', '-'])
    } by {
        if i == 0 {
            assert(names[i] == "clipboard-copy"@);
        } else if i == 1 {
            assert(names[i] == "config-reload"@);
        }
    }
    assert forall|i: int, j: int|
        0 <= i < names.len() && 0 <= j < names.len() && i != j implies #[trigger] names[i]
        != #[trigger] names[j] by {
        let a = names[i];
        let b = names[j];
        assert(a == "clipboard-copy"@ && i == 0 || a == "config-reload"@ && i == 1);
        assert(b == "clipboard-copy"@ && j == 0 || b == "config-reload"@ && j == 1);
    }
}

/// `app-notifications` turns its flags on and off, the last word on a flag
/// counting and the others taking their defaults; one word turns all of them on
/// or off, and no value resets them.
pub proof fn law_app_notifications(
    c: ConfigView,
    v: Seq<char>,
    asked: Seq<(int, bool)>,
    e: SurroundingsView,
)
    requires
        plain_value(v),
        asked.len() > 0,
        forall|k: int| 0 <= k < asked.len() ==> 0 <= (#[trigger] asked[k]).0 < 2,
    ensures
        ({
            let n = parsed(c, said("app-notifications"@, v), e);
            let s = n.engine.app_notifications;
            &&& n == (ConfigView {
                engine: EngineView { app_notifications: s, ..c.engine },
                diagnostics: n.diagnostics,
                ..c
            })
            &&& v == joined(Seq::new(asked.len(), |k: int| flag_word(app_notifications_names(), asked[k])), ',')
                && v.len() > 0
                ==> n.diagnostics == c.diagnostics && s.clipboard_copy == asked_or(asked, 0, true)
                    && s.config_reload == asked_or(asked, 1, true)
            &&& v == "true"@ || v == "t"@ || v == "1"@ ==> s.clipboard_copy && s.config_reload
            &&& v == "false"@ || v == "f"@ || v == "0"@ ==> !s.clipboard_copy && !s.config_reload
            &&& v.len() == 0 ==> s.clipboard_copy && s.config_reload
        }),
{
    lemma_engine_keys();
    lemma_engine_reached(c, "app-notifications"@, v, e);
    reveal(engine_key);
    lemma_words();
    lemma_app_notifications_names();
    law_flag_lists(app_notifications_names(), seq![true, true], asked);
    lemma_tight_stays(v);
    let all = Seq::new(asked.len(), |k: int| flag_word(app_notifications_names(), asked[k]));
    if v == joined(all, ',') {
        let f = packed(v, app_notifications_names(), seq![true, true])->0;
        assert(f[0] == asked_or(asked, 0, true));
        assert(f[1] == asked_or(asked, 1, true));
    }
}

/// The flags of `shell-integration-features`, in order.
pub open spec fn shell_integration_features_names() -> Seq<Seq<char>> {
    seq!["cursor"@, "sudo"@, "title"@, "ssh-env"@, "ssh-terminfo"@, "path"@]
}

proof fn lemma_shell_integration_features_names()
    ensures
        flag_names(shell_integration_features_names()),
        forall|i: int|
            0 <= i < 6 ==> (#[trigger] shell_integration_features_names()[i]).len() > 1 && shell_integration_features_names()[i]
                != "true"@ && shell_integration_features_names()[i] != "false"@,
{
    lemma_words();
    let names = shell_integration_features_names();
    reveal_strlit("cursor");
    reveal_strlit("sudo");
    reveal_strlit("title");
    reveal_strlit("ssh-env");
    reveal_strlit("ssh-terminfo");
    reveal_strlit("path");
    assert(names[0] == "cursor"@);
    assert("cursor"@[0] == 'c');
    assert("cursor"@[1] == 'u');
    assert("cursor"@[2] == 'r');
    lemma_flag_name("cursor"@);
    assert(names[1] == "sudo"@);
    assert("sudo"@[0] == 's');
    assert("sudo"@[1] == 'u');
    assert("sudo"@[2] == 'd');
    lemma_flag_name("sudo"@);
    assert(names[2] == "title"@);
    assert("title"@[0] == 't');
    assert("title"@[1] == 'i');
    assert("title"@[2] == 't');
    lemma_flag_name("title"@);
    assert(names[3] == "ssh-env"@);
    assert("ssh-env"@[0] == 's');
    assert("ssh-env"@[1] == 's');
    assert("ssh-env"@[2] == 'h');
    lemma_flag_name("ssh-env"@);
    assert(names[4] == "ssh-terminfo"@);
    assert("ssh-terminfo"@[0] == 's');
    assert("ssh-terminfo"@[1] == 's');
    assert("ssh-terminfo"@[2] == 'h');
    lemma_flag_name("ssh-terminfo"@);
    assert(names[5] == "path"@);
    assert("path"@[0] == 'p');
    assert("path"@[1] == 'a');
    assert("path"@[2] == 't');
    lemma_flag_name("path"@);
    assert forall|i: int| 0 <= i < names.len() implies {
        let n = #[trigger] names[i];
        &&& n.len() > 1 && n != "true"@ && n != "false"@
        &&& n.len() > 0
        &&& lower(n) == n
        &&& tight(n)
        &&& !n.contains(',')
        &&& !begins(n, seq!['n', 'o', '-'])
    } by {
        if i == 0 {
            assert(names[i] == "cursor"@);
        } else if i == 1 {
            assert(names[i] == "sudo"@);
        } else if i == 2 {
            assert(names[i] == "title"@);
        } else if i == 3 {
            assert(names[i] == "ssh-env"@);
        } else if i == 4 {
            assert(names[i] == "ssh-terminfo"@);
        } else if i == 5 {
            assert(names[i] == "path"@);
        }
    }
    assert forall|i: int, j: int|
        0 <= i < names.len() && 0 <= j < names.len() && i != j implies #[trigger] names[i]
        != #[trigger] names[j] by {
        let a = names[i];
        let b = names[j];
        assert(a == "cursor"@ && i == 0 || a == "sudo"@ && i == 1 || a == "title"@ && i == 2
            || a == "ssh-env"@ && i == 3 || a == "ssh-terminfo"@ && i == 4
            || a == "path"@ && i == 5);
        assert(b == "cursor"@ && j == 0 || b == "sudo"@ && j == 1 || b == "title"@ && j == 2
            || b == "ssh-env"@ && j == 3 || b == "ssh-terminfo"@ && j == 4
            || b == "path"@ && j == 5);
    }
}

/// `shell-integration-features` turns its flags on and off, the last word on a
/// flag counting and the others taking their defaults; one word turns all of
/// them on or off, and no value resets them.
pub proof fn law_shell_integration_features(
    c: ConfigView,
    v: Seq<char>,
    asked: Seq<(int, bool)>,
    e: SurroundingsView,
)
    requires
        plain_value(v),
        asked.len() > 0,
        forall|k: int| 0 <= k < asked.len() ==> 0 <= (#[trigger] asked[k]).0 < 6,
    ensures
        ({
            let n = parsed(c, said("shell-integration-features"@, v), e);
            let s = n.commands.shell_integration_features;
            &&& n == (ConfigView {
                commands: CommandsView { shell_integration_features: s, ..c.commands },
                diagnostics: n.diagnostics,
                ..c
            })
            &&& v == joined(Seq::new(asked.len(), |k: int| flag_word(shell_integration_features_names(), asked[k])), ',')
                && v.len() > 0
                ==> n.diagnostics == c.diagnostics && s.cursor == asked_or(asked, 0, true)
                    && s.sudo == asked_or(asked, 1, false) && s.title == asked_or(asked, 2, true)
                    && s.ssh_env == asked_or(asked, 3, false)
                    && s.ssh_terminfo == asked_or(asked, 4, false)
                    && s.path == asked_or(asked, 5, true)
            &&& v == "true"@ || v == "t"@ || v == "1"@
                ==> s.cursor && s.sudo && s.title && s.ssh_env && s.ssh_terminfo && s.path
            &&& v == "false"@ || v == "f"@ || v == "0"@
                ==> !s.cursor && !s.sudo && !s.title && !s.ssh_env && !s.ssh_terminfo && !s.path
            &&& v.len() == 0
                ==> s.cursor && !s.sudo && s.title && !s.ssh_env && !s.ssh_terminfo && s.path
        }),
{
    lemma_commands_keys();
    lemma_commands_reached(c, "shell-integration-features"@, v, e);
    reveal(commands_key);
    lemma_words();
    lemma_shell_integration_features_names();
    law_flag_lists(shell_integration_features_names(), seq![true, false, true, false, false, true], asked);
    lemma_tight_stays(v);
    let all = Seq::new(asked.len(), |k: int| flag_word(shell_integration_features_names(), asked[k]));
    if v == joined(all, ',') {
        let f = packed(v, shell_integration_features_names(), seq![true, false, true, false, false, true])->0;
        assert(f[0] == asked_or(asked, 0, true));
        assert(f[1] == asked_or(asked, 1, false));
        assert(f[2] == asked_or(asked, 2, true));
        assert(f[3] == asked_or(asked, 3, false));
        assert(f[4] == asked_or(asked, 4, false));
        assert(f[5] == asked_or(asked, 5, true));
    }
    reveal(crate::config::apply::shell_features_or);
}

/// The flags of `notify-on-command-finish-action`, in order.
pub open spec fn notify_on_command_finish_action_names() -> Seq<Seq<char>> {
    seq!["bell"@, "notify"@]
}

proof fn lemma_notify_on_command_finish_action_names()
    ensures
        flag_names(notify_on_command_finish_action_names()),
        forall|i: int|
            0 <= i < 2 ==> (#[trigger] notify_on_command_finish_action_names()[i]).len() > 1 && notify_on_command_finish_action_names()[i]
                != "true"@ && notify_on_command_finish_action_names()[i] != "false"@,
{
    lemma_words();
    let names = notify_on_command_finish_action_names();
    reveal_strlit("bell");
    reveal_strlit("notify");
    assert(names[0] == "bell"@);
    assert("bell"@[0] == 'b');
    assert("bell"@[1] == 'e');
    assert("bell"@[2] == 'l');
    lemma_flag_name("bell"@);
    assert(names[1] == "notify"@);
    assert("notify"@[0] == 'n');
    assert("notify"@[1] == 'o');
    assert("notify"@[2] == 't');
    lemma_flag_name("notify"@);
    assert forall|i: int| 0 <= i < names.len() implies {
        let n = #[trigger] names[i];
        &&& n.len() > 1 && n != "true"@ && n != "false"@
        &&& n.len() > 0
        &&& lower(n) == n
        &&& tight(n)
        &&& !n.contains(',')
        &&& !begins(n, seq!['n', 'o', '-'])
    } by {
        if i == 0 {
            assert(names[i] == "bell"@);
        } else if i == 1 {
            assert(names[i] == "notify"@);
        }
    }
    assert forall|i: int, j: int|
        0 <= i < names.len() && 0 <= j < names.len() && i != j implies #[trigger] names[i]
        != #[trigger] names[j] by {
        let a = names[i];
        let b = names[j];
        assert(a == "bell"@ && i == 0 || a == "notify"@ && i == 1);
        assert(b == "bell"@ && j == 0 || b == "notify"@ && j == 1);
    }
}

/// `notify-on-command-finish-action` turns its flags on and off, the last word
/// on a flag counting and the others taking their defaults; one word turns all
/// of them on or off, and no value resets them.
pub proof fn law_notify_on_command_finish_action(
    c: ConfigView,
    v: Seq<char>,
    asked: Seq<(int, bool)>,
    e: SurroundingsView,
)
    requires
        plain_value(v),
        asked.len() > 0,
        forall|k: int| 0 <= k < asked.len() ==> 0 <= (#[trigger] asked[k]).0 < 2,
    ensures
        ({
            let n = parsed(c, said("notify-on-command-finish-action"@, v), e);
            let s = n.commands.notify_on_command_finish_action;
            &&& n == (ConfigView {
                commands: CommandsView { notify_on_command_finish_action: s, ..c.commands },
                diagnostics: n.diagnostics,
                ..c
            })
            &&& v == joined(Seq::new(asked.len(), |k: int| flag_word(notify_on_command_finish_action_names(), asked[k])), ',')
                && v.len() > 0
                ==> n.diagnostics == c.diagnostics && s.bell == asked_or(asked, 0, true)
                    && s.notify == asked_or(asked, 1, false)
            &&& v == "true"@ || v == "t"@ || v == "1"@ ==> s.bell && s.notify
            &&& v == "false"@ || v == "f"@ || v == "0"@ ==> !s.bell && !s.notify
            &&& v.len() == 0 ==> s.bell && !s.notify
        }),
{
    lemma_commands_keys();
    lemma_commands_reached(c, "notify-on-command-finish-action"@, v, e);
    reveal(commands_key);
    lemma_words();
    lemma_notify_on_command_finish_action_names();
    law_flag_lists(notify_on_command_finish_action_names(), seq![true, false], asked);
    lemma_tight_stays(v);
    let all = Seq::new(asked.len(), |k: int| flag_word(notify_on_command_finish_action_names(), asked[k]));
    if v == joined(all, ',') {
        let f = packed(v, notify_on_command_finish_action_names(), seq![true, false])->0;
        assert(f[0] == asked_or(asked, 0, true));
        assert(f[1] == asked_or(asked, 1, false));
    }
    reveal(crate::config::apply::notify_action_or);
}

/// `keybind` binds an action to a trigger, behind those bound before; `clear`
/// and no value drop them all, and what is no binding is a problem.
pub proof fn law_keybind(
    c: ConfigView,
    v: Seq<char>,
    trigger: Seq<char>,
    action: Seq<char>,
    e: SurroundingsView,
)
    requires
        plain_value(v),
        tight(trigger),
        !trigger.contains('='),
        tight(action),
    ensures
        ({
            let n = parsed(c, said("keybind"@, v), e);
            let s = n.commands.keybinds;
            &&& n == (ConfigView {
                commands: CommandsView { keybinds: s, ..c.commands },
                diagnostics: n.diagnostics,
                ..c
            })
            &&& v == trigger.push('=') + action
                ==> s == c.commands.keybinds.push((trigger, action))
                    && n.diagnostics == c.diagnostics
            &&& v.len() == 0 || lower(v) == "clear"@
                ==> s.len() == 0 && n.diagnostics == c.diagnostics
            &&& v.len() > 0 && lower(v) != "clear"@ && !v.contains('=')
                ==> s == c.commands.keybinds && n.diagnostics.len() == c.diagnostics.len() + 1
        }),
{
    lemma_commands_keys();
    lemma_commands_reached(c, "keybind"@, v, e);
    reveal(commands_key);
    lemma_words();
    reveal_strlit("clear");
    assert("clear"@[0] == 'c' && "clear"@[1] == 'l' && "clear"@[2] == 'e' && "clear"@[3] == 'a'
        && "clear"@[4] == 'r');
    assert(lower("clear"@) =~= "clear"@);
    law_parts_at_the_first(trigger, '=', action);
    lemma_tight_stays(trigger);
    lemma_first_index(v, '=');
    assert(crate::text::trim_start(action) == action);
    if v == trigger.push('=') + action && lower(v) == "clear"@ {
        let i = trigger.len() as int;
        assert(v[i] == '=');
        assert(lower(v)[i] == '=');
        assert(i == 0 || i == 1 || i == 2 || i == 3 || i == 4);
    }
}

/// `key-remap` makes one key another, behind those made before; no value drops them all.
pub proof fn law_key_remap(
    c: ConfigView,
    v: Seq<char>,
    from: Seq<char>,
    to: Seq<char>,
    e: SurroundingsView,
)
    requires
        plain_value(v),
        tight(from),
        from.len() > 0,
        !from.contains('='),
        tight(to),
        to.len() > 0,
    ensures
        ({
            let n = parsed(c, said("key-remap"@, v), e);
            let s = n.commands.key_remap;
            &&& n == (ConfigView { commands: CommandsView { key_remap: s, ..c.commands }, ..c })
            &&& v == from.push('=') + to ==> s == c.commands.key_remap.push((from, to))
            &&& v.len() == 0 ==> s.len() == 0
            &&& v.len() > 0 && !v.contains('=') ==> s == c.commands.key_remap
        }),
{
    lemma_commands_keys();
    lemma_commands_reached(c, "key-remap"@, v, e);
    reveal(commands_key);
    reveal(crate::config::parts::remaps_or);
    law_parts_at_the_first(from, '=', to);
    lemma_tight_stays(from);
    lemma_tight_stays(to);
    lemma_first_index(v, '=');
}

/// `env` sets a variable, or takes it away where it has no value, and leaves
/// every other as it was; no value at all drops them all.
pub proof fn law_env(
    c: ConfigView,
    v: Seq<char>,
    name: Seq<char>,
    value: Seq<char>,
    e: SurroundingsView,
)
    requires
        plain_value(v),
        tight(name),
        name.len() > 0,
        !name.contains('='),
    ensures
        ({
            let n = parsed(c, said("env"@, v), e);
            let s = n.commands.env;
            &&& n == (ConfigView { commands: CommandsView { env: s, ..c.commands }, ..c })
            &&& v == name.push('=') + value && value.len() > 0 ==> value_of(s, name) == Some(value)
            &&& v == name.push('=') && value.len() == 0 ==> value_of(s, name) is None
            &&& v == name.push('=') + value
                ==> forall|x: Seq<char>| x != name ==> #[trigger] value_of(s, x)
                    == value_of(c.commands.env, x)
            &&& v.len() == 0 ==> s.len() == 0
        }),
{
    lemma_commands_keys();
    lemma_commands_reached(c, "env"@, v, e);
    reveal(commands_key);
    law_parts_at_the_first(name, '=', value);
    lemma_tight_stays(name);
    if value.len() == 0 {
        assert(name.push('=') + value =~= name.push('='));
    }
    assert forall|x: Seq<char>| #[trigger] value_of(env_or(c.commands.env, name.push('=') + value), x)
        == (if x == name {
        if value.len() > 0 {
            Some(value)
        } else {
            None
        }
    } else {
        value_of(c.commands.env, x)
    }) by {
        lemma_env(c.commands.env, name, value, x);
    }
}
/// The value of the first entry of `name` in an environment.
pub open spec fn value_of(env: Seq<(Seq<char>, Seq<char>)>, name: Seq<char>) -> Option<Seq<char>>
    decreases env.len(),
{
    if env.len() == 0 {
        None
    } else if env[0].0 == name {
        Some(env[0].1)
    } else {
        value_of(env.skip(1), name)
    }
}

proof fn lemma_env(
    env: Seq<(Seq<char>, Seq<char>)>,
    name: Seq<char>,
    value: Seq<char>,
    x: Seq<char>,
)
    requires
        tight(name),
        name.len() > 0,
        !name.contains('='),
    ensures
        value_of(env_or(env, name.push('=') + value), x) == (if x == name {
            if value.len() > 0 {
                Some(value)
            } else {
                None
            }
        } else {
            value_of(env, x)
        }),
{
    law_parts_at_the_first(name, '=', value);
    lemma_tight_stays(name);
    lemma_env_without(env, name, x);
    lemma_env_update(env, name, value, x);
    lemma_env_push(env, name, value, x);
}

proof fn lemma_value_of_last(env: Seq<(Seq<char>, Seq<char>)>, x: Seq<char>)
    requires
        env.len() > 0,
    ensures
        value_of(env, x) == (match value_of(env.drop_last(), x) {
            Some(v) => Some(v),
            None => if env.last().0 == x {
                Some(env.last().1)
            } else {
                None
            },
        }),
    decreases env.len(),
{
    if env.len() > 1 {
        lemma_value_of_last(env.skip(1), x);
        assert(env.skip(1).drop_last() =~= env.drop_last().skip(1));
    } else {
        assert(env.skip(1) =~= Seq::empty());
        assert(env.drop_last() =~= Seq::empty());
        reveal_with_fuel(value_of, 2);
    }
}

proof fn lemma_env_without(env: Seq<(Seq<char>, Seq<char>)>, name: Seq<char>, x: Seq<char>)
    ensures
        value_of(env_without(env, name), x) == (if x == name {
            None
        } else {
            value_of(env, x)
        }),
    decreases env.len(),
{
    if env.len() > 0 {
        lemma_env_without(env.drop_last(), name, x);
        lemma_value_of_last(env, x);
        let t = env_without(env.drop_last(), name);
        if env.last().0 != name {
            lemma_value_of_last(t.push(env.last()), x);
            assert(t.push(env.last()).drop_last() =~= t);
        }
    }
}

proof fn lemma_env_update(
    env: Seq<(Seq<char>, Seq<char>)>,
    name: Seq<char>,
    value: Seq<char>,
    x: Seq<char>,
)
    ensures
        0 <= env_place(env, name) <= env.len(),
        env_place(env, name) < env.len() ==> value_of(
            env.update(env_place(env, name), (name, value)),
            x,
        ) == (if x == name {
            Some(value)
        } else {
            value_of(env, x)
        }),
    decreases env.len(),
{
    if env.len() > 0 && env[0].0 != name {
        lemma_env_update(env.skip(1), name, value, x);
        let p = env_place(env, name);
        if p < env.len() {
            assert(env.update(p, (name, value)).skip(1) =~= env.skip(1).update(
                p - 1,
                (name, value),
            ));
        }
    } else if env.len() > 0 {
        assert(env.update(0, (name, value)).skip(1) =~= env.skip(1));
    }
}

proof fn lemma_env_push(
    env: Seq<(Seq<char>, Seq<char>)>,
    name: Seq<char>,
    value: Seq<char>,
    x: Seq<char>,
)
    ensures
        env_place(env, name) >= env.len() ==> value_of(env.push((name, value)), x) == (if x == name {
            Some(value)
        } else {
            value_of(env, x)
        }),
    decreases env.len(),
{
    lemma_value_of_last(env.push((name, value)), x);
    assert(env.push((name, value)).drop_last() =~= env);
    if env_place(env, name) >= env.len() {
        lemma_absent(env, name);
    }
}

proof fn lemma_absent(env: Seq<(Seq<char>, Seq<char>)>, name: Seq<char>)
    requires
        env_place(env, name) >= env.len(),
    ensures
        value_of(env, name) is None,
    decreases env.len(),
{
    if env.len() > 0 {
        lemma_absent(env.skip(1), name);
    }
}

/// `command-palette-entry` adds a row to the palette; `clear` leaves it empty,
/// and no value leaves the built-in rows alone in it.
pub proof fn law_command_palette_entry(c: ConfigView, v: Seq<char>, e: SurroundingsView)
    requires
        plain_value(v),
    ensures
        ({
            let n = parsed(c, said("command-palette-entry"@, v), e);
            let s = n.commands.palette_entries;
            &&& n == (ConfigView {
                commands: CommandsView {
                    palette_entries: s,
                    palette_defaults: n.commands.palette_defaults,
                    ..c.commands
                },
                ..c
            })
            &&& v.len() == 0 || v == "clear"@ ==> s.len() == 0
            &&& v.len() == 0 ==> n.commands.palette_defaults
            &&& v == "clear"@ ==> !n.commands.palette_defaults
            &&& v.len() > 0 && v != "clear"@
                ==> n.commands.palette_defaults == c.commands.palette_defaults
                    && (match palette_row(v) { Some(r) => s == c.commands.palette_entries.push(r), None => s == c.commands.palette_entries })
        }),
{
    lemma_commands_keys();
    lemma_commands_reached(c, "command-palette-entry"@, v, e);
    reveal(commands_key);
    lemma_words();
}

/// `input` adds text, or the path of a file, to what a program is sent; no value drops it all.
pub proof fn law_input(c: ConfigView, v: Seq<char>, w: Seq<char>, e: SurroundingsView)
    requires
        plain_value(v),
    ensures
        ({
            let n = parsed(c, said("input"@, v), e);
            let s = n.commands.input;
            &&& n == (ConfigView { commands: CommandsView { input: s, ..c.commands }, ..c })
            &&& v == "raw:"@ + w && unescaped(w) is Some
                ==> s == c.commands.input.push(InputView::Raw(unescaped(w)->0))
            &&& v == "path:"@ + w && unescaped_text(w) is Some
                ==> s == c.commands.input.push(InputView::Path(unescaped_text(w)->0))
            &&& v.len() > 0 && v[0] != 'r' && v[0] != 'p' && unescaped(v) is Some
                ==> s == c.commands.input.push(InputView::Raw(unescaped(v)->0))
            &&& v.len() == 0 ==> s.len() == 0
        }),
{
    lemma_commands_keys();
    lemma_commands_reached(c, "input"@, v, e);
    reveal(commands_key);
    reveal_strlit("raw:");
    reveal_strlit("path:");
    assert("raw:"@[0] == 'r' && "path:"@[0] == 'p');
    let r = "raw:"@ + w;
    let p = "path:"@ + w;
    assert(r.take(4) =~= "raw:"@ && r.skip(4) =~= w);
    assert(p.take(5) =~= "path:"@ && p.skip(5) =~= w);
    assert(r[0] == 'r' && p[0] == 'p');
    if v.len() >= 5 {
        assert(v.take(5)[0] == v[0]);
    }
    if v.len() >= 4 {
        assert(v.take(4)[0] == v[0]);
    }
}

} // verus!
