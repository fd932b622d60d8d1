//! Turning dropped paths into shell words.

use giest::dropfiles::{quote_paths, wsl_path, ShellKind};

#[test]
fn programs_classify() {
    assert_eq!(ShellKind::from_program("pwsh.exe"), ShellKind::PowerShell);
    assert_eq!(ShellKind::from_program("powershell"), ShellKind::PowerShell);
    assert_eq!(
        ShellKind::from_program(r"C:\Windows\System32\cmd.exe"),
        ShellKind::Cmd
    );
    assert_eq!(ShellKind::from_program("wsl.exe"), ShellKind::Wsl);
    assert_eq!(
        ShellKind::from_program(r"C:\Windows\System32\bash.exe"),
        ShellKind::Wsl
    );
    assert_eq!(ShellKind::from_program("ubuntu2204.exe"), ShellKind::Wsl);
    assert_eq!(
        ShellKind::from_program(r"C:\Program Files\Git\bin\bash.exe"),
        ShellKind::Posix
    );
    assert_eq!(ShellKind::from_program("nu"), ShellKind::PowerShell);
}

#[test]
fn wsl_paths() {
    assert_eq!(wsl_path(r"C:\Users\me\a b.txt"), "/mnt/c/Users/me/a b.txt");
    assert_eq!(wsl_path(r"d:\"), "/mnt/d");
    assert_eq!(wsl_path(r"\\wsl$\Ubuntu\home\me\x"), "/home/me/x");
    assert_eq!(wsl_path(r"\\wsl.localhost\Debian\etc"), "/etc");
    assert_eq!(wsl_path(r"\\server\share\f"), "//server/share/f");
}

#[test]
fn powershell_quoting() {
    assert_eq!(
        quote_paths(ShellKind::PowerShell, &[r"C:\tmp\a.txt"]),
        r"C:\tmp\a.txt "
    );
    assert_eq!(
        quote_paths(ShellKind::PowerShell, &[r"C:\My Files\it's.txt", r"C:\x"]),
        r"'C:\My Files\it''s.txt' C:\x "
    );
    // `$` and backtick would expand or escape unquoted.
    assert_eq!(
        quote_paths(ShellKind::PowerShell, &[r"C:\$x`y"]),
        r"'C:\$x`y' "
    );
}

#[test]
fn cmd_quoting() {
    assert_eq!(
        quote_paths(ShellKind::Cmd, &[r"C:\tmp\a.txt"]),
        r"C:\tmp\a.txt "
    );
    assert_eq!(
        quote_paths(ShellKind::Cmd, &[r"C:\My Files\a&b"]),
        r#""C:\My Files\a&b" "#
    );
}

#[test]
fn wsl_and_posix_quoting() {
    assert_eq!(
        quote_paths(ShellKind::Wsl, &[r"C:\Users\me\it's here.txt"]),
        r"'/mnt/c/Users/me/it'\''s here.txt' "
    );
    assert_eq!(
        quote_paths(ShellKind::Wsl, &[r"C:\src\main.rs"]),
        "/mnt/c/src/main.rs "
    );
    assert_eq!(
        quote_paths(ShellKind::Posix, &[r"C:\src\a b"]),
        "'C:/src/a b' "
    );
}

#[test]
fn quoted_words_lie_side_by_side() {
    assert_eq!(quote_paths(ShellKind::Posix, &[]), "");
    assert_eq!(quote_paths(ShellKind::Posix, &[r"C:\a", r"C:\b c"]), "C:/a 'C:/b c' ");
    assert_eq!(quote_paths(ShellKind::Posix, &["it's"]), r"'it'\''s' ");
}

#[test]
fn an_empty_path_is_still_a_word() {
    assert_eq!(quote_paths(ShellKind::PowerShell, &[""]), "'' ");
    assert_eq!(quote_paths(ShellKind::Posix, &[""]), "'' ");
}

#[test]
fn each_dropped_path_is_one_word() {
    let text = quote_paths(ShellKind::Wsl, &["C:\\a b", "D:\\it's", "x"]);
    assert_eq!(text, "'/mnt/c/a b' '/mnt/d/it'\\''s' x ");
    assert_eq!(quote_paths(ShellKind::Posix, &["", "a\\b"]), "'' a/b ");
    assert_eq!(quote_paths(ShellKind::Posix, &[]), "");
}
