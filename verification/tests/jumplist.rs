//! The task list of the taskbar button.

use giest::jumplist::{check_task_count, quote_arg, tasks, Task};

#[test]
fn tasks_are_new_window_new_tab_then_one_per_profile() {
    let t = tasks(&["pwsh", "Command Prompt"]);
    assert_eq!(t.len(), 4);
    assert_eq!(
        t[0],
        Task {
            title: "New Window".into(),
            args: "+new-window".into()
        }
    );
    assert_eq!(t[1].args, "+new-tab");
    assert_eq!(t[2].args, "+new-tab --command=pwsh");
    assert_eq!(t[3].title, "New Tab: Command Prompt");
    assert_eq!(t[3].args, r#"+new-tab "--command=Command Prompt""#);
}

#[test]
fn quoting_follows_the_msvc_argv_rules() {
    assert_eq!(quote_arg("plain"), "plain");
    assert_eq!(quote_arg(""), "\"\"");
    assert_eq!(quote_arg("a b"), "\"a b\"");
    assert_eq!(quote_arg(r#"say "hi""#), r#""say \"hi\"""#);
    // Trailing backslashes double before the closing quote.
    assert_eq!(quote_arg(r"C:\a b\"), r#""C:\a b\\""#);
}

/// Read one quoted argument the way the C runtime splits a command line.
fn read_back(s: &str) -> String {
    if !s.starts_with('"') {
        return s.to_string();
    }
    let inner: Vec<char> = s[1..s.len() - 1].chars().collect();
    let mut out = String::new();
    let mut slashes = 0;
    for c in inner {
        match c {
            '\\' => slashes += 1,
            '"' => {
                out.extend(std::iter::repeat('\\').take(slashes / 2));
                slashes = 0;
                out.push('"');
            }
            _ => {
                out.extend(std::iter::repeat('\\').take(slashes));
                slashes = 0;
                out.push(c);
            }
        }
    }
    out.extend(std::iter::repeat('\\').take(slashes / 2));
    out
}

#[test]
fn a_quoted_argument_reads_back() {
    for a in ["", "plain", "a b", r"C:\a b\", r#"x\"y z"#, "tab\there", r"\\server\sha re"] {
        assert_eq!(read_back(&quote_arg(a)), a, "{a}");
    }
}

#[test]
fn a_short_list_is_reported() {
    assert_eq!(check_task_count(4, 4), Ok(()));
    assert!(check_task_count(3, 4).is_err());
}

#[test]
fn an_argument_stays_as_it_is_unless_it_must_be_quoted() {
    assert_eq!(quote_arg("plain\\path"), "plain\\path");
    assert_eq!(quote_arg(""), "\"\"");
    assert_eq!(quote_arg("a\tb"), "\"a\tb\"");
    // Backslashes before the closing quote are doubled, so that it still closes.
    assert_eq!(quote_arg("a b\\"), "\"a b\\\\\"");
}
