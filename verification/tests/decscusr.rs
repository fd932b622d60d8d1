//! Following the cursor style of a program through its output.

use giest::decscusr::DecscusrScanner;

fn after(chunks: &[&[u8]]) -> bool {
    let mut s = DecscusrScanner::new();
    for c in chunks {
        s.feed(c);
    }
    s.is_default()
}

fn scan(chunks: &[&[u8]]) -> DecscusrScanner {
    let mut s = DecscusrScanner::new();
    for c in chunks {
        s.feed(c);
    }
    s
}

#[test]
fn starts_on_default_cursor() {
    let s = DecscusrScanner::new();
    assert!(s.is_default());
    // Default-cursor blink starts ON (Ghostty's `... orelse true`).
    assert!(s.default_blink());
    // Plain output and unrelated escapes leave it on the default.
    assert!(after(&[b"hello\r\n\x1b[31mred\x1b[0m\x1b[2J"]));
}

#[test]
fn dec_mode_12_toggles_default_blink() {
    // CSI ?12 l stops the default cursor blinking; CSI ?12 h restarts it.
    assert!(!scan(&[b"\x1b[?12l"]).default_blink());
    assert!(scan(&[b"\x1b[?12l", b"\x1b[?12h"]).default_blink());
    // Mode 12 toggles blink without leaving the default cursor.
    let s = scan(&[b"\x1b[?12l"]);
    assert!(s.is_default());
    // A multi-mode set that includes 12 is still honored.
    assert!(!scan(&[b"\x1b[?25;12l"]).default_blink());
    // An unrelated private mode (25) must not touch blink.
    assert!(scan(&[b"\x1b[?25l"]).default_blink());
}

#[test]
fn decscusr_default_resets_blink_on() {
    // Program stops blink via mode 12, then DECSCUSR-default restores it
    // (Ghostty's setCursorStyle(.default) sets blink = ... orelse true).
    let s = scan(&[b"\x1b[?12l", b"\x1b[0 q"]);
    assert!(s.is_default());
    assert!(s.default_blink());
}

#[test]
fn explicit_shape_clears_default() {
    // Steady bar (DECSCUSR 6).
    assert!(!after(&[b"\x1b[6 q"]));
    // Blinking block (1) and steady underline (4) too.
    assert!(!after(&[b"\x1b[1 q"]));
    assert!(!after(&[b"\x1b[4 q"]));
}

#[test]
fn decscusr_zero_returns_to_default() {
    // An app sets a bar, then resets to default.
    assert!(after(&[b"\x1b[5 q", b"\x1b[0 q"]));
    // Omitted parameter (`ESC [ SP q`) is also the default.
    assert!(after(&[b"\x1b[5 q", b"\x1b[ q"]));
}

#[test]
fn invalid_value_leaves_state_unchanged() {
    // 7 is out of range: an app on an explicit shape stays explicit.
    assert!(!after(&[b"\x1b[2 q", b"\x1b[7 q"]));
}

#[test]
fn similar_csi_sequences_do_not_trigger() {
    // No space intermediate: a plain `q` final (DECSCA-ish) is not DECSCUSR.
    assert!(after(&[b"\x1b[1q"]));
    // Multi-param with a final `q` is not DECSCUSR.
    assert!(after(&[b"\x1b[1;2q"]));
    // A common SGR ends in `m`, not `q`.
    assert!(after(&[b"\x1b[1m"]));
}

#[test]
fn sequence_split_across_chunks() {
    // The DECSCUSR straddles two feeds.
    assert!(!after(&[b"out\x1b[6", b" qmore"]));
}

#[test]
fn chunking_does_not_change_what_is_seen() {
    let bytes = b"a\x1b[?12l\x1b[3 q\x1b[0 q\x1b[?12;25hb\x1b[5 q";
    let whole = scan(&[bytes]);
    for cut in 0..bytes.len() {
        let parts = scan(&[&bytes[..cut], &bytes[cut..]]);
        assert_eq!(parts.is_default(), whole.is_default(), "{cut}");
        assert_eq!(parts.default_blink(), whole.default_blink(), "{cut}");
    }
    assert!(!whole.is_default());
    assert!(whole.default_blink());
}

#[test]
fn a_string_and_its_escape_are_passed_over() {
    // An operating system command ends, and the sequence after it counts.
    assert!(!after(&[b"\x1b]0;title\x07\x1b[2 q"]));
    // A sequence with an escape inside is none, and what it hides is text.
    assert!(after(&[b"\x1b[3\x1b[4 q"]));
}
