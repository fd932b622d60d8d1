//! The inspector's capture of keys and output.

use giest::inspector::{render_bytes, InspectorMode, KeyOutcome, Log, IO_PREVIEW, MAX_IO, MAX_KEYS};

#[test]
fn mode_names_round_trip() {
    for m in [InspectorMode::Toggle, InspectorMode::Show, InspectorMode::Hide] {
        assert_eq!(InspectorMode::from_name(m.name()), Some(m));
    }
    assert_eq!(InspectorMode::from_name("open"), None);
}

#[test]
fn show_on_an_open_inspector_keeps_the_capture() {
    assert!(InspectorMode::Toggle.wants(false));
    assert!(!InspectorMode::Toggle.wants(true));
    assert!(InspectorMode::Show.wants(false));
    // The one that matters: `show` must not restart an open inspector, or
    // the log you were reading is gone.
    assert!(InspectorMode::Show.wants(true));
    assert!(!InspectorMode::Hide.wants(false));
    assert!(!InspectorMode::Hide.wants(true));
}

#[test]
fn every_control_byte_gets_its_own_glyph() {
    // The point of the IO log is *which* control arrived, so unlike the
    // clipboard preview these must not collapse onto one marker.
    let (s, _) = render_bytes(&[0x1b, 0x07, 0x0d, 0x0a, 0x09, 0x00], 64);
    assert_eq!(s, "␛␇␍␊␉␀");
    let (del, _) = render_bytes(&[0x7f], 64);
    assert_eq!(del, "␡");
}

#[test]
fn a_real_escape_sequence_reads_as_itself() {
    // `ESC [ 2 J` — the shape someone is actually squinting at when they
    // open this panel.
    let (s, _) = render_bytes(b"\x1b[2J", 64);
    assert_eq!(s, "␛[2J");
}

#[test]
fn utf8_survives_and_invalid_bytes_are_shown_as_hex() {
    let (s, _) = render_bytes("héllo→".as_bytes(), 64);
    assert_eq!(s, "héllo→");
    // A lone continuation byte is not U+FFFD: replacement would read as
    // corruption in the *terminal* rather than in the byte stream.
    let (s, _) = render_bytes(&[0x41, 0x80, 0x42], 64);
    assert_eq!(s, "A\\x80B");
}

#[test]
fn the_cap_counts_input_bytes_and_is_reported() {
    let (s, truncated) = render_bytes(b"abcdef", 3);
    assert_eq!(s, "abc");
    assert!(truncated);
    let (s, truncated) = render_bytes(b"abc", 3);
    assert_eq!(s, "abc");
    assert!(!truncated);
    // A multi-byte character straddling the cap degrades to hex rather than
    // to a replacement character.
    let (s, _) = render_bytes("é".as_bytes(), 1);
    assert_eq!(s, "\\xc3");
}

#[test]
fn the_ring_buffers_drop_the_oldest() {
    let mut log = Log::new();
    for i in 0..MAX_IO + 10 {
        log.read(format!("{i}").as_bytes());
    }
    assert_eq!(log.io().len(), MAX_IO);
    // The oldest survivor is #11, and the sequence numbers say so.
    assert_eq!(log.io().front().expect("head").seq, 11);
    assert_eq!(log.io().back().expect("tail").seq, (MAX_IO + 10) as u64);
}

#[test]
fn pausing_stops_capture_rather_than_the_view() {
    let mut log = Log::new();
    log.read(b"before");
    log.set_paused(true);
    assert!(log.paused());
    log.read(b"during");
    log.key("ctrl+c".into(), KeyOutcome::Encoded, b"\x03");
    assert_eq!(log.io().len(), 1);
    assert_eq!(log.keys().len(), 0);
    log.set_paused(false);
    assert!(!log.paused());
    log.read(b"after");
    assert_eq!(log.io().len(), 2);
}

#[test]
fn an_empty_read_is_not_an_entry() {
    // `pump_pty` can wake with nothing; a list of empty rows would bury the
    // reads that matter.
    let mut log = Log::new();
    log.read(b"");
    assert!(log.is_empty());
}

#[test]
fn clearing_keeps_the_sequence_running() {
    // Two captures that both start at #1 are indistinguishable in a
    // screenshot, which is how this log is usually shared.
    let mut log = Log::new();
    log.read(b"a");
    log.clear();
    log.read(b"b");
    assert_eq!(log.io().front().expect("one entry").seq, 2);
}

#[test]
fn a_key_record_carries_the_bytes_it_produced() {
    let mut log = Log::new();
    log.key("ctrl+c".into(), KeyOutcome::Encoded, b"\x03");
    log.key("ctrl+shift+t".into(), KeyOutcome::Swallowed, b"");
    let recs: Vec<_> = log.keys().iter().collect();
    assert_eq!(recs[0].bytes, "␃");
    assert_eq!(recs[0].outcome.label(), "encoded");
    assert!(recs[1].bytes.is_empty());
}

#[test]
fn control_characters_after_text_are_shown_too() {
    // A control between multi-byte characters is still a picture.
    let (s, _) = render_bytes("é\n→\x1b".as_bytes(), 64);
    assert_eq!(s, "é␊→␛");
}

#[test]
fn keys_are_bounded_and_long_reads_cut_short() {
    let mut log = Log::new();
    for _ in 0..MAX_KEYS + 1 {
        log.key("a".to_string(), KeyOutcome::Text, b"a");
    }
    assert_eq!(log.keys().len(), MAX_KEYS);
    assert_eq!(log.keys().front().expect("head").seq, 2);
    log.read(&vec![b'x'; IO_PREVIEW + 1]);
    let last = log.io().back().expect("tail");
    assert_eq!((last.len, last.text.len(), last.truncated), (IO_PREVIEW + 1, IO_PREVIEW, true));
    assert_eq!(KeyOutcome::Swallowed.label(), "swallowed");
    assert_eq!(KeyOutcome::Text.label(), "text");
}

#[test]
fn a_key_that_was_not_encoded_carries_no_bytes() {
    let mut log = Log::new();
    log.key("a".into(), KeyOutcome::Swallowed, b"x");
    log.key("b".into(), KeyOutcome::Text, b"y");
    assert!(log.keys().iter().all(|k| k.bytes.is_empty()));
}
