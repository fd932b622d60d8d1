//! Labels and overlays.

use giest::engine::{KeyCode, KeyMods};
use giest::indicators::{
    chord_label, closest_corner, key_state_label, progress_bar, search_count_label, undo_toast,
    Corner, Progress, ProgressBar, UndoKind,
};
use giest::keybind::{parse_chord, Chord, TableEntry};

/// The corner nearest to a point of a pane, given as left, top, width, height.
fn corner_of(p: (f32, f32), pane: (f32, f32, f32, f32)) -> Corner {
    let middle = (pane.0 + pane.2 / 2.0, pane.1 + pane.3 / 2.0);
    closest_corner(p.0 < middle.0, p.1 < middle.1)
}

#[test]
fn corners_follow_the_drop_quadrant() {
    let r = (100.0, 50.0, 400.0, 200.0);
    assert_eq!(corner_of((110.0, 60.0), r), Corner::TopLeft);
    assert_eq!(corner_of((490.0, 60.0), r), Corner::TopRight);
    assert_eq!(corner_of((110.0, 240.0), r), Corner::BottomLeft);
    assert_eq!(corner_of((490.0, 240.0), r), Corner::BottomRight);
    // The exact centre is not "less than" either midline.
    assert_eq!(corner_of((300.0, 150.0), r), Corner::BottomRight);
}

#[test]
fn corner_anchors_inset_toward_the_pane() {
    let a = Corner::BottomLeft.anchor();
    assert!(a.left && !a.top);
    assert_eq!((a.dx, a.dy), (1, -1));
    let a = Corner::TopRight.anchor();
    assert!(!a.left && a.top);
    assert_eq!((a.dx, a.dy), (-1, 1));
}

#[test]
fn search_count_matches_upstream_format() {
    assert_eq!(search_count_label(0, 0, true), "");
    assert_eq!(search_count_label(0, 0, false), "0/0");
    assert_eq!(search_count_label(17, 2, false), "3/17");
    // A stale index never reads past the total.
    assert_eq!(search_count_label(3, 9, false), "3/3");
}

fn chord(ctrl: bool, shift: bool, code: KeyCode) -> Chord {
    Chord {
        mods: KeyMods { ctrl, shift, alt: false, sup: false },
        code,
    }
}

#[test]
fn chords_read_in_config_spelling() {
    assert_eq!(chord_label(&chord(true, false, KeyCode::A)), "ctrl+a");
    assert_eq!(chord_label(&chord(true, true, KeyCode::ArrowLeft)), "ctrl+shift+left");
    assert_eq!(chord_label(&chord(false, false, KeyCode::Enter)), "enter");
}

#[test]
fn key_state_shows_tables_and_pending_leaders() {
    assert_eq!(key_state_label(&[], &[]), None);
    let tables = vec![
        TableEntry { name: "resize".into(), once: false },
        TableEntry { name: "fine".into(), once: true },
    ];
    assert_eq!(key_state_label(&[], &tables).unwrap(), "[resize › fine]");
    let pending = [chord(true, false, KeyCode::A)];
    assert_eq!(key_state_label(&pending, &[]).unwrap(), "ctrl+a …");
    assert_eq!(
        key_state_label(&pending, &tables[..1]).unwrap(),
        "[resize]  |  ctrl+a …"
    );
}

/// Where a progress bar starts and ends, as fractions of the pane.
fn span(p: Progress, seconds: f32) -> Option<(f32, f32)> {
    match progress_bar(p) {
        ProgressBar::Hidden => None,
        ProgressBar::Filled(percent) => Some((0.0, percent as f32 / 100.0)),
        ProgressBar::Sweeping => {
            let phase = seconds.rem_euclid(1.5) / 1.5;
            let start = phase * (4.0 / 3.0) - 1.0 / 3.0;
            Some((start.max(0.0), (start + 1.0 / 3.0).min(1.0)))
        }
    }
}

#[test]
fn progress_spans() {
    assert_eq!(span(Progress::Off, 0.0), None);
    assert_eq!(span(Progress::Normal(50), 0.0), Some((0.0, 0.5)));
    assert_eq!(span(Progress::Error(100), 0.0), Some((0.0, 1.0)));
    assert_eq!(span(Progress::Paused(0), 0.0), Some((0.0, 0.0)));
    // Indeterminate: starts off-screen left (clamped), sweeps right.
    let (a, b) = span(Progress::Indeterminate, 0.0).unwrap();
    assert_eq!(a, 0.0);
    assert!(b.abs() < 1e-6);
    let (a, b) = span(Progress::Indeterminate, 0.75).unwrap();
    assert!(a > 0.0 && b < 1.0 && (b - a - 1.0 / 3.0).abs() < 1e-5);
}

#[test]
fn undo_toasts_name_the_operation() {
    assert_eq!(undo_toast(UndoKind::ReopenTabs(1), false), "Undo: reopened tab");
    assert_eq!(undo_toast(UndoKind::ReopenTabs(3), false), "Undo: reopened 3 tabs");
    assert_eq!(undo_toast(UndoKind::CloseSplit, true), "Redo: closed split");
    assert_eq!(undo_toast(UndoKind::ReopenWindow, false), "Undo: reopened window");
}

#[test]
fn every_undo_is_named() {
    assert_eq!(undo_toast(UndoKind::ReopenSplit, false), "Undo: reopened split");
    assert_eq!(undo_toast(UndoKind::CloseTabs(1), true), "Redo: closed tab");
    assert_eq!(undo_toast(UndoKind::CloseTabs(12), true), "Redo: closed 12 tabs");
    assert_eq!(undo_toast(UndoKind::CloseWindow, false), "Undo: closed window");
}

#[test]
fn progress_above_the_whole_is_the_whole() {
    assert_eq!(progress_bar(Progress::Normal(250)), ProgressBar::Filled(100));
    assert_eq!(progress_bar(Progress::Indeterminate), ProgressBar::Sweeping);
}

#[test]
fn every_corner_has_its_anchor() {
    let a = Corner::TopLeft.anchor();
    assert!(a.left && a.top);
    assert_eq!((a.dx, a.dy), (1, 1));
    let a = Corner::BottomRight.anchor();
    assert!(!a.left && !a.top);
    assert_eq!((a.dx, a.dy), (-1, -1));
}

#[test]
fn a_chord_label_parses_back() {
    let c = Chord {
        mods: KeyMods { ctrl: true, shift: true, alt: true, sup: true },
        code: KeyCode::BracketLeft,
    };
    assert_eq!(parse_chord(&chord_label(&c)), Some(c));
}
