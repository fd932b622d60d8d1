//! Composing text with an input method.

use giest::ime::{FrameDedupe, ImeEvent, Preedit};

#[test]
fn preedit_then_commit_types_once_and_clears() {
    let mut p = Preedit::default();
    assert_eq!(p.apply(&ImeEvent::Enabled), None);
    assert_eq!(p.apply(&ImeEvent::Preedit("ni".into())), None);
    assert!(p.active());
    assert_eq!(p.text(), "ni");
    assert_eq!(p.apply(&ImeEvent::Commit("你".into())), Some("你".into()));
    assert!(!p.active());
}

#[test]
fn cancel_paths_clear_without_typing() {
    let mut p = Preedit::default();
    p.apply(&ImeEvent::Preedit("ka".into()));
    assert_eq!(p.apply(&ImeEvent::Preedit(String::new())), None);
    assert!(!p.active());
    p.apply(&ImeEvent::Preedit("ka".into()));
    assert_eq!(p.apply(&ImeEvent::Disabled), None);
    assert!(!p.active());
    assert_eq!(p.apply(&ImeEvent::Commit(String::new())), None);
}

#[test]
fn commit_then_text_echo_is_dropped() {
    let mut d = FrameDedupe::default();
    assert!(d.commit("你好"));
    assert!(!d.text("你好"));
    // The pair is spent: a later identical keystroke is real input.
    assert!(d.text("你好"));
}

#[test]
fn text_then_commit_echo_is_dropped() {
    let mut d = FrameDedupe::default();
    assert!(d.text("é"));
    assert!(!d.commit("é"));
}

#[test]
fn unrelated_text_is_not_swallowed() {
    let mut d = FrameDedupe::default();
    assert!(d.commit("日本"));
    assert!(d.text("a"));
    assert!(d.text("a"));
}

#[test]
fn clearing_drops_the_composition() {
    let mut p = Preedit::default();
    p.apply(&ImeEvent::Preedit("x".to_string()));
    p.clear();
    assert!(!p.active());
    assert_eq!(p.text(), "");
}

#[test]
fn each_pair_is_typed_once_whatever_the_order() {
    let mut d = FrameDedupe::default();
    assert!(d.text("a"));
    assert!(d.commit("b"));
    assert!(!d.commit("a"));
    assert!(!d.text("b"));
    assert!(d.commit("a"));
}

#[test]
fn of_texts_and_commits_the_larger_number_is_typed() {
    let mut d = FrameDedupe::default();
    // Three texts and two commits of one string, others in between.
    let passed = [d.text("a"), d.commit("a"), d.commit("a"), d.text("a"), d.text("a")];
    assert_eq!(passed.iter().filter(|p| **p).count(), 3);
    let mut d = FrameDedupe::default();
    let passed = [d.commit("a"), d.commit("a"), d.commit("a"), d.text("a")];
    assert!(d.text("b"));
    assert_eq!(passed.iter().filter(|p| **p).count(), 3);
}
