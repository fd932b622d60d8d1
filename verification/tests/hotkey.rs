//! System-wide key bindings.

use giest::engine::{KeyCode, KeyMods};
use giest::hotkey::{
    fired, hook_change, keep_binds, mark, match_bind, vk_for, GlobalBind, HookChange, MAX_BINDS,
};
use giest::keybind::{key_code, key_name, parse_chord};

fn mods(ctrl: bool, shift: bool) -> KeyMods {
    KeyMods {
        ctrl,
        shift,
        alt: false,
        sup: false,
    }
}

#[test]
fn letters_and_digits_use_their_ascii_virtual_keys() {
    assert_eq!(vk_for(KeyCode::A), Some(0x41));
    assert_eq!(vk_for(KeyCode::Z), Some(0x5A));
    assert_eq!(vk_for(KeyCode::Digit0), Some(0x30));
    assert_eq!(vk_for(KeyCode::Digit9), Some(0x39));
}

#[test]
fn every_key_code_has_a_virtual_key() {
    // The chord parser accepts all of these, so any gap would be a trigger
    // that parses in the config and then silently never fires.
    for code in [
        KeyCode::Backquote,
        KeyCode::Space,
        KeyCode::F12,
        KeyCode::ArrowLeft,
        KeyCode::Slash,
        KeyCode::Quote,
        KeyCode::Escape,
    ] {
        assert!(vk_for(code).is_some(), "{code:?}");
    }
}

#[test]
fn a_bind_matches_only_its_exact_modifier_set() {
    let binds = vec![GlobalBind {
        vk: 0xC0,
        mods: mods(true, false),
    }];
    assert_eq!(match_bind(&binds, 0xC0, mods(true, false)), Some(0));
    // Ctrl+Shift+` must not fire a Ctrl+` binding — same rule the in-app
    // keymap applies, so a global bind behaves like every other one.
    assert_eq!(match_bind(&binds, 0xC0, mods(true, true)), None);
    assert_eq!(match_bind(&binds, 0xC0, mods(false, false)), None);
    assert_eq!(match_bind(&binds, 0x41, mods(true, false)), None);
}

#[test]
fn the_first_duplicate_wins_so_order_is_predictable() {
    let b = GlobalBind {
        vk: 0x41,
        mods: mods(true, false),
    };
    assert_eq!(match_bind(&[b, b], 0x41, mods(true, false)), Some(0));
}

#[test]
fn a_chord_becomes_a_bind_with_its_modifiers_intact() {
    let chord = parse_chord("ctrl+shift+grave").expect("parses");
    let bind = GlobalBind::from_chord(&chord).expect("grave has a VK");
    assert_eq!(bind.vk, 0xC0);
    assert!(bind.mods.ctrl && bind.mods.shift);
}

#[test]
fn the_mark_of_a_bind_is_read_back() {
    assert_eq!(mark(5), 32);
    assert_eq!(fired(&mut 0), Vec::<usize>::new());
    let mut bits = mark(31) | mark(0) | mark(3);
    assert_eq!(fired(&mut bits), vec![0, 3, 31]);
    // What was reported is not reported again.
    assert_eq!(fired(&mut bits), Vec::<usize>::new());
}

#[test]
fn binds_past_the_last_slot_are_dropped() {
    let b = GlobalBind { vk: 0x41, mods: mods(true, false) };
    let mut few = vec![b; 3];
    assert_eq!(keep_binds(&mut few), 0);
    assert_eq!(few.len(), 3);
    let mut many = vec![b; MAX_BINDS + 4];
    assert_eq!(keep_binds(&mut many), 4);
    assert_eq!(many.len(), MAX_BINDS);
}

#[test]
fn the_hook_is_there_only_while_there_are_binds() {
    assert_eq!(hook_change(2, false), HookChange::Install);
    assert_eq!(hook_change(2, true), HookChange::Keep);
    assert_eq!(hook_change(0, true), HookChange::Remove);
    assert_eq!(hook_change(0, false), HookChange::Keep);
}

#[test]
fn the_catch_all_has_no_virtual_key() {
    assert_eq!(vk_for(KeyCode::CatchAll), None);
    let c = parse_chord("catch_all").expect("parses");
    assert_eq!(GlobalBind::from_chord(&c), None);
}

#[test]
fn key_names_read_back() {
    for code in [KeyCode::A, KeyCode::Digit7, KeyCode::ArrowUp, KeyCode::F11, KeyCode::Backquote] {
        let name: Vec<char> = key_name(code).chars().collect();
        assert_eq!(key_code(&name), Some(code));
    }
    assert_eq!(parse_chord("ctrl+nosuchkey"), None);
}
