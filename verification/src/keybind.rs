//! Key chords in config spelling.

use crate::engine::{KeyCode, KeyMods};
use crate::text::{chars, joined, lemma_split_joined, pieces, spells, split, views};
use vstd::prelude::*;

verus! {

/// A key with the modifiers held.
#[derive(Clone, Copy, Debug, PartialEq, Eq, Structural)]
pub struct Chord {
    pub mods: KeyMods,
    pub code: KeyCode,
}

/// An active key table.
#[derive(Clone, Debug, PartialEq, Eq)]
pub struct TableEntry {
    pub name: String,
    /// Left again after one key.
    pub once: bool,
}

/// The name of a key.
pub open spec fn name_of(code: KeyCode) -> Seq<char> {
    match code {
        KeyCode::A => "a"@,
        KeyCode::B => "b"@,
        KeyCode::C => "c"@,
        KeyCode::D => "d"@,
        KeyCode::E => "e"@,
        KeyCode::F => "f"@,
        KeyCode::G => "g"@,
        KeyCode::H => "h"@,
        KeyCode::I => "i"@,
        KeyCode::J => "j"@,
        KeyCode::K => "k"@,
        KeyCode::L => "l"@,
        KeyCode::M => "m"@,
        KeyCode::N => "n"@,
        KeyCode::O => "o"@,
        KeyCode::P => "p"@,
        KeyCode::Q => "q"@,
        KeyCode::R => "r"@,
        KeyCode::S => "s"@,
        KeyCode::T => "t"@,
        KeyCode::U => "u"@,
        KeyCode::V => "v"@,
        KeyCode::W => "w"@,
        KeyCode::X => "x"@,
        KeyCode::Y => "y"@,
        KeyCode::Z => "z"@,
        KeyCode::Digit0 => "0"@,
        KeyCode::Digit1 => "1"@,
        KeyCode::Digit2 => "2"@,
        KeyCode::Digit3 => "3"@,
        KeyCode::Digit4 => "4"@,
        KeyCode::Digit5 => "5"@,
        KeyCode::Digit6 => "6"@,
        KeyCode::Digit7 => "7"@,
        KeyCode::Digit8 => "8"@,
        KeyCode::Digit9 => "9"@,
        KeyCode::Enter => "enter"@,
        KeyCode::Tab => "tab"@,
        KeyCode::Backspace => "backspace"@,
        KeyCode::Escape => "escape"@,
        KeyCode::Space => "space"@,
        KeyCode::Delete => "delete"@,
        KeyCode::Insert => "insert"@,
        KeyCode::Home => "home"@,
        KeyCode::End => "end"@,
        KeyCode::PageUp => "page_up"@,
        KeyCode::PageDown => "page_down"@,
        KeyCode::ArrowUp => "up"@,
        KeyCode::ArrowDown => "down"@,
        KeyCode::ArrowLeft => "left"@,
        KeyCode::ArrowRight => "right"@,
        KeyCode::F1 => "f1"@,
        KeyCode::F2 => "f2"@,
        KeyCode::F3 => "f3"@,
        KeyCode::F4 => "f4"@,
        KeyCode::F5 => "f5"@,
        KeyCode::F6 => "f6"@,
        KeyCode::F7 => "f7"@,
        KeyCode::F8 => "f8"@,
        KeyCode::F9 => "f9"@,
        KeyCode::F10 => "f10"@,
        KeyCode::F11 => "f11"@,
        KeyCode::F12 => "f12"@,
        KeyCode::Minus => "minus"@,
        KeyCode::Equal => "equal"@,
        KeyCode::BracketLeft => "left_bracket"@,
        KeyCode::BracketRight => "right_bracket"@,
        KeyCode::Backslash => "backslash"@,
        KeyCode::Semicolon => "semicolon"@,
        KeyCode::Quote => "apostrophe"@,
        KeyCode::Backquote => "grave"@,
        KeyCode::Comma => "comma"@,
        KeyCode::Period => "period"@,
        KeyCode::Slash => "slash"@,
        KeyCode::CatchAll => "catch_all"@,
    }
}

/// The name of a key in config spelling.
pub fn key_name(code: KeyCode) -> (s: &'static str)
    ensures
        s@ == name_of(code),
{
    match code {
        KeyCode::A => "a",
        KeyCode::B => "b",
        KeyCode::C => "c",
        KeyCode::D => "d",
        KeyCode::E => "e",
        KeyCode::F => "f",
        KeyCode::G => "g",
        KeyCode::H => "h",
        KeyCode::I => "i",
        KeyCode::J => "j",
        KeyCode::K => "k",
        KeyCode::L => "l",
        KeyCode::M => "m",
        KeyCode::N => "n",
        KeyCode::O => "o",
        KeyCode::P => "p",
        KeyCode::Q => "q",
        KeyCode::R => "r",
        KeyCode::S => "s",
        KeyCode::T => "t",
        KeyCode::U => "u",
        KeyCode::V => "v",
        KeyCode::W => "w",
        KeyCode::X => "x",
        KeyCode::Y => "y",
        KeyCode::Z => "z",
        KeyCode::Digit0 => "0",
        KeyCode::Digit1 => "1",
        KeyCode::Digit2 => "2",
        KeyCode::Digit3 => "3",
        KeyCode::Digit4 => "4",
        KeyCode::Digit5 => "5",
        KeyCode::Digit6 => "6",
        KeyCode::Digit7 => "7",
        KeyCode::Digit8 => "8",
        KeyCode::Digit9 => "9",
        KeyCode::Enter => "enter",
        KeyCode::Tab => "tab",
        KeyCode::Backspace => "backspace",
        KeyCode::Escape => "escape",
        KeyCode::Space => "space",
        KeyCode::Delete => "delete",
        KeyCode::Insert => "insert",
        KeyCode::Home => "home",
        KeyCode::End => "end",
        KeyCode::PageUp => "page_up",
        KeyCode::PageDown => "page_down",
        KeyCode::ArrowUp => "up",
        KeyCode::ArrowDown => "down",
        KeyCode::ArrowLeft => "left",
        KeyCode::ArrowRight => "right",
        KeyCode::F1 => "f1",
        KeyCode::F2 => "f2",
        KeyCode::F3 => "f3",
        KeyCode::F4 => "f4",
        KeyCode::F5 => "f5",
        KeyCode::F6 => "f6",
        KeyCode::F7 => "f7",
        KeyCode::F8 => "f8",
        KeyCode::F9 => "f9",
        KeyCode::F10 => "f10",
        KeyCode::F11 => "f11",
        KeyCode::F12 => "f12",
        KeyCode::Minus => "minus",
        KeyCode::Equal => "equal",
        KeyCode::BracketLeft => "left_bracket",
        KeyCode::BracketRight => "right_bracket",
        KeyCode::Backslash => "backslash",
        KeyCode::Semicolon => "semicolon",
        KeyCode::Quote => "apostrophe",
        KeyCode::Backquote => "grave",
        KeyCode::Comma => "comma",
        KeyCode::Period => "period",
        KeyCode::Slash => "slash",
        KeyCode::CatchAll => "catch_all",
    }
}

/// The key with a given name.
pub open spec fn code_of(name: Seq<char>) -> Option<KeyCode> {
    if name == "a"@ {
        Some(KeyCode::A)
    } else if name == "b"@ {
        Some(KeyCode::B)
    } else if name == "c"@ {
        Some(KeyCode::C)
    } else if name == "d"@ {
        Some(KeyCode::D)
    } else if name == "e"@ {
        Some(KeyCode::E)
    } else if name == "f"@ {
        Some(KeyCode::F)
    } else if name == "g"@ {
        Some(KeyCode::G)
    } else if name == "h"@ {
        Some(KeyCode::H)
    } else if name == "i"@ {
        Some(KeyCode::I)
    } else if name == "j"@ {
        Some(KeyCode::J)
    } else if name == "k"@ {
        Some(KeyCode::K)
    } else if name == "l"@ {
        Some(KeyCode::L)
    } else if name == "m"@ {
        Some(KeyCode::M)
    } else if name == "n"@ {
        Some(KeyCode::N)
    } else if name == "o"@ {
        Some(KeyCode::O)
    } else if name == "p"@ {
        Some(KeyCode::P)
    } else if name == "q"@ {
        Some(KeyCode::Q)
    } else if name == "r"@ {
        Some(KeyCode::R)
    } else if name == "s"@ {
        Some(KeyCode::S)
    } else if name == "t"@ {
        Some(KeyCode::T)
    } else if name == "u"@ {
        Some(KeyCode::U)
    } else if name == "v"@ {
        Some(KeyCode::V)
    } else if name == "w"@ {
        Some(KeyCode::W)
    } else if name == "x"@ {
        Some(KeyCode::X)
    } else if name == "y"@ {
        Some(KeyCode::Y)
    } else if name == "z"@ {
        Some(KeyCode::Z)
    } else if name == "0"@ {
        Some(KeyCode::Digit0)
    } else if name == "1"@ {
        Some(KeyCode::Digit1)
    } else if name == "2"@ {
        Some(KeyCode::Digit2)
    } else if name == "3"@ {
        Some(KeyCode::Digit3)
    } else if name == "4"@ {
        Some(KeyCode::Digit4)
    } else if name == "5"@ {
        Some(KeyCode::Digit5)
    } else if name == "6"@ {
        Some(KeyCode::Digit6)
    } else if name == "7"@ {
        Some(KeyCode::Digit7)
    } else if name == "8"@ {
        Some(KeyCode::Digit8)
    } else if name == "9"@ {
        Some(KeyCode::Digit9)
    } else if name == "enter"@ {
        Some(KeyCode::Enter)
    } else if name == "tab"@ {
        Some(KeyCode::Tab)
    } else if name == "backspace"@ {
        Some(KeyCode::Backspace)
    } else if name == "escape"@ {
        Some(KeyCode::Escape)
    } else if name == "space"@ {
        Some(KeyCode::Space)
    } else if name == "delete"@ {
        Some(KeyCode::Delete)
    } else if name == "insert"@ {
        Some(KeyCode::Insert)
    } else if name == "home"@ {
        Some(KeyCode::Home)
    } else if name == "end"@ {
        Some(KeyCode::End)
    } else if name == "page_up"@ {
        Some(KeyCode::PageUp)
    } else if name == "page_down"@ {
        Some(KeyCode::PageDown)
    } else if name == "up"@ {
        Some(KeyCode::ArrowUp)
    } else if name == "down"@ {
        Some(KeyCode::ArrowDown)
    } else if name == "left"@ {
        Some(KeyCode::ArrowLeft)
    } else if name == "right"@ {
        Some(KeyCode::ArrowRight)
    } else if name == "f1"@ {
        Some(KeyCode::F1)
    } else if name == "f2"@ {
        Some(KeyCode::F2)
    } else if name == "f3"@ {
        Some(KeyCode::F3)
    } else if name == "f4"@ {
        Some(KeyCode::F4)
    } else if name == "f5"@ {
        Some(KeyCode::F5)
    } else if name == "f6"@ {
        Some(KeyCode::F6)
    } else if name == "f7"@ {
        Some(KeyCode::F7)
    } else if name == "f8"@ {
        Some(KeyCode::F8)
    } else if name == "f9"@ {
        Some(KeyCode::F9)
    } else if name == "f10"@ {
        Some(KeyCode::F10)
    } else if name == "f11"@ {
        Some(KeyCode::F11)
    } else if name == "f12"@ {
        Some(KeyCode::F12)
    } else if name == "minus"@ {
        Some(KeyCode::Minus)
    } else if name == "equal"@ {
        Some(KeyCode::Equal)
    } else if name == "left_bracket"@ {
        Some(KeyCode::BracketLeft)
    } else if name == "right_bracket"@ {
        Some(KeyCode::BracketRight)
    } else if name == "backslash"@ {
        Some(KeyCode::Backslash)
    } else if name == "semicolon"@ {
        Some(KeyCode::Semicolon)
    } else if name == "apostrophe"@ {
        Some(KeyCode::Quote)
    } else if name == "grave"@ {
        Some(KeyCode::Backquote)
    } else if name == "comma"@ {
        Some(KeyCode::Comma)
    } else if name == "period"@ {
        Some(KeyCode::Period)
    } else if name == "slash"@ {
        Some(KeyCode::Slash)
    } else if name == "catch_all"@ {
        Some(KeyCode::CatchAll)
    } else {
        None
    }
}

/// The key with a given name.
pub fn key_code(name: &[char]) -> (c: Option<KeyCode>)
    ensures
        c == code_of(name@),
{
    if spells(name, "a") {
        Some(KeyCode::A)
    } else if spells(name, "b") {
        Some(KeyCode::B)
    } else if spells(name, "c") {
        Some(KeyCode::C)
    } else if spells(name, "d") {
        Some(KeyCode::D)
    } else if spells(name, "e") {
        Some(KeyCode::E)
    } else if spells(name, "f") {
        Some(KeyCode::F)
    } else if spells(name, "g") {
        Some(KeyCode::G)
    } else if spells(name, "h") {
        Some(KeyCode::H)
    } else if spells(name, "i") {
        Some(KeyCode::I)
    } else if spells(name, "j") {
        Some(KeyCode::J)
    } else if spells(name, "k") {
        Some(KeyCode::K)
    } else if spells(name, "l") {
        Some(KeyCode::L)
    } else if spells(name, "m") {
        Some(KeyCode::M)
    } else if spells(name, "n") {
        Some(KeyCode::N)
    } else if spells(name, "o") {
        Some(KeyCode::O)
    } else if spells(name, "p") {
        Some(KeyCode::P)
    } else if spells(name, "q") {
        Some(KeyCode::Q)
    } else if spells(name, "r") {
        Some(KeyCode::R)
    } else if spells(name, "s") {
        Some(KeyCode::S)
    } else if spells(name, "t") {
        Some(KeyCode::T)
    } else if spells(name, "u") {
        Some(KeyCode::U)
    } else if spells(name, "v") {
        Some(KeyCode::V)
    } else if spells(name, "w") {
        Some(KeyCode::W)
    } else if spells(name, "x") {
        Some(KeyCode::X)
    } else if spells(name, "y") {
        Some(KeyCode::Y)
    } else if spells(name, "z") {
        Some(KeyCode::Z)
    } else if spells(name, "0") {
        Some(KeyCode::Digit0)
    } else if spells(name, "1") {
        Some(KeyCode::Digit1)
    } else if spells(name, "2") {
        Some(KeyCode::Digit2)
    } else if spells(name, "3") {
        Some(KeyCode::Digit3)
    } else if spells(name, "4") {
        Some(KeyCode::Digit4)
    } else if spells(name, "5") {
        Some(KeyCode::Digit5)
    } else if spells(name, "6") {
        Some(KeyCode::Digit6)
    } else if spells(name, "7") {
        Some(KeyCode::Digit7)
    } else if spells(name, "8") {
        Some(KeyCode::Digit8)
    } else if spells(name, "9") {
        Some(KeyCode::Digit9)
    } else if spells(name, "enter") {
        Some(KeyCode::Enter)
    } else if spells(name, "tab") {
        Some(KeyCode::Tab)
    } else if spells(name, "backspace") {
        Some(KeyCode::Backspace)
    } else if spells(name, "escape") {
        Some(KeyCode::Escape)
    } else if spells(name, "space") {
        Some(KeyCode::Space)
    } else if spells(name, "delete") {
        Some(KeyCode::Delete)
    } else if spells(name, "insert") {
        Some(KeyCode::Insert)
    } else if spells(name, "home") {
        Some(KeyCode::Home)
    } else if spells(name, "end") {
        Some(KeyCode::End)
    } else if spells(name, "page_up") {
        Some(KeyCode::PageUp)
    } else if spells(name, "page_down") {
        Some(KeyCode::PageDown)
    } else if spells(name, "up") {
        Some(KeyCode::ArrowUp)
    } else if spells(name, "down") {
        Some(KeyCode::ArrowDown)
    } else if spells(name, "left") {
        Some(KeyCode::ArrowLeft)
    } else if spells(name, "right") {
        Some(KeyCode::ArrowRight)
    } else if spells(name, "f1") {
        Some(KeyCode::F1)
    } else if spells(name, "f2") {
        Some(KeyCode::F2)
    } else if spells(name, "f3") {
        Some(KeyCode::F3)
    } else if spells(name, "f4") {
        Some(KeyCode::F4)
    } else if spells(name, "f5") {
        Some(KeyCode::F5)
    } else if spells(name, "f6") {
        Some(KeyCode::F6)
    } else if spells(name, "f7") {
        Some(KeyCode::F7)
    } else if spells(name, "f8") {
        Some(KeyCode::F8)
    } else if spells(name, "f9") {
        Some(KeyCode::F9)
    } else if spells(name, "f10") {
        Some(KeyCode::F10)
    } else if spells(name, "f11") {
        Some(KeyCode::F11)
    } else if spells(name, "f12") {
        Some(KeyCode::F12)
    } else if spells(name, "minus") {
        Some(KeyCode::Minus)
    } else if spells(name, "equal") {
        Some(KeyCode::Equal)
    } else if spells(name, "left_bracket") {
        Some(KeyCode::BracketLeft)
    } else if spells(name, "right_bracket") {
        Some(KeyCode::BracketRight)
    } else if spells(name, "backslash") {
        Some(KeyCode::Backslash)
    } else if spells(name, "semicolon") {
        Some(KeyCode::Semicolon)
    } else if spells(name, "apostrophe") {
        Some(KeyCode::Quote)
    } else if spells(name, "grave") {
        Some(KeyCode::Backquote)
    } else if spells(name, "comma") {
        Some(KeyCode::Comma)
    } else if spells(name, "period") {
        Some(KeyCode::Period)
    } else if spells(name, "slash") {
        Some(KeyCode::Slash)
    } else if spells(name, "catch_all") {
        Some(KeyCode::CatchAll)
    } else {
        None
    }
}

/// The modifiers held once `name` is held as well; `None` if it is no modifier.
pub open spec fn with_mod(m: KeyMods, name: Seq<char>) -> Option<KeyMods> {
    if name == "ctrl"@ {
        Some(KeyMods { ctrl: true, ..m })
    } else if name == "alt"@ {
        Some(KeyMods { alt: true, ..m })
    } else if name == "shift"@ {
        Some(KeyMods { shift: true, ..m })
    } else if name == "super"@ {
        Some(KeyMods { sup: true, ..m })
    } else {
        None
    }
}

/// The modifiers that a list of names holds; `None` if one of them is no
/// modifier.
pub open spec fn mods_of(names: Seq<Seq<char>>) -> Option<KeyMods>
    decreases names.len(),
{
    if names.len() == 0 {
        Some(KeyMods { shift: false, ctrl: false, alt: false, sup: false })
    } else {
        match mods_of(names.drop_last()) {
            Some(m) => with_mod(m, names.last()),
            None => None,
        }
    }
}

/// The chord that a text spells: modifiers and a key, joined by plus signs.
pub open spec fn chord_of(s: Seq<char>) -> Option<Chord> {
    let names = split(s, '+');
    match (mods_of(names.drop_last()), code_of(names.last())) {
        (Some(mods), Some(code)) => Some(Chord { mods, code }),
        _ => None,
    }
}

/// Hold one more modifier.
fn hold(m: KeyMods, name: &[char]) -> (r: Option<KeyMods>)
    ensures
        r == with_mod(m, name@),
{
    if spells(name, "ctrl") {
        Some(KeyMods { shift: m.shift, ctrl: true, alt: m.alt, sup: m.sup })
    } else if spells(name, "alt") {
        Some(KeyMods { shift: m.shift, ctrl: m.ctrl, alt: true, sup: m.sup })
    } else if spells(name, "shift") {
        Some(KeyMods { shift: true, ctrl: m.ctrl, alt: m.alt, sup: m.sup })
    } else if spells(name, "super") {
        Some(KeyMods { shift: m.shift, ctrl: m.ctrl, alt: m.alt, sup: true })
    } else {
        None
    }
}

/// Read a chord in config spelling.
pub fn parse_chord(s: &str) -> (c: Option<Chord>)
    ensures
        c == chord_of(s@),
{
    let cs = chars(s);
    let names = pieces(cs.as_slice(), '+');
    let ghost all = split(s@, '+');
    let n: usize = names.len();
    let mut mods = KeyMods { shift: false, ctrl: false, alt: false, sup: false };
    let mut i: usize = 0;
    assert(all.take(0) =~= Seq::empty());
    while i < n - 1
        invariant
            0 < n == names@.len(),
            i <= n - 1,
            views(names@) == all,
            all == split(s@, '+'),
            mods_of(all.take(i as int)) == Some(mods),
        decreases n - i,
    {
        assert(all.take(i + 1).drop_last() =~= all.take(i as int));
        assert(views(names@)[i as int] == names@[i as int]@);
        match hold(mods, names[i].as_slice()) {
            Some(m) => {
                mods = m;
            },
            None => {
                proof {
                    lemma_bad_mod(all.drop_last(), i + 1);
                    assert(all.drop_last().take(i + 1) =~= all.take(i + 1));
                }
                return None;
            },
        }
        i += 1;
    }
    assert(all.take(n - 1) =~= all.drop_last());
    assert(views(names@)[n - 1] == names@[n - 1]@);
    match key_code(names[n - 1].as_slice()) {
        Some(code) => Some(Chord { mods, code }),
        None => None,
    }
}

/// A list that starts with no modifiers is none.
proof fn lemma_bad_mod(names: Seq<Seq<char>>, k: int)
    requires
        0 <= k <= names.len(),
        mods_of(names.take(k)) is None,
    ensures
        mods_of(names) is None,
    decreases names.len() - k,
{
    if k == names.len() {
        assert(names.take(k) =~= names);
    } else {
        assert(names.take(k + 1).drop_last() =~= names.take(k));
        lemma_bad_mod(names, k + 1);
    }
}

/// A key's name tells the key.
#[verifier::spinoff_prover]
pub proof fn law_key_names_read_back(code: KeyCode)
    ensures
        code_of(name_of(code)) == Some(code),
{
    reveal_strlit("a");
    reveal_strlit("b");
    reveal_strlit("c");
    reveal_strlit("d");
    reveal_strlit("e");
    reveal_strlit("f");
    reveal_strlit("g");
    reveal_strlit("h");
    reveal_strlit("i");
    reveal_strlit("j");
    reveal_strlit("k");
    reveal_strlit("l");
    reveal_strlit("m");
    reveal_strlit("n");
    reveal_strlit("o");
    reveal_strlit("p");
    reveal_strlit("q");
    reveal_strlit("r");
    reveal_strlit("s");
    reveal_strlit("t");
    reveal_strlit("u");
    reveal_strlit("v");
    reveal_strlit("w");
    reveal_strlit("x");
    reveal_strlit("y");
    reveal_strlit("z");
    reveal_strlit("0");
    reveal_strlit("1");
    reveal_strlit("2");
    reveal_strlit("3");
    reveal_strlit("4");
    reveal_strlit("5");
    reveal_strlit("6");
    reveal_strlit("7");
    reveal_strlit("8");
    reveal_strlit("9");
    reveal_strlit("enter");
    reveal_strlit("tab");
    reveal_strlit("backspace");
    reveal_strlit("escape");
    reveal_strlit("space");
    reveal_strlit("delete");
    reveal_strlit("insert");
    reveal_strlit("home");
    reveal_strlit("end");
    reveal_strlit("page_up");
    reveal_strlit("page_down");
    reveal_strlit("up");
    reveal_strlit("down");
    reveal_strlit("left");
    reveal_strlit("right");
    reveal_strlit("f1");
    reveal_strlit("f2");
    reveal_strlit("f3");
    reveal_strlit("f4");
    reveal_strlit("f5");
    reveal_strlit("f6");
    reveal_strlit("f7");
    reveal_strlit("f8");
    reveal_strlit("f9");
    reveal_strlit("f10");
    reveal_strlit("f11");
    reveal_strlit("f12");
    reveal_strlit("minus");
    reveal_strlit("equal");
    reveal_strlit("left_bracket");
    reveal_strlit("right_bracket");
    reveal_strlit("backslash");
    reveal_strlit("semicolon");
    reveal_strlit("apostrophe");
    reveal_strlit("grave");
    reveal_strlit("comma");
    reveal_strlit("period");
    reveal_strlit("slash");
    reveal_strlit("catch_all");
    let n = name_of(code);
    match code {
        KeyCode::A => {
            assert(n.len() == 1 && n[0] == 'a');
        },
        KeyCode::B => {
            assert(n.len() == 1 && n[0] == 'b');
        },
        KeyCode::C => {
            assert(n.len() == 1 && n[0] == 'c');
        },
        KeyCode::D => {
            assert(n.len() == 1 && n[0] == 'd');
        },
        KeyCode::E => {
            assert(n.len() == 1 && n[0] == 'e');
        },
        KeyCode::F => {
            assert(n.len() == 1 && n[0] == 'f');
        },
        KeyCode::G => {
            assert(n.len() == 1 && n[0] == 'g');
        },
        KeyCode::H => {
            assert(n.len() == 1 && n[0] == 'h');
        },
        KeyCode::I => {
            assert(n.len() == 1 && n[0] == 'i');
        },
        KeyCode::J => {
            assert(n.len() == 1 && n[0] == 'j');
        },
        KeyCode::K => {
            assert(n.len() == 1 && n[0] == 'k');
        },
        KeyCode::L => {
            assert(n.len() == 1 && n[0] == 'l');
        },
        KeyCode::M => {
            assert(n.len() == 1 && n[0] == 'm');
        },
        KeyCode::N => {
            assert(n.len() == 1 && n[0] == 'n');
        },
        KeyCode::O => {
            assert(n.len() == 1 && n[0] == 'o');
        },
        KeyCode::P => {
            assert(n.len() == 1 && n[0] == 'p');
        },
        KeyCode::Q => {
            assert(n.len() == 1 && n[0] == 'q');
        },
        KeyCode::R => {
            assert(n.len() == 1 && n[0] == 'r');
        },
        KeyCode::S => {
            assert(n.len() == 1 && n[0] == 's');
        },
        KeyCode::T => {
            assert(n.len() == 1 && n[0] == 't');
        },
        KeyCode::U => {
            assert(n.len() == 1 && n[0] == 'u');
        },
        KeyCode::V => {
            assert(n.len() == 1 && n[0] == 'v');
        },
        KeyCode::W => {
            assert(n.len() == 1 && n[0] == 'w');
        },
        KeyCode::X => {
            assert(n.len() == 1 && n[0] == 'x');
        },
        KeyCode::Y => {
            assert(n.len() == 1 && n[0] == 'y');
        },
        KeyCode::Z => {
            assert(n.len() == 1 && n[0] == 'z');
        },
        KeyCode::Digit0 => {
            assert(n.len() == 1 && n[0] == '0');
        },
        KeyCode::Digit1 => {
            assert(n.len() == 1 && n[0] == '1');
        },
        KeyCode::Digit2 => {
            assert(n.len() == 1 && n[0] == '2');
        },
        KeyCode::Digit3 => {
            assert(n.len() == 1 && n[0] == '3');
        },
        KeyCode::Digit4 => {
            assert(n.len() == 1 && n[0] == '4');
        },
        KeyCode::Digit5 => {
            assert(n.len() == 1 && n[0] == '5');
        },
        KeyCode::Digit6 => {
            assert(n.len() == 1 && n[0] == '6');
        },
        KeyCode::Digit7 => {
            assert(n.len() == 1 && n[0] == '7');
        },
        KeyCode::Digit8 => {
            assert(n.len() == 1 && n[0] == '8');
        },
        KeyCode::Digit9 => {
            assert(n.len() == 1 && n[0] == '9');
        },
        KeyCode::Enter => {
            assert(n.len() == 5 && n[0] == 'e' && n[1] == 'n' && n[2] == 't' && n[3] == 'e'
                && n[4] == 'r');
        },
        KeyCode::Tab => {
            assert(n.len() == 3 && n[0] == 't' && n[1] == 'a' && n[2] == 'b');
        },
        KeyCode::Backspace => {
            assert(n.len() == 9 && n[0] == 'b' && n[1] == 'a' && n[2] == 'c' && n[3] == 'k'
                && n[4] == 's' && n[5] == 'p' && n[6] == 'a' && n[7] == 'c' && n[8] == 'e');
        },
        KeyCode::Escape => {
            assert(n.len() == 6 && n[0] == 'e' && n[1] == 's' && n[2] == 'c' && n[3] == 'a'
                && n[4] == 'p' && n[5] == 'e');
        },
        KeyCode::Space => {
            assert(n.len() == 5 && n[0] == 's' && n[1] == 'p' && n[2] == 'a' && n[3] == 'c'
                && n[4] == 'e');
        },
        KeyCode::Delete => {
            assert(n.len() == 6 && n[0] == 'd' && n[1] == 'e' && n[2] == 'l' && n[3] == 'e'
                && n[4] == 't' && n[5] == 'e');
        },
        KeyCode::Insert => {
            assert(n.len() == 6 && n[0] == 'i' && n[1] == 'n' && n[2] == 's' && n[3] == 'e'
                && n[4] == 'r' && n[5] == 't');
        },
        KeyCode::Home => {
            assert(n.len() == 4 && n[0] == 'h' && n[1] == 'o' && n[2] == 'm' && n[3] == 'e');
        },
        KeyCode::End => {
            assert(n.len() == 3 && n[0] == 'e' && n[1] == 'n' && n[2] == 'd');
        },
        KeyCode::PageUp => {
            assert(n.len() == 7 && n[0] == 'p' && n[1] == 'a' && n[2] == 'g' && n[3] == 'e'
                && n[4] == '_' && n[5] == 'u' && n[6] == 'p');
        },
        KeyCode::PageDown => {
            assert(n.len() == 9 && n[0] == 'p' && n[1] == 'a' && n[2] == 'g' && n[3] == 'e'
                && n[4] == '_' && n[5] == 'd' && n[6] == 'o' && n[7] == 'w' && n[8] == 'n');
        },
        KeyCode::ArrowUp => {
            assert(n.len() == 2 && n[0] == 'u' && n[1] == 'p');
        },
        KeyCode::ArrowDown => {
            assert(n.len() == 4 && n[0] == 'd' && n[1] == 'o' && n[2] == 'w' && n[3] == 'n');
        },
        KeyCode::ArrowLeft => {
            assert(n.len() == 4 && n[0] == 'l' && n[1] == 'e' && n[2] == 'f' && n[3] == 't');
        },
        KeyCode::ArrowRight => {
            assert(n.len() == 5 && n[0] == 'r' && n[1] == 'i' && n[2] == 'g' && n[3] == 'h'
                && n[4] == 't');
        },
        KeyCode::F1 => {
            assert(n.len() == 2 && n[0] == 'f' && n[1] == '1');
        },
        KeyCode::F2 => {
            assert(n.len() == 2 && n[0] == 'f' && n[1] == '2');
        },
        KeyCode::F3 => {
            assert(n.len() == 2 && n[0] == 'f' && n[1] == '3');
        },
        KeyCode::F4 => {
            assert(n.len() == 2 && n[0] == 'f' && n[1] == '4');
        },
        KeyCode::F5 => {
            assert(n.len() == 2 && n[0] == 'f' && n[1] == '5');
        },
        KeyCode::F6 => {
            assert(n.len() == 2 && n[0] == 'f' && n[1] == '6');
        },
        KeyCode::F7 => {
            assert(n.len() == 2 && n[0] == 'f' && n[1] == '7');
        },
        KeyCode::F8 => {
            assert(n.len() == 2 && n[0] == 'f' && n[1] == '8');
        },
        KeyCode::F9 => {
            assert(n.len() == 2 && n[0] == 'f' && n[1] == '9');
        },
        KeyCode::F10 => {
            assert(n.len() == 3 && n[0] == 'f' && n[1] == '1' && n[2] == '0');
        },
        KeyCode::F11 => {
            assert(n.len() == 3 && n[0] == 'f' && n[1] == '1' && n[2] == '1');
        },
        KeyCode::F12 => {
            assert(n.len() == 3 && n[0] == 'f' && n[1] == '1' && n[2] == '2');
        },
        KeyCode::Minus => {
            assert(n.len() == 5 && n[0] == 'm' && n[1] == 'i' && n[2] == 'n' && n[3] == 'u'
                && n[4] == 's');
        },
        KeyCode::Equal => {
            assert(n.len() == 5 && n[0] == 'e' && n[1] == 'q' && n[2] == 'u' && n[3] == 'a'
                && n[4] == 'l');
        },
        KeyCode::BracketLeft => {
            assert(n.len() == 12 && n[0] == 'l' && n[1] == 'e' && n[2] == 'f' && n[3] == 't'
                && n[4] == '_' && n[5] == 'b' && n[6] == 'r' && n[7] == 'a' && n[8] == 'c'
                && n[9] == 'k' && n[10] == 'e' && n[11] == 't');
        },
        KeyCode::BracketRight => {
            assert(n.len() == 13 && n[0] == 'r' && n[1] == 'i' && n[2] == 'g' && n[3] == 'h'
                && n[4] == 't' && n[5] == '_' && n[6] == 'b' && n[7] == 'r' && n[8] == 'a'
                && n[9] == 'c' && n[10] == 'k' && n[11] == 'e' && n[12] == 't');
        },
        KeyCode::Backslash => {
            assert(n.len() == 9 && n[0] == 'b' && n[1] == 'a' && n[2] == 'c' && n[3] == 'k'
                && n[4] == 's' && n[5] == 'l' && n[6] == 'a' && n[7] == 's' && n[8] == 'h');
        },
        KeyCode::Semicolon => {
            assert(n.len() == 9 && n[0] == 's' && n[1] == 'e' && n[2] == 'm' && n[3] == 'i'
                && n[4] == 'c' && n[5] == 'o' && n[6] == 'l' && n[7] == 'o' && n[8] == 'n');
        },
        KeyCode::Quote => {
            assert(n.len() == 10 && n[0] == 'a' && n[1] == 'p' && n[2] == 'o' && n[3] == 's'
                && n[4] == 't' && n[5] == 'r' && n[6] == 'o' && n[7] == 'p' && n[8] == 'h'
                && n[9] == 'e');
        },
        KeyCode::Backquote => {
            assert(n.len() == 5 && n[0] == 'g' && n[1] == 'r' && n[2] == 'a' && n[3] == 'v'
                && n[4] == 'e');
        },
        KeyCode::Comma => {
            assert(n.len() == 5 && n[0] == 'c' && n[1] == 'o' && n[2] == 'm' && n[3] == 'm'
                && n[4] == 'a');
        },
        KeyCode::Period => {
            assert(n.len() == 6 && n[0] == 'p' && n[1] == 'e' && n[2] == 'r' && n[3] == 'i'
                && n[4] == 'o' && n[5] == 'd');
        },
        KeyCode::Slash => {
            assert(n.len() == 5 && n[0] == 's' && n[1] == 'l' && n[2] == 'a' && n[3] == 's'
                && n[4] == 'h');
        },
        KeyCode::CatchAll => {
            assert(n.len() == 9 && n[0] == 'c' && n[1] == 'a' && n[2] == 't' && n[3] == 'c'
                && n[4] == 'h' && n[5] == '_' && n[6] == 'a' && n[7] == 'l' && n[8] == 'l');
        },
    }
}

/// The names of the modifiers held.
pub open spec fn mod_names(m: KeyMods) -> Seq<Seq<char>> {
    (if m.ctrl {
        seq!["ctrl"@]
    } else {
        Seq::empty()
    }) + (if m.alt {
        seq!["alt"@]
    } else {
        Seq::empty()
    }) + (if m.shift {
        seq!["shift"@]
    } else {
        Seq::empty()
    }) + (if m.sup {
        seq!["super"@]
    } else {
        Seq::empty()
    })
}

/// A chord in config spelling.
pub open spec fn label(c: Chord) -> Seq<char> {
    joined(mod_names(c.mods).push(name_of(c.code)), '+')
}

proof fn lemma_no_plus(code: KeyCode)
    ensures
        !name_of(code).contains('+'),
{
    reveal_strlit("a");
    reveal_strlit("b");
    reveal_strlit("c");
    reveal_strlit("d");
    reveal_strlit("e");
    reveal_strlit("f");
    reveal_strlit("g");
    reveal_strlit("h");
    reveal_strlit("i");
    reveal_strlit("j");
    reveal_strlit("k");
    reveal_strlit("l");
    reveal_strlit("m");
    reveal_strlit("n");
    reveal_strlit("o");
    reveal_strlit("p");
    reveal_strlit("q");
    reveal_strlit("r");
    reveal_strlit("s");
    reveal_strlit("t");
    reveal_strlit("u");
    reveal_strlit("v");
    reveal_strlit("w");
    reveal_strlit("x");
    reveal_strlit("y");
    reveal_strlit("z");
    reveal_strlit("0");
    reveal_strlit("1");
    reveal_strlit("2");
    reveal_strlit("3");
    reveal_strlit("4");
    reveal_strlit("5");
    reveal_strlit("6");
    reveal_strlit("7");
    reveal_strlit("8");
    reveal_strlit("9");
    reveal_strlit("enter");
    reveal_strlit("tab");
    reveal_strlit("backspace");
    reveal_strlit("escape");
    reveal_strlit("space");
    reveal_strlit("delete");
    reveal_strlit("insert");
    reveal_strlit("home");
    reveal_strlit("end");
    reveal_strlit("page_up");
    reveal_strlit("page_down");
    reveal_strlit("up");
    reveal_strlit("down");
    reveal_strlit("left");
    reveal_strlit("right");
    reveal_strlit("f1");
    reveal_strlit("f2");
    reveal_strlit("f3");
    reveal_strlit("f4");
    reveal_strlit("f5");
    reveal_strlit("f6");
    reveal_strlit("f7");
    reveal_strlit("f8");
    reveal_strlit("f9");
    reveal_strlit("f10");
    reveal_strlit("f11");
    reveal_strlit("f12");
    reveal_strlit("minus");
    reveal_strlit("equal");
    reveal_strlit("left_bracket");
    reveal_strlit("right_bracket");
    reveal_strlit("backslash");
    reveal_strlit("semicolon");
    reveal_strlit("apostrophe");
    reveal_strlit("grave");
    reveal_strlit("comma");
    reveal_strlit("period");
    reveal_strlit("slash");
    reveal_strlit("catch_all");
}

proof fn lemma_mods_read_back(m: KeyMods)
    ensures
        mods_of(mod_names(m)) == Some(m),
{
    reveal_strlit("ctrl");
    reveal_strlit("alt");
    reveal_strlit("shift");
    reveal_strlit("super");
    assert("ctrl"@[0] == 'c' && "alt"@[0] == 'a' && "shift"@[1] == 'h' && "super"@[1] == 'u'
        && "shift"@[0] == 's' && "super"@[0] == 's');
    reveal_with_fuel(mods_of, 5);
    let v = mod_names(m);
    if v.len() > 0 {
        let a = v.drop_last();
        if a.len() > 0 {
            let b = a.drop_last();
            if b.len() > 0 {
                assert(b.drop_last().len() <= 1);
            }
        }
    }
}

/// A chord's spelling tells the chord.
pub proof fn law_chord_labels_read_back(c: Chord)
    ensures
        chord_of(label(c)) == Some(c),
{
    let names = mod_names(c.mods).push(name_of(c.code));
    reveal_strlit("ctrl");
    reveal_strlit("alt");
    reveal_strlit("shift");
    reveal_strlit("super");
    lemma_no_plus(c.code);
    assert forall|i: int| 0 <= i < names.len() implies !(#[trigger] names[i]).contains('+') by {}
    lemma_split_joined(names, '+');
    lemma_mods_read_back(c.mods);
    law_key_names_read_back(c.code);
    assert(names.drop_last() =~= mod_names(c.mods));
}

/// Whether a name is that of a modifier.
pub open spec fn is_mod(name: Seq<char>) -> bool {
    name == "ctrl"@ || name == "alt"@ || name == "shift"@ || name == "super"@
}

/// A list of names is one of modifiers exactly if each of them is one, and then
/// each modifier is held exactly if it is named, however often and wherever.
pub proof fn law_modifiers_held_are_those_named(names: Seq<Seq<char>>)
    ensures
        mods_of(names) is Some <==> forall|i: int| 0 <= i < names.len() ==> is_mod(
            #[trigger] names[i],
        ),
        mods_of(names) is Some ==> {
            &&& mods_of(names)->0.ctrl == names.contains("ctrl"@)
            &&& mods_of(names)->0.alt == names.contains("alt"@)
            &&& mods_of(names)->0.shift == names.contains("shift"@)
            &&& mods_of(names)->0.sup == names.contains("super"@)
        },
    decreases names.len(),
{
    reveal_strlit("ctrl");
    reveal_strlit("alt");
    reveal_strlit("shift");
    reveal_strlit("super");
    assert("ctrl"@[0] == 'c' && "alt"@[0] == 'a' && "shift"@[1] == 'h' && "super"@[1] == 'u');
    assert("shift"@[0] == 's' && "super"@[0] == 's');
    if names.len() > 0 {
        let init = names.drop_last();
        law_modifiers_held_are_those_named(init);
        assert(names =~= init.push(names.last()));
        assert forall|x: Seq<char>| names.contains(x) == (init.contains(x) || x
            == names.last()) by {
            if init.contains(x) {
                let k = choose|k: int| 0 <= k < init.len() && init[k] == x;
                assert(names[k] == x);
            }
            if names.contains(x) && x != names.last() {
                let k = choose|k: int| 0 <= k < names.len() && names[k] == x;
                assert(init[k] == x);
            }
            assert(names[names.len() - 1] == names.last());
        }
        assert(is_mod(names[names.len() - 1]) == is_mod(names.last()));
        assert forall|i: int| 0 <= i < init.len() implies is_mod(#[trigger] init[i]) == is_mod(
            names[i],
        ) by {}
        assert(mods_of(names) is Some <==> mods_of(init) is Some && is_mod(names.last()));
        if forall|i: int| 0 <= i < names.len() ==> is_mod(#[trigger] names[i]) {
            assert forall|i: int| 0 <= i < init.len() implies is_mod(#[trigger] init[i]) by {
                assert(is_mod(names[i]));
            }
        }
        if mods_of(names) is Some {
            assert forall|i: int| 0 <= i < names.len() implies is_mod(#[trigger] names[i]) by {
                if i < init.len() {
                    assert(is_mod(init[i]));
                }
            }
        }
    }
}

/// The order of modifiers does not matter, nor does naming one twice.
pub proof fn law_order_of_modifiers_does_not_matter(a: Seq<Seq<char>>, b: Seq<Seq<char>>)
    requires
        forall|n: Seq<char>| #[trigger] a.contains(n) == b.contains(n),
    ensures
        mods_of(a) == mods_of(b),
{
    law_modifiers_held_are_those_named(a);
    law_modifiers_held_are_those_named(b);
    if mods_of(a) is Some {
        assert forall|i: int| 0 <= i < b.len() implies is_mod(#[trigger] b[i]) by {
            assert(b.contains(b[i]));
            assert(a.contains(b[i]));
            let k = choose|k: int| 0 <= k < a.len() && a[k] == b[i];
            assert(is_mod(a[k]));
        }
    }
    if mods_of(b) is Some {
        assert forall|i: int| 0 <= i < a.len() implies is_mod(#[trigger] a[i]) by {
            assert(a.contains(a[i]));
            assert(b.contains(a[i]));
            let k = choose|k: int| 0 <= k < b.len() && b[k] == a[i];
            assert(is_mod(b[k]));
        }
    }
    assert(a.contains("ctrl"@) == b.contains("ctrl"@));
    assert(a.contains("alt"@) == b.contains("alt"@));
    assert(a.contains("shift"@) == b.contains("shift"@));
    assert(a.contains("super"@) == b.contains("super"@));
}

/// A chord is spelled by modifiers and a key behind them: names joined by plus
/// signs are a chord exactly where all but the last are modifiers and the last is
/// a key.
pub proof fn law_chord_is_modifiers_and_a_key(names: Seq<Seq<char>>, key: Seq<char>)
    requires
        forall|i: int| 0 <= i < names.len() ==> !(#[trigger] names[i]).contains('+'),
        !key.contains('+'),
    ensures
        ({
            let c = chord_of(joined(names.push(key), '+'));
            &&& c is Some <==> mods_of(names) is Some && code_of(key) is Some
            &&& c is Some ==> Some(c->0.mods) == mods_of(names) && Some(c->0.code) == code_of(key)
        }),
{
    let v = names.push(key);
    lemma_split_joined(v, '+');
    assert(v.drop_last() =~= names);
}

/// The keys that are not named by a letter, a digit or a number have these names.
pub proof fn law_named_keys_have_their_names()
    ensures
        name_of(KeyCode::Enter) == "enter"@,
        name_of(KeyCode::Tab) == "tab"@,
        name_of(KeyCode::Backspace) == "backspace"@,
        name_of(KeyCode::Escape) == "escape"@,
        name_of(KeyCode::Space) == "space"@,
        name_of(KeyCode::Delete) == "delete"@,
        name_of(KeyCode::Insert) == "insert"@,
        name_of(KeyCode::Home) == "home"@,
        name_of(KeyCode::End) == "end"@,
        name_of(KeyCode::PageUp) == "page_up"@,
        name_of(KeyCode::PageDown) == "page_down"@,
        name_of(KeyCode::ArrowUp) == "up"@,
        name_of(KeyCode::ArrowDown) == "down"@,
        name_of(KeyCode::ArrowLeft) == "left"@,
        name_of(KeyCode::ArrowRight) == "right"@,
        name_of(KeyCode::Minus) == "minus"@,
        name_of(KeyCode::Equal) == "equal"@,
        name_of(KeyCode::BracketLeft) == "left_bracket"@,
        name_of(KeyCode::BracketRight) == "right_bracket"@,
        name_of(KeyCode::Backslash) == "backslash"@,
        name_of(KeyCode::Semicolon) == "semicolon"@,
        name_of(KeyCode::Quote) == "apostrophe"@,
        name_of(KeyCode::Backquote) == "grave"@,
        name_of(KeyCode::Comma) == "comma"@,
        name_of(KeyCode::Period) == "period"@,
        name_of(KeyCode::Slash) == "slash"@,
        name_of(KeyCode::CatchAll) == "catch_all"@,
{
}

} // verus!
