//! Global keybinds: virtual keys, matching and what fired.

use crate::engine::{KeyCode, KeyMods};
use crate::keybind::{name_of, Chord};
use crate::text::decimal;
use vstd::prelude::*;

verus! {

/// The Windows virtual key of a key; `None` for one that is never pressed.
pub open spec fn vk(code: KeyCode) -> Option<u32> {
    match code {
        KeyCode::A => Some(0x41),
        KeyCode::B => Some(0x42),
        KeyCode::C => Some(0x43),
        KeyCode::D => Some(0x44),
        KeyCode::E => Some(0x45),
        KeyCode::F => Some(0x46),
        KeyCode::G => Some(0x47),
        KeyCode::H => Some(0x48),
        KeyCode::I => Some(0x49),
        KeyCode::J => Some(0x4A),
        KeyCode::K => Some(0x4B),
        KeyCode::L => Some(0x4C),
        KeyCode::M => Some(0x4D),
        KeyCode::N => Some(0x4E),
        KeyCode::O => Some(0x4F),
        KeyCode::P => Some(0x50),
        KeyCode::Q => Some(0x51),
        KeyCode::R => Some(0x52),
        KeyCode::S => Some(0x53),
        KeyCode::T => Some(0x54),
        KeyCode::U => Some(0x55),
        KeyCode::V => Some(0x56),
        KeyCode::W => Some(0x57),
        KeyCode::X => Some(0x58),
        KeyCode::Y => Some(0x59),
        KeyCode::Z => Some(0x5A),
        KeyCode::Digit0 => Some(0x30),
        KeyCode::Digit1 => Some(0x31),
        KeyCode::Digit2 => Some(0x32),
        KeyCode::Digit3 => Some(0x33),
        KeyCode::Digit4 => Some(0x34),
        KeyCode::Digit5 => Some(0x35),
        KeyCode::Digit6 => Some(0x36),
        KeyCode::Digit7 => Some(0x37),
        KeyCode::Digit8 => Some(0x38),
        KeyCode::Digit9 => Some(0x39),
        KeyCode::Enter => Some(0x0D),
        KeyCode::Tab => Some(0x09),
        KeyCode::Backspace => Some(0x08),
        KeyCode::Escape => Some(0x1B),
        KeyCode::Space => Some(0x20),
        KeyCode::Delete => Some(0x2E),
        KeyCode::Insert => Some(0x2D),
        KeyCode::Home => Some(0x24),
        KeyCode::End => Some(0x23),
        KeyCode::PageUp => Some(0x21),
        KeyCode::PageDown => Some(0x22),
        KeyCode::ArrowUp => Some(0x26),
        KeyCode::ArrowDown => Some(0x28),
        KeyCode::ArrowLeft => Some(0x25),
        KeyCode::ArrowRight => Some(0x27),
        KeyCode::F1 => Some(0x70),
        KeyCode::F2 => Some(0x71),
        KeyCode::F3 => Some(0x72),
        KeyCode::F4 => Some(0x73),
        KeyCode::F5 => Some(0x74),
        KeyCode::F6 => Some(0x75),
        KeyCode::F7 => Some(0x76),
        KeyCode::F8 => Some(0x77),
        KeyCode::F9 => Some(0x78),
        KeyCode::F10 => Some(0x79),
        KeyCode::F11 => Some(0x7A),
        KeyCode::F12 => Some(0x7B),
        KeyCode::Minus => Some(0xBD),
        KeyCode::Equal => Some(0xBB),
        KeyCode::BracketLeft => Some(0xDB),
        KeyCode::BracketRight => Some(0xDD),
        KeyCode::Backslash => Some(0xDC),
        KeyCode::Semicolon => Some(0xBA),
        KeyCode::Quote => Some(0xDE),
        KeyCode::Backquote => Some(0xC0),
        KeyCode::Comma => Some(0xBC),
        KeyCode::Period => Some(0xBE),
        KeyCode::Slash => Some(0xBF),
        KeyCode::CatchAll => None,
    }
}

/// The Windows virtual key of a key. Letters and digits have their ASCII values;
/// the punctuation keys are those of the US layout.
pub fn vk_for(code: KeyCode) -> (r: Option<u32>)
    ensures
        r == vk(code),
{
    match code {
        KeyCode::A => Some(0x41),
        KeyCode::B => Some(0x42),
        KeyCode::C => Some(0x43),
        KeyCode::D => Some(0x44),
        KeyCode::E => Some(0x45),
        KeyCode::F => Some(0x46),
        KeyCode::G => Some(0x47),
        KeyCode::H => Some(0x48),
        KeyCode::I => Some(0x49),
        KeyCode::J => Some(0x4A),
        KeyCode::K => Some(0x4B),
        KeyCode::L => Some(0x4C),
        KeyCode::M => Some(0x4D),
        KeyCode::N => Some(0x4E),
        KeyCode::O => Some(0x4F),
        KeyCode::P => Some(0x50),
        KeyCode::Q => Some(0x51),
        KeyCode::R => Some(0x52),
        KeyCode::S => Some(0x53),
        KeyCode::T => Some(0x54),
        KeyCode::U => Some(0x55),
        KeyCode::V => Some(0x56),
        KeyCode::W => Some(0x57),
        KeyCode::X => Some(0x58),
        KeyCode::Y => Some(0x59),
        KeyCode::Z => Some(0x5A),
        KeyCode::Digit0 => Some(0x30),
        KeyCode::Digit1 => Some(0x31),
        KeyCode::Digit2 => Some(0x32),
        KeyCode::Digit3 => Some(0x33),
        KeyCode::Digit4 => Some(0x34),
        KeyCode::Digit5 => Some(0x35),
        KeyCode::Digit6 => Some(0x36),
        KeyCode::Digit7 => Some(0x37),
        KeyCode::Digit8 => Some(0x38),
        KeyCode::Digit9 => Some(0x39),
        KeyCode::Enter => Some(0x0D),
        KeyCode::Tab => Some(0x09),
        KeyCode::Backspace => Some(0x08),
        KeyCode::Escape => Some(0x1B),
        KeyCode::Space => Some(0x20),
        KeyCode::Delete => Some(0x2E),
        KeyCode::Insert => Some(0x2D),
        KeyCode::Home => Some(0x24),
        KeyCode::End => Some(0x23),
        KeyCode::PageUp => Some(0x21),
        KeyCode::PageDown => Some(0x22),
        KeyCode::ArrowUp => Some(0x26),
        KeyCode::ArrowDown => Some(0x28),
        KeyCode::ArrowLeft => Some(0x25),
        KeyCode::ArrowRight => Some(0x27),
        KeyCode::F1 => Some(0x70),
        KeyCode::F2 => Some(0x71),
        KeyCode::F3 => Some(0x72),
        KeyCode::F4 => Some(0x73),
        KeyCode::F5 => Some(0x74),
        KeyCode::F6 => Some(0x75),
        KeyCode::F7 => Some(0x76),
        KeyCode::F8 => Some(0x77),
        KeyCode::F9 => Some(0x78),
        KeyCode::F10 => Some(0x79),
        KeyCode::F11 => Some(0x7A),
        KeyCode::F12 => Some(0x7B),
        KeyCode::Minus => Some(0xBD),
        KeyCode::Equal => Some(0xBB),
        KeyCode::BracketLeft => Some(0xDB),
        KeyCode::BracketRight => Some(0xDD),
        KeyCode::Backslash => Some(0xDC),
        KeyCode::Semicolon => Some(0xBA),
        KeyCode::Quote => Some(0xDE),
        KeyCode::Backquote => Some(0xC0),
        KeyCode::Comma => Some(0xBC),
        KeyCode::Period => Some(0xBE),
        KeyCode::Slash => Some(0xBF),
        KeyCode::CatchAll => None,
    }
}

/// Every key that can be pressed has a virtual key, and no two share one.
pub proof fn law_virtual_keys_tell_keys_apart(a: KeyCode, b: KeyCode)
    ensures
        vk(a) is Some <==> a != KeyCode::CatchAll,
        vk(a) is Some && vk(a) == vk(b) ==> a == b,
{
}

/// One global binding: a virtual key and exactly the modifiers to be held.
#[derive(Clone, Copy, Debug, PartialEq, Eq, Structural)]
pub struct GlobalBind {
    pub vk: u32,
    pub mods: KeyMods,
}

impl GlobalBind {
    /// The binding of a chord; `None` if its key has no virtual key.
    pub fn from_chord(chord: &Chord) -> (b: Option<Self>)
        ensures
            b == (match vk(chord.code) {
                Some(vk) => Some(GlobalBind { vk, mods: chord.mods }),
                None => None,
            }),
    {
        match vk_for(chord.code) {
            Some(vk) => Some(GlobalBind { vk, mods: chord.mods }),
            None => None,
        }
    }
}

/// The first binding of a key press with exactly these modifiers.
pub fn match_bind(binds: &[GlobalBind], vk: u32, mods: KeyMods) -> (r: Option<usize>)
    ensures
        match r {
            Some(i) => i < binds@.len() && binds@[i as int] == (GlobalBind { vk, mods }) && forall|
                k: int,
            |
                0 <= k < i ==> #[trigger] binds@[k] != (GlobalBind { vk, mods }),
            None => forall|k: int|
                0 <= k < binds@.len() ==> #[trigger] binds@[k] != (GlobalBind { vk, mods }),
        },
{
    let mut i: usize = 0;
    while i < binds.len()
        invariant
            i <= binds@.len(),
            forall|k: int| 0 <= k < i ==> #[trigger] binds@[k] != (GlobalBind { vk, mods }),
        decreases binds@.len() - i,
    {
        if binds[i].vk == vk && binds[i].mods == mods {
            return Some(i);
        }
        i += 1;
    }
    None
}

/// The bindings that can be told apart.
pub const MAX_BINDS: usize = 32;

/// Keep the bindings that can be told apart; how many more there were.
pub fn keep_binds(binds: &mut Vec<GlobalBind>) -> (ignored: usize)
    ensures
        final(binds)@ == (if old(binds)@.len() > MAX_BINDS {
            old(binds)@.take(MAX_BINDS as int)
        } else {
            old(binds)@
        }),
        ignored == (if old(binds)@.len() > MAX_BINDS {
            old(binds)@.len() - MAX_BINDS
        } else {
            0
        }),
{
    let n: usize = binds.len();
    if n > MAX_BINDS {
        binds.truncate(MAX_BINDS);
        n - MAX_BINDS
    } else {
        0
    }
}

/// What to do about the keyboard hook.
#[derive(Clone, Copy, Debug, PartialEq, Eq, Structural)]
pub enum HookChange {
    Install,
    Remove,
    Keep,
}

/// Whether the hook is there after a change.
pub open spec fn installed_after(installed: bool, c: HookChange) -> bool {
    match c {
        HookChange::Install => true,
        HookChange::Remove => false,
        HookChange::Keep => installed,
    }
}

/// What the bindings mean for the hook: it is there exactly while there are any.
pub fn hook_change(binds: usize, installed: bool) -> (c: HookChange)
    ensures
        installed_after(installed, c) == (binds > 0),
        c is Keep <==> installed == (binds > 0),
        c == (if binds > 0 && !installed {
            HookChange::Install
        } else if binds == 0 && installed {
            HookChange::Remove
        } else {
            HookChange::Keep
        }),
{
    if binds > 0 && !installed {
        HookChange::Install
    } else if binds == 0 && installed {
        HookChange::Remove
    } else {
        HookChange::Keep
    }
}

/// Whether binding `i` is marked.
pub open spec fn marked(bits: u32, i: int) -> bool {
    bits & (1u32 << (i as u32)) != 0
}

/// The mark of binding `i`.
pub fn mark(i: usize) -> (bits: u32)
    requires
        i < MAX_BINDS,
    ensures
        forall|k: int| 0 <= k < MAX_BINDS ==> #[trigger] marked(bits, k) == (k == i),
{
    let n: u32 = i as u32;
    let bits: u32 = 1u32 << n;
    assert forall|k: int| 0 <= k < MAX_BINDS implies #[trigger] marked(bits, k) == (k == i) by {
        let j = k as u32;
        assert(n < 32 && j < 32 ==> (((1u32 << n) & (1u32 << j) != 0) == (n == j))) by (bit_vector);
    }
    bits
}

/// The marked bindings below `n`, in order.
pub open spec fn marks(bits: u32, n: int) -> Seq<usize>
    decreases n,
{
    if n <= 0 {
        Seq::empty()
    } else if marked(bits, n - 1) {
        marks(bits, n - 1).push((n - 1) as usize)
    } else {
        marks(bits, n - 1)
    }
}

/// The bindings that fired since the last call, in order. Their marks are taken
/// away.
pub fn fired(bits: &mut u32) -> (v: Vec<usize>)
    ensures
        v@ == marks(*old(bits), MAX_BINDS as int),
        *final(bits) == 0,
{
    let all: u32 = *bits;
    *bits = 0;
    let mut v: Vec<usize> = Vec::new();
    let mut i: usize = 0;
    while i < MAX_BINDS
        invariant
            i <= MAX_BINDS,
            v@ == marks(all, i as int),
        decreases MAX_BINDS - i,
    {
        let n: u32 = i as u32;
        if all & (1u32 << n) != 0 {
            v.push(i);
        }
        i += 1;
    }
    v
}

/// The bindings reported rise strictly, so that none is reported twice, and each
/// of them is one that can be told apart.
pub proof fn law_fired_ascends(bits: u32)
    ensures
        ({
            let v = marks(bits, MAX_BINDS as int);
            &&& forall|i: int| 0 <= i < v.len() ==> (#[trigger] v[i]) < MAX_BINDS
            &&& forall|i: int, j: int|
                0 <= i < j < v.len() ==> (#[trigger] v[i]) < (#[trigger] v[j])
        }),
{
    lemma_marks_below(bits, MAX_BINDS as int);
    lemma_marks_ascend(bits, MAX_BINDS as int);
}

proof fn lemma_marks_ascend(bits: u32, n: int)
    requires
        0 <= n <= MAX_BINDS,
    ensures
        forall|i: int, j: int|
            0 <= i < j < marks(bits, n).len() ==> (#[trigger] marks(bits, n)[i])
                < (#[trigger] marks(bits, n)[j]),
    decreases n,
{
    if n > 0 {
        lemma_marks_ascend(bits, n - 1);
        lemma_marks_below(bits, n - 1);
        let before = marks(bits, n - 1);
        let after = marks(bits, n);
        assert forall|i: int, j: int| 0 <= i < j < after.len() implies (#[trigger] after[i]) < (
        #[trigger] after[j]) by {
            assert(after[i] == before[i]);
            if j < before.len() {
                assert(after[j] == before[j]);
            }
        }
    }
}

/// What was reported is not reported again: with no mark set since, a second
/// call gives nothing.
pub proof fn law_second_call_gives_nothing(n: int)
    requires
        0 <= n <= MAX_BINDS,
    ensures
        marks(0, n).len() == 0,
    decreases n,
{
    if n > 0 {
        law_second_call_gives_nothing(n - 1);
        let j = (n - 1) as u32;
        assert(0u32 & (1u32 << j) == 0) by (bit_vector);
    }
}

/// A binding is reported as fired exactly if it was marked.
pub proof fn law_fired_is_marked(bits: u32, n: int, i: int)
    requires
        0 <= i < n <= MAX_BINDS,
    ensures
        marks(bits, n).contains(i as usize) <==> marked(bits, i),
    decreases n,
{
    let before = marks(bits, n - 1);
    let after = marks(bits, n);
    lemma_marks_below(bits, n - 1);
    if i < n - 1 {
        law_fired_is_marked(bits, n - 1, i);
        if marked(bits, n - 1) {
            if before.contains(i as usize) {
                let k = before.index_of(i as usize);
                assert(after[k] == i);
            }
            if after.contains(i as usize) {
                let k = after.index_of(i as usize);
                assert(before[k] == i);
            }
        }
    } else if marked(bits, i) {
        assert(after[before.len() as int] == i);
    } else if after.contains(i as usize) {
        let k = after.index_of(i as usize);
        assert(before[k] < n - 1);
    }
}

proof fn lemma_marks_below(bits: u32, n: int)
    requires
        0 <= n <= MAX_BINDS,
    ensures
        forall|k: int| 0 <= k < marks(bits, n).len() ==> #[trigger] marks(bits, n)[k] < n,
    decreases n,
{
    if n > 0 {
        lemma_marks_below(bits, n - 1);
        let before = marks(bits, n - 1);
        assert forall|k: int| 0 <= k < marks(bits, n).len() implies #[trigger] marks(bits, n)[k]
            < n by {
            if k < before.len() {
                assert(before[k] < n - 1);
            }
        }
    }
}

/// The letter keys in order.
pub open spec fn letters() -> Seq<KeyCode> {
    seq![KeyCode::A, KeyCode::B, KeyCode::C, KeyCode::D, KeyCode::E, KeyCode::F, KeyCode::G, KeyCode::H, KeyCode::I, KeyCode::J, KeyCode::K, KeyCode::L, KeyCode::M, KeyCode::N, KeyCode::O, KeyCode::P, KeyCode::Q, KeyCode::R, KeyCode::S, KeyCode::T, KeyCode::U, KeyCode::V, KeyCode::W, KeyCode::X, KeyCode::Y, KeyCode::Z]
}

/// The digit keys in order.
pub open spec fn digits() -> Seq<KeyCode> {
    seq![KeyCode::Digit0, KeyCode::Digit1, KeyCode::Digit2, KeyCode::Digit3, KeyCode::Digit4, KeyCode::Digit5, KeyCode::Digit6, KeyCode::Digit7, KeyCode::Digit8, KeyCode::Digit9]
}

/// The function keys in order.
pub open spec fn function_keys() -> Seq<KeyCode> {
    seq![KeyCode::F1, KeyCode::F2, KeyCode::F3, KeyCode::F4, KeyCode::F5, KeyCode::F6, KeyCode::F7, KeyCode::F8, KeyCode::F9, KeyCode::F10, KeyCode::F11, KeyCode::F12]
}

/// A letter key is named by its small letter, and its virtual key is the ASCII
/// value of the capital.
#[verifier::spinoff_prover]
pub proof fn law_letter_keys(i: int)
    requires
        0 <= i < 26,
    ensures
        letters().len() == 26,
        name_of(letters()[i]) == seq![(0x61 + i) as u32 as char],
        vk(letters()[i]) == Some((0x41 + i) as u32),
{
    reveal_strlit("a");
    reveal_strlit("b");
    reveal_strlit("c");
    reveal_strlit("d");
    reveal_strlit("e");
    reveal_strlit("f");
    reveal_strlit("g");
    reveal_strlit("h");
    reveal_strlit("i");
    reveal_strlit("j");
    reveal_strlit("k");
    reveal_strlit("l");
    reveal_strlit("m");
    reveal_strlit("n");
    reveal_strlit("o");
    reveal_strlit("p");
    reveal_strlit("q");
    reveal_strlit("r");
    reveal_strlit("s");
    reveal_strlit("t");
    reveal_strlit("u");
    reveal_strlit("v");
    reveal_strlit("w");
    reveal_strlit("x");
    reveal_strlit("y");
    reveal_strlit("z");
    assert(name_of(letters()[i]) =~= seq![(0x61 + i) as u32 as char]);
}

/// A digit key is named by its digit, and its virtual key is the digit's ASCII
/// value.
#[verifier::spinoff_prover]
pub proof fn law_digit_keys(i: int)
    requires
        0 <= i < 10,
    ensures
        digits().len() == 10,
        name_of(digits()[i]) == decimal(i as nat),
        vk(digits()[i]) == Some((0x30 + i) as u32),
{
    reveal_strlit("0");
    reveal_strlit("1");
    reveal_strlit("2");
    reveal_strlit("3");
    reveal_strlit("4");
    reveal_strlit("5");
    reveal_strlit("6");
    reveal_strlit("7");
    reveal_strlit("8");
    reveal_strlit("9");
    assert(name_of(digits()[i]) =~= decimal(i as nat));
}

/// A function key is named by its number, and the virtual keys rise with it.
#[verifier::spinoff_prover]
pub proof fn law_function_keys(i: int)
    requires
        0 <= i < 12,
    ensures
        function_keys().len() == 12,
        name_of(function_keys()[i]) == seq!['f'] + decimal((i + 1) as nat),
        vk(function_keys()[i]) == Some((0x70 + i) as u32),
{
    reveal_strlit("f1");
    reveal_strlit("f2");
    reveal_strlit("f3");
    reveal_strlit("f4");
    reveal_strlit("f5");
    reveal_strlit("f6");
    reveal_strlit("f7");
    reveal_strlit("f8");
    reveal_strlit("f9");
    reveal_strlit("f10");
    reveal_strlit("f11");
    reveal_strlit("f12");
    reveal_with_fuel(decimal, 2);
    assert(name_of(function_keys()[i]) =~= seq!['f'] + decimal((i + 1) as nat));
}

/// A key that sends one control character or a blank has that character's value
/// as its virtual key. The keys that move have theirs in a row: a page up and
/// down, the end, the start, then left, up, right and down.
pub proof fn law_named_keys()
    ensures
        vk(KeyCode::Backspace) == Some(0x08u32),
        vk(KeyCode::Tab) == Some('\t' as u32),
        vk(KeyCode::Enter) == Some('\r' as u32),
        vk(KeyCode::Escape) == Some(0x1Bu32),
        vk(KeyCode::Space) == Some(' ' as u32),
        ({
            let row = seq![
                KeyCode::PageUp,
                KeyCode::PageDown,
                KeyCode::End,
                KeyCode::Home,
                KeyCode::ArrowLeft,
                KeyCode::ArrowUp,
                KeyCode::ArrowRight,
                KeyCode::ArrowDown,
            ];
            forall|i: int| 0 <= i < row.len() ==> vk(#[trigger] row[i]) == Some((0x21 + i) as u32)
        }),
        vk(KeyCode::Insert)->0 + 1 == vk(KeyCode::Delete)->0,
        vk(KeyCode::Delete) == Some(0x2Eu32),
        ({
            let row = seq![
                KeyCode::Semicolon,
                KeyCode::Equal,
                KeyCode::Comma,
                KeyCode::Minus,
                KeyCode::Period,
                KeyCode::Slash,
                KeyCode::Backquote,
            ];
            forall|i: int| 0 <= i < row.len() ==> vk(#[trigger] row[i]) == Some((0xBA + i) as u32)
        }),
        ({
            let row = seq![
                KeyCode::BracketLeft,
                KeyCode::Backslash,
                KeyCode::BracketRight,
                KeyCode::Quote,
            ];
            forall|i: int| 0 <= i < row.len() ==> vk(#[trigger] row[i]) == Some((0xDB + i) as u32)
        }),
{
}

} // verus!
