//! The terminal inspector's capture: what crossed the keyboard and the terminal,
//! in bounded logs, rendered so that it can be read.

use crate::text::{char_of, chars, from_utf8, spells, string, trim, trimmed};
use std::collections::VecDeque;
use vstd::prelude::*;
use vstd::utf8::{
    decode_first_scalar, encode_utf8, length_of_first_scalar, valid_first_scalar, valid_utf8,
};

verus! {

/// Key presses kept.
pub const MAX_KEYS: usize = 200;

/// Reads kept.
pub const MAX_IO: usize = 500;

/// Bytes of one read that are rendered.
pub const IO_PREVIEW: usize = 200;

/// What an `inspector` action asks for.
#[derive(Clone, Copy, Debug, PartialEq, Eq, Structural)]
pub enum InspectorMode {
    Toggle,
    Show,
    Hide,
}

/// The name of a mode.
pub open spec fn mode_name(m: InspectorMode) -> Seq<char> {
    match m {
        InspectorMode::Toggle => "toggle"@,
        InspectorMode::Show => "show"@,
        InspectorMode::Hide => "hide"@,
    }
}

/// The mode of a name.
pub open spec fn mode_of(s: Seq<char>) -> Option<InspectorMode> {
    let t = trim(s);
    if t == "toggle"@ {
        Some(InspectorMode::Toggle)
    } else if t == "show"@ {
        Some(InspectorMode::Show)
    } else if t == "hide"@ {
        Some(InspectorMode::Hide)
    } else {
        None
    }
}

impl InspectorMode {
    /// The mode of a name.
    pub fn from_name(s: &str) -> (m: Option<Self>)
        ensures
            m == mode_of(s@),
    {
        let cs = chars(s);
        let t = trimmed(cs.as_slice());
        if spells(t, "toggle") {
            Some(InspectorMode::Toggle)
        } else if spells(t, "show") {
            Some(InspectorMode::Show)
        } else if spells(t, "hide") {
            Some(InspectorMode::Hide)
        } else {
            None
        }
    }

    /// Whether an inspector is open after this mode was applied to a pane where
    /// it was, or was not. Showing an open one keeps it.
    pub fn wants(self, is_open: bool) -> (r: bool)
        ensures
            r == open_after(self, is_open),
            r == (match self {
                InspectorMode::Toggle => !is_open,
                InspectorMode::Show => true,
                InspectorMode::Hide => false,
            }),
    {
        match self {
            InspectorMode::Toggle => !is_open,
            InspectorMode::Show => true,
            InspectorMode::Hide => false,
        }
    }

    /// The mode's name.
    pub fn name(self) -> (s: &'static str)
        ensures
            s@ == mode_name(self),
    {
        match self {
            InspectorMode::Toggle => "toggle",
            InspectorMode::Show => "show",
            InspectorMode::Hide => "hide",
        }
    }
}

/// A mode's name tells the mode.
pub proof fn law_mode_names_read_back(m: InspectorMode)
    ensures
        mode_of(mode_name(m)) == Some(m),
{
    reveal_strlit("toggle");
    reveal_strlit("show");
    reveal_strlit("hide");
    let n = mode_name(m);
    assert(n.len() > 0 && !crate::text::is_white(n[0]) && !crate::text::is_white(n.last()));
    assert(trim(n) == n);
    assert("toggle"@[0] == 't' && "show"@[0] == 's' && "hide"@[0] == 'h');
}

/// What became of a key press.
#[derive(Clone, Copy, Debug, PartialEq, Eq, Structural)]
pub enum KeyOutcome {
    /// Encoded and sent to the shell.
    Encoded,
    /// Taken by the application.
    Swallowed,
    /// Left to the text event that types it.
    Text,
}

impl KeyOutcome {
    /// What it is called.
    pub fn label(self) -> (s: &'static str)
        ensures
            s@ == (match self {
                KeyOutcome::Encoded => "encoded"@,
                KeyOutcome::Swallowed => "swallowed"@,
                KeyOutcome::Text => "text"@,
            }),
    {
        match self {
            KeyOutcome::Encoded => "encoded",
            KeyOutcome::Swallowed => "swallowed",
            KeyOutcome::Text => "text",
        }
    }
}

/// One key press.
#[derive(Clone, Debug, PartialEq, Eq)]
pub struct KeyRecord {
    pub seq: u64,
    /// The chord in config spelling.
    pub chord: String,
    pub outcome: KeyOutcome,
    /// The bytes that reached the shell, rendered. Empty unless `Encoded`.
    pub bytes: String,
}

/// One read from the terminal.
#[derive(Clone, Debug, PartialEq, Eq)]
pub struct IoRecord {
    pub seq: u64,
    /// Bytes in the read.
    pub len: usize,
    pub text: String,
    /// `text` is cut short.
    pub truncated: bool,
}

/// How a character is shown: a control as its picture, any other as itself.
pub open spec fn glyph(c: char) -> char {
    if (c as u32) < 0x20 {
        (0x2400 + c as u32) as char
    } else if c == '\u{7f}' {
        '\u{2421}'
    } else {
        c
    }
}

/// A hexadecimal digit.
pub open spec fn hex_char(d: int) -> char {
    (if d < 10 {
        0x30 + d
    } else {
        0x57 + d
    }) as u32 as char
}

/// A byte in hexadecimal.
pub open spec fn hex(b: u8) -> Seq<char> {
    seq!['\\', 'x', hex_char(b as int / 16), hex_char(b as int % 16)]
}

/// Bytes rendered: characters by their glyphs, and a byte that starts none in
/// hexadecimal.
pub open spec fn rendered(b: Seq<u8>) -> Seq<char>
    decreases b.len(),
{
    if b.len() == 0 {
        Seq::empty()
    } else if valid_first_scalar(b) {
        seq![glyph(decode_first_scalar(b) as char)] + rendered(
            b.skip(length_of_first_scalar(b)),
        )
    } else {
        hex(b[0]) + rendered(b.skip(1))
    }
}

/// The first `limit` bytes.
pub open spec fn preview(b: Seq<u8>, limit: usize) -> Seq<u8> {
    if b.len() > limit {
        b.take(limit as int)
    } else {
        b
    }
}

/// Whether the first character takes `n` bytes, judged by whether they are text.
proof fn lemma_first_scalar(b: Seq<u8>, n: int)
    requires
        2 <= n <= 4,
        n <= b.len(),
        b[0] >= 0x80,
        forall|m: int| 2 <= m < n ==> !valid_utf8(#[trigger] b.take(m)),
    ensures
        valid_utf8(b.take(n)) <==> valid_first_scalar(b) && length_of_first_scalar(b) == n,
        valid_utf8(b.take(n)) ==> vstd::utf8::decode_utf8(b.take(n)) == seq![
            decode_first_scalar(b) as char,
        ],
{
    let t = b.take(n);
    reveal_with_fuel(valid_utf8, 3);
    reveal_with_fuel(vstd::utf8::decode_utf8, 3);
    if valid_first_scalar(b) && length_of_first_scalar(b) == n {
        assert(valid_first_scalar(t));
        assert(vstd::utf8::pop_first_scalar(t) =~= Seq::empty());
        assert(valid_utf8(t));
    }
    if valid_utf8(t) {
        let k = length_of_first_scalar(t);
        assert(valid_first_scalar(t));
        assert(2 <= k <= n);
        if k < n {
            let s = b.take(k);
            assert(valid_first_scalar(s));
            assert(vstd::utf8::pop_first_scalar(s) =~= Seq::empty());
            assert(valid_utf8(s));
        }
        assert(vstd::utf8::pop_first_scalar(t) =~= Seq::empty());
        assert(vstd::utf8::decode_utf8(t) =~= seq![decode_first_scalar(b) as char]);
    }
}

/// The character of several bytes that `b` starts with, and how many bytes it
/// takes.
fn first_scalar(b: &[u8], at: usize) -> (r: Option<(char, usize)>)
    requires
        at < b@.len(),
        b@[at as int] >= 0x80,
    ensures
        ({
            let s = b@.skip(at as int);
            match r {
                Some((c, n)) => valid_first_scalar(s) && c == decode_first_scalar(s) as char && n
                    == length_of_first_scalar(s) && at + n <= b@.len(),
                None => !valid_first_scalar(s),
            }
        }),
{
    let ghost s = b@.skip(at as int);
    let mut n: usize = 2;
    while n <= 4 && n <= b.len() - at
        invariant
            2 <= n <= 5,
            at < b@.len(),
            s == b@.skip(at as int),
            s[0] >= 0x80,
            n <= s.len() + 1 || n == 2,
            forall|m: int| 2 <= m < n ==> !valid_utf8(#[trigger] s.take(m)),
            !(valid_first_scalar(s) && 2 <= length_of_first_scalar(s) < n),
        decreases 5 - n,
    {
        let piece = vstd::slice::slice_to_vec(vstd::slice::slice_subrange(b, at, at + n));
        assert(piece@ =~= s.take(n as int));
        proof {
            lemma_first_scalar(s, n as int);
        }
        if let Some(t) = from_utf8(piece) {
            let cs = chars(t.as_str());
            return Some((cs[0], n));
        }
        n += 1;
    }
    proof {
        if valid_first_scalar(s) {
            let k = length_of_first_scalar(s);
            assert(2 <= k <= 4 && k <= s.len());
        }
    }
    None
}

/// Render bytes so that every one of them is visible. Tells whether they were
/// cut short at `limit` bytes.
pub fn render_bytes(bytes: &[u8], limit: usize) -> (r: (String, bool))
    ensures
        r.0@ == rendered(preview(bytes@, limit)),
        r.1 == (bytes@.len() > limit),
{
    let truncated = bytes.len() > limit;
    let shown = if truncated {
        vstd::slice::slice_subrange(bytes, 0, limit)
    } else {
        bytes
    };
    let ghost all = preview(bytes@, limit);
    assert(shown@ =~= all);
    let n: usize = shown.len();
    let mut out: Vec<char> = Vec::new();
    let mut i: usize = 0;
    assert(all.skip(0) =~= all);
    while i < n
        invariant
            i <= n == shown@.len(),
            shown@ == all,
            out@ + rendered(all.skip(i as int)) == rendered(all),
        decreases n - i,
    {
        let b: u8 = shown[i];
        let ghost s = all.skip(i as int);
        let ghost before = out@;
        assert(s[0] == b);
        if b < 0x80 {
            assert(b < 0x80 ==> (b & 0x7f) as u32 == b as u32) by (bit_vector);
            assert(valid_first_scalar(s) && decode_first_scalar(s) == b as u32
                && length_of_first_scalar(s) == 1);
            let code: u32 = if b < 0x20 {
                0x2400 + b as u32
            } else if b == 0x7f {
                0x2421
            } else {
                b as u32
            };
            let c: char = match char_of(code) {
                Some(c) => c,
                None => '?',
            };
            proof {
                vstd::utf8::char_u32_cast(c, code);
            }
            assert(c == glyph(decode_first_scalar(s) as char));
            out.push(c);
            assert(s.skip(1) =~= all.skip(i + 1));
            assert(before + (seq![c] + rendered(all.skip(i + 1))) =~= out@ + rendered(
                all.skip(i + 1),
            ));
            i += 1;
        } else {
            match first_scalar(shown, i) {
                Some((c, k)) => {
                    proof {
                        lemma_not_control(s);
                    }
                    out.push(c);
                    assert(s.skip(k as int) =~= all.skip(i + k));
                    assert(before + (seq![c] + rendered(all.skip(i + k))) =~= out@ + rendered(
                        all.skip(i + k),
                    ));
                    i += k;
                },
                None => {
                    out.push('\\');
                    out.push('x');
                    out.push(hex_digit(b / 16));
                    out.push(hex_digit(b % 16));
                    assert(s.skip(1) =~= all.skip(i + 1));
                    assert(before + (hex(b) + rendered(all.skip(i + 1))) =~= out@ + rendered(
                        all.skip(i + 1),
                    ));
                    i += 1;
                },
            }
        }
    }
    assert(all.skip(n as int) =~= Seq::empty());
    assert(out@ =~= rendered(all));
    (string(out.as_slice()), truncated)
}

/// A character of several bytes is no control.
proof fn lemma_not_control(s: Seq<u8>)
    requires
        s.len() > 0,
        s[0] >= 0x80,
        valid_first_scalar(s),
    ensures
        glyph(decode_first_scalar(s) as char) == decode_first_scalar(s) as char,
{
    let u = decode_first_scalar(s);
    assert(u >= 0x80);
    assert(vstd::utf8::is_scalar(u)) by {
        lemma_decoded_is_scalar(s);
    }
    assert((u as char) as u32 == u);
}

proof fn lemma_decoded_is_scalar(s: Seq<u8>)
    requires
        valid_first_scalar(s),
        s[0] >= 0x80,
    ensures
        vstd::utf8::is_scalar(decode_first_scalar(s)),
{
    let b0 = s[0];
    let b1 = s[1];
    let b2 = s[2];
    let b3 = s[3];
    assert(((b0 & 0x1f) as u32) << 6 | ((b1 & 0x3f) as u32) < 0x800) by (bit_vector);
    assert(((b0 & 0x0f) as u32) << 12 | (((b1 & 0x3f) as u32) << 6) | ((b2 & 0x3f) as u32)
        < 0x1_0000) by (bit_vector);
}

/// A hexadecimal digit.
fn hex_digit(d: u8) -> (c: char)
    requires
        d < 16,
    ensures
        c == hex_char(d as int),
{
    let code: u32 = if d < 10 {
        0x30 + d as u32
    } else {
        0x57 + d as u32
    };
    match char_of(code) {
        Some(c) => {
            proof {
                vstd::utf8::char_u32_cast(c, code);
            }
            c
        },
        None => '?',
    }
}

/// Text is rendered character by character, each by its glyph; so text without
/// controls reads as itself.
pub proof fn law_text_reads_as_itself(s: Seq<char>)
    ensures
        rendered(encode_utf8(s)) == s.map_values(|c: char| glyph(c)),
    decreases s.len(),
{
    if s.len() > 0 {
        let b = encode_utf8(s);
        vstd::utf8::encode_utf8_first_scalar(s);
        vstd::utf8::char_u32_cast(s[0], decode_first_scalar(b));
        law_text_reads_as_itself(s.drop_first());
        assert(b.skip(length_of_first_scalar(b)) =~= encode_utf8(s.drop_first()));
        assert(rendered(b) =~= s.map_values(|c: char| glyph(c)));
    } else {
        assert(rendered(encode_utf8(s)) =~= s.map_values(|c: char| glyph(c)));
    }
}

/// Every control has a glyph of its own.
pub proof fn law_controls_have_their_own_glyphs(a: char, b: char)
    requires
        (a as u32) < 0x20 || a == '\u{7f}',
        (b as u32) < 0x20 || b == '\u{7f}',
        glyph(a) == glyph(b),
    ensures
        a == b,
{
    let x = a as u32;
    let y = b as u32;
    assert(vstd::utf8::is_scalar((0x2400 + x) as u32));
    assert(vstd::utf8::is_scalar((0x2400 + y) as u32));
}

/// One pane's capture.
#[derive(Debug)]
pub struct Log {
    keys: VecDeque<KeyRecord>,
    io: VecDeque<IoRecord>,
    /// Nothing is recorded while this is set.
    paused: bool,
    next_seq: u64,
}

/// A key press, by its texts.
pub ghost struct KeyView {
    pub seq: u64,
    pub chord: Seq<char>,
    pub outcome: KeyOutcome,
    pub bytes: Seq<char>,
}

/// A read, by its text.
pub ghost struct IoView {
    pub seq: u64,
    pub len: nat,
    pub text: Seq<char>,
    pub truncated: bool,
}

/// A capture at one moment.
#[verifier::ext_equal]
pub ghost struct LogView {
    pub keys: Seq<KeyView>,
    pub io: Seq<IoView>,
    pub paused: bool,
    /// The number of the last record.
    pub last: u64,
}

impl View for KeyRecord {
    type V = KeyView;

    open spec fn view(&self) -> KeyView {
        KeyView { seq: self.seq, chord: self.chord@, outcome: self.outcome, bytes: self.bytes@ }
    }
}

impl View for IoRecord {
    type V = IoView;

    open spec fn view(&self) -> IoView {
        IoView {
            seq: self.seq,
            len: self.len as nat,
            text: self.text@,
            truncated: self.truncated,
        }
    }
}

impl View for Log {
    type V = LogView;

    closed spec fn view(&self) -> LogView {
        LogView {
            keys: self.keys@.map_values(|k: KeyRecord| k@),
            io: self.io@.map_values(|r: IoRecord| r@),
            paused: self.paused,
            last: self.next_seq,
        }
    }
}

/// A list with one more item, the oldest dropped where it was full.
pub open spec fn capped<T>(s: Seq<T>, item: T, cap: nat) -> Seq<T> {
    (if s.len() == cap {
        s.skip(1)
    } else {
        s
    }).push(item)
}

/// What is kept of the bytes a key produced: they are shown where the key was
/// encoded.
pub open spec fn key_bytes(outcome: KeyOutcome, bytes: Seq<u8>) -> Seq<char> {
    if outcome == KeyOutcome::Encoded {
        rendered(bytes)
    } else {
        Seq::empty()
    }
}

/// The capture after a key press.
pub open spec fn after_key(
    l: LogView,
    chord: Seq<char>,
    outcome: KeyOutcome,
    bytes: Seq<u8>,
) -> LogView {
    if l.paused {
        l
    } else {
        let seq = (l.last + 1) as u64;
        LogView {
            keys: capped(
                l.keys,
                KeyView { seq, chord, outcome, bytes: key_bytes(outcome, bytes) },
                MAX_KEYS as nat,
            ),
            last: seq,
            ..l
        }
    }
}

/// The capture after a read.
pub open spec fn after_read(l: LogView, bytes: Seq<u8>) -> LogView {
    if l.paused || bytes.len() == 0 {
        l
    } else {
        let seq = (l.last + 1) as u64;
        LogView {
            io: capped(
                l.io,
                IoView {
                    seq,
                    len: bytes.len(),
                    text: rendered(preview(bytes, IO_PREVIEW)),
                    truncated: bytes.len() > IO_PREVIEW,
                },
                MAX_IO as nat,
            ),
            last: seq,
            ..l
        }
    }
}

/// Lists within their bounds, each record numbered after the one before it, and
/// no bytes with a key that was not encoded.
pub open spec fn sound(l: LogView) -> bool {
    &&& l.keys.len() <= MAX_KEYS
    &&& l.io.len() <= MAX_IO
    &&& forall|i: int| 0 <= i < l.keys.len() ==> 1 <= (#[trigger] l.keys[i]).seq <= l.last
    &&& forall|i: int|
        0 <= i < l.keys.len() && (#[trigger] l.keys[i]).outcome != KeyOutcome::Encoded
            ==> l.keys[i].bytes.len() == 0
    &&& forall|i: int| 0 <= i < l.io.len() ==> 1 <= (#[trigger] l.io[i]).seq <= l.last
    &&& forall|i: int, j: int|
        0 <= i < j < l.keys.len() ==> (#[trigger] l.keys[i]).seq < (#[trigger] l.keys[j]).seq
    &&& forall|i: int, j: int|
        0 <= i < j < l.io.len() ==> (#[trigger] l.io[i]).seq < (#[trigger] l.io[j]).seq
}

/// Every event keeps a capture sound.
pub proof fn law_capture_stays_sound(
    l: LogView,
    chord: Seq<char>,
    outcome: KeyOutcome,
    bytes: Seq<u8>,
)
    requires
        sound(l),
        l.last < u64::MAX,
    ensures
        sound(after_key(l, chord, outcome, bytes)),
        sound(after_read(l, bytes)),
{
}

/// A full log drops its oldest record and keeps the others in order.
pub proof fn law_oldest_is_dropped<T>(s: Seq<T>, item: T, cap: nat, i: int)
    requires
        cap > 0,
        s.len() <= cap,
        0 <= i < capped(s, item, cap).len(),
    ensures
        capped(s, item, cap).len() <= cap,
        capped(s, item, cap).last() == item,
        i < capped(s, item, cap).len() - 1 ==> capped(s, item, cap)[i] == s[i + (if s.len() == cap {
            1int
        } else {
            0int
        })],
{
}

/// Append an item, dropping the oldest where the list is full.
fn push_capped<T>(q: &mut VecDeque<T>, item: T, cap: usize)
    requires
        cap > 0,
    ensures
        final(q)@ == capped(old(q)@, item, cap as nat),
{
    if q.len() == cap {
        q.pop_front();
        assert(q@ =~= old(q)@.skip(1));
    }
    q.push_back(item);
}

impl Log {
    /// Nothing captured.
    pub fn new() -> (l: Self)
        ensures
            l@ == (LogView { keys: Seq::empty(), io: Seq::empty(), paused: false, last: 0 }),
            sound(l@),
    {
        let l = Log { keys: VecDeque::new(), io: VecDeque::new(), paused: false, next_seq: 0 };
        assert(l@ =~= (LogView { keys: Seq::empty(), io: Seq::empty(), paused: false, last: 0 }));
        l
    }

    /// The key presses, oldest first.
    pub fn keys(&self) -> (r: &VecDeque<KeyRecord>)
        ensures
            r@.map_values(|k: KeyRecord| k@) == self@.keys,
    {
        &self.keys
    }

    /// The reads, oldest first.
    pub fn io(&self) -> (r: &VecDeque<IoRecord>)
        ensures
            r@.map_values(|x: IoRecord| x@) == self@.io,
    {
        &self.io
    }

    /// Whether recording is paused.
    pub fn paused(&self) -> (r: bool)
        ensures
            r == self@.paused,
    {
        self.paused
    }

    /// Pause recording, or go on. What is kept stays.
    pub fn set_paused(&mut self, on: bool)
        ensures
            final(self)@ == (LogView { paused: on, ..old(self)@ }),
    {
        self.paused = on;
        assert(self@ =~= (LogView { paused: on, ..old(self)@ }));
    }

    /// Whether nothing is kept.
    pub fn is_empty(&self) -> (r: bool)
        ensures
            r == (self@.keys.len() == 0 && self@.io.len() == 0),
    {
        self.keys.len() == 0 && self.io.len() == 0
    }

    /// Forget what is kept. The numbering goes on.
    pub fn clear(&mut self)
        ensures
            final(self)@ == (LogView { keys: Seq::empty(), io: Seq::empty(), ..old(self)@ }),
    {
        self.keys.clear();
        self.io.clear();
        assert(self@ =~= (LogView { keys: Seq::empty(), io: Seq::empty(), ..old(self)@ }));
    }

    /// Record a key press with the bytes it produced, which are kept where it
    /// was encoded.
    pub fn key(&mut self, chord: String, outcome: KeyOutcome, bytes: &[u8])
        requires
            old(self)@.last < u64::MAX,
        ensures
            final(self)@ == after_key(old(self)@, chord@, outcome, bytes@),
    {
        if self.paused {
            return;
        }
        let ghost text = chord@;
        let seq: u64 = self.tick();
        let shown = if outcome == KeyOutcome::Encoded {
            render_bytes(bytes, bytes.len()).0
        } else {
            String::new()
        };
        push_capped(&mut self.keys, KeyRecord { seq, chord, outcome, bytes: shown }, MAX_KEYS);
        assert(self@ =~= after_key(old(self)@, text, outcome, bytes@));
    }

    /// Record a read. An empty one is none.
    pub fn read(&mut self, bytes: &[u8])
        requires
            old(self)@.last < u64::MAX,
        ensures
            final(self)@ == after_read(old(self)@, bytes@),
    {
        if self.paused || bytes.len() == 0 {
            return;
        }
        let seq: u64 = self.tick();
        let (text, truncated) = render_bytes(bytes, IO_PREVIEW);
        push_capped(
            &mut self.io,
            IoRecord { seq, len: bytes.len(), text, truncated },
            MAX_IO,
        );
        assert(self@ =~= after_read(old(self)@, bytes@));
    }

    fn tick(&mut self) -> (n: u64)
        requires
            old(self)@.last < u64::MAX,
        ensures
            n == old(self)@.last + 1,
            final(self)@ == (LogView { last: n, ..old(self)@ }),
    {
        self.next_seq = self.next_seq + 1;
        self.next_seq
    }
}

/// Whether the inspector is open once a mode was asked for.
pub open spec fn open_after(m: InspectorMode, is_open: bool) -> bool {
    match m {
        InspectorMode::Toggle => !is_open,
        InspectorMode::Show => true,
        InspectorMode::Hide => false,
    }
}

/// Showing leaves it open and hiding closed, however it was and however often it
/// is asked; toggling changes it, and twice leaves it as it was.
pub proof fn law_modes_open_and_close(is_open: bool)
    ensures
        open_after(InspectorMode::Show, is_open),
        !open_after(InspectorMode::Hide, is_open),
        open_after(InspectorMode::Toggle, is_open) != is_open,
        open_after(InspectorMode::Toggle, open_after(InspectorMode::Toggle, is_open)) == is_open,
{
}

/// The picture of a control stands as far behind the first picture as the control
/// behind the first control; the delete character has its own, and any other
/// character is shown as it is.
pub proof fn law_glyphs(c: char)
    ensures
        (c as u32) < 0x20 ==> glyph(c) as u32 == 0x2400 + c as u32,
        c == '\u{7f}' ==> glyph(c) as u32 == 0x2421,
        (c as u32) >= 0x20 && c != '\u{7f}' ==> glyph(c) == c,
{
    if (c as u32) < 0x20 {
        assert(vstd::utf8::is_scalar((0x2400 + c as u32) as u32));
    }
}

/// A byte in hexadecimal is its two digits, the higher first, behind `\x`.
pub proof fn law_hex_spells_the_byte(b: u8, d: int)
    requires
        0 <= d < 16,
    ensures
        hex_char(d) == "0123456789abcdef"@[d],
        hex(b) == "\\x"@ + seq!["0123456789abcdef"@[b as int / 16]] + seq![
            "0123456789abcdef"@[b as int % 16],
        ],
{
    reveal_strlit("0123456789abcdef");
    reveal_strlit("\\x");
    assert forall|k: int| 0 <= k < 16 implies #[trigger] hex_char(k) == "0123456789abcdef"@[k] by {
        assert(vstd::utf8::is_scalar((0x30 + k) as u32));
        assert(vstd::utf8::is_scalar((0x57 + k) as u32));
    }
    assert(hex(b) =~= "\\x"@ + seq!["0123456789abcdef"@[b as int / 16]] + seq![
        "0123456789abcdef"@[b as int % 16],
    ]);
}

/// No more than the first bytes are shown, and all of them where they are few
/// enough.
pub proof fn law_preview_is_the_beginning(b: Seq<u8>, limit: usize)
    ensures
        preview(b, limit).len() <= limit,
        preview(b, limit).is_prefix_of(b),
        preview(b, limit).len() < limit ==> preview(b, limit) == b,
        b.len() <= limit ==> preview(b, limit) == b,
{
}

/// A key press is recorded as it was, behind the others and under the next
/// number; bytes are shown of an encoded one alone. The reads stay.
pub proof fn law_key_press_is_recorded(
    l: LogView,
    chord: Seq<char>,
    outcome: KeyOutcome,
    bytes: Seq<u8>,
)
    requires
        l.last < u64::MAX,
    ensures
        ({
            let after = after_key(l, chord, outcome, bytes);
            &&& l.paused ==> after == l
            &&& !l.paused ==> {
                &&& after.last == l.last + 1
                &&& after.keys.len() > 0
                &&& after.keys.last().seq == l.last + 1
                &&& after.keys.last().chord == chord
                &&& after.keys.last().outcome == outcome
                &&& outcome is Encoded ==> after.keys.last().bytes == rendered(bytes)
                &&& !(outcome is Encoded) ==> after.keys.last().bytes.len() == 0
                &&& after.io == l.io
                &&& after.paused == l.paused
            }
        }),
{
}

/// A read is recorded as it was, behind the others and under the next number: how
/// long it was, and its beginning; whether that is all of it is told. The key
/// presses stay, and an empty read is none.
pub proof fn law_read_is_recorded(l: LogView, bytes: Seq<u8>)
    requires
        l.last < u64::MAX,
    ensures
        ({
            let after = after_read(l, bytes);
            &&& l.paused || bytes.len() == 0 ==> after == l
            &&& !l.paused && bytes.len() > 0 ==> {
                &&& after.last == l.last + 1
                &&& after.io.len() > 0
                &&& after.io.last().seq == l.last + 1
                &&& after.io.last().len == bytes.len()
                &&& bytes.len() <= IO_PREVIEW ==> after.io.last().text == rendered(bytes)
                    && !after.io.last().truncated
                &&& bytes.len() > IO_PREVIEW ==> after.io.last().text == rendered(
                    bytes.take(IO_PREVIEW as int),
                ) && after.io.last().truncated
                &&& after.keys == l.keys
                &&& after.paused == l.paused
            }
        }),
{
}

/// A byte that can begin no character is shown in hexadecimal, and what follows
/// it is shown as if it stood alone.
pub proof fn law_stray_byte_is_shown_in_hex(b: u8, rest: Seq<u8>)
    requires
        0x80 <= b < 0xc0 || b >= 0xf8,
    ensures
        rendered(seq![b] + rest) == hex(b) + rendered(rest),
{
    let s = seq![b] + rest;
    assert(s[0] == b);
    assert(s.skip(1) =~= rest);
    assert(!valid_first_scalar(s)) by {
        assert(b & 0x80u8 != 0 && (b & 0xe0u8 != 0xc0u8) && (b & 0xf0u8 != 0xe0u8) && (b & 0xf8u8
            != 0xf0u8)) by (bit_vector)
            requires
                0x80 <= b < 0xc0 || b >= 0xf8,
        ;
    }
}

/// What is said of a key record is said of its own fields, each of the field of its name.
pub proof fn law_key_record_shows_its_fields(x: KeyRecord)
    ensures
        x@.seq == x.seq,
        x@.chord == x.chord@,
        x@.outcome == x.outcome,
        x@.bytes == x.bytes@,
{
}

/// What is said of an io record is said of its own fields, each of the field of its name.
pub proof fn law_io_record_shows_its_fields(x: IoRecord)
    ensures
        x@.seq == x.seq,
        x@.len == x.len as nat,
        x@.text == x.text@,
        x@.truncated == x.truncated,
{
}

/// A log grows record by record up to two hundred key presses and five hundred
/// reads, and then stays as long as it is.
pub proof fn law_logs_grow_to_their_bounds(
    l: LogView,
    chord: Seq<char>,
    outcome: KeyOutcome,
    bytes: Seq<u8>,
)
    requires
        !l.paused,
        bytes.len() > 0,
        l.last < u64::MAX,
    ensures
        l.keys.len() < 200 ==> after_key(l, chord, outcome, bytes).keys.len() == l.keys.len() + 1,
        l.keys.len() == 200 ==> after_key(l, chord, outcome, bytes).keys.len() == 200,
        l.io.len() < 500 ==> after_read(l, bytes).io.len() == l.io.len() + 1,
        l.io.len() == 500 ==> after_read(l, bytes).io.len() == 500,
        bytes.len() <= 200 ==> !after_read(l, bytes).io.last().truncated,
        bytes.len() > 200 ==> after_read(l, bytes).io.last().text == rendered(bytes.take(200)),
{
}

} // verus!
