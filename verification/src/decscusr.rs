//! Cursor style and blink, tracked by scanning the program's output.

use vstd::prelude::*;

verus! {

/// Where in an escape sequence the scanner is.
#[derive(Clone, Copy, PartialEq, Eq, Structural)]
enum State {
    /// Outside any escape sequence.
    Ground,
    /// After ESC.
    Esc,
    /// Inside a control sequence, until its final byte.
    Csi,
}

/// Follows whether the program is on its default cursor and whether that cursor
/// blinks. Feed it the program's output, in chunks of any size.
pub struct DecscusrScanner {
    state: State,
    /// The number of the current parameter.
    param: u32,
    /// Saw the space that marks a cursor-style sequence.
    space: bool,
    /// Saw the marker of a private mode.
    private: bool,
    /// A parameter before a separator was mode 12.
    saw_mode12: bool,
    /// Nothing rules out a cursor-style sequence.
    decscusr: bool,
    default_cursor: bool,
    blink: bool,
}

/// A scanner at one moment.
pub ghost struct Scan {
    /// 0 outside a sequence, 1 after ESC, 2 inside a control sequence.
    pub phase: int,
    pub param: int,
    pub space: bool,
    pub private: bool,
    pub saw_mode12: bool,
    pub decscusr: bool,
    pub default_cursor: bool,
    pub blink: bool,
}

/// A scanner that has seen nothing: on the default cursor, which blinks.
pub open spec fn fresh() -> Scan {
    Scan {
        phase: 0,
        param: 0,
        space: false,
        private: false,
        saw_mode12: false,
        decscusr: true,
        default_cursor: true,
        blink: true,
    }
}

/// The start of a control sequence.
pub open spec fn opened(s: Scan) -> Scan {
    Scan {
        phase: 2,
        param: 0,
        space: false,
        private: false,
        saw_mode12: false,
        decscusr: true,
        ..s
    }
}

/// A cursor style asked for: zero is the default cursor, blinking; one to six an
/// explicit shape; anything else changes nothing.
pub open spec fn styled(s: Scan) -> Scan {
    if s.param == 0 {
        Scan { default_cursor: true, blink: true, ..s }
    } else if s.param <= 6 {
        Scan { default_cursor: false, ..s }
    } else {
        s
    }
}

/// The end of a control sequence by its final byte.
pub open spec fn closed_by(s: Scan, b: u8) -> Scan {
    let t = if b == 0x71 && s.space && s.decscusr {
        styled(s)
    } else if (b == 0x68 || b == 0x6c) && s.private && !s.space && (s.param == 12 || s.saw_mode12) {
        Scan { blink: b == 0x68, ..s }
    } else {
        s
    };
    Scan { phase: 0, ..t }
}

/// A further digit of a parameter, which stops growing at 32 bits.
pub open spec fn with_digit(param: int, d: int) -> int {
    if param * 10 + d > u32::MAX {
        u32::MAX as int
    } else {
        param * 10 + d
    }
}

/// One byte inside a control sequence.
pub open spec fn inside(s: Scan, b: u8) -> Scan {
    if 0x40 <= b <= 0x7e {
        closed_by(s, b)
    } else if 0x30 <= b <= 0x39 {
        if s.space {
            Scan { decscusr: false, ..s }
        } else {
            Scan { param: with_digit(s.param, b - 0x30), ..s }
        }
    } else if b == 0x3b {
        Scan { saw_mode12: s.saw_mode12 || s.param == 12, param: 0, decscusr: false, ..s }
    } else if b == 0x20 {
        Scan { decscusr: s.decscusr && !s.space, space: true, ..s }
    } else if b == 0x3f {
        Scan { private: true, decscusr: false, ..s }
    } else {
        Scan { decscusr: false, ..s }
    }
}

/// One byte.
pub open spec fn step(s: Scan, b: u8) -> Scan {
    if s.phase == 0 {
        if b == 0x1b {
            Scan { phase: 1, ..s }
        } else {
            s
        }
    } else if s.phase == 1 {
        if b == 0x5b {
            opened(s)
        } else if b == 0x1b {
            s
        } else {
            Scan { phase: 0, ..s }
        }
    } else {
        inside(s, b)
    }
}

/// Bytes one after the other.
pub open spec fn fed(s: Scan, bytes: Seq<u8>) -> Scan
    decreases bytes.len(),
{
    if bytes.len() == 0 {
        s
    } else {
        step(fed(s, bytes.drop_last()), bytes.last())
    }
}

impl View for DecscusrScanner {
    type V = Scan;

    closed spec fn view(&self) -> Scan {
        Scan {
            phase: match self.state {
                State::Ground => 0,
                State::Esc => 1,
                State::Csi => 2,
            },
            param: self.param as int,
            space: self.space,
            private: self.private,
            saw_mode12: self.saw_mode12,
            decscusr: self.decscusr,
            default_cursor: self.default_cursor,
            blink: self.blink,
        }
    }
}

impl DecscusrScanner {
    /// On the default cursor, which blinks.
    pub fn new() -> (s: Self)
        ensures
            s@ == fresh(),
    {
        DecscusrScanner {
            state: State::Ground,
            param: 0,
            space: false,
            private: false,
            saw_mode12: false,
            decscusr: true,
            default_cursor: true,
            blink: true,
        }
    }

    /// Whether the program is on its default cursor.
    pub fn is_default(&self) -> (r: bool)
        ensures
            r == self@.default_cursor,
    {
        self.default_cursor
    }

    /// Whether the default cursor blinks.
    pub fn default_blink(&self) -> (r: bool)
        ensures
            r == self@.blink,
    {
        self.blink
    }

    /// Take a chunk of output. A sequence may span chunks.
    pub fn feed(&mut self, bytes: &[u8])
        ensures
            final(self)@ == fed(old(self)@, bytes@),
    {
        let mut i: usize = 0;
        assert(bytes@.take(0) =~= Seq::empty());
        while i < bytes.len()
            invariant
                i <= bytes@.len(),
                self@ == fed(old(self)@, bytes@.take(i as int)),
            decreases bytes@.len() - i,
        {
            let b: u8 = bytes[i];
            assert(bytes@.take(i + 1).drop_last() =~= bytes@.take(i as int));
            match self.state {
                State::Ground => {
                    if b == 0x1b {
                        self.state = State::Esc;
                    }
                },
                State::Esc => {
                    if b == 0x5b {
                        self.begin_csi();
                    } else if b != 0x1b {
                        self.state = State::Ground;
                    }
                },
                State::Csi => self.csi_byte(b),
            }
            i += 1;
        }
        assert(bytes@.take(bytes@.len() as int) =~= bytes@);
    }

    fn begin_csi(&mut self)
        ensures
            final(self)@ == opened(old(self)@),
    {
        self.state = State::Csi;
        self.param = 0;
        self.space = false;
        self.private = false;
        self.saw_mode12 = false;
        self.decscusr = true;
    }

    fn csi_byte(&mut self, b: u8)
        requires
            old(self)@.phase == 2,
        ensures
            final(self)@ == inside(old(self)@, b),
    {
        if 0x40 <= b && b <= 0x7e {
            if b == 0x71 && self.space && self.decscusr {
                self.apply_decscusr();
            } else if (b == 0x68 || b == 0x6c) && self.private && !self.space && (self.param == 12
                || self.saw_mode12) {
                self.blink = b == 0x68;
            }
            self.state = State::Ground;
        } else if 0x30 <= b && b <= 0x39 {
            if self.space {
                self.decscusr = false;
            } else {
                let n: u64 = self.param as u64 * 10 + (b - 0x30) as u64;
                self.param = if n > u32::MAX as u64 {
                    u32::MAX
                } else {
                    n as u32
                };
            }
        } else if b == 0x3b {
            if self.param == 12 {
                self.saw_mode12 = true;
            }
            self.param = 0;
            self.decscusr = false;
        } else if b == 0x20 {
            if self.space {
                self.decscusr = false;
            }
            self.space = true;
        } else if b == 0x3f {
            self.private = true;
            self.decscusr = false;
        } else {
            self.decscusr = false;
        }
    }

    fn apply_decscusr(&mut self)
        ensures
            final(self)@ == styled(old(self)@),
    {
        if self.param == 0 {
            self.default_cursor = true;
            self.blink = true;
        } else if self.param <= 6 {
            self.default_cursor = false;
        }
    }
}

impl Default for DecscusrScanner {
    fn default() -> (s: Self)
        ensures
            s@ == fresh(),
    {
        DecscusrScanner::new()
    }
}

/// How the output is cut into chunks does not matter.
pub proof fn law_chunks_do_not_matter(s: Scan, a: Seq<u8>, b: Seq<u8>)
    ensures
        fed(s, a + b) == fed(fed(s, a), b),
    decreases b.len(),
{
    if b.len() == 0 {
        assert(a + b =~= a);
    } else {
        law_chunks_do_not_matter(s, a, b.drop_last());
        assert((a + b).drop_last() =~= a + b.drop_last());
    }
}

/// Output without escapes changes nothing.
pub proof fn law_plain_output_changes_nothing(s: Scan, bytes: Seq<u8>)
    requires
        s.phase == 0,
        !bytes.contains(0x1b),
    ensures
        fed(s, bytes) == s,
    decreases bytes.len(),
{
    if bytes.len() > 0 {
        assert forall|x: u8| bytes.drop_last().contains(x) implies bytes.contains(x) by {
            let i = bytes.drop_last().index_of(x);
            assert(bytes[i] == x);
        }
        assert(bytes.contains(bytes.last())) by {
            assert(bytes[bytes.len() - 1] == bytes.last());
        }
        law_plain_output_changes_nothing(s, bytes.drop_last());
    }
}

/// The cursor-style sequence with one digit sets what the digit asks for: zero
/// the default cursor, blinking; one to six an explicit shape; any other digit
/// nothing.
pub proof fn law_cursor_style_is_followed(s: Scan, d: u8)
    requires
        s.phase == 0,
        d <= 9,
    ensures
        ({
            let t = fed(s, seq![0x1bu8, 0x5b, (0x30 + d) as u8, 0x20, 0x71]);
            &&& t.phase == 0
            &&& t.default_cursor == (d == 0 || s.default_cursor && d > 6)
            &&& t.blink == (d == 0 || s.blink)
        }),
{
    let q = seq![0x1bu8, 0x5b, (0x30 + d) as u8, 0x20, 0x71];
    assert(q.drop_last() =~= seq![0x1bu8, 0x5b, (0x30 + d) as u8, 0x20]);
    assert(q.drop_last().drop_last() =~= seq![0x1bu8, 0x5b, (0x30 + d) as u8]);
    assert(q.drop_last().drop_last().drop_last() =~= seq![0x1bu8, 0x5b]);
    assert(q.drop_last().drop_last().drop_last().drop_last() =~= seq![0x1bu8]);
    assert(q.drop_last().drop_last().drop_last().drop_last().drop_last() =~= Seq::empty());
    reveal_with_fuel(fed, 6);
}

/// A sequence that is not a cursor style, sent by `h` or `l` for private mode 12,
/// turns blinking on or off and leaves the shape alone.
pub proof fn law_mode_12_sets_blink(s: Scan, on: bool)
    requires
        s.phase == 0,
    ensures
        ({
            let t = fed(
                s,
                seq![0x1bu8, 0x5b, 0x3f, 0x31, 0x32, if on {
                    0x68u8
                } else {
                    0x6cu8
                }],
            );
            &&& t.phase == 0
            &&& t.default_cursor == s.default_cursor
            &&& t.blink == on
        }),
{
    let f = if on {
        0x68u8
    } else {
        0x6cu8
    };
    let q = seq![0x1bu8, 0x5b, 0x3f, 0x31, 0x32, f];
    assert(q.drop_last() =~= seq![0x1bu8, 0x5b, 0x3f, 0x31, 0x32]);
    assert(q.drop_last().drop_last() =~= seq![0x1bu8, 0x5b, 0x3f, 0x31]);
    assert(q.drop_last().drop_last().drop_last() =~= seq![0x1bu8, 0x5b, 0x3f]);
    assert(q.drop_last().drop_last().drop_last().drop_last() =~= seq![0x1bu8, 0x5b]);
    assert(q.drop_last().drop_last().drop_last().drop_last().drop_last() =~= seq![0x1bu8]);
    assert(q.drop_last().drop_last().drop_last().drop_last().drop_last().drop_last()
        =~= Seq::empty());
    reveal_with_fuel(fed, 7);
}

/// ASCII digits, none or more.
pub open spec fn all_digits(ds: Seq<u8>) -> bool {
    forall|i: int| 0 <= i < ds.len() ==> 0x30 <= #[trigger] ds[i] <= 0x39
}

/// The number that ASCII digits write; zero for none.
pub open spec fn number(ds: Seq<u8>) -> int
    decreases ds.len(),
{
    if ds.len() == 0 {
        0
    } else {
        10 * number(ds.drop_last()) + (ds.last() - 0x30)
    }
}

/// Parameters as they are sent, with a semicolon between two.
pub open spec fn listed(ms: Seq<Seq<u8>>) -> Seq<u8>
    decreases ms.len(),
{
    if ms.len() == 0 {
        Seq::empty()
    } else if ms.len() == 1 {
        ms[0]
    } else {
        listed(ms.drop_last()).push(0x3b) + ms.last()
    }
}

/// A control sequence with this body and final byte.
pub open spec fn control(body: Seq<u8>, last: u8) -> Seq<u8> {
    seq![0x1bu8, 0x5b] + body + seq![last]
}

/// Whether none of these bytes ends a control sequence.
pub open spec fn stays_inside(body: Seq<u8>) -> bool {
    forall|i: int| 0 <= i < body.len() ==> !(0x40 <= #[trigger] body[i] <= 0x7e)
}

proof fn lemma_opened(s: Scan)
    requires
        s.phase == 0,
    ensures
        fed(s, seq![0x1bu8, 0x5b]) == opened(s),
{
    let q = seq![0x1bu8, 0x5b];
    assert(q.drop_last() =~= seq![0x1bu8]);
    assert(q.drop_last().drop_last() =~= Seq::empty());
    reveal_with_fuel(fed, 3);
}

proof fn lemma_control(s: Scan, body: Seq<u8>, last: u8)
    requires
        s.phase == 0,
    ensures
        fed(s, control(body, last)) == step(fed(opened(s), body), last),
{
    lemma_opened(s);
    law_chunks_do_not_matter(s, seq![0x1bu8, 0x5b], body);
    assert(control(body, last).drop_last() =~= seq![0x1bu8, 0x5b] + body);
}

proof fn lemma_number_nonneg(ds: Seq<u8>)
    requires
        all_digits(ds),
    ensures
        number(ds) >= 0,
    decreases ds.len(),
{
    if ds.len() > 0 {
        assert(all_digits(ds.drop_last())) by {
            assert forall|i: int| 0 <= i < ds.drop_last().len() implies 0x30
                <= #[trigger] ds.drop_last()[i] <= 0x39 by {
                assert(ds.drop_last()[i] == ds[i]);
            }
        }
        assert(0x30 <= ds[ds.len() - 1] <= 0x39);
        lemma_number_nonneg(ds.drop_last());
    }
}

/// Digits add to the parameter and to nothing else.
proof fn lemma_digits(s: Scan, ds: Seq<u8>)
    requires
        s.phase == 2,
        s.param == 0,
        !s.space,
        all_digits(ds),
    ensures
        number(ds) >= 0,
        fed(s, ds) == (Scan {
            param: if number(ds) > u32::MAX {
                u32::MAX as int
            } else {
                number(ds)
            },
            ..s
        }),
    decreases ds.len(),
{
    lemma_number_nonneg(ds);
    if ds.len() > 0 {
        let d = ds.drop_last();
        assert(all_digits(d)) by {
            assert forall|i: int| 0 <= i < d.len() implies 0x30 <= #[trigger] d[i] <= 0x39 by {
                assert(d[i] == ds[i]);
            }
        }
        assert(0x30 <= ds[ds.len() - 1] <= 0x39);
        lemma_digits(s, d);
    }
}

proof fn lemma_listed(s: Scan, ms: Seq<Seq<u8>>)
    requires
        s.phase == 2,
        s.param == 0,
        !s.space,
        s.private,
        !s.saw_mode12,
        ms.len() > 0,
        forall|i: int| 0 <= i < ms.len() ==> all_digits(#[trigger] ms[i]),
    ensures
        ({
            let t = fed(s, listed(ms));
            &&& t.phase == 2
            &&& !t.space
            &&& t.private
            &&& t.blink == s.blink
            &&& t.default_cursor == s.default_cursor
            &&& (t.param == 12) == (number(ms.last()) == 12)
            &&& t.saw_mode12 == exists|i: int|
                0 <= i < ms.len() - 1 && number(#[trigger] ms[i]) == 12
        }),
    decreases ms.len(),
{
    assert(all_digits(ms[ms.len() - 1]));
    if ms.len() == 1 {
        lemma_digits(s, ms[0]);
    } else {
        let head = ms.drop_last();
        assert forall|i: int| 0 <= i < head.len() implies all_digits(#[trigger] head[i]) by {
            assert(head[i] == ms[i]);
        }
        lemma_listed(s, head);
        let a = listed(head);
        let t = fed(s, a);
        let b = a.push(0x3b);
        assert(b.drop_last() =~= a);
        let u = fed(s, b);
        assert(u == step(t, 0x3b));
        law_chunks_do_not_matter(s, b, ms.last());
        lemma_digits(u, ms.last());
        assert(head.last() == ms[ms.len() - 2]);
        if u.saw_mode12 {
            if number(head.last()) == 12 {
                assert(number(ms[ms.len() - 2]) == 12);
            } else {
                let i = choose|i: int| 0 <= i < head.len() - 1 && number(#[trigger] head[i]) == 12;
                assert(number(ms[i]) == 12);
            }
        }
        if exists|i: int| 0 <= i < ms.len() - 1 && number(#[trigger] ms[i]) == 12 {
            let i = choose|i: int| 0 <= i < ms.len() - 1 && number(#[trigger] ms[i]) == 12;
            assert(head[i] == ms[i]);
            assert(number(head[i]) == 12);
        }
    }
}

/// Private modes set by `h` or reset by `l`, any number of them: if mode 12 is
/// among them, wherever it stands, blinking is turned on or off; if it is not,
/// blinking stays. The shape stays either way.
pub proof fn law_mode_12_counts_wherever_it_stands(s: Scan, ms: Seq<Seq<u8>>, on: bool)
    requires
        s.phase == 0,
        ms.len() > 0,
        forall|i: int| 0 <= i < ms.len() ==> all_digits(#[trigger] ms[i]),
    ensures
        ({
            let t = fed(
                s,
                control(
                    seq![0x3fu8] + listed(ms),
                    if on {
                        0x68
                    } else {
                        0x6c
                    },
                ),
            );
            &&& t.phase == 0
            &&& t.default_cursor == s.default_cursor
            &&& (exists|i: int| 0 <= i < ms.len() && number(#[trigger] ms[i]) == 12) ==> t.blink
                == on
            &&& (forall|i: int| 0 <= i < ms.len() ==> number(#[trigger] ms[i]) != 12) ==> t.blink
                == s.blink
        }),
{
    let body = seq![0x3fu8] + listed(ms);
    let last: u8 = if on {
        0x68
    } else {
        0x6c
    };
    lemma_control(s, body, last);
    let o = opened(s);
    law_chunks_do_not_matter(o, seq![0x3fu8], listed(ms));
    assert(seq![0x3fu8].drop_last() =~= Seq::empty());
    reveal_with_fuel(fed, 2);
    let p = fed(o, seq![0x3fu8]);
    assert(p == inside(o, 0x3f));
    lemma_listed(p, ms);
    assert(ms.last() == ms[ms.len() - 1]);
    if exists|i: int| 0 <= i < ms.len() && number(#[trigger] ms[i]) == 12 {
        let i = choose|i: int| 0 <= i < ms.len() && number(#[trigger] ms[i]) == 12;
        if i < ms.len() - 1 {
            assert(number(ms[i]) == 12);
        } else {
            assert(number(ms.last()) == 12);
        }
    }
}

/// The cursor-style sequence with a number, or with none, which counts as zero:
/// zero is the default cursor, blinking; one to six an explicit shape; a larger
/// number nothing.
pub proof fn law_any_cursor_style_is_followed(s: Scan, ds: Seq<u8>)
    requires
        s.phase == 0,
        all_digits(ds),
    ensures
        ({
            let t = fed(s, control(ds.push(0x20), 0x71));
            &&& t.phase == 0
            &&& number(ds) == 0 ==> t.default_cursor && t.blink
            &&& 1 <= number(ds) <= 6 ==> !t.default_cursor && t.blink == s.blink
            &&& number(ds) > 6 ==> t.default_cursor == s.default_cursor && t.blink == s.blink
        }),
{
    lemma_control(s, ds.push(0x20), 0x71);
    let o = opened(s);
    lemma_digits(o, ds);
    assert(ds.push(0x20).drop_last() =~= ds);
}

/// What the scanner knows inside a control sequence, by the bytes it has seen
/// there.
proof fn lemma_inside(s: Scan, body: Seq<u8>)
    requires
        stays_inside(body),
    ensures
        ({
            let t = fed(opened(s), body);
            &&& t.phase == 2
            &&& t.default_cursor == s.default_cursor
            &&& t.blink == s.blink
            &&& t.space == body.contains(0x20)
            &&& t.private == body.contains(0x3f)
            &&& t.decscusr && !t.space ==> all_digits(body)
            &&& t.decscusr && t.space ==> body.last() == 0x20 && all_digits(body.drop_last())
        }),
    decreases body.len(),
{
    if body.len() > 0 {
        let b = body.drop_last();
        let x = body.last();
        assert(x == body[body.len() - 1]);
        assert(stays_inside(b)) by {
            assert forall|i: int| 0 <= i < b.len() implies !(0x40 <= #[trigger] b[i] <= 0x7e) by {
                assert(b[i] == body[i]);
            }
        }
        lemma_inside(s, b);
        assert forall|c: u8| body.contains(c) == (b.contains(c) || x == c) by {
            if body.contains(c) {
                let i = body.index_of(c);
                if i < b.len() {
                    assert(b[i] == c);
                }
            }
            if b.contains(c) {
                let i = b.index_of(c);
                assert(body[i] == c);
            }
        }
        let t = fed(opened(s), b);
        let u = fed(opened(s), body);
        assert(u == inside(t, x));
        if u.decscusr && !u.space {
            assert forall|i: int| 0 <= i < body.len() implies 0x30 <= #[trigger] body[i]
                <= 0x39 by {
                if i < b.len() {
                    assert(b[i] == body[i]);
                }
            }
        }
    }
}

/// A control sequence that is neither a cursor style (digits, a space and `q`)
/// nor a private mode (`h` or `l` behind a question mark, without a space)
/// changes nothing.
pub proof fn law_other_sequences_change_nothing(s: Scan, body: Seq<u8>, last: u8)
    requires
        s.phase == 0,
        stays_inside(body),
        0x40 <= last <= 0x7e,
        last == 0x71 ==> !(body.len() > 0 && body.last() == 0x20 && all_digits(body.drop_last())),
        last == 0x68 || last == 0x6c ==> !body.contains(0x3f) || body.contains(0x20),
    ensures
        fed(s, control(body, last)).phase == 0,
        fed(s, control(body, last)).default_cursor == s.default_cursor,
        fed(s, control(body, last)).blink == s.blink,
{
    lemma_control(s, body, last);
    lemma_inside(s, body);
}

/// An escape that does not begin a control sequence changes nothing, and the
/// output behind it is read as any other.
pub proof fn law_short_escapes_change_nothing(s: Scan, x: u8)
    requires
        s.phase == 0,
        x != 0x5b,
        x != 0x1b,
    ensures
        fed(s, seq![0x1bu8, x]) == s,
{
    let q = seq![0x1bu8, x];
    assert(q.drop_last() =~= seq![0x1bu8]);
    assert(q.drop_last().drop_last() =~= Seq::empty());
    reveal_with_fuel(fed, 3);
}

/// Before any output the program is on its default cursor, which blinks.
pub proof fn law_starts_on_the_default_cursor()
    ensures
        fresh().phase == 0,
        fresh().default_cursor,
        fresh().blink,
{
}

} // verus!
