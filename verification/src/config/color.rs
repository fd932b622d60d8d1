//! Colour values: X11 names, hex literals and the 256-colour palette.

use crate::engine::Rgb;
use crate::text::{
    chars, halves, is_white, lines, lines_of, lower, lowered, natural_to, read_natural, spells,
    split_once, string, trim, trim_start, trimmed, trimmed_start, views, white,
};
use vstd::prelude::*;
use vstd::slice::slice_subrange;

verus! {

// ---------------------------------------------------------------- hex

/// The channel that two hex digits spell.
pub open spec fn hex_pair(h: Seq<char>, i: int) -> Option<int> {
    natural_to(h.subrange(i, i + 2), 16, 255)
}

/// The channel that one hex digit, doubled, spells.
pub open spec fn hex_nibble(h: Seq<char>, i: int) -> Option<int> {
    match natural_to(h.subrange(i, i + 1), 16, 255) {
        Some(n) => Some(n * 17),
        None => None,
    }
}

/// The colour of three channels, where all three are there.
pub open spec fn rgb_of(r: Option<int>, g: Option<int>, b: Option<int>) -> Option<Rgb> {
    match (r, g, b) {
        (Some(r), Some(g), Some(b)) => Some(Rgb { r: r as u8, g: g as u8, b: b as u8 }),
        _ => None,
    }
}

/// The colour that `#rrggbb`, `rrggbb`, `#rgb` or `rgb` spells.
pub open spec fn hex_color(s: Seq<char>) -> Option<Rgb> {
    let h = if s.len() > 0 && s[0] == '#' {
        s.skip(1)
    } else {
        s
    };
    if h.len() == 6 {
        rgb_of(hex_pair(h, 0), hex_pair(h, 2), hex_pair(h, 4))
    } else if h.len() == 3 {
        rgb_of(hex_nibble(h, 0), hex_nibble(h, 1), hex_nibble(h, 2))
    } else {
        None
    }
}

fn pair(h: &[char], i: usize) -> (r: Option<u8>)
    requires
        i + 2 <= h@.len(),
    ensures
        match r {
            Some(n) => hex_pair(h@, i as int) == Some(n as int),
            None => hex_pair(h@, i as int) is None,
        },
{
    let n = h.len();
    assert(i + 2 <= n);
    let part = slice_subrange(h, i, i + 2);
    match read_natural(part, 16, 255) {
        Some(n) => Some(n as u8),
        None => None,
    }
}

fn nibble(h: &[char], i: usize) -> (r: Option<u8>)
    requires
        i + 1 <= h@.len(),
    ensures
        match r {
            Some(n) => hex_nibble(h@, i as int) == Some(n as int),
            None => hex_nibble(h@, i as int) is None,
        },
{
    let n = h.len();
    assert(i + 1 <= n);
    let part = slice_subrange(h, i, i + 1);
    proof {
        lemma_one_digit(part@);
    }
    match read_natural(part, 16, 255) {
        Some(n) => Some((n * 17) as u8),
        None => None,
    }
}

proof fn lemma_one_digit(s: Seq<char>)
    requires
        s.len() == 1,
    ensures
        natural_to(s, 16, 255) matches Some(n) ==> 0 <= n < 16,
{
    reveal_with_fuel(crate::text::digits_value, 3);
    assert(s.drop_last().len() == 0);
    assert(s.skip(1).len() == 0);
}

/// Parse a hex colour: `#rrggbb`/`rrggbb`, or `#rgb`/`rgb` with each digit
/// doubled.
pub fn parse_hex(s: &str) -> (r: Option<Rgb>)
    ensures
        r == hex_color(s@),
{
    let cs = chars(s);
    let n = cs.len();
    let h = if n > 0 && cs[0] == '#' {
        slice_subrange(cs.as_slice(), 1, n)
    } else {
        cs.as_slice()
    };
    proof {
        assert(h@ =~= if s@.len() > 0 && s@[0] == '#' {
            s@.skip(1)
        } else {
            s@
        });
    }
    if h.len() == 6 {
        match (pair(h, 0), pair(h, 2), pair(h, 4)) {
            (Some(r), Some(g), Some(b)) => Some(Rgb { r, g, b }),
            _ => None,
        }
    } else if h.len() == 3 {
        match (nibble(h, 0), nibble(h, 1), nibble(h, 2)) {
            (Some(r), Some(g), Some(b)) => Some(Rgb { r, g, b }),
            _ => None,
        }
    } else {
        None
    }
}

// ---------------------------------------------------------------- names

/// The words of `s` between its white space.
pub open spec fn split_whitespace(s: Seq<char>) -> Seq<Seq<char>>
    decreases s.len(),
    via split_whitespace_shrinks
{
    let t = trim_start(s);
    if t.len() == 0 {
        Seq::empty()
    } else {
        let n = word_len(t);
        seq![t.take(n)] + split_whitespace(t.skip(n))
    }
}

#[via_fn]
proof fn split_whitespace_shrinks(s: Seq<char>) {
    lemma_trim_start_len(s);
    let t = trim_start(s);
    if t.len() > 0 {
        lemma_word_len(t);
    }
}

/// How many characters `s` has before its first white space.
pub open spec fn word_len(s: Seq<char>) -> int
    decreases s.len(),
{
    if s.len() == 0 || is_white(s[0]) {
        0
    } else {
        1 + word_len(s.skip(1))
    }
}

proof fn lemma_trim_start_len(s: Seq<char>)
    ensures
        trim_start(s).len() <= s.len(),
        trim_start(s).len() > 0 ==> !is_white(trim_start(s)[0]),
    decreases s.len(),
{
    if s.len() > 0 && is_white(s[0]) {
        lemma_trim_start_len(s.skip(1));
    }
}

proof fn lemma_word_len(s: Seq<char>)
    ensures
        0 <= word_len(s) <= s.len(),
        s.len() > 0 && !is_white(s[0]) ==> word_len(s) > 0,
    decreases s.len(),
{
    if s.len() > 0 && !is_white(s[0]) {
        lemma_word_len(s.skip(1));
    }
}

fn word_end(cs: &[char]) -> (r: usize)
    ensures
        r == word_len(cs@),
        r <= cs@.len(),
{
    let mut i: usize = 0;
    proof {
        assert(cs@.skip(0) =~= cs@);
    }
    while i < cs.len() && !white(cs[i])
        invariant
            i <= cs@.len(),
            word_len(cs@) == i + word_len(cs@.skip(i as int)),
        decreases cs@.len() - i,
    {
        proof {
            assert(cs@.skip(i as int).skip(1) =~= cs@.skip(i as int + 1));
        }
        i = i + 1;
    }
    i
}

/// The words of `cs` between its white space.
pub fn fields(cs: &[char]) -> (r: Vec<Vec<char>>)
    ensures
        views(r@) == split_whitespace(cs@),
{
    let n = cs.len();
    let mut out: Vec<Vec<char>> = Vec::new();
    let mut at: usize = 0;
    proof {
        assert(cs@.skip(0) =~= cs@);
        assert(views(out@) + split_whitespace(cs@) =~= split_whitespace(cs@));
    }
    loop
        invariant
            n == cs@.len(),
            at <= n,
            split_whitespace(cs@) == views(out@) + split_whitespace(cs@.skip(at as int)),
        decreases n - at,
    {
        let rest = slice_subrange(cs, at, n);
        proof {
            assert(rest@ =~= cs@.skip(at as int));
            lemma_trim_start_len(rest@);
            lemma_trim_start_is_suffix(rest@);
        }
        let t = trimmed_start(rest);
        if t.len() == 0 {
            proof {
                assert(views(out@) + Seq::<Seq<char>>::empty() =~= views(out@));
            }
            return out;
        }
        let k = word_end(t);
        let m = t.len();
        proof {
            lemma_word_len(t@);
            assert(t@.skip(k as int) =~= cs@.skip(n - m + k));
        }
        let ghost before = out@;
        out.push(crate::text::copied(slice_subrange(t, 0, k)));
        proof {
            assert(t@.take(k as int) =~= t@.subrange(0, k as int));
            assert(views(out@) =~= views(before).push(t@.take(k as int)));
            assert(views(before) + (seq![t@.take(k as int)] + split_whitespace(t@.skip(k as int)))
                =~= views(out@) + split_whitespace(t@.skip(k as int)));
        }
        at = n - m + k;
    }
}

proof fn lemma_trim_start_is_suffix(s: Seq<char>)
    ensures
        trim_start(s).len() <= s.len(),
        trim_start(s) == s.skip(s.len() - trim_start(s).len()),
    decreases s.len(),
{
    if s.len() > 0 && is_white(s[0]) {
        lemma_trim_start_is_suffix(s.skip(1));
        let n = trim_start(s).len();
        assert(s.skip(1).skip(s.len() - 1 - n) =~= s.skip(s.len() - n));
    } else {
        assert(s.skip(0) =~= s);
    }
}

/// The words of `v` with one space between each two.
pub open spec fn joined(v: Seq<Seq<char>>) -> Seq<char>
    decreases v.len(),
{
    if v.len() == 0 {
        Seq::empty()
    } else if v.len() == 1 {
        v[0]
    } else {
        joined(v.drop_last()) + seq![' '] + v.last()
    }
}

/// The entry of one line of a colour table, `R G B name`.
pub open spec fn table_entry(line: Seq<char>) -> Option<(Seq<char>, Rgb)> {
    let f = split_whitespace(line);
    if f.len() < 4 {
        None
    } else {
        match rgb_of(natural_to(f[0], 10, 255), natural_to(f[1], 10, 255), natural_to(f[2], 10, 255)) {
            Some(c) => Some((lower(joined(f.skip(3))), c)),
            None => None,
        }
    }
}

/// The entries of a colour table, line by line.
pub open spec fn table_entries(ls: Seq<Seq<char>>) -> Seq<(Seq<char>, Rgb)>
    decreases ls.len(),
{
    if ls.len() == 0 {
        Seq::empty()
    } else {
        let rest = table_entries(ls.drop_last());
        match table_entry(ls.last()) {
            Some(e) => rest.push(e),
            None => rest,
        }
    }
}

/// A table of named colours, names in small letters.
#[derive(Clone, Debug)]
pub struct ColorNames {
    pub entries: Vec<(String, Rgb)>,
}

impl View for ColorNames {
    type V = Seq<(Seq<char>, Rgb)>;

    open spec fn view(&self) -> Seq<(Seq<char>, Rgb)> {
        Seq::new(self.entries@.len(), |i: int| (self.entries@[i].0@, self.entries@[i].1))
    }
}

/// The colour of `name` in a table. Of two entries with one name the later one
/// counts.
pub open spec fn named(table: Seq<(Seq<char>, Rgb)>, name: Seq<char>) -> Option<Rgb>
    decreases table.len(),
{
    if table.len() == 0 {
        None
    } else if table.last().0 == name {
        Some(table.last().1)
    } else {
        named(table.drop_last(), name)
    }
}

fn join_from(f: &Vec<Vec<char>>, from: usize) -> (r: Vec<char>)
    requires
        from < f@.len(),
    ensures
        r@ == joined(views(f@).skip(from as int)),
{
    let ghost w = views(f@).skip(from as int);
    let mut out = crate::text::copied(f[from].as_slice());
    let n = f.len();
    assert(from < n);
    let mut i: usize = from + 1;
    proof {
        assert(w.take(1).len() == 1);
        assert(w.take(1)[0] == f@[from as int]@);
    }
    while i < f.len()
        invariant
            from < i <= f@.len(),
            w == views(f@).skip(from as int),
            out@ == joined(w.take(i - from)),
        decreases f@.len() - i,
    {
        let word = crate::text::copied(f[i].as_slice());
        out.push(' ');
        let mut word = word;
        proof {
            assert(w.take(i + 1 - from).drop_last() =~= w.take(i - from));
            assert(w.take(i + 1 - from).last() == f@[i as int]@);
            assert(joined(w.take(i - from)).push(' ') =~= joined(w.take(i - from)) + seq![' ']);
        }
        out.append(&mut word);
        i = i + 1;
    }
    proof {
        assert(w.take(w.len() as int) =~= w);
    }
    out
}

/// Read a table of `R G B<TAB>name` lines. Lines of any other shape are
/// skipped; names are kept in small letters, so a lookup ignores case.
pub fn x11_colors(text: &str) -> (r: ColorNames)
    ensures
        r@ == table_entries(lines(text@)),
{
    let cs = chars(text);
    let ls = lines_of(cs.as_slice());
    let ghost all = views(ls@);
    let mut names = ColorNames { entries: Vec::new() };
    let mut i: usize = 0;
    proof {
        assert(names@ =~= table_entries(all.take(0)));
    }
    while i < ls.len()
        invariant
            all == views(ls@),
            i <= ls@.len(),
            names@ == table_entries(all.take(i as int)),
        decreases ls@.len() - i,
    {
        proof {
            assert(all.take(i as int + 1).drop_last() =~= all.take(i as int));
            assert(all.take(i as int + 1).last() == ls@[i as int]@);
        }
        let f = fields(ls[i].as_slice());
        let ghost before = names@;
        if f.len() >= 4 {
            proof {
                assert(views(f@)[0] == f@[0]@);
                assert(views(f@)[1] == f@[1]@);
                assert(views(f@)[2] == f@[2]@);
            }
            match (
                read_natural(f[0].as_slice(), 10, 255),
                read_natural(f[1].as_slice(), 10, 255),
                read_natural(f[2].as_slice(), 10, 255),
            ) {
                (Some(r), Some(g), Some(b)) => {
                    let name = join_from(&f, 3);
                    let small = lowered(name.as_slice());
                    names.entries.push((
                        string(small.as_slice()),
                        Rgb { r: r as u8, g: g as u8, b: b as u8 },
                    ));
                    proof {
                        assert(names@ =~= before.push((
                            lower(joined(views(f@).skip(3))),
                            Rgb { r: r as u8, g: g as u8, b: b as u8 },
                        )));
                    }
                },
                _ => {},
            }
        }
        i = i + 1;
    }
    proof {
        assert(all.take(all.len() as int) =~= all);
    }
    names
}

impl ColorNames {
    /// The colour of `name`, which is in small letters.
    pub fn get(&self, name: &[char]) -> (r: Option<Rgb>)
        ensures
            r == named(self@, name@),
    {
        let mut n: usize = self.entries.len();
        proof {
            assert(self@.take(n as int) =~= self@);
        }
        while n > 0
            invariant
                n <= self.entries@.len(),
                named(self@, name@) == named(self@.take(n as int), name@),
            decreases n,
        {
            proof {
                assert(self@.take(n as int).drop_last() =~= self@.take(n as int - 1));
                assert(self@.take(n as int).last() == self@[n as int - 1]);
            }
            let e = &self.entries[n - 1];
            if spells(name, e.0.as_str()) {
                return Some(e.1);
            }
            n = n - 1;
        }
        None
    }
}

/// The colour that a value names: an X11 name, else a hex literal.
pub open spec fn color_value(s: Seq<char>, names: Seq<(Seq<char>, Rgb)>) -> Option<Rgb> {
    match named(names, lower(trim(s))) {
        Some(c) => Some(c),
        None => hex_color(s),
    }
}

/// Parse a colour: an X11 name in any case, then a hex literal.
pub fn parse_color(s: &str, names: &ColorNames) -> (r: Option<Rgb>)
    ensures
        r == color_value(s@, names@),
{
    let cs = chars(s);
    let name = lowered(trimmed(cs.as_slice()));
    match names.get(name.as_slice()) {
        Some(c) => Some(c),
        None => parse_hex(s),
    }
}

/// A required colour: empty resets to `default`, a colour sets it, anything
/// else keeps `current`.
pub open spec fn color_or(
    v: Seq<char>,
    names: Seq<(Seq<char>, Rgb)>,
    default: Rgb,
    current: Rgb,
) -> Rgb {
    if v.len() == 0 {
        default
    } else {
        match color_value(v, names) {
            Some(c) => c,
            None => current,
        }
    }
}

/// Resolve a required colour setting.
pub fn color(value: &str, names: &ColorNames, default: Rgb, current: Rgb) -> (r: Rgb)
    ensures
        r == color_or(value@, names@, default, current),
{
    if value.is_empty() {
        default
    } else {
        match parse_color(value, names) {
            Some(c) => c,
            None => current,
        }
    }
}

/// An optional colour: empty resets to `default`, a colour sets it, anything
/// else keeps `current`.
pub open spec fn opt_color_or(
    v: Seq<char>,
    names: Seq<(Seq<char>, Rgb)>,
    default: Option<Rgb>,
    current: Option<Rgb>,
) -> Option<Rgb> {
    if v.len() == 0 {
        default
    } else {
        match color_value(v, names) {
            Some(c) => Some(c),
            None => current,
        }
    }
}

/// Resolve an optional colour setting.
pub fn opt_color(
    value: &str,
    names: &ColorNames,
    default: Option<Rgb>,
    current: Option<Rgb>,
) -> (r: Option<Rgb>)
    ensures
        r == opt_color_or(value@, names@, default, current),
{
    if value.is_empty() {
        default
    } else {
        match parse_color(value, names) {
            Some(c) => Some(c),
            None => current,
        }
    }
}

// ---------------------------------------------------------------- deferring

/// A colour that may instead defer to the cell's own colours.
#[derive(Clone, Copy, Debug, PartialEq, Eq, Structural)]
pub enum TerminalColor {
    Color(Rgb),
    /// The cell's foreground colour.
    CellForeground,
    /// The cell's background colour.
    CellBackground,
}

/// The terminal colour that a value spells.
pub open spec fn terminal_color_value(
    v: Seq<char>,
    names: Seq<(Seq<char>, Rgb)>,
) -> Option<TerminalColor> {
    if lower(trim(v)) == "cell-foreground"@ {
        Some(TerminalColor::CellForeground)
    } else if lower(trim(v)) == "cell-background"@ {
        Some(TerminalColor::CellBackground)
    } else {
        match color_value(v, names) {
            Some(c) => Some(TerminalColor::Color(c)),
            None => None,
        }
    }
}

impl TerminalColor {
    /// Parse `cell-foreground`, `cell-background` or a colour.
    pub fn parse(v: &str, names: &ColorNames) -> (r: Option<Self>)
        ensures
            r == terminal_color_value(v@, names@),
    {
        let cs = chars(v);
        let word = lowered(trimmed(cs.as_slice()));
        if spells(word.as_slice(), "cell-foreground") {
            return Some(TerminalColor::CellForeground);
        }
        if spells(word.as_slice(), "cell-background") {
            return Some(TerminalColor::CellBackground);
        }
        match parse_color(v, names) {
            Some(c) => Some(TerminalColor::Color(c)),
            None => None,
        }
    }

    /// The colour against the cell's own colours.
    pub fn resolve(self, cell_fg: Rgb, cell_bg: Rgb) -> (r: Rgb)
        ensures
            r == match self {
                TerminalColor::Color(c) => c,
                TerminalColor::CellForeground => cell_fg,
                TerminalColor::CellBackground => cell_bg,
            },
    {
        match self {
            TerminalColor::Color(c) => c,
            TerminalColor::CellForeground => cell_fg,
            TerminalColor::CellBackground => cell_bg,
        }
    }
}

// ---------------------------------------------------------------- palette

/// The palette index and colour of `<index>=<colour>`.
pub open spec fn palette_entry(
    s: Seq<char>,
    names: Seq<(Seq<char>, Rgb)>,
) -> Option<(int, Rgb)> {
    match split_once(s, '=') {
        Some(p) => match (natural_to(trim(p.0), 10, 255), color_value(trim(p.1), names)) {
            (Some(i), Some(c)) => Some((i, c)),
            _ => None,
        },
        None => None,
    }
}

/// Parse a palette override, `<index>=<colour>` with an index of 0 to 255.
pub fn parse_palette_entry(s: &str, names: &ColorNames) -> (r: Option<(u8, Rgb)>)
    ensures
        match r {
            Some(e) => palette_entry(s@, names@) == Some((e.0 as int, e.1)),
            None => palette_entry(s@, names@) is None,
        },
{
    let cs = chars(s);
    match halves(cs.as_slice(), '=') {
        Some((idx, col)) => {
            let text = string(trimmed(col));
            match (read_natural(trimmed(idx), 10, 255), parse_color(text.as_str(), names)) {
                (Some(i), Some(c)) => Some((i as u8, c)),
                _ => None,
            }
        },
        None => None,
    }
}

/// The sixteen ANSI colours: normal, then bright.
pub open spec fn ansi16() -> Seq<Rgb> {
    seq![
        Rgb { r: 0x10, g: 0x12, b: 0x18 },
        Rgb { r: 0xcc, g: 0x66, b: 0x66 },
        Rgb { r: 0xb5, g: 0xbd, b: 0x68 },
        Rgb { r: 0xf0, g: 0xc6, b: 0x74 },
        Rgb { r: 0x81, g: 0xa2, b: 0xbe },
        Rgb { r: 0xb2, g: 0x94, b: 0xbb },
        Rgb { r: 0x8a, g: 0xbe, b: 0xb7 },
        Rgb { r: 0xc5, g: 0xc8, b: 0xc6 },
        Rgb { r: 0x66, g: 0x6a, b: 0x73 },
        Rgb { r: 0xd5, g: 0x4e, b: 0x53 },
        Rgb { r: 0xb9, g: 0xca, b: 0x4a },
        Rgb { r: 0xe7, g: 0xc5, b: 0x47 },
        Rgb { r: 0x7a, g: 0xa6, b: 0xda },
        Rgb { r: 0xc3, g: 0x97, b: 0xd8 },
        Rgb { r: 0x70, g: 0xc0, b: 0xb1 },
        Rgb { r: 0xea, g: 0xea, b: 0xea },
    ]
}

/// The sixteen ANSI colours.
pub fn giest_ansi16() -> (r: [Rgb; 16])
    ensures
        r@ == ansi16(),
{
    let p = [
        Rgb { r: 0x10, g: 0x12, b: 0x18 },
        Rgb { r: 0xcc, g: 0x66, b: 0x66 },
        Rgb { r: 0xb5, g: 0xbd, b: 0x68 },
        Rgb { r: 0xf0, g: 0xc6, b: 0x74 },
        Rgb { r: 0x81, g: 0xa2, b: 0xbe },
        Rgb { r: 0xb2, g: 0x94, b: 0xbb },
        Rgb { r: 0x8a, g: 0xbe, b: 0xb7 },
        Rgb { r: 0xc5, g: 0xc8, b: 0xc6 },
        Rgb { r: 0x66, g: 0x6a, b: 0x73 },
        Rgb { r: 0xd5, g: 0x4e, b: 0x53 },
        Rgb { r: 0xb9, g: 0xca, b: 0x4a },
        Rgb { r: 0xe7, g: 0xc5, b: 0x47 },
        Rgb { r: 0x7a, g: 0xa6, b: 0xda },
        Rgb { r: 0xc3, g: 0x97, b: 0xd8 },
        Rgb { r: 0x70, g: 0xc0, b: 0xb1 },
        Rgb { r: 0xea, g: 0xea, b: 0xea },
    ];
    proof {
        assert(p@ =~= ansi16());
    }
    p
}

/// The level of one step of the colour cube.
pub open spec fn cube_level(step: int) -> int {
    if step == 0 {
        0
    } else {
        55 + 40 * step
    }
}

/// The colour of index `i` in the standard palette over sixteen base colours:
/// the base colours, a 6 by 6 by 6 cube, and 24 greys.
pub open spec fn palette_color(base: Seq<Rgb>, i: int) -> Rgb {
    if i < 16 {
        base[i]
    } else if i < 232 {
        Rgb {
            r: cube_level((i - 16) / 36) as u8,
            g: cube_level((i - 16) / 6 % 6) as u8,
            b: cube_level((i - 16) % 6) as u8,
        }
    } else {
        let v = (8 + (i - 232) * 10) as u8;
        Rgb { r: v, g: v, b: v }
    }
}

/// The standard palette over sixteen base colours.
pub open spec fn palette_over(base: Seq<Rgb>) -> Seq<Rgb> {
    Seq::new(256, |i: int| palette_color(base, i))
}

fn level(step: usize) -> (r: u8)
    requires
        step < 6,
    ensures
        r == cube_level(step as int),
{
    if step == 0 {
        0
    } else {
        (55 + 40 * step) as u8
    }
}

/// Build the standard 256-colour palette from the sixteen base colours.
pub fn xterm_palette(base16: [Rgb; 16]) -> (p: [Rgb; 256])
    ensures
        p@ == palette_over(base16@),
{
    let mut p: [Rgb; 256] = [Rgb { r: 0, g: 0, b: 0 };256];
    let mut i: usize = 0;
    while i < 256
        invariant
            i <= 256,
            p@.len() == 256,
            forall|j: int| 0 <= j < i ==> p@[j] == palette_color(base16@, j),
        decreases 256 - i,
    {
        let c = if i < 16 {
            base16[i]
        } else if i < 232 {
            let k: usize = i - 16;
            Rgb { r: level(k / 36), g: level(k / 6 % 6), b: level(k % 6) }
        } else {
            let v: u8 = (8 + (i - 232) * 10) as u8;
            Rgb { r: v, g: v, b: v }
        };
        p[i] = c;
        i = i + 1;
    }
    proof {
        assert(p@ =~= palette_over(base16@));
    }
    p
}

/// Whether a text is one word.
pub open spec fn one_word(w: Seq<char>) -> bool {
    w.len() > 0 && forall|i: int| 0 <= i < w.len() ==> !is_white(#[trigger] w[i])
}

/// White space between two words.
pub open spec fn gap(s: Seq<char>) -> bool {
    s.len() > 0 && crate::text::all_white(s)
}

proof fn lemma_word_len_of(w: Seq<char>, rest: Seq<char>)
    requires
        forall|i: int| 0 <= i < w.len() ==> !is_white(#[trigger] w[i]),
        rest.len() == 0 || is_white(rest[0]),
    ensures
        word_len(w + rest) == w.len(),
    decreases w.len(),
{
    let s = w + rest;
    if w.len() == 0 {
        assert(s =~= rest);
    } else {
        assert(!is_white(w[0]));
        assert(s[0] == w[0]);
        assert(s.skip(1) =~= w.skip(1) + rest);
        assert forall|i: int| 0 <= i < w.skip(1).len() implies !is_white(
            #[trigger] w.skip(1)[i],
        ) by {
            assert(!is_white(w[i + 1]));
        }
        lemma_word_len_of(w.skip(1), rest);
    }
}

proof fn lemma_first_word(w: Seq<char>, g: Seq<char>, rest: Seq<char>)
    requires
        one_word(w),
        gap(g),
    ensures
        split_whitespace(w + g + rest) == seq![w] + split_whitespace(rest),
        split_whitespace(w) == seq![w],
{
    let s = w + g + rest;
    assert(!is_white(w[0]));
    assert(s[0] == w[0]);
    assert(is_white(g[0]));
    assert(s =~= w + (g + rest));
    lemma_word_len_of(w, g + rest);
    assert(s.take(w.len() as int) =~= w);
    assert(s.skip(w.len() as int) =~= g + rest);
    crate::text::lemma_trim_start_drops(g, rest);
    assert(split_whitespace(g + rest) == split_whitespace(rest));
    let none = Seq::<char>::empty();
    lemma_word_len_of(w, none);
    assert(w + none =~= w);
    assert(w.take(w.len() as int) =~= w);
    assert(w.skip(w.len() as int) =~= none);
    assert(split_whitespace(none) =~= Seq::<Seq<char>>::empty());
    assert(seq![w] + Seq::<Seq<char>>::empty() =~= seq![w]);
}

proof fn lemma_decimal_word(n: u8)
    ensures
        one_word(crate::text::decimal(n as nat)),
        natural_to(crate::text::decimal(n as nat), 10, 255) == Some(n as int),
{
    let d = crate::text::decimal(n as nat);
    crate::text::lemma_decimal(n as nat);
    crate::text::law_decimal_reads_back(n as nat);
    assert forall|i: int| 0 <= i < d.len() implies !is_white(#[trigger] d[i]) by {
        crate::text::law_ascii_white_space(d[i]);
    }
}

/// A line of a colour table is red, green and blue and then the name, in one word
/// or two, with white space between; the name is known in small letters.
pub proof fn law_table_lines(
    c: Rgb,
    g: Seq<char>,
    name: Seq<char>,
    more: Seq<char>,
)
    requires
        gap(g),
        one_word(name),
        one_word(more),
    ensures
        ({
            let d = |n: u8| crate::text::decimal(n as nat);
            let line = d(c.r) + g + (d(c.g) + g + (d(c.b) + g + name));
            let longer = d(c.r) + g + (d(c.g) + g + (d(c.b) + g + (name + g + more)));
            &&& table_entry(line) == Some((lower(name), c))
            &&& table_entry(longer) == Some((lower(name + seq![' '] + more), c))
            &&& table_entry(d(c.r) + g + (d(c.g) + g + d(c.b))) is None
        }),
{
    let (r, gr, b) = (
        crate::text::decimal(c.r as nat),
        crate::text::decimal(c.g as nat),
        crate::text::decimal(c.b as nat),
    );
    lemma_decimal_word(c.r);
    lemma_decimal_word(c.g);
    lemma_decimal_word(c.b);
    lemma_first_word(name, g, more);
    lemma_first_word(more, g, more);
    lemma_first_word(b, g, name);
    lemma_first_word(gr, g, b + g + name);
    lemma_first_word(r, g, gr + g + (b + g + name));
    let f = seq![r] + (seq![gr] + (seq![b] + seq![name]));
    assert(f.len() == 4 && f[0] == r && f[1] == gr && f[2] == b);
    assert(f.skip(3) =~= seq![name]);
    let two = name + g + more;
    lemma_first_word(b, g, two);
    lemma_first_word(gr, g, b + g + two);
    lemma_first_word(r, g, gr + g + (b + g + two));
    let h = seq![r] + (seq![gr] + (seq![b] + (seq![name] + seq![more])));
    assert(h.len() == 5 && h[0] == r && h[1] == gr && h[2] == b);
    assert(h.skip(3) =~= seq![name, more]);
    assert(seq![name, more].drop_last() =~= seq![name]);
    assert(joined(seq![name]) == name);
    lemma_first_word(gr, g, b);
    lemma_first_word(r, g, gr + g + b);
}

/// The entries of a table are those of its lines, in order; a line that is none is
/// passed over.
pub proof fn law_tables_line_by_line(a: Seq<Seq<char>>, b: Seq<Seq<char>>)
    ensures
        table_entries(a + b) == table_entries(a) + table_entries(b),
        b.len() == 1 && table_entry(b[0]) is Some ==> table_entries(b) == seq![
            table_entry(b[0])->0,
        ],
        b.len() == 1 && table_entry(b[0]) is None ==> table_entries(b).len() == 0,
    decreases b.len(),
{
    if b.len() == 0 {
        assert(a + b =~= a);
    } else {
        law_tables_line_by_line(a, b.drop_last());
        assert((a + b).drop_last() =~= a + b.drop_last());
        assert((a + b).last() == b.last());
        if b.len() == 1 {
            assert(b.drop_last() =~= Seq::<Seq<char>>::empty());
        }
        assert(table_entries(a + b) =~= table_entries(a) + table_entries(b));
    }
}

} // verus!
