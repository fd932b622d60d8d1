//! How values are read: numbers, durations, colours, flags, themes, paths and
//! escapes.

use crate::config::color::{
    ansi16, color_value, hex_color, named, palette_color, palette_entry, palette_over,
    terminal_color_value, TerminalColor,
};
use crate::config::flags::{applied, packed, place, request};
use crate::config::grammar::{
    codepoint, codepoint_range, duration_ms, duration_ns, lemma_run_len, run_len, simple_escape,
    unescaped, unit_ns,
};
use crate::config::lines::{
    expanded, font_style, included, theme_variant, unquoted, variant, FontStyleView, LocatedView,
};
use crate::config::meaning::plain_key;
use crate::config::set::{
    is_decimal_text, is_exponent, is_nonfinite_word, is_number, modifier, unsigned, ModifierView,
};
use crate::engine::Rgb;
use crate::text::{
    begins, decimal, digit, digits_value, first_index, holds, integer_in, is_decimal, is_digits,
    is_white, joined, law_parts_at_the_first, law_trim_takes_the_white_space_round, lemma_decimal,
    lemma_first_index, lemma_split_joined, lower, natural, natural_to, split, split_once,
    strip_prefix, tight, trim, trim_end, trim_start,
};
use vstd::prelude::*;

verus! {

// ---------------------------------------------------------------- trimming

/// A text without white space round it stays as it is when trimmed.
pub(crate) proof fn lemma_tight_stays(s: Seq<char>)
    requires
        tight(s),
    ensures
        trim(s) == s,
{
    let none = Seq::<char>::empty();
    assert(none + s + none =~= s);
    law_trim_takes_the_white_space_round(none, s, none);
}

pub(crate) proof fn lemma_decimal_is_tight(n: nat)
    ensures
        decimal(n).len() > 0,
        tight(decimal(n)),
        forall|i: int| 0 <= i < decimal(n).len() ==> '0' <= #[trigger] decimal(n)[i] <= '9',
        natural(decimal(n), 10) == Some(n as int),
        decimal(n)[0] != '+',
        decimal(n)[0] != '-',
        decimal(n).last() != '%',
        !is_white(decimal(n)[0]),
        !is_white(decimal(n).last()),
{
    lemma_decimal(n);
    let d = decimal(n);
    assert('0' <= d[0] <= '9');
    assert('0' <= d[d.len() - 1] <= '9');
}

// ---------------------------------------------------------------- numbers

/// Digits of ASCII.
pub open spec fn ascii_digits(s: Seq<char>) -> bool {
    forall|i: int| 0 <= i < s.len() ==> 48 <= (#[trigger] s[i]) as int <= 57
}

/// A number as one writes it: digits, perhaps behind a minus sign, and perhaps a
/// point with digits behind it.
pub open spec fn written_number(minus: bool, whole: Seq<char>, part: Option<Seq<char>>) -> Seq<char> {
    (if minus {
        seq!['-']
    } else {
        Seq::empty()
    }) + whole + match part {
        Some(p) => seq!['.'] + p,
        None => Seq::empty(),
    }
}

/// Whether `v` is a number as one writes it.
pub open spec fn plain_number(v: Seq<char>) -> bool {
    exists|minus: bool, whole: Seq<char>, part: Option<Seq<char>>|
        #![trigger written_number(minus, whole, part)]
        v == written_number(minus, whole, part) && whole.len() > 0 && ascii_digits(whole) && (
        part matches Some(p) ==> ascii_digits(p))
}

pub(crate) proof fn lemma_run_is(a: Seq<char>, t: Seq<char>, digits: bool)
    requires
        forall|i: int| 0 <= i < a.len() ==> is_decimal(#[trigger] a[i]) == digits,
        t.len() > 0 ==> is_decimal(t[0]) != digits,
    ensures
        run_len(a + t, digits) == a.len(),
{
    let s = a + t;
    lemma_run_len(s, digits);
    let r = run_len(s, digits);
    if r < a.len() {
        assert(s[r] == a[r]);
    }
    if r > a.len() {
        assert(s[a.len() as int] == t[0]);
    }
}

pub(crate) proof fn lemma_plain_number(v: Seq<char>)
    requires
        plain_number(v),
    ensures
        is_number(v),
        is_decimal_text(unsigned(v)),
        tight(v),
        v.len() > 0,
        v[0] != '"',
        v[0] != '\'',
        !v.contains('\n'),
{
    let (minus, whole, part) = choose|minus: bool, whole: Seq<char>, part: Option<Seq<char>>|
        #![trigger written_number(minus, whole, part)]
        v == written_number(minus, whole, part) && whole.len() > 0 && ascii_digits(whole) && (
        part matches Some(p) ==> ascii_digits(p));
    let none = Seq::<char>::empty();
    let tail = match part {
        Some(p) => seq!['.'] + p,
        None => none,
    };
    let u = whole + tail;
    assert(48 <= whole[0] as int <= 57);
    if minus {
        assert(v[0] == '-');
        assert(v.skip(1) =~= u);
    } else {
        assert(v =~= u);
        assert(v[0] == whole[0]);
    }
    assert(unsigned(v) == u);
    assert forall|i: int| 0 <= i < whole.len() implies is_decimal(#[trigger] whole[i]) == true by {
        assert(48 <= whole[i] as int <= 57);
    }
    lemma_run_is(whole, tail, true);
    assert(u.skip(whole.len() as int) =~= tail);
    if let Some(p) = part {
        assert(tail.skip(1) =~= p);
        assert forall|i: int| 0 <= i < p.len() implies is_decimal(#[trigger] p[i]) == true by {
            assert(48 <= p[i] as int <= 57);
        }
        assert(p + none =~= p);
        lemma_run_is(p, none, true);
        assert(tail.skip(1 + p.len() as int) =~= none);
    }
    assert forall|i: int| 0 <= i < v.len() implies #[trigger] v[i] != '\n' && !is_white(v[i]) by {
        let k = if minus {
            i - 1
        } else {
            i
        };
        if k >= 0 {
            assert(v[i] == u[k]);
            if k < whole.len() {
                assert(u[k] == whole[k]);
                assert(48 <= whole[k] as int <= 57);
            } else if let Some(p) = part {
                if k > whole.len() {
                    assert(u[k] == p[k - whole.len() - 1]);
                    assert(48 <= p[k - whole.len() - 1] as int <= 57);
                }
            }
        }
    }
    assert(!is_white(v[0]));
    assert(!is_white(v[v.len() - 1]));
}

/// Whether a text cannot be a number: it begins with a letter that begins none.
pub open spec fn no_number(v: Seq<char>) -> bool {
    &&& v.len() > 0
    &&& 97 <= v[0] as int <= 122 || 65 <= v[0] as int <= 90
    &&& v[0] != 'i' && v[0] != 'I' && v[0] != 'n' && v[0] != 'N'
}

pub(crate) proof fn lemma_no_number(v: Seq<char>)
    requires
        no_number(v),
    ensures
        !is_number(v),
        natural(v, 10) is None,
        duration_ns(v) is None,
        integer_in(v, i16::MIN as int, i16::MAX as int) is None,
        integer_in(v, i32::MIN as int, i32::MAX as int) is None,
{
    let none = Seq::<char>::empty();
    assert(unsigned(v) == v);
    assert(none + v =~= v);
    lemma_run_is(none, v, true);
    reveal_strlit("inf");
    reveal_strlit("infinity");
    reveal_strlit("nan");
    if is_nonfinite_word(v) {
        assert(lower(v)[0] == crate::text::lower_char(v[0]));
        assert("inf"@[0] == 'i' && "infinity"@[0] == 'i' && "nan"@[0] == 'n');
    }
    assert(v.skip(0) =~= v);
    assert(v[0] != '.');
    assert(!is_digits(v, 10)) by {
        assert(digit(v[0]) >= 10);
    }
}

/// A number as one writes it is read as a number; a word is not.
pub proof fn law_numbers_are_told_from_words(v: Seq<char>)
    ensures
        plain_number(v) ==> is_number(v),
        no_number(v) ==> !is_number(v),
{
    if plain_number(v) {
        lemma_plain_number(v);
    }
    if no_number(v) {
        lemma_no_number(v);
    }
}

/// An adjustment is a whole number of pixels, up or down, or a percentage.
pub proof fn law_adjustments(n: nat)
    ensures
        n <= i32::MAX ==> modifier(decimal(n)) == Some(ModifierView::Pixels(n as i32)),
        n <= i32::MAX ==> modifier(seq!['-'] + decimal(n)) == Some(
            ModifierView::Pixels(-(n as int) as i32),
        ),
        modifier(decimal(n).push('%')) == Some(ModifierView::Percent(decimal(n))),
        modifier((seq!['-'] + decimal(n)).push('%')) == Some(
            ModifierView::Percent(seq!['-'] + decimal(n)),
        ),
{
    let d = decimal(n);
    let m = seq!['-'] + d;
    lemma_decimal_is_tight(n);
    lemma_decimal(n);
    lemma_tight_stays(d);
    assert(m.last() == d.last());
    lemma_tight_stays(m);
    assert(m.skip(1) =~= d);
    assert(d.push('%').drop_last() =~= d);
    assert(m.push('%').drop_last() =~= m);
    lemma_tight_stays(d.push('%'));
    lemma_tight_stays(m.push('%'));
    let none = Seq::<char>::empty();
    assert(ascii_digits(d)) by {
        assert forall|i: int| 0 <= i < d.len() implies 48 <= (#[trigger] d[i]) as int <= 57 by {
            assert('0' <= d[i] <= '9');
        }
    }
    assert(written_number(false, d, None) =~= d);
    assert(written_number(true, d, None) =~= m);
    assert(plain_number(d));
    assert(plain_number(m));
    lemma_plain_number(d);
    lemma_plain_number(m);
}

// ---------------------------------------------------------------- durations

proof fn lemma_with_unit(n: nat, u: Seq<char>, per: int)
    requires
        u.len() > 0,
        forall|i: int| 0 <= i < u.len() ==> !is_decimal(#[trigger] u[i]),
        digit(u[0]) >= 10,
        !is_white(u.last()),
        unit_ns(u) == Some(per),
        n <= u128::MAX,
        per >= 1,
    ensures
        ({
            let ms = (n * per) / 1_000_000;
            duration_ms(decimal(n) + u) == Some(
                if ms <= u64::MAX {
                    ms
                } else {
                    u64::MAX as int
                },
            )
        }),
{
    let d = decimal(n);
    let s = d + u;
    let none = Seq::<char>::empty();
    lemma_decimal_is_tight(n);
    lemma_decimal(n);
    assert(s[0] == d[0] && s.last() == u.last());
    lemma_tight_stays(s);
    assert forall|i: int| 0 <= i < d.len() implies is_decimal(#[trigger] d[i]) == true by {
        assert('0' <= d[i] <= '9');
    }
    lemma_run_is(d, u, true);
    assert(s.skip(d.len() as int) =~= u);
    assert(s.take(d.len() as int) =~= d);
    assert(u + none =~= u);
    lemma_run_is(u, none, false);
    assert(u.take(u.len() as int) =~= u);
    assert(u.skip(u.len() as int) =~= none);
    assert(duration_ns(none) == Some(0int));
    assert(duration_ns(s) == Some(n * per + 0));
    assert(!is_digits(s, 10)) by {
        assert(s[d.len() as int] == u[0]);
        assert(digit(s[d.len() as int]) >= 10);
    }
}

/// Each unit of time is worth what it says, in milliseconds: a bare number is
/// one of them; smaller units count as far as they make whole ones.
pub proof fn law_units_of_time(n: nat)
    requires
        n * 31_536_000_000 <= u64::MAX,
    ensures
        duration_ms(decimal(n)) == Some(n as int),
        duration_ms(decimal(n) + "ms"@) == Some(n as int),
        duration_ms(decimal(n) + "s"@) == Some(1000 * (n as int)),
        duration_ms(decimal(n) + "m"@) == Some(60_000 * (n as int)),
        duration_ms(decimal(n) + "h"@) == Some(3_600_000 * (n as int)),
        duration_ms(decimal(n) + "d"@) == Some(86_400_000 * (n as int)),
        duration_ms(decimal(n) + "w"@) == Some(604_800_000 * (n as int)),
        duration_ms(decimal(n) + "y"@) == Some(31_536_000_000 * (n as int)),
        duration_ms(decimal(n) + "us"@) == Some(n as int / 1000),
        duration_ms(decimal(n) + "ns"@) == Some(n as int / 1_000_000),
{
    reveal_strlit("y");
    reveal_strlit("d");
    reveal_strlit("w");
    reveal_strlit("h");
    reveal_strlit("m");
    reveal_strlit("s");
    reveal_strlit("ms");
    reveal_strlit("us");
    reveal_strlit("\u{b5}s");
    reveal_strlit("ns");
    lemma_decimal_is_tight(n);
    lemma_tight_stays(decimal(n));
    assert("y"@[0] == 'y' && "d"@[0] == 'd' && "w"@[0] == 'w' && "h"@[0] == 'h' && "m"@[0] == 'm'
        && "s"@[0] == 's');
    assert("ms"@[0] == 'm' && "us"@[0] == 'u' && "\u{b5}s"@[0] == '\u{b5}' && "ns"@[0] == 'n');
    lemma_with_unit(n, "ms"@, 1_000_000);
    lemma_with_unit(n, "s"@, 1_000_000_000);
    lemma_with_unit(n, "m"@, 60_000_000_000);
    lemma_with_unit(n, "h"@, 3_600_000_000_000);
    lemma_with_unit(n, "d"@, 86_400_000_000_000);
    lemma_with_unit(n, "w"@, 604_800_000_000_000);
    lemma_with_unit(n, "y"@, 31_536_000_000_000_000);
    lemma_with_unit(n, "us"@, 1_000);
    lemma_with_unit(n, "ns"@, 1);
}

// ---------------------------------------------------------------- colours

/// A digit of base sixteen.
pub open spec fn hex_digit(c: char) -> bool {
    48 <= c as int <= 57 || 97 <= c as int <= 102 || 65 <= c as int <= 70
}

/// What a digit of base sixteen is worth.
pub open spec fn hex_worth(c: char) -> int {
    if c as int <= 57 {
        c as int - 48
    } else if c as int <= 70 {
        c as int - 55
    } else {
        c as int - 87
    }
}

proof fn lemma_pair(a: char, b: char)
    requires
        hex_digit(a),
        hex_digit(b),
    ensures
        natural_to(seq![a, b], 16, 255) == Some(16 * hex_worth(a) + hex_worth(b)),
        natural_to(seq![a], 16, 255) == Some(hex_worth(a)),
{
    let s = seq![a, b];
    assert(s.drop_last() =~= seq![a]);
    assert(seq![a].drop_last() =~= Seq::<char>::empty());
    reveal_with_fuel(digits_value, 3);
    assert(is_digits(s, 16)) by {
        assert forall|i: int| 0 <= i < s.len() implies #[trigger] digit(s[i]) < 16 by {
            if i == 0 {
                assert(s[i] == a);
            } else {
                assert(s[i] == b);
            }
        }
    }
    assert(is_digits(seq![a], 16));
}

/// Six digits of base sixteen are red, green and blue, two digits each; three are
/// the same with each digit twice. A hash before them changes nothing.
pub proof fn law_hex_colors(a: char, b: char, c: char, d: char, e: char, f: char)
    requires
        hex_digit(a),
        hex_digit(b),
        hex_digit(c),
        hex_digit(d),
        hex_digit(e),
        hex_digit(f),
    ensures
        ({
            let long = Rgb {
                r: (16 * hex_worth(a) + hex_worth(b)) as u8,
                g: (16 * hex_worth(c) + hex_worth(d)) as u8,
                b: (16 * hex_worth(e) + hex_worth(f)) as u8,
            };
            let short = Rgb {
                r: (17 * hex_worth(a)) as u8,
                g: (17 * hex_worth(b)) as u8,
                b: (17 * hex_worth(c)) as u8,
            };
            &&& hex_color(seq!['#', a, b, c, d, e, f]) == Some(long)
            &&& hex_color(seq![a, b, c, d, e, f]) == Some(long)
            &&& hex_color(seq!['#', a, b, c]) == Some(short)
            &&& hex_color(seq![a, b, c]) == Some(short)
        }),
{
    let h = seq![a, b, c, d, e, f];
    let t = seq![a, b, c];
    assert(seq!['#', a, b, c, d, e, f].skip(1) =~= h);
    assert(seq!['#', a, b, c].skip(1) =~= t);
    assert(h.subrange(0, 2) =~= seq![a, b]);
    assert(h.subrange(2, 4) =~= seq![c, d]);
    assert(h.subrange(4, 6) =~= seq![e, f]);
    assert(t.subrange(0, 1) =~= seq![a]);
    assert(t.subrange(1, 2) =~= seq![b]);
    assert(t.subrange(2, 3) =~= seq![c]);
    lemma_pair(a, b);
    lemma_pair(c, d);
    lemma_pair(e, f);
    lemma_pair(b, c);
}

/// A hex colour with any other number of digits is none.
pub proof fn law_hex_colors_have_three_or_six_digits(s: Seq<char>)
    requires
        s.len() == 0 || s[0] != '#',
        s.len() != 3,
        s.len() != 6,
    ensures
        hex_color(s) is None,
        hex_color(seq!['#'] + s) is None,
{
    assert((seq!['#'] + s).skip(1) =~= s);
}

/// A colour goes by its name in the table, in whichever case and with white space
/// round it; the last entry of a name counts. What is no name is read as hex.
pub proof fn law_named_colors(
    table: Seq<(Seq<char>, Rgb)>,
    name: Seq<char>,
    other: Seq<char>,
    x: Rgb,
    s: Seq<char>,
)
    requires
        lower(trim(s)) == name,
        other != name,
    ensures
        color_value(s, table.push((name, x))) == Some(x),
        color_value(s, table.push((other, x))) == color_value(s, table),
        color_value(s, Seq::empty()) == hex_color(s),
{
    assert(table.push((name, x)).drop_last() =~= table);
    assert(table.push((other, x)).drop_last() =~= table);
    reveal_with_fuel(named, 2);
}

/// A highlight colour may be the cell's own foreground or background; else it is
/// a colour like any other.
pub proof fn law_highlight_colors(v: Seq<char>, names: Seq<(Seq<char>, Rgb)>)
    ensures
        lower(trim(v)) == "cell-foreground"@ ==> terminal_color_value(v, names) == Some(
            TerminalColor::CellForeground,
        ),
        lower(trim(v)) == "cell-background"@ ==> terminal_color_value(v, names) == Some(
            TerminalColor::CellBackground,
        ),
        lower(trim(v)) != "cell-foreground"@ && lower(trim(v)) != "cell-background"@ ==> (match
        color_value(v, names) {
            Some(x) => terminal_color_value(v, names) == Some(TerminalColor::Color(x)),
            None => terminal_color_value(v, names) is None,
        }),
{
    reveal_strlit("cell-foreground");
    reveal_strlit("cell-background");
    assert("cell-foreground"@[5] == 'f' && "cell-background"@[5] == 'b');
}

/// A palette entry is an index from 0 to 255, an equals sign and a colour.
pub proof fn law_palette_entries(n: nat, v: Seq<char>, names: Seq<(Seq<char>, Rgb)>)
    requires
        tight(v),
    ensures
        n <= 255 ==> palette_entry(decimal(n).push('=') + v, names) == (match color_value(
            v,
            names,
        ) {
            Some(x) => Some((n as int, x)),
            None => None,
        }),
        n > 255 ==> palette_entry(decimal(n).push('=') + v, names) is None,
{
    let d = decimal(n);
    lemma_decimal_is_tight(n);
    lemma_tight_stays(d);
    lemma_tight_stays(v);
    assert(!d.contains('=')) by {
        if d.contains('=') {
            let i = d.index_of('=');
            assert('0' <= d[i] <= '9');
        }
    }
    law_parts_at_the_first(d, '=', v);
}

/// The standard palette: sixteen base colours; a cube whose channels take the
/// levels 0, 95, 135, 175, 215 and 255, red changing slowest; and a ramp of greys
/// from 8 up in steps of ten.
pub proof fn law_standard_palette(base: Seq<Rgb>, i: int, r: int, g: int, b: int, k: int)
    requires
        0 <= i < 16,
        0 <= r < 6,
        0 <= g < 6,
        0 <= b < 6,
        0 <= k < 24,
    ensures
        palette_over(base).len() == 256,
        palette_over(base)[i] == base[i],
        ({
            let x = palette_over(base)[16 + 36 * r + 6 * g + b];
            let levels = seq![0int, 95, 135, 175, 215, 255];
            x.r == levels[r] && x.g == levels[g] && x.b == levels[b]
        }),
        ({
            let x = palette_over(base)[232 + k];
            x.r == 8 + 10 * k && x.g == x.r && x.b == x.r
        }),
{
    let n = 36 * r + 6 * g + b;
    assert(n / 36 == r && n / 6 % 6 == g && n % 6 == b);
}

// ---------------------------------------------------------------- flags

/// What a list asks of flag `i` last: on, off, or nothing.
pub open spec fn last_said(
    asked: Seq<(int, bool)>,
    i: int,
) -> Option<bool>
    decreases asked.len(),
{
    if asked.len() == 0 {
        None
    } else if asked.last().0 == i {
        Some(asked.last().1)
    } else {
        last_said(asked.drop_last(), i)
    }
}

/// What a list asks of flag `i` last, or its default.
pub open spec fn asked_or(asked: Seq<(int, bool)>, i: int, default: bool) -> bool {
    match last_said(asked, i) {
        Some(on) => on,
        None => default,
    }
}

pub(crate) proof fn lemma_flag_name(n: Seq<char>)
    requires
        plain_key(n),
        n.len() < 3 || n[0] != 'n' || n[1] != 'o' || n[2] != '-',
    ensures
        lower(n) == n,
        tight(n),
        !n.contains(','),
        !begins(n, seq!['n', 'o', '-']),
{
    assert forall|i: int| 0 <= i < n.len() implies #[trigger] lower(n)[i] == n[i] by {
        assert(n[i] == n[i]);
    }
    assert(lower(n) =~= n);
    assert(n[0] == n[0] && n[n.len() - 1] == n.last());
    if n.contains(',') {
        let i = n.index_of(',');
        assert(n[i] == ',');
    }
    if begins(n, seq!['n', 'o', '-']) {
        assert(n.take(3)[0] == 'n' && n.take(3)[1] == 'o' && n.take(3)[2] == '-');
    }
}

/// A flag's name as it stands in a list: bare to turn it on, behind `no-` to turn
/// it off.
pub open spec fn flag_word(names: Seq<Seq<char>>, a: (int, bool)) -> Seq<char> {
    if a.1 {
        names[a.0]
    } else {
        seq!['n', 'o', '-'] + names[a.0]
    }
}

/// Whether these can be names of flags: small, told apart, without commas, not
/// empty, and none of them with `no-` before it.
pub open spec fn flag_names(names: Seq<Seq<char>>) -> bool {
    &&& forall|i: int|
        0 <= i < names.len() ==> {
            let n = #[trigger] names[i];
            &&& n.len() > 0
            &&& lower(n) == n
            &&& tight(n)
            &&& !n.contains(',')
            &&& !begins(n, seq!['n', 'o', '-'])
        }
    &&& forall|i: int, j: int|
        0 <= i < names.len() && 0 <= j < names.len() && i != j ==> #[trigger] names[i]
            != #[trigger] names[j]
}

proof fn lemma_place(names: Seq<Seq<char>>, i: int)
    requires
        0 <= i < names.len(),
        forall|j: int| 0 <= j < i ==> #[trigger] names[j] != names[i],
    ensures
        place(names, names[i]) == i,
    decreases names.len(),
{
    if i > 0 {
        assert(names[0] != names[i]);
        let t = names.skip(1);
        assert forall|j: int| 0 <= j < i - 1 implies #[trigger] t[j] != t[i - 1] by {
            assert(names[j + 1] != names[i]);
        }
        lemma_place(t, i - 1);
        assert(t[i - 1] == names[i]);
    }
}

proof fn lemma_flag_word(names: Seq<Seq<char>>, a: (int, bool))
    requires
        flag_names(names),
        0 <= a.0 < names.len(),
    ensures
        ({
            let w = flag_word(names, a);
            &&& tight(w)
            &&& w.len() > 0
            &&& !w.contains(',')
            &&& request(w) == (names[a.0], a.1)
            &&& place(names, names[a.0]) == a.0
        }),
{
    reveal_strlit("no-");
    let n = names[a.0];
    let no = seq!['n', 'o', '-'];
    assert("no-"@ =~= no);
    let w = flag_word(names, a);
    assert forall|j: int| 0 <= j < a.0 implies #[trigger] names[j] != names[a.0] by {}
    lemma_place(names, a.0);
    if !a.1 {
        assert(w.take(3) =~= no);
        assert(w.skip(3) =~= n);
        assert(w.last() == n.last());
        if w.contains(',') {
            let i = w.index_of(',');
            assert(n[i - 3] == ',');
        }
    }
}

proof fn lemma_flags_applied(
    names: Seq<Seq<char>>,
    asked: Seq<(int, bool)>,
    words: Seq<Seq<char>>,
    flags: Seq<bool>,
)
    requires
        flag_names(names),
        flags.len() == names.len(),
        words.len() == asked.len(),
        forall|k: int|
            0 <= k < asked.len() ==> 0 <= (#[trigger] asked[k]).0 < names.len() && words[k]
                == flag_word(names, asked[k]),
    ensures
        applied(words, names, flags) matches Some(f) && f.len() == flags.len() && forall|i: int|
            0 <= i < flags.len() ==> #[trigger] f[i] == (match last_said(asked, i) {
                Some(on) => on,
                None => flags[i],
            }),
    decreases asked.len(),
{
    if asked.len() > 0 {
        let a = asked[0];
        lemma_flag_word(names, a);
        lemma_tight_stays(words[0]);
        let next = flags.update(a.0, a.1);
        assert forall|k: int| 0 <= k < asked.skip(1).len() implies 0 <= (
        #[trigger] asked.skip(1)[k]).0 < names.len() && words.skip(1)[k] == flag_word(
            names,
            asked.skip(1)[k],
        ) by {
            assert(asked[k + 1].0 < names.len());
        }
        lemma_flags_applied(names, asked.skip(1), words.skip(1), next);
        let f = applied(words, names, flags)->0;
        assert forall|i: int| 0 <= i < flags.len() implies #[trigger] f[i] == (match last_said(
            asked,
            i,
        ) {
            Some(on) => on,
            None => flags[i],
        }) by {
            lemma_last_said_first(asked, i);
        }
    }
}

proof fn lemma_last_said_first(asked: Seq<(int, bool)>, i: int)
    requires
        asked.len() > 0,
    ensures
        last_said(asked, i) == (match last_said(asked.skip(1), i) {
            Some(on) => Some(on),
            None => if asked[0].0 == i {
                Some(asked[0].1)
            } else {
                None
            },
        }),
    decreases asked.len(),
{
    if asked.len() > 1 {
        lemma_last_said_first(asked.drop_last(), i);
        assert(asked.drop_last().skip(1) =~= asked.skip(1).drop_last());
    } else {
        assert(asked.skip(1) =~= Seq::empty());
        assert(asked.drop_last() =~= Seq::empty());
        reveal_with_fuel(last_said, 2);
    }
}

/// A list of flags, separated by commas, turns on those that it names, turns off
/// those that it names behind `no-`, the last word on a flag counting, and leaves
/// the others at their defaults.
pub proof fn law_flag_lists(
    names: Seq<Seq<char>>,
    defaults: Seq<bool>,
    asked: Seq<(int, bool)>,
)
    requires
        flag_names(names),
        defaults.len() == names.len(),
        asked.len() > 0,
        forall|k: int| 0 <= k < asked.len() ==> 0 <= (#[trigger] asked[k]).0 < names.len(),
        forall|i: int| 0 <= i < names.len() ==> (#[trigger] names[i]).len() > 1 && names[i]
            != "true"@ && names[i] != "false"@,
    ensures
        ({
            let words = Seq::new(asked.len(), |k: int| flag_word(names, asked[k]));
            packed(joined(words, ','), names, defaults) matches Some(f) && f.len() == names.len()
                && forall|i: int|
                0 <= i < names.len() ==> #[trigger] f[i] == (match last_said(asked, i) {
                    Some(on) => on,
                    None => defaults[i],
                })
        }),
{
    let words = Seq::new(asked.len(), |k: int| flag_word(names, asked[k]));
    let v = joined(words, ',');
    assert forall|k: int| 0 <= k < words.len() implies !(#[trigger] words[k]).contains(',')
        && tight(words[k]) && words[k].len() > 0 by {
        assert(0 <= asked[k].0 < names.len());
        lemma_flag_word(names, asked[k]);
    }
    lemma_split_joined(words, ',');
    lemma_joined_is_tight(words);
    lemma_tight_stays(v);
    lemma_flags_applied(names, asked, words, defaults);
    reveal_strlit("1");
    reveal_strlit("t");
    reveal_strlit("true");
    reveal_strlit("0");
    reveal_strlit("f");
    reveal_strlit("false");
    if words.len() == 1 {
        let a = asked[0];
        assert(v == words[0]);
        assert(names[a.0].len() > 1);
        if !a.1 {
            assert(v[0] == 'n');
            assert("true"@[0] == 't' && "false"@[0] == 'f');
        }
    } else {
        lemma_joined_holds_comma(words);
        let i = v.index_of(',');
        assert(v[i] == ',');
        if v == "true"@ {
            assert("true"@[0] == 't' && "true"@[1] == 'r' && "true"@[2] == 'u' && "true"@[3]
                == 'e');
            assert(i == 0 || i == 1 || i == 2 || i == 3);
        }
        if v == "false"@ {
            assert("false"@[0] == 'f' && "false"@[1] == 'a' && "false"@[2] == 'l' && "false"@[3]
                == 's' && "false"@[4] == 'e');
            assert(i == 0 || i == 1 || i == 2 || i == 3 || i == 4);
        }
        assert(v != "1"@ && v != "t"@ && v != "0"@ && v != "f"@) by {
            assert("1"@[0] == '1' && "t"@[0] == 't' && "0"@[0] == '0' && "f"@[0] == 'f');
        }
    }
}

proof fn lemma_joined_is_tight(v: Seq<Seq<char>>)
    requires
        v.len() > 0,
        forall|k: int| 0 <= k < v.len() ==> tight(#[trigger] v[k]) && v[k].len() > 0,
    ensures
        tight(joined(v, ',')),
        joined(v, ',').len() > 0,
        joined(v, ',')[0] == v[0][0],
    decreases v.len(),
{
    if v.len() > 1 {
        assert forall|k: int| 0 <= k < v.drop_last().len() implies tight(
            #[trigger] v.drop_last()[k],
        ) && v.drop_last()[k].len() > 0 by {
            assert(tight(v[k]));
        }
        lemma_joined_is_tight(v.drop_last());
        assert(tight(v[v.len() - 1]));
        assert(joined(v, ',').last() == v.last().last());
        assert(tight(v[0]));
    } else {
        assert(tight(v[0]));
    }
}

proof fn lemma_joined_holds_comma(v: Seq<Seq<char>>)
    requires
        v.len() > 1,
    ensures
        joined(v, ',').contains(','),
{
    let head = joined(v.drop_last(), ',');
    assert(joined(v, ',')[head.len() as int] == ',');
}

// ---------------------------------------------------------------- themes

/// A theme value that is no list of variants is the theme's name.
pub proof fn law_plain_theme_is_its_name(name: Seq<char>)
    requires
        !name.contains(':'),
    ensures
        theme_variant(name) == name,
{
    reveal_strlit("light:");
    reveal_strlit("dark:");
    if holds(name, "light:"@) {
        let i = choose|i: int|
            0 <= i && i + "light:"@.len() <= name.len() && #[trigger] name.skip(i).take(
                "light:"@.len() as int,
            ) == "light:"@;
        assert(name.skip(i).take(6)[5] == ':');
        assert(name[i + 5] == ':');
    }
    if holds(name, "dark:"@) {
        let i = choose|i: int|
            0 <= i && i + "dark:"@.len() <= name.len() && #[trigger] name.skip(i).take(
                "dark:"@.len() as int,
            ) == "dark:"@;
        assert(name.skip(i).take(5)[4] == ':');
        assert(name[i + 4] == ':');
    }
}

/// A name of a theme within a list of variants.
pub open spec fn listed_name(s: Seq<char>) -> bool {
    tight(s) && s.len() > 0 && !s.contains(',') && !s.contains(':')
}

proof fn lemma_dark_part(dark: Seq<char>)
    requires
        listed_name(dark),
    ensures
        ({
            let d = "dark:"@ + dark;
            &&& !d.contains(',')
            &&& tight(d)
            &&& strip_prefix(d, "dark:"@) == Some(dark)
            &&& strip_prefix(d, "light:"@) is None
            &&& holds(d, "dark:"@)
        }),
{
    reveal_strlit("light:");
    reveal_strlit("dark:");
    let d = "dark:"@ + dark;
    assert("dark:"@ =~= seq!['d', 'a', 'r', 'k', ':']);
    assert("light:"@[0] == 'l');
    if d.contains(',') {
        let i = d.index_of(',');
        if i >= 5 {
            assert(dark[i - 5] == ',');
        } else {
            assert(seq!['d', 'a', 'r', 'k', ':'][i] == ',');
        }
    }
    assert(d.take(5) =~= "dark:"@ && d.skip(5) =~= dark);
    if begins(d, "light:"@) {
        assert(d.take(6)[0] == 'd');
    }
    assert(d[0] == 'd' && d.last() == dark.last());
    assert(d.skip(0).take(5) =~= "dark:"@);
}

proof fn lemma_light_part(light: Seq<char>)
    requires
        listed_name(light),
    ensures
        ({
            let l = "light:"@ + light;
            &&& !l.contains(',')
            &&& tight(l)
            &&& strip_prefix(l, "light:"@) == Some(light)
            &&& strip_prefix(l, "dark:"@) is None
            &&& holds(l, "light:"@)
        }),
{
    reveal_strlit("light:");
    reveal_strlit("dark:");
    let l = "light:"@ + light;
    assert("light:"@ =~= seq!['l', 'i', 'g', 'h', 't', ':']);
    assert("dark:"@[0] == 'd');
    if l.contains(',') {
        let i = l.index_of(',');
        if i >= 6 {
            assert(light[i - 6] == ',');
        } else {
            assert(seq!['l', 'i', 'g', 'h', 't', ':'][i] == ',');
        }
    }
    assert(l.take(6) =~= "light:"@ && l.skip(6) =~= light);
    if begins(l, "dark:"@) {
        assert(l.take(5)[0] == 'l');
    }
    assert(l[0] == 'l' && l.last() == light.last());
    assert(l.skip(0).take(6) =~= "light:"@);
}

/// Of a list of variants the dark one is taken, whichever comes first.
pub proof fn law_dark_variant_is_taken(dark: Seq<char>, light: Seq<char>)
    requires
        listed_name(dark),
        listed_name(light),
    ensures
        theme_variant(joined(seq!["dark:"@ + dark, "light:"@ + light], ',')) == dark,
        theme_variant(joined(seq!["light:"@ + light, "dark:"@ + dark], ',')) == dark,
{
    let d = "dark:"@ + dark;
    let l = "light:"@ + light;
    lemma_dark_part(dark);
    lemma_light_part(light);
    lemma_tight_stays(d);
    lemma_tight_stays(l);
    lemma_tight_stays(dark);
    lemma_split_joined(seq![d, l], ',');
    lemma_split_joined(seq![l, d], ',');
    assert(seq![d, l].drop_last() =~= seq![d]);
    assert(seq![l, d].drop_last() =~= seq![l]);
    reveal_with_fuel(variant, 3);
    lemma_joined_holds_first(d, l, "dark:"@);
    lemma_joined_holds_first(l, d, "light:"@);
}

/// The only variant of a list is taken.
pub proof fn law_only_variant_is_taken(name: Seq<char>)
    requires
        listed_name(name),
    ensures
        theme_variant("light:"@ + name) == name,
        theme_variant("dark:"@ + name) == name,
{
    let d = "dark:"@ + name;
    let l = "light:"@ + name;
    lemma_dark_part(name);
    lemma_light_part(name);
    lemma_tight_stays(d);
    lemma_tight_stays(l);
    lemma_tight_stays(name);
    lemma_split_joined(seq![d], ',');
    lemma_split_joined(seq![l], ',');
    assert(joined(seq![d], ',') == d);
    assert(joined(seq![l], ',') == l);
    assert(seq![d].drop_last() =~= Seq::<Seq<char>>::empty());
    assert(seq![l].drop_last() =~= Seq::<Seq<char>>::empty());
    reveal_with_fuel(variant, 2);
}

proof fn lemma_joined_holds_first(a: Seq<char>, b: Seq<char>, p: Seq<char>)
    requires
        holds(a, p),
    ensures
        holds(joined(seq![a, b], ','), p),
{
    let v = joined(seq![a, b], ',');
    assert(seq![a, b].drop_last() =~= seq![a]);
    reveal_with_fuel(joined, 2);
    assert(v == a.push(',') + b);
    let i = choose|i: int|
        0 <= i && i + p.len() <= a.len() && #[trigger] a.skip(i).take(p.len() as int) == p;
    assert(v.skip(i).take(p.len() as int) =~= p) by {
        assert(a.skip(i).take(p.len() as int) =~= v.skip(i).take(p.len() as int));
    }
}

// ---------------------------------------------------------------- paths

/// A file that a body names is looked for from the body's own directory; a
/// question mark before it lets it be missing. Blank is no file.
pub proof fn law_included_files(path: Seq<char>, base: Option<Seq<char>>)
    requires
        tight(path),
        path.len() > 0,
        path[0] != '?',
    ensures
        included(path, base) == Some((LocatedView { base, path }, false)),
        included(seq!['?'] + path, base) == Some((LocatedView { base, path }, true)),
        included(Seq::empty(), base) is None,
        included(seq!['?'], base) is None,
{
    lemma_tight_stays(path);
    let q = seq!['?'] + path;
    assert(q.last() == path.last());
    lemma_tight_stays(q);
    assert(q.skip(1) =~= path);
    let none = Seq::<char>::empty();
    lemma_tight_stays(none);
    lemma_tight_stays(seq!['?']);
    assert(seq!['?'].skip(1) =~= none);
}

/// A tilde stands for the home directory, where that is known; a path that does
/// not begin with one stays as it is written.
pub proof fn law_tilde_is_home(rest: Seq<char>, home: Seq<char>, p: Seq<char>)
    requires
        p.len() == 0 || p[0] != '~',
    ensures
        expanded(seq!['~'], Some(home)) == (LocatedView { base: None, path: home }),
        expanded(seq!['~', '/'] + rest, Some(home)) == (LocatedView {
            base: Some(home),
            path: rest,
        }),
        expanded(seq!['~', '\\'] + rest, Some(home)) == (LocatedView {
            base: Some(home),
            path: rest,
        }),
        expanded(p, Some(home)) == (LocatedView { base: None, path: p }),
        expanded(seq!['~', '/'] + rest, None) == (LocatedView {
            base: None,
            path: seq!['~', '/'] + rest,
        }),
{
    reveal_strlit("~");
    reveal_strlit("~/");
    reveal_strlit("~\\");
    assert("~"@ =~= seq!['~']);
    assert("~/"@ =~= seq!['~', '/']);
    assert("~\\"@ =~= seq!['~', '\\']);
    let a = seq!['~', '/'] + rest;
    let b = seq!['~', '\\'] + rest;
    assert(a.take(2) =~= "~/"@ && a.skip(2) =~= rest);
    assert(b.take(2) =~= "~\\"@ && b.skip(2) =~= rest);
    assert(b.take(2)[1] == '\\');
    if p.len() >= 2 {
        assert(p.take(2)[0] == p[0]);
    }
}

/// The name of a font style is the style asked for; `default` leaves the choice
/// and `false` turns the style off.
pub proof fn law_font_styles(v: Seq<char>)
    requires
        tight(v),
    ensures
        v == "default"@ ==> font_style(v) == FontStyleView::Default,
        v == "false"@ ==> font_style(v) == FontStyleView::Disabled,
        v != "default"@ && v != "false"@ ==> font_style(v) == FontStyleView::Named(v),
{
    lemma_tight_stays(v);
    reveal_strlit("default");
    reveal_strlit("false");
}

// ---------------------------------------------------------------- escapes

/// Each escape stands for its byte, and what follows is read on; a text without a
/// backslash stands for itself.
pub proof fn law_escapes(c: char, h: char, l: char, s: Seq<char>)
    requires
        unescaped(s) is Some,
        hex_digit(h),
        hex_digit(l),
    ensures
        ({
            let rest = unescaped(s)->0;
            &&& unescaped(seq!['\\', 'n'] + s) == Some(seq![10u8] + rest)
            &&& unescaped(seq!['\\', 'r'] + s) == Some(seq![13u8] + rest)
            &&& unescaped(seq!['\\', 't'] + s) == Some(seq![9u8] + rest)
            &&& unescaped(seq!['\\', '\\'] + s) == Some(seq![92u8] + rest)
            &&& unescaped(seq!['\\', '"'] + s) == Some(seq![34u8] + rest)
            &&& unescaped(seq!['\\', '\''] + s) == Some(seq![39u8] + rest)
            &&& unescaped(seq!['\\', 'x', h, l] + s) == Some(
                seq![(16 * hex_worth(h) + hex_worth(l)) as u8] + rest,
            )
            &&& c != '\\' ==> unescaped(seq![c] + s) == Some(
                vstd::utf8::encode_utf8(seq![c]) + rest,
            )
            &&& c != 'n' && c != 'r' && c != 't' && c != '\\' && c != '"' && c != '\'' && c != 'x'
                && c != 'u' ==> unescaped(seq!['\\', c] + s) is None
        }),
{
    assert((seq!['\\', 'n'] + s).skip(2) =~= s);
    assert((seq!['\\', 'r'] + s).skip(2) =~= s);
    assert((seq!['\\', 't'] + s).skip(2) =~= s);
    assert((seq!['\\', '\\'] + s).skip(2) =~= s);
    assert((seq!['\\', '"'] + s).skip(2) =~= s);
    assert((seq!['\\', '\''] + s).skip(2) =~= s);
    assert((seq!['\\', 'x', h, l] + s).skip(4) =~= s);
    assert((seq![c] + s).skip(1) =~= s);
    assert((seq![c] + s)[0] == c);
    assert((seq!['\\', c] + s)[1] == c);
    let x = seq!['\\', 'x', h, l] + s;
    assert(x[0] == '\\' && x[1] == 'x' && x[2] == h && x[3] == l);
    assert(digit(h) == hex_worth(h) && digit(l) == hex_worth(l));
}

/// Quotes are taken off where a value begins and ends with the same; any other
/// value is kept as it is.
pub proof fn law_unmatched_quotes_stay(v: Seq<char>, mark: char)
    ensures
        mark == '"' || mark == '\'' ==> unquoted(seq![mark] + v + seq![mark]) == v,
        v.len() < 2 || v[0] != v.last() || (v[0] != '"' && v[0] != '\'') ==> unquoted(v) == v,
{
    let q = seq![mark] + v + seq![mark];
    assert(q.subrange(1, q.len() - 1) =~= v);
}

/// A number may have an exponent, with or without a sign, but not an empty one;
/// and the words for what is not finite are numbers, in any case and with a sign.
/// No other word is.
pub proof fn law_exponents_and_words(m: nat, k: nat, mark: char, sign: char, v: Seq<char>)
    requires
        mark == 'e' || mark == 'E',
        sign == '+' || sign == '-',
        v.len() > 0,
        97 <= v[0] as int <= 122 || 65 <= v[0] as int <= 90,
    ensures
        is_number(decimal(m).push(mark) + decimal(k)),
        is_number(decimal(m).push(mark).push(sign) + decimal(k)),
        !is_number(decimal(m).push(mark)),
        is_number(v) <==> lower(v) == "inf"@ || lower(v) == "infinity"@ || lower(v) == "nan"@,
        is_number(seq![sign] + v) <==> is_number(v),
{
    let d = decimal(m);
    let x = decimal(k);
    lemma_decimal(m);
    lemma_decimal(k);
    assert(d.len() > 0 && x.len() > 0);
    let t1 = seq![mark] + x;
    let t2 = seq![mark, sign] + x;
    let t3 = seq![mark];
    assert(d.push(mark) + x =~= d + t1);
    assert(d.push(mark).push(sign) + x =~= d + t2);
    assert(d.push(mark) =~= d + t3);
    lemma_run_is(d, t1, true);
    lemma_run_is(d, t2, true);
    lemma_run_is(d, t3, true);
    assert((d + t1).skip(d.len() as int) =~= t1);
    assert((d + t2).skip(d.len() as int) =~= t2);
    assert((d + t3).skip(d.len() as int) =~= t3);
    assert((d + t1)[0] == d[0] && (d + t2)[0] == d[0] && (d + t3)[0] == d[0]);
    assert(unsigned(d + t1) == d + t1 && unsigned(d + t2) == d + t2 && unsigned(d + t3) == d + t3);
    assert(t1.skip(1) =~= x && t1[0] == mark && t1[1] == x[0]);
    assert(t2.skip(2) =~= x && t2[1] == sign);
    assert(t3.skip(1) =~= Seq::<char>::empty());
    reveal_strlit("inf");
    reveal_strlit("infinity");
    reveal_strlit("nan");
    assert("inf"@[0] == 'i' && "infinity"@[0] == 'i' && "nan"@[0] == 'n');
    let w = d + t3;
    assert(lower(w)[0] == w[0]);
    let none = Seq::<char>::empty();
    lemma_run_is(none, v, true);
    assert(none + v =~= v);
    assert(v.skip(0) =~= v);
    assert(!is_decimal_text(v));
    let sv = seq![sign] + v;
    assert(sv.skip(1) =~= v && sv[0] == sign);
    assert(unsigned(v) == v && unsigned(sv) == v);
}

} // verus!
