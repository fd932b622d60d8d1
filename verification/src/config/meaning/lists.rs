//! Lists of code points, the maps made of them, and lists of words.

use crate::config::apply::{clipboard_key, fonts_key};
use crate::config::grammar::{
    clipboard_map, codepoint, codepoint_range, codepoint_ranges, covers, literal, mapped_char,
    mapped_text, ranges_of, unescaped, ClipboardMapView,
};
use crate::config::lines::{all_input, source_bytes, InputView};
use crate::config::load::parsed;
use crate::config::meaning::reading::{hex_digit, hex_worth};
use crate::config::meaning::{
    lemma_clipboard_keys, lemma_clipboard_reached, lemma_fonts_keys, lemma_fonts_reached,
    plain_value, said,
};
use crate::config::parts::font_map;
use crate::config::set::switched;
use crate::config::settings::{
    ClipboardView, ConfigView, FontMapView, FontsView, SurroundingsView,
};
use crate::text::{
    digit, digits_value, first_index, is_digits, is_white, joined, law_ascii_white_space,
    law_parts_at_the_first, lemma_first_index, lemma_split_joined, lower, natural, split,
    split_once, strip_prefix, tight, trim, trim_end, trim_start,
};
use vstd::prelude::*;

verus! {

proof fn lemma_tight(s: Seq<char>)
    requires
        tight(s),
    ensures
        trim(s) == s,
{
}

proof fn lemma_trim_keeps_characters(s: Seq<char>, c: char)
    requires
        trim(s).contains(c),
    ensures
        s.contains(c),
{
    lemma_trim_end_keeps(trim_start(s), c);
    lemma_trim_start_keeps(s, c);
}

proof fn lemma_trim_start_keeps(s: Seq<char>, c: char)
    requires
        trim_start(s).contains(c),
    ensures
        s.contains(c),
    decreases s.len(),
{
    if s.len() > 0 && is_white(s[0]) {
        lemma_trim_start_keeps(s.skip(1), c);
        let k = choose|k: int| 0 <= k < s.skip(1).len() && s.skip(1)[k] == c;
        assert(s[k + 1] == c);
    }
}

proof fn lemma_trim_end_keeps(s: Seq<char>, c: char)
    requires
        trim_end(s).contains(c),
    ensures
        s.contains(c),
    decreases s.len(),
{
    if s.len() > 0 && is_white(s.last()) {
        lemma_trim_end_keeps(s.drop_last(), c);
        let k = choose|k: int| 0 <= k < s.drop_last().len() && s.drop_last()[k] == c;
        assert(s[k] == c);
    }
}

// ---------------------------------------------------------------- code points

proof fn lemma_four_digits(a: char, b: char, c: char, d: char)
    requires
        hex_digit(a),
        hex_digit(b),
        hex_digit(c),
        hex_digit(d),
    ensures
        natural(seq![a, b, c, d], 16) == Some(
            4096 * hex_worth(a) + 256 * hex_worth(b) + 16 * hex_worth(c) + hex_worth(d),
        ),
{
    let s = seq![a, b, c, d];
    assert(is_digits(s, 16)) by {
        assert(digit(a) < 16 && digit(b) < 16 && digit(c) < 16 && digit(d) < 16);
    }
    assert(s.drop_last() =~= seq![a, b, c]);
    assert(seq![a, b, c].drop_last() =~= seq![a, b]);
    assert(seq![a, b].drop_last() =~= seq![a]);
    assert(seq![a].drop_last() =~= Seq::<char>::empty());
    assert(digits_value(Seq::<char>::empty(), 16) == 0);
    assert(digits_value(seq![a], 16) == hex_worth(a));
    assert(digits_value(seq![a, b], 16) == 16 * hex_worth(a) + hex_worth(b));
    assert(digits_value(seq![a, b, c], 16) == 256 * hex_worth(a) + 16 * hex_worth(b) + hex_worth(
        c,
    ));
}

/// A code point is written in digits of base sixteen behind `U+` or `u+`; one that
/// is half of a surrogate pair is none.
pub proof fn law_codepoints(a: char, b: char, c: char, d: char)
    requires
        hex_digit(a),
        hex_digit(b),
        hex_digit(c),
        hex_digit(d),
    ensures
        ({
            let n = 4096 * hex_worth(a) + 256 * hex_worth(b) + 16 * hex_worth(c) + hex_worth(d);
            let s = seq!['U', '+', a, b, c, d];
            let t = seq!['u', '+', a, b, c, d];
            &&& codepoint(s) == codepoint(t)
            &&& !(0xd800 <= n < 0xe000) ==> codepoint(s) == Some(n as u32)
            &&& 0xd800 <= n < 0xe000 ==> codepoint(s) is None
        }),
{
    reveal_strlit("U+");
    reveal_strlit("u+");
    let s = seq!['U', '+', a, b, c, d];
    let t = seq!['u', '+', a, b, c, d];
    law_ascii_white_space('U');
    law_ascii_white_space('u');
    law_ascii_white_space(d);
    lemma_tight(s);
    lemma_tight(t);
    assert(s.take(2) =~= "U+"@ && t.take(2) =~= "u+"@);
    assert(t.take(2)[0] == 'u' && "U+"@[0] == 'U');
    assert(s.skip(2) =~= seq![a, b, c, d]);
    assert(t.skip(2) =~= seq![a, b, c, d]);
    lemma_four_digits(a, b, c, d);
}

proof fn lemma_codepoint_has_its_mark(p: Seq<char>)
    requires
        codepoint(p) is Some,
    ensures
        p.contains('+'),
{
    reveal_strlit("U+");
    reveal_strlit("u+");
    let s = trim(p);
    assert("U+"@[1] == '+' && "u+"@[1] == '+');
    assert(s.take(2)[1] == s[1]);
    assert(s[1] == '+');
    lemma_trim_keeps_characters(p, '+');
}

/// A range goes from its first code point to its last, both in it; one alone is a
/// range of itself, and none goes backwards.
pub proof fn law_codepoint_ranges_have_two_ends(a: Seq<char>, b: Seq<char>)
    requires
        a.len() > 0,
        b.len() > 0,
        tight(a),
        tight(b),
        !a.contains('-'),
    ensures
        ({
            let r = codepoint_range(a.push('-') + b);
            &&& codepoint(a) is Some && codepoint(b) is Some && codepoint(a)->0 <= codepoint(b)->0
                ==> r == Some((codepoint(a)->0, codepoint(b)->0))
            &&& codepoint(a) is Some && codepoint(b) is Some && codepoint(a)->0 > codepoint(b)->0
                ==> r is None
            &&& codepoint(a) is None || codepoint(b) is None ==> r is None
        }),
        codepoint(a) is Some ==> codepoint_range(a) == Some((codepoint(a)->0, codepoint(a)->0)),
        codepoint(a) is None ==> codepoint_range(a) is None,
{
    let s = a.push('-') + b;
    assert(s[0] == a[0] && s.last() == b.last());
    lemma_tight(s);
    lemma_tight(a);
    law_parts_at_the_first(a, '-', b);
}

proof fn lemma_ranges(ps: Seq<Seq<char>>)
    ensures
        ranges_of(ps) is Some <==> forall|i: int|
            0 <= i < ps.len() ==> codepoint_range(#[trigger] ps[i]) is Some,
        ranges_of(ps) is Some ==> {
            &&& ranges_of(ps)->0.len() == ps.len()
            &&& forall|i: int|
                0 <= i < ps.len() ==> Some(ranges_of(ps)->0[i]) == codepoint_range(#[trigger] ps[i])
        },
    decreases ps.len(),
{
    if ps.len() > 0 {
        let init = ps.drop_last();
        lemma_ranges(init);
        assert forall|i: int| 0 <= i < init.len() implies #[trigger] init[i] == ps[i] by {}
        assert(ps.last() == ps[ps.len() - 1]);
        if ranges_of(ps) is Some {
            assert forall|i: int| 0 <= i < ps.len() implies codepoint_range(#[trigger] ps[i]) is Some
                && Some(ranges_of(ps)->0[i]) == codepoint_range(ps[i]) by {
                if i < init.len() {
                    assert(codepoint_range(init[i]) is Some);
                }
            }
        } else if forall|i: int| 0 <= i < ps.len() ==> codepoint_range(#[trigger] ps[i]) is Some {
            assert forall|i: int| 0 <= i < init.len() implies codepoint_range(
                #[trigger] init[i],
            ) is Some by {
                assert(codepoint_range(ps[i]) is Some);
            }
        }
    }
}

/// A list of ranges is one exactly where each of its pieces is a range, and then
/// has them in order.
pub proof fn law_lists_of_ranges(ps: Seq<Seq<char>>)
    requires
        ps.len() > 0,
        forall|i: int| 0 <= i < ps.len() ==> !(#[trigger] ps[i]).contains(','),
    ensures
        ({
            let r = codepoint_ranges(joined(ps, ','));
            &&& r is Some <==> forall|i: int|
                0 <= i < ps.len() ==> codepoint_range(#[trigger] ps[i]) is Some
            &&& r is Some ==> r->0.len() == ps.len() && forall|i: int|
                0 <= i < ps.len() ==> Some(r->0[i]) == codepoint_range(#[trigger] ps[i])
        }),
{
    lemma_split_joined(ps, ',');
    lemma_ranges(ps);
}

// ---------------------------------------------------------------- maps

proof fn lemma_one_piece(t: Seq<char>)
    requires
        !t.contains(','),
    ensures
        split(t, ',') == seq![t],
{
    let v = seq![t];
    lemma_split_joined(v, ',');
}

/// A map of copied text has the ranges before the first equals sign, and what
/// stands behind it as the text that takes their place: the character itself where
/// it is one code point, else the text as it is written.
pub proof fn law_copied_text_maps(r: Seq<char>, text: Seq<char>)
    requires
        !r.contains('='),
        tight(text),
    ensures
        ({
            let m = clipboard_map(r.push('=') + text);
            &&& m is Some <==> codepoint_ranges(r) is Some
            &&& m is Some ==> m->0.ranges == codepoint_ranges(r)->0
            &&& m is Some && codepoint(text) is Some && !text.contains(',') && !text.contains('-')
                ==> m->0.replacement == seq![codepoint(text)->0 as char]
            &&& m is Some && !text.contains('+') ==> m->0.replacement == text
        }),
{
    law_parts_at_the_first(r, '=', text);
    lemma_tight(text);
    let one = codepoint_ranges(text);
    lemma_ranges(split(text, ','));
    lemma_first_index(text, ',');
    lemma_first_index(text, '-');
    if codepoint(text) is Some && !text.contains(',') && !text.contains('-') {
        lemma_one_piece(text);
        assert(codepoint_range(text) == Some((codepoint(text)->0, codepoint(text)->0)));
        assert(split(text, ',')[0] == text);
        assert(one is Some && one->0.len() == 1);
    }
    if !text.contains('+') && one is Some && one->0.len() == 1 {
        let ps = split(text, ',');
        assert(ps.len() == 1);
        if first_index(text, ',') < text.len() {
            let i = first_index(text, ',');
            lemma_split_is_not_empty(text.skip(i + 1));
            assert(false);
        }
        assert(ps[0] == text);
        assert(codepoint_range(text) is Some);
        let i = first_index(text, '-');
        if i < text.len() {
            let a = text.take(i);
            lemma_codepoint_has_its_mark(a);
            let k = choose|k: int| 0 <= k < a.len() && a[k] == '+';
            assert(text[k] == '+');
        } else {
            lemma_codepoint_has_its_mark(text);
        }
        assert(false);
    }
}

proof fn lemma_split_is_not_empty(s: Seq<char>)
    ensures
        split(s, ',').len() > 0,
{
}

/// Copied text is mapped character by character, in order.
pub proof fn law_text_is_mapped_in_order(
    maps: Seq<ClipboardMapView>,
    a: Seq<char>,
    b: Seq<char>,
)
    ensures
        mapped_text(maps, a + b) == mapped_text(maps, a) + mapped_text(maps, b),
    decreases b.len(),
{
    if b.len() == 0 {
        assert(a + b =~= a);
    } else {
        law_text_is_mapped_in_order(maps, a, b.drop_last());
        assert((a + b).drop_last() =~= a + b.drop_last());
        assert((a + b).last() == b.last());
        assert(mapped_text(maps, a) + mapped_text(maps, b.drop_last()) + mapped_char(
            maps,
            b.last(),
        ) =~= mapped_text(maps, a) + (mapped_text(maps, b.drop_last()) + mapped_char(
            maps,
            b.last(),
        )));
    }
}

/// A character that no map covers stays. One that is covered becomes what the last
/// map to cover it says: a map covers what lies between the ends of one of its
/// ranges, the ends too.
pub proof fn law_last_map_counts(maps: Seq<ClipboardMapView>, i: int, k: int, c: char)
    ensures
        (forall|j: int, r: int|
            0 <= j < maps.len() && 0 <= r < maps[j].ranges.len() ==> !((
            #[trigger] maps[j].ranges[r]).0 <= c as u32 <= maps[j].ranges[r].1)) ==> mapped_text(
            maps,
            seq![c],
        ) == seq![c],
        0 <= i < maps.len() && 0 <= k < maps[i].ranges.len() && maps[i].ranges[k].0 <= c as u32
            <= maps[i].ranges[k].1 && (forall|j: int, r: int|
            i < j < maps.len() && 0 <= r < maps[j].ranges.len() ==> !((
            #[trigger] maps[j].ranges[r]).0 <= c as u32 <= maps[j].ranges[r].1)) ==> mapped_text(
            maps,
            seq![c],
        ) == maps[i].replacement,
{
    let t = seq![c];
    assert(t.drop_last() =~= Seq::<char>::empty());
    assert(mapped_text(maps, Seq::<char>::empty()) =~= Seq::<char>::empty());
    assert(t.last() == c);
    assert(mapped_text(maps, t) == mapped_text(maps, t.drop_last()) + mapped_char(maps, c));
    assert(Seq::<char>::empty() + mapped_char(maps, c) =~= mapped_char(maps, c));
    if forall|j: int, r: int|
        0 <= j < maps.len() && 0 <= r < maps[j].ranges.len() ==> !((
        #[trigger] maps[j].ranges[r]).0 <= c as u32 <= maps[j].ranges[r].1) {
        assert forall|j: int| 0 <= j < maps.len() implies !covers(
            (#[trigger] maps[j]).ranges,
            c as u32,
        ) by {}
        lemma_mapped(maps, -1, c);
    }
    if 0 <= i < maps.len() && 0 <= k < maps[i].ranges.len() && maps[i].ranges[k].0 <= c as u32
        <= maps[i].ranges[k].1 && (forall|j: int, r: int|
        i < j < maps.len() && 0 <= r < maps[j].ranges.len() ==> !((
        #[trigger] maps[j].ranges[r]).0 <= c as u32 <= maps[j].ranges[r].1)) {
        assert forall|j: int| i < j < maps.len() implies !covers(
            (#[trigger] maps[j]).ranges,
            c as u32,
        ) by {}
        assert(covers(maps[i].ranges, c as u32));
        lemma_mapped(maps, i, c);
    }
}

proof fn lemma_mapped(maps: Seq<ClipboardMapView>, i: int, c: char)
    requires
        -1 <= i < maps.len(),
        0 <= i ==> covers(maps[i].ranges, c as u32),
        forall|j: int| i < j < maps.len() ==> !covers((#[trigger] maps[j]).ranges, c as u32),
    ensures
        mapped_char(maps, c) == (if i < 0 {
            seq![c]
        } else {
            maps[i].replacement
        }),
    decreases maps.len(),
{
    if maps.len() > 0 && i < maps.len() - 1 {
        assert(!covers(maps[maps.len() - 1].ranges, c as u32));
        let init = maps.drop_last();
        assert forall|j: int| i < j < init.len() implies !covers(
            (#[trigger] init[j]).ranges,
            c as u32,
        ) by {
            assert(init[j] == maps[j]);
        }
        lemma_mapped(init, i, c);
    }
}

/// `clipboard-codepoint-map` adds a map to those there are; no value drops them,
/// and what is no map leaves them as they were.
pub proof fn law_clipboard_codepoint_map(c: ConfigView, v: Seq<char>, e: SurroundingsView)
    requires
        plain_value(v),
    ensures
        ({
            let n = parsed(c, said("clipboard-codepoint-map"@, v), e);
            let s = n.clipboard.clipboard_codepoint_map;
            &&& n == (ConfigView {
                clipboard: ClipboardView { clipboard_codepoint_map: s, ..c.clipboard },
                ..c
            })
            &&& v.len() > 0 && clipboard_map(v) is Some ==> s
                == c.clipboard.clipboard_codepoint_map.push(clipboard_map(v)->0)
            &&& v.len() > 0 && clipboard_map(v) is None ==> s == c.clipboard.clipboard_codepoint_map
            &&& v.len() == 0 ==> s.len() == 0
        }),
{
    lemma_clipboard_keys();
    lemma_clipboard_reached(c, "clipboard-codepoint-map"@, v, e);
    reveal(clipboard_key);
}

/// A `font-codepoint-map` line adds a family for the ranges before the first equals
/// sign; no value drops the maps, and one without ranges or without a family
/// leaves them as they were.
pub proof fn law_font_codepoint_map(
    c: ConfigView,
    v: Seq<char>,
    r: Seq<char>,
    family: Seq<char>,
    e: SurroundingsView,
)
    requires
        plain_value(v),
        !r.contains('='),
        tight(family),
    ensures
        ({
            let n = parsed(c, said("font-codepoint-map"@, v), e);
            let s = n.fonts.font_codepoint_map;
            &&& n == (ConfigView { fonts: FontsView { font_codepoint_map: s, ..c.fonts }, ..c })
            &&& v == r.push('=') + family && family.len() > 0 && codepoint_ranges(r) is Some ==> s
                == c.fonts.font_codepoint_map.push(
                FontMapView { ranges: codepoint_ranges(r)->0, family },
            )
            &&& v == r.push('=') + family && (family.len() == 0 || codepoint_ranges(r) is None)
                ==> s == c.fonts.font_codepoint_map
            &&& v.len() > 0 && !v.contains('=') ==> s == c.fonts.font_codepoint_map
            &&& v.len() == 0 ==> s.len() == 0
        }),
{
    lemma_fonts_keys();
    lemma_fonts_reached(c, "font-codepoint-map"@, v, e);
    reveal(fonts_key);
    law_parts_at_the_first(r, '=', family);
    lemma_tight(family);
    if !v.contains('=') {
        law_parts_at_the_first(v, '=', family);
    }
}

// ---------------------------------------------------------------- words and sources

/// The last word of a list that turns a switch on or off counts, in whatever case
/// it is written; words that do neither are passed over.
pub proof fn law_last_word_switches(
    ps: Seq<Seq<char>>,
    w: Seq<char>,
    on: Seq<char>,
    off: Seq<char>,
    start: bool,
)
    requires
        tight(w),
        on != off,
        off != "true"@,
        on != "false"@,
    ensures
        lower(w) == on || lower(w) == "true"@ ==> switched(ps.push(w), on, off, start),
        lower(w) == off || lower(w) == "false"@ ==> !switched(ps.push(w), on, off, start),
        lower(w) != on && lower(w) != "true"@ && lower(w) != off && lower(w) != "false"@
            ==> switched(ps.push(w), on, off, start) == switched(ps, on, off, start),
        switched(Seq::empty(), on, off, start) == start,
{
    reveal_strlit("true");
    reveal_strlit("false");
    assert("true"@[0] == 't' && "false"@[0] == 'f');
    lemma_tight(w);
    assert(ps.push(w).drop_last() =~= ps);
}

/// Sources are read in order, one behind the other, and a text is what it was
/// given as, whatever stands at its place among the files. One source that cannot
/// be read leaves no input at all.
pub proof fn law_sources_are_read_in_order(
    a: Seq<InputView>,
    b: Seq<InputView>,
    fa: Seq<Option<Seq<u8>>>,
    fb: Seq<Option<Seq<u8>>>,
)
    requires
        a.len() == fa.len(),
        b.len() == fb.len(),
    ensures
        all_input(a, fa) is Some && all_input(b, fb) is Some ==> all_input(a + b, fa + fb) == Some(
            all_input(a, fa)->0 + all_input(b, fb)->0,
        ),
        all_input(a, fa) is None || all_input(b, fb) is None ==> all_input(a + b, fa + fb) is None,
        b.len() == 1 && b[0] is Raw ==> all_input(b, fb) == Some(b[0]->Raw_0),
        b.len() == 1 && b[0] is Path ==> all_input(b, fb) == fb[0],
    decreases b.len(),
{
    if b.len() == 0 {
        assert(a + b =~= a);
        assert(fa + fb =~= fa);
        if all_input(a, fa) is Some {
            assert(all_input(a, fa)->0 + Seq::<u8>::empty() =~= all_input(a, fa)->0);
        }
    } else {
        let (bi, fi) = (b.drop_last(), fb.drop_last());
        law_sources_are_read_in_order(a, bi, fa, fi);
        assert((a + b).drop_last() =~= a + bi);
        assert((fa + fb).drop_last() =~= fa + fi);
        assert((a + b).last() == b.last() && (fa + fb).last() == fb.last());
        let one = source_bytes(b.last(), fb.last());
        if all_input(a, fa) is Some && all_input(bi, fi) is Some && one is Some {
            assert(all_input(a, fa)->0 + all_input(bi, fi)->0 + one->0 =~= all_input(a, fa)->0 + (
            all_input(bi, fi)->0 + one->0));
        }
        if b.len() == 1 {
            assert(bi =~= Seq::<InputView>::empty());
            if one is Some {
                assert(Seq::<u8>::empty() + one->0 =~= one->0);
            }
        }
    }
}

// ---------------------------------------------------------------- escapes

proof fn lemma_unicode_escape(a: char, b: char, c: char, d: char, s: Seq<char>)
    requires
        hex_digit(a),
        hex_digit(b),
        hex_digit(c),
        hex_digit(d),
    ensures
        ({
            let t = seq!['\\', 'u', '{', a, b, c, d, '}'] + s;
            let body = t.skip(3);
            &&& first_index(body, '}') == 4
            &&& body.take(4) == seq![a, b, c, d]
            &&& t.skip(8) == s
            &&& t.len() == s.len() + 8
            &&& t[0] == '\\' && t[1] == 'u' && t[2] == '{'
        }),
{
    let t = seq!['\\', 'u', '{', a, b, c, d, '}'] + s;
    let body = t.skip(3);
    assert(body[0] == a && body[1] == b && body[2] == c && body[3] == d && body[4] == '}');
    crate::text::lemma_first_index_at(body, '}', 4);
    assert(body.take(4) =~= seq![a, b, c, d]);
    assert(t.skip(8) =~= s);
}

/// An escape of a code point, four digits of base sixteen in braces, stands for
/// that character, and what follows is read on; half of a surrogate pair stands for
/// nothing.
pub proof fn law_code_point_escapes(a: char, b: char, c: char, d: char, s: Seq<char>)
    requires
        hex_digit(a),
        hex_digit(b),
        hex_digit(c),
        hex_digit(d),
        unescaped(s) is Some,
        literal(s) is Some,
    ensures
        ({
            let n = 4096 * hex_worth(a) + 256 * hex_worth(b) + 16 * hex_worth(c) + hex_worth(d);
            let t = seq!['\\', 'u', '{', a, b, c, d, '}'] + s;
            let meant = n as u32 as char;
            &&& !(0xd800 <= n < 0xe000) ==> unescaped(t) == Some(
                vstd::utf8::encode_utf8(seq![meant]) + unescaped(s)->0,
            )
            &&& !(0xd800 <= n < 0xe000) ==> literal(t) == Some(seq![meant] + literal(s)->0)
            &&& 0xd800 <= n < 0xe000 ==> unescaped(t) is None && literal(t) is None
        }),
{
    lemma_unicode_escape(a, b, c, d, s);
    lemma_four_digits(a, b, c, d);
    assert(is_digits(seq![a, b, c, d], 16)) by {
        assert(digit(a) < 16 && digit(b) < 16 && digit(c) < 16 && digit(d) < 16);
    }
    assert(digits_value(seq![a, b, c, d], 16) == 4096 * hex_worth(a) + 256 * hex_worth(b) + 16
        * hex_worth(c) + hex_worth(d));
}

/// In a literal an escape stands for its character, and any other character for
/// itself.
pub proof fn law_literals(c: char, h: char, l: char, s: Seq<char>)
    requires
        literal(s) is Some,
        hex_digit(h),
        hex_digit(l),
        c != '\\',
    ensures
        ({
            let rest = literal(s)->0;
            &&& literal(seq![c] + s) == Some(seq![c] + rest)
            &&& literal(seq!['\\', 'n'] + s) == Some(seq!['\n'] + rest)
            &&& literal(seq!['\\', 'r'] + s) == Some(seq!['\r'] + rest)
            &&& literal(seq!['\\', 't'] + s) == Some(seq!['\t'] + rest)
            &&& literal(seq!['\\', '\\'] + s) == Some(seq!['\\'] + rest)
            &&& literal(seq!['\\', '"'] + s) == Some(seq!['"'] + rest)
            &&& literal(seq!['\\', '\''] + s) == Some(seq!['\''] + rest)
            &&& literal(seq!['\\', 'x', h, l] + s) == Some(
                seq![(16 * hex_worth(h) + hex_worth(l)) as u32 as char] + rest,
            )
            &&& literal(seq!['\\']) is None
        }),
{
    assert((seq![c] + s).skip(1) =~= s && (seq![c] + s)[0] == c);
    assert((seq!['\\', 'n'] + s).skip(2) =~= s);
    assert((seq!['\\', 'r'] + s).skip(2) =~= s);
    assert((seq!['\\', 't'] + s).skip(2) =~= s);
    assert((seq!['\\', '\\'] + s).skip(2) =~= s);
    assert((seq!['\\', '"'] + s).skip(2) =~= s);
    assert((seq!['\\', '\''] + s).skip(2) =~= s);
    let x = seq!['\\', 'x', h, l] + s;
    assert(x.skip(4) =~= s);
    assert(x[0] == '\\' && x[1] == 'x' && x[2] == h && x[3] == l);
    assert(digit(h) == hex_worth(h) && digit(l) == hex_worth(l));
}

} // verus!
