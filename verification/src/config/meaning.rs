//! What the lines of a configuration mean: every key, with the values it takes,
//! by the settings that a body with that line leaves.

pub mod appearance;
pub mod behavior;
pub mod files;
pub mod lists;
pub mod programs;
pub mod reading;

use crate::config::apply::{
    applied_key, backdrop_key, clipboard_key, colors_key, commands_key, engine_key, fonts_key,
    geometry_key, lifetime_key, metrics_key, mouse_key, selection_key, supported, windows_key,
};
use crate::config::lines::{line_kind, unquoted, Line};
use crate::config::load::{applied_lines, parsed, without_bom};
use crate::config::settings::{ConfigView, SurroundingsView};
use crate::text::{
    all_white, ended, is_white, law_lines_read_back, law_parts_at_the_first,
    law_trim_takes_the_white_space_round, lines, lower, split_once, tight, trim,
};
use vstd::prelude::*;

verus! {

// ---------------------------------------------------------------- lines

/// A key as it is written: small letters of ASCII, digits and dashes.
pub open spec fn plain_key(key: Seq<char>) -> bool {
    &&& key.len() > 0
    &&& forall|i: int|
        0 <= i < key.len() ==> {
            let c = #[trigger] key[i];
            97 <= c as int <= 122 || 48 <= c as int <= 57 || c == '-'
        }
}

/// A value as it is written: on one line, without white space round it, and not
/// in quotes.
pub open spec fn plain_value(v: Seq<char>) -> bool {
    &&& !v.contains('\n')
    &&& tight(v)
    &&& v.len() > 0 ==> v[0] != '"' && v[0] != '\''
}

/// White space within a line.
pub open spec fn spacing(s: Seq<char>) -> bool {
    all_white(s) && !s.contains('\n')
}

/// A line that gives `key` the value `v`, with white space round both.
pub open spec fn spaced(
    a: Seq<char>,
    key: Seq<char>,
    b: Seq<char>,
    p: Seq<char>,
    v: Seq<char>,
    q: Seq<char>,
) -> Seq<char> {
    a + key + b + seq!['='] + p + v + q
}

/// The line `key = value`.
pub open spec fn said(key: Seq<char>, v: Seq<char>) -> Seq<char> {
    spaced(Seq::empty(), key, seq![' '], seq![' '], v, Seq::empty())
}

proof fn lemma_line_kind(
    a: Seq<char>,
    key: Seq<char>,
    b: Seq<char>,
    p: Seq<char>,
    w: Seq<char>,
    q: Seq<char>,
)
    requires
        plain_key(key),
        all_white(a),
        all_white(b),
        all_white(p),
        all_white(q),
        tight(w),
    ensures
        line_kind(spaced(a, key, b, p, w, q)) == Line::Pair(key, unquoted(w)),
{
    let raw = spaced(a, key, b, p, w, q);
    let none = Seq::<char>::empty();
    assert(!is_white(key[0])) by {
        assert(key[0] == key[0]);
    }
    assert(!is_white(key.last())) by {
        assert(key[key.len() - 1] == key.last());
    }
    let left = key + b;
    assert(!left.contains('=')) by {
        if left.contains('=') {
            let i = left.index_of('=');
            if i < key.len() {
                assert(key[i] == '=');
            } else {
                assert(b[i - key.len()] == '=');
                assert(is_white(b[i - key.len()]));
            }
        }
    }
    let right = if w.len() == 0 {
        none
    } else {
        p + w
    };
    let tail = if w.len() == 0 {
        p + q
    } else {
        q
    };
    let core = left.push('=') + right;
    assert(raw =~= a + core + tail) by {
        if w.len() == 0 {
            assert(w =~= none);
        }
    }
    assert(all_white(tail)) by {
        assert forall|i: int| 0 <= i < tail.len() implies is_white(#[trigger] tail[i]) by {
            if w.len() == 0 {
                if i < p.len() {
                    assert(is_white(p[i]));
                } else {
                    assert(is_white(q[i - p.len()]));
                }
            } else {
                assert(is_white(q[i]));
            }
        }
    }
    assert(core[0] == key[0]);
    assert(core.last() == if w.len() == 0 {
        '='
    } else {
        w.last()
    });
    law_trim_takes_the_white_space_round(a, core, tail);
    law_parts_at_the_first(left, '=', right);
    assert(none + key + b =~= left);
    law_trim_takes_the_white_space_round(none, key, b);
    if w.len() == 0 {
        assert(none + none + none =~= none);
        law_trim_takes_the_white_space_round(none, none, none);
        assert(w =~= none);
    } else {
        assert(p + w + none =~= right);
        law_trim_takes_the_white_space_round(p, w, none);
    }
}

proof fn lemma_single_line(raw: Seq<char>)
    requires
        raw.len() > 0,
        raw[0] != '\u{feff}',
        !raw.contains('\n'),
    ensures
        lines(without_bom(raw)) == seq![raw],
{
    let none = Seq::<Seq<char>>::empty();
    law_lines_read_back(none, false, raw);
    assert(ended(none, false) + raw =~= raw);
    assert(none.push(raw) =~= seq![raw]);
}

proof fn lemma_spaced_holds_no_newline(
    a: Seq<char>,
    key: Seq<char>,
    b: Seq<char>,
    p: Seq<char>,
    w: Seq<char>,
    q: Seq<char>,
)
    requires
        plain_key(key),
        spacing(a),
        spacing(b),
        spacing(p),
        spacing(q),
        !w.contains('\n'),
    ensures
        !spaced(a, key, b, p, w, q).contains('\n'),
        spaced(a, key, b, p, w, q).len() > 0,
        spaced(a, key, b, p, w, q)[0] != '\u{feff}',
{
    let raw = spaced(a, key, b, p, w, q);
    if raw.contains('\n') {
        let i = raw.index_of('\n');
        let n1 = a.len() as int;
        let n2 = n1 + key.len();
        let n3 = n2 + b.len();
        let n4 = n3 + 1;
        let n5 = n4 + p.len();
        let n6 = n5 + w.len();
        if i < n1 {
            assert(a[i] == '\n');
        } else if i < n2 {
            assert(key[i - n1] == '\n');
        } else if i < n3 {
            assert(b[i - n2] == '\n');
        } else if i < n4 {
            assert(raw[i] == '=');
        } else if i < n5 {
            assert(p[i - n4] == '\n');
        } else if i < n6 {
            assert(w[i - n5] == '\n');
        } else {
            assert(q[i - n6] == '\n');
        }
    }
    if a.len() > 0 {
        assert(is_white(a[0]));
        assert(raw[0] == a[0]);
    } else {
        assert(raw[0] == key[0]);
    }
}

/// A line gives its key its value, whatever white space stands round the two.
pub proof fn law_spacing_does_not_matter(
    c: ConfigView,
    a: Seq<char>,
    key: Seq<char>,
    b: Seq<char>,
    p: Seq<char>,
    v: Seq<char>,
    q: Seq<char>,
    e: SurroundingsView,
)
    requires
        plain_key(key),
        plain_value(v),
        spacing(a),
        spacing(b),
        spacing(p),
        spacing(q),
    ensures
        parsed(c, spaced(a, key, b, p, v, q), e) == applied_key(c, key, v, e),
{
    let raw = spaced(a, key, b, p, v, q);
    lemma_line_kind(a, key, b, p, v, q);
    lemma_spaced_holds_no_newline(a, key, b, p, v, q);
    lemma_single_line(raw);
    assert(unquoted(v) == v);
    assert(seq![raw].drop_last() =~= Seq::<Seq<char>>::empty());
    reveal_with_fuel(applied_lines, 2);
}

/// One pair of quotes round a value is not part of it; the white space and the
/// quotes inside them are.
pub proof fn law_quotes_are_taken_off(
    c: ConfigView,
    key: Seq<char>,
    mark: char,
    v: Seq<char>,
    e: SurroundingsView,
)
    requires
        plain_key(key),
        mark == '"' || mark == '\'',
        !v.contains('\n'),
    ensures
        parsed(c, said(key, seq![mark] + v + seq![mark]), e) == applied_key(c, key, v, e),
{
    let w = seq![mark] + v + seq![mark];
    let none = Seq::<char>::empty();
    let raw = said(key, w);
    assert(!w.contains('\n')) by {
        if w.contains('\n') {
            let i = w.index_of('\n');
            if 0 < i < w.len() - 1 {
                assert(v[i - 1] == '\n');
            }
        }
    }
    lemma_line_kind(none, key, seq![' '], seq![' '], w, none);
    lemma_spaced_holds_no_newline(none, key, seq![' '], seq![' '], w, none);
    lemma_single_line(raw);
    assert(w.last() == mark && w[0] == mark);
    assert(w.subrange(1, w.len() - 1) =~= v);
    assert(seq![raw].drop_last() =~= Seq::<Seq<char>>::empty());
    reveal_with_fuel(applied_lines, 2);
}

/// A comment, and a line of nothing but white space, change nothing and are no
/// problem; a line without an equals sign changes no setting and is one.
pub proof fn law_other_lines(c: ConfigView, a: Seq<char>, text: Seq<char>, e: SurroundingsView)
    requires
        spacing(a),
        !text.contains('\n'),
        !text.contains('='),
        tight(text),
        text.len() > 0,
        text[0] != '\u{feff}',
    ensures
        a.len() > 0 ==> parsed(c, a, e) == c,
        text[0] == '#' ==> parsed(c, a + text, e) == c,
        text[0] != '#' ==> parsed(c, a + text, e).diagnostics.len() == c.diagnostics.len() + 1,
        text[0] != '#' ==> parsed(c, a + text, e) == (ConfigView {
            diagnostics: parsed(c, a + text, e).diagnostics,
            ..c
        }),
{
    let none = Seq::<char>::empty();
    let raw = a + text;
    assert(!raw.contains('\n')) by {
        if raw.contains('\n') {
            let i = raw.index_of('\n');
            if i < a.len() {
                assert(a[i] == '\n');
            } else {
                assert(text[i - a.len()] == '\n');
            }
        }
    }
    if a.len() > 0 {
        assert(is_white(a[0]));
        assert(raw[0] == a[0]);
        assert(a + none + none =~= a);
        law_trim_takes_the_white_space_round(a, none, none);
        lemma_single_line(a);
        assert(seq![a].drop_last() =~= Seq::<Seq<char>>::empty());
    } else {
        assert(raw[0] == text[0]);
    }
    assert(a + text + none =~= raw);
    law_trim_takes_the_white_space_round(a, text, none);
    crate::text::lemma_first_index(text, '=');
    assert(split_once(text, '=') is None);
    lemma_single_line(raw);
    assert(seq![raw].drop_last() =~= Seq::<Seq<char>>::empty());
    reveal_with_fuel(applied_lines, 2);
}

/// A comment may hold anything, an equals sign too.
pub proof fn law_comments_hold_anything(
    c: ConfigView,
    a: Seq<char>,
    text: Seq<char>,
    e: SurroundingsView,
)
    requires
        spacing(a),
        !text.contains('\n'),
        tight(text),
        text.len() > 0,
        text[0] == '#',
    ensures
        parsed(c, a + text, e) == c,
{
    let none = Seq::<char>::empty();
    let raw = a + text;
    assert(!raw.contains('\n')) by {
        if raw.contains('\n') {
            let i = raw.index_of('\n');
            if i < a.len() {
                assert(a[i] == '\n');
            } else {
                assert(text[i - a.len()] == '\n');
            }
        }
    }
    if a.len() > 0 {
        assert(is_white(a[0]));
        assert(raw[0] == a[0]);
    }
    assert(a + text + none =~= raw);
    law_trim_takes_the_white_space_round(a, text, none);
    lemma_single_line(raw);
    assert(seq![raw].drop_last() =~= Seq::<Seq<char>>::empty());
    reveal_with_fuel(applied_lines, 2);
}

/// Lines apply one after the other, each to what the ones before it left.
pub proof fn law_lines_apply_in_order(
    c: ConfigView,
    a: Seq<Seq<char>>,
    b: Seq<Seq<char>>,
    e: SurroundingsView,
)
    requires
        forall|i: int| 0 <= i < b.len() ==> !(line_kind(#[trigger] b[i]) is Malformed),
    ensures
        applied_lines(c, a + b, e) == applied_lines(applied_lines(c, a, e), b, e),
    decreases b.len(),
{
    if b.len() == 0 {
        assert(a + b =~= a);
    } else {
        assert forall|i: int| 0 <= i < b.drop_last().len() implies !(line_kind(
            #[trigger] b.drop_last()[i],
        ) is Malformed) by {
            assert(b.drop_last()[i] == b[i]);
        }
        law_lines_apply_in_order(c, a, b.drop_last(), e);
        assert((a + b).drop_last() =~= a + b.drop_last());
        assert((a + b).last() == b.last());
        assert(b.last() == b[b.len() - 1]);
    }
}

/// A body of two lines does what the first does and then what the second does.
pub proof fn law_body_of_two_lines(
    c: ConfigView,
    k1: Seq<char>,
    v1: Seq<char>,
    k2: Seq<char>,
    v2: Seq<char>,
    crlf: bool,
    e: SurroundingsView,
)
    requires
        plain_key(k1),
        plain_key(k2),
        plain_value(v1),
        plain_value(v2),
    ensures
        parsed(c, ended(seq![said(k1, v1), said(k2, v2)], crlf), e) == applied_key(
            applied_key(c, k1, v1, e),
            k2,
            v2,
            e,
        ),
{
    let none = Seq::<char>::empty();
    let ls = seq![said(k1, v1), said(k2, v2)];
    lemma_line_kind(none, k1, seq![' '], seq![' '], v1, none);
    lemma_line_kind(none, k2, seq![' '], seq![' '], v2, none);
    lemma_spaced_holds_no_newline(none, k1, seq![' '], seq![' '], v1, none);
    lemma_spaced_holds_no_newline(none, k2, seq![' '], seq![' '], v2, none);
    lemma_said_ends_well(k1, v1);
    lemma_said_ends_well(k2, v2);
    law_lines_read_back(ls, crlf, none);
    assert(ended(ls, crlf) + none =~= ended(ls, crlf));
    assert(unquoted(v1) == v1 && unquoted(v2) == v2);
    let text = ended(ls, crlf);
    assert(text[0] == ls[0][0]) by {
        reveal_with_fuel(ended, 2);
    }
    assert(without_bom(text) == text);
    assert(ls.drop_last() =~= seq![ls[0]]);
    assert(ls.drop_last().drop_last() =~= Seq::<Seq<char>>::empty());
    reveal_with_fuel(applied_lines, 3);
}

proof fn lemma_said_ends_well(k: Seq<char>, v: Seq<char>)
    requires
        plain_value(v),
    ensures
        said(k, v).len() > 0,
        said(k, v).last() != '\r',
{
    if v.len() > 0 {
        assert(said(k, v).last() == v.last());
    } else {
        assert(said(k, v).last() == ' ');
    }
}

/// A key gives its setting its value.
pub proof fn law_line_sets_its_key(
    c: ConfigView,
    key: Seq<char>,
    v: Seq<char>,
    e: SurroundingsView,
)
    requires
        plain_key(key),
        plain_value(v),
    ensures
        parsed(c, said(key, v), e) == applied_key(c, key, v, e),
{
    law_spacing_does_not_matter(c, Seq::empty(), key, seq![' '], seq![' '], v, Seq::empty(), e);
}

// ---------------------------------------------------------------- keys

/// The character at `i`, as a number; zero where there is none.
pub open spec fn at(s: Seq<char>, i: int) -> int {
    if 0 <= i < s.len() {
        s[i] as int
    } else {
        0
    }
}

/// A number that tells the keys apart.
#[verifier::opaque]
pub open spec fn sig(s: Seq<char>) -> int {
    s.len() + 64 * (at(s, 1) + 128 * (at(s, 10) + 128 * (at(s, 17) + 128 * at(s, s.len() - 1))))
}

/// The keys of this family are plain, and their numbers.
pub(crate) proof fn lemma_fonts_keys()
    ensures
        sig("font-size"@) == 13555997641,
        plain_key("font-size"@),
        is_fonts(sig("font-size"@)),
        sig("font-family"@) == 16241343435,
        plain_key("font-family"@),
        is_fonts(sig("font-family"@)),
        sig("font-synthetic-style"@) == 13683702740,
        plain_key("font-synthetic-style"@),
        is_fonts(sig("font-synthetic-style"@)),
        sig("font-family-bold"@) == 13422771152,
        plain_key("font-family-bold"@),
        is_fonts(sig("font-family-bold"@)),
        sig("font-family-italic"@) == 13392362450,
        plain_key("font-family-italic"@),
        is_fonts(sig("font-family-italic"@)),
        sig("font-family-bold-italic"@) == 13398653911,
        plain_key("font-family-bold-italic"@),
        is_fonts(sig("font-family-bold-italic"@)),
        sig("font-feature"@) == 13556931532,
        plain_key("font-feature"@),
        is_fonts(sig("font-feature"@)),
        sig("font-style"@) == 13555997642,
        plain_key("font-style"@),
        is_fonts(sig("font-style"@)),
        sig("font-style-bold"@) == 13422148559,
        plain_key("font-style-bold"@),
        is_fonts(sig("font-style-bold"@)),
        sig("font-style-italic"@) == 13287930833,
        plain_key("font-style-italic"@),
        is_fonts(sig("font-style-italic"@)),
        sig("font-style-bold-italic"@) == 13409565654,
        plain_key("font-style-bold-italic"@),
        is_fonts(sig("font-style-bold-italic"@)),
        sig("font-variation"@) == 14764907470,
        plain_key("font-variation"@),
        is_fonts(sig("font-variation"@)),
        sig("font-variation-bold"@) == 13535976403,
        plain_key("font-variation-bold"@),
        is_fonts(sig("font-variation-bold"@)),
        sig("font-variation-italic"@) == 13390224341,
        plain_key("font-variation-italic"@),
        is_fonts(sig("font-variation-italic"@)),
        sig("font-variation-bold-italic"@) == 13401758682,
        plain_key("font-variation-bold-italic"@),
        is_fonts(sig("font-variation-bold-italic"@)),
        sig("font-codepoint-map"@) == 15150742482,
        plain_key("font-codepoint-map"@),
        is_fonts(sig("font-codepoint-map"@)),
        sig("font-shaping-break"@) == 14474402770,
        plain_key("font-shaping-break"@),
        is_fonts(sig("font-shaping-break"@)),
        sig("font-thicken"@) == 14764784588,
        plain_key("font-thicken"@),
        is_fonts(sig("font-thicken"@)),
        sig("font-thicken-strength"@) == 14074821589,
        plain_key("font-thicken-strength"@),
        is_fonts(sig("font-thicken-strength"@)),
        sig("text-gamma"@) == 13019126090,
        plain_key("text-gamma"@),
        is_fonts(sig("text-gamma"@)),
{
    reveal(sig);
    reveal(is_fonts);
    reveal_strlit("font-size");
    reveal_strlit("font-family");
    reveal_strlit("font-synthetic-style");
    reveal_strlit("font-family-bold");
    reveal_strlit("font-family-italic");
    reveal_strlit("font-family-bold-italic");
    reveal_strlit("font-feature");
    reveal_strlit("font-style");
    reveal_strlit("font-style-bold");
    reveal_strlit("font-style-italic");
    reveal_strlit("font-style-bold-italic");
    reveal_strlit("font-variation");
    reveal_strlit("font-variation-bold");
    reveal_strlit("font-variation-italic");
    reveal_strlit("font-variation-bold-italic");
    reveal_strlit("font-codepoint-map");
    reveal_strlit("font-shaping-break");
    reveal_strlit("font-thicken");
    reveal_strlit("font-thicken-strength");
    reveal_strlit("text-gamma");
}

/// The numbers of the keys of this family.
#[verifier::opaque]
pub open spec fn is_fonts(n: int) -> bool {
    ||| n == 13555997641
    ||| n == 16241343435
    ||| n == 13683702740
    ||| n == 13422771152
    ||| n == 13392362450
    ||| n == 13398653911
    ||| n == 13556931532
    ||| n == 13555997642
    ||| n == 13422148559
    ||| n == 13287930833
    ||| n == 13409565654
    ||| n == 14764907470
    ||| n == 13535976403
    ||| n == 13390224341
    ||| n == 13401758682
    ||| n == 15150742482
    ||| n == 14474402770
    ||| n == 14764784588
    ||| n == 14074821589
    ||| n == 13019126090
}

#[verifier::spinoff_prover]
#[verifier::rlimit(50)]
proof fn lemma_not_fonts(
    c: crate::config::settings::FontsView,
    d: Seq<Seq<char>>,
    key: Seq<char>,
    v: Seq<char>,
    e: SurroundingsView,
)
    requires
        !is_fonts(sig(key)),
    ensures
        fonts_key(c, d, key, v, e) is None,
{
    reveal(fonts_key);
    reveal(is_fonts);
    lemma_fonts_keys();
}

/// The keys of this family are plain, and their numbers.
pub(crate) proof fn lemma_metrics_keys()
    ensures
        sig("adjust-cell-width"@) == 13959534865,
        plain_key("adjust-cell-width"@),
        is_metrics(sig("adjust-cell-width"@)),
        sig("adjust-cell-height"@) == 15691782418,
        plain_key("adjust-cell-height"@),
        is_metrics(sig("adjust-cell-height"@)),
        sig("adjust-font-baseline"@) == 13667047700,
        plain_key("adjust-font-baseline"@),
        is_metrics(sig("adjust-font-baseline"@)),
        sig("adjust-underline-position"@) == 14882224409,
        plain_key("adjust-underline-position"@),
        is_metrics(sig("adjust-underline-position"@)),
        sig("adjust-underline-thickness"@) == 15557507354,
        plain_key("adjust-underline-thickness"@),
        is_metrics(sig("adjust-underline-thickness"@)),
        sig("adjust-strikethrough-position"@) == 14887500061,
        plain_key("adjust-strikethrough-position"@),
        is_metrics(sig("adjust-strikethrough-position"@)),
        sig("adjust-strikethrough-thickness"@) == 15558588702,
        plain_key("adjust-strikethrough-thickness"@),
        is_metrics(sig("adjust-strikethrough-thickness"@)),
        sig("adjust-overline-position"@) == 14881282328,
        plain_key("adjust-overline-position"@),
        is_metrics(sig("adjust-overline-position"@)),
        sig("adjust-overline-thickness"@) == 15545030937,
        plain_key("adjust-overline-thickness"@),
        is_metrics(sig("adjust-overline-thickness"@)),
        sig("adjust-cursor-thickness"@) == 15539796247,
        plain_key("adjust-cursor-thickness"@),
        is_metrics(sig("adjust-cursor-thickness"@)),
        sig("adjust-cursor-height"@) == 15678208276,
        plain_key("adjust-cursor-height"@),
        is_metrics(sig("adjust-cursor-height"@)),
        sig("adjust-box-thickness"@) == 15541319956,
        plain_key("adjust-box-thickness"@),
        is_metrics(sig("adjust-box-thickness"@)),
        sig("adjust-icon-height"@) == 15691798802,
        plain_key("adjust-icon-height"@),
        is_metrics(sig("adjust-icon-height"@)),
{
    reveal(sig);
    reveal(is_metrics);
    reveal_strlit("adjust-cell-width");
    reveal_strlit("adjust-cell-height");
    reveal_strlit("adjust-font-baseline");
    reveal_strlit("adjust-underline-position");
    reveal_strlit("adjust-underline-thickness");
    reveal_strlit("adjust-strikethrough-position");
    reveal_strlit("adjust-strikethrough-thickness");
    reveal_strlit("adjust-overline-position");
    reveal_strlit("adjust-overline-thickness");
    reveal_strlit("adjust-cursor-thickness");
    reveal_strlit("adjust-cursor-height");
    reveal_strlit("adjust-box-thickness");
    reveal_strlit("adjust-icon-height");
}

/// The numbers of the keys of this family.
#[verifier::opaque]
pub open spec fn is_metrics(n: int) -> bool {
    ||| n == 13959534865
    ||| n == 15691782418
    ||| n == 13667047700
    ||| n == 14882224409
    ||| n == 15557507354
    ||| n == 14887500061
    ||| n == 15558588702
    ||| n == 14881282328
    ||| n == 15545030937
    ||| n == 15539796247
    ||| n == 15678208276
    ||| n == 15541319956
    ||| n == 15691798802
}

#[verifier::spinoff_prover]
#[verifier::rlimit(50)]
proof fn lemma_not_metrics(
    c: crate::config::settings::AdjustView,
    d: Seq<Seq<char>>,
    key: Seq<char>,
    v: Seq<char>,
    e: SurroundingsView,
)
    requires
        !is_metrics(sig(key)),
    ensures
        metrics_key(c, d, key, v, e) is None,
{
    reveal(metrics_key);
    reveal(is_metrics);
    lemma_metrics_keys();
}

/// The keys of this family are plain, and their numbers.
pub(crate) proof fn lemma_colors_keys()
    ensures
        sig("search-background"@) == 13422655825,
        plain_key("search-background"@),
        is_colors(sig("search-background"@)),
        sig("search-foreground"@) == 13422606673,
        plain_key("search-foreground"@),
        is_colors(sig("search-foreground"@)),
        sig("search-selected-background"@) == 13524318554,
        plain_key("search-selected-background"@),
        is_colors(sig("search-selected-background"@)),
        sig("search-selected-foreground"@) == 13538998618,
        plain_key("search-selected-foreground"@),
        is_colors(sig("search-selected-foreground"@)),
        sig("cursor-text"@) == 15570214219,
        plain_key("cursor-text"@),
        is_colors(sig("cursor-text"@)),
        sig("split-divider-color"@) == 15418039315,
        plain_key("split-divider-color"@),
        is_colors(sig("split-divider-color"@)),
        sig("foreground"@) == 13421779914,
        plain_key("foreground"@),
        is_colors(sig("foreground"@)),
        sig("background"@) == 13421779018,
        plain_key("background"@),
        is_colors(sig("background"@)),
        sig("cursor-color"@) == 15301737804,
        plain_key("cursor-color"@),
        is_colors(sig("cursor-color"@)),
        sig("cursor-style"@) == 13556882764,
        plain_key("cursor-style"@),
        is_colors(sig("cursor-style"@)),
        sig("cursor-style-blink"@) == 14474386770,
        plain_key("cursor-style-blink"@),
        is_colors(sig("cursor-style-blink"@)),
        sig("bold-color"@) == 15300828106,
        plain_key("bold-color"@),
        is_colors(sig("bold-color"@)),
        sig("bold-is-bright"@) == 15570123726,
        plain_key("bold-is-bright"@),
        is_colors(sig("bold-is-bright"@)),
        sig("minimum-contrast"@) == 15570164304,
        plain_key("minimum-contrast"@),
        is_colors(sig("minimum-contrast"@)),
        sig("cursor-opacity"@) == 16241163598,
        plain_key("cursor-opacity"@),
        is_colors(sig("cursor-opacity"@)),
        sig("faint-opacity"@) == 16241211469,
        plain_key("faint-opacity"@),
        is_colors(sig("faint-opacity"@)),
        sig("palette"@) == 13555996743,
        plain_key("palette"@),
        is_colors(sig("palette"@)),
        sig("palette-generate"@) == 13556897872,
        plain_key("palette-generate"@),
        is_colors(sig("palette-generate"@)),
        sig("palette-harmonious"@) == 15556565074,
        plain_key("palette-harmonious"@),
        is_colors(sig("palette-harmonious"@)),
        sig("selection-background"@) == 13545265492,
        plain_key("selection-background"@),
        is_colors(sig("selection-background"@)),
        sig("selection-foreground"@) == 13545298260,
        plain_key("selection-foreground"@),
        is_colors(sig("selection-foreground"@)),
        sig("osc-color-report-format"@) == 15677152471,
        plain_key("osc-color-report-format"@),
        is_colors(sig("osc-color-report-format"@)),
{
    reveal(sig);
    reveal(is_colors);
    reveal_strlit("search-background");
    reveal_strlit("search-foreground");
    reveal_strlit("search-selected-background");
    reveal_strlit("search-selected-foreground");
    reveal_strlit("cursor-text");
    reveal_strlit("split-divider-color");
    reveal_strlit("foreground");
    reveal_strlit("background");
    reveal_strlit("cursor-color");
    reveal_strlit("cursor-style");
    reveal_strlit("cursor-style-blink");
    reveal_strlit("bold-color");
    reveal_strlit("bold-is-bright");
    reveal_strlit("minimum-contrast");
    reveal_strlit("cursor-opacity");
    reveal_strlit("faint-opacity");
    reveal_strlit("palette");
    reveal_strlit("palette-generate");
    reveal_strlit("palette-harmonious");
    reveal_strlit("selection-background");
    reveal_strlit("selection-foreground");
    reveal_strlit("osc-color-report-format");
}

/// The numbers of the keys of this family.
#[verifier::opaque]
pub open spec fn is_colors(n: int) -> bool {
    ||| n == 13422655825
    ||| n == 13422606673
    ||| n == 13524318554
    ||| n == 13538998618
    ||| n == 15570214219
    ||| n == 15418039315
    ||| n == 13421779914
    ||| n == 13421779018
    ||| n == 15301737804
    ||| n == 13556882764
    ||| n == 14474386770
    ||| n == 15300828106
    ||| n == 15570123726
    ||| n == 15570164304
    ||| n == 16241163598
    ||| n == 16241211469
    ||| n == 13555996743
    ||| n == 13556897872
    ||| n == 15556565074
    ||| n == 13545265492
    ||| n == 13545298260
    ||| n == 15677152471
}

#[verifier::spinoff_prover]
#[verifier::rlimit(50)]
proof fn lemma_not_colors(
    c: crate::config::settings::ColorsView,
    d: Seq<Seq<char>>,
    key: Seq<char>,
    v: Seq<char>,
    e: SurroundingsView,
)
    requires
        !is_colors(sig(key)),
    ensures
        colors_key(c, d, key, v, e) is None,
{
    reveal(colors_key);
    reveal(is_colors);
    lemma_colors_keys();
}

/// The keys of this family are plain, and their numbers.
pub(crate) proof fn lemma_backdrop_keys()
    ensures
        sig("background-opacity"@) == 16367597650,
        plain_key("background-opacity"@),
        is_backdrop(sig("background-opacity"@)),
        sig("background-opacity-cells"@) == 15562291288,
        plain_key("background-opacity-cells"@),
        is_backdrop(sig("background-opacity-cells"@)),
        sig("unfocused-split-opacity"@) == 16358734743,
        plain_key("unfocused-split-opacity"@),
        is_backdrop(sig("unfocused-split-opacity"@)),
        sig("unfocused-split-fill"@) == 14606564244,
        plain_key("unfocused-split-fill"@),
        is_backdrop(sig("unfocused-split-fill"@)),
        sig("background-blur"@) == 15301195855,
        plain_key("background-blur"@),
        is_backdrop(sig("background-blur"@)),
        sig("background-image"@) == 13556365392,
        plain_key("background-image"@),
        is_backdrop(sig("background-image"@)),
        sig("background-image-opacity"@) == 16357111896,
        plain_key("background-image-opacity"@),
        is_backdrop(sig("background-image-opacity"@)),
        sig("background-image-position"@) == 14881765465,
        plain_key("background-image-position"@),
        is_backdrop(sig("background-image-position"@)),
        sig("background-image-fit"@) == 15676586068,
        plain_key("background-image-fit"@),
        is_backdrop(sig("background-image-fit"@)),
        sig("background-image-repeat"@) == 15689168983,
        plain_key("background-image-repeat"@),
        is_backdrop(sig("background-image-repeat"@)),
        sig("window-padding-x"@) == 16106953296,
        plain_key("window-padding-x"@),
        is_backdrop(sig("window-padding-x"@)),
        sig("window-padding-y"@) == 16241171024,
        plain_key("window-padding-y"@),
        is_backdrop(sig("window-padding-y"@)),
        sig("window-padding-balance"@) == 13670062678,
        plain_key("window-padding-balance"@),
        is_backdrop(sig("window-padding-balance"@)),
        sig("window-theme"@) == 13556890188,
        plain_key("window-theme"@),
        is_backdrop(sig("window-theme"@)),
        sig("custom-shader"@) == 15301647693,
        plain_key("custom-shader"@),
        is_backdrop(sig("custom-shader"@)),
        sig("custom-shader-animation"@) == 14879071575,
        plain_key("custom-shader-animation"@),
        is_backdrop(sig("custom-shader-animation"@)),
{
    reveal(sig);
    reveal(is_backdrop);
    reveal_strlit("background-opacity");
    reveal_strlit("background-opacity-cells");
    reveal_strlit("unfocused-split-opacity");
    reveal_strlit("unfocused-split-fill");
    reveal_strlit("background-blur");
    reveal_strlit("background-image");
    reveal_strlit("background-image-opacity");
    reveal_strlit("background-image-position");
    reveal_strlit("background-image-fit");
    reveal_strlit("background-image-repeat");
    reveal_strlit("window-padding-x");
    reveal_strlit("window-padding-y");
    reveal_strlit("window-padding-balance");
    reveal_strlit("window-theme");
    reveal_strlit("custom-shader");
    reveal_strlit("custom-shader-animation");
}

/// The numbers of the keys of this family.
#[verifier::opaque]
pub open spec fn is_backdrop(n: int) -> bool {
    ||| n == 16367597650
    ||| n == 15562291288
    ||| n == 16358734743
    ||| n == 14606564244
    ||| n == 15301195855
    ||| n == 13556365392
    ||| n == 16357111896
    ||| n == 14881765465
    ||| n == 15676586068
    ||| n == 15689168983
    ||| n == 16106953296
    ||| n == 16241171024
    ||| n == 13670062678
    ||| n == 13556890188
    ||| n == 15301647693
    ||| n == 14879071575
}

#[verifier::spinoff_prover]
#[verifier::rlimit(50)]
proof fn lemma_not_backdrop(
    c: crate::config::settings::BackdropView,
    d: Seq<Seq<char>>,
    key: Seq<char>,
    v: Seq<char>,
    e: SurroundingsView,
)
    requires
        !is_backdrop(sig(key)),
    ensures
        backdrop_key(c, d, key, v, e) is None,
{
    reveal(backdrop_key);
    reveal(is_backdrop);
    lemma_backdrop_keys();
}

/// The keys of this family are plain, and their numbers.
pub(crate) proof fn lemma_windows_keys()
    ensures
        sig("window-new-tab-position"@) == 14884911703,
        plain_key("window-new-tab-position"@),
        is_windows(sig("window-new-tab-position"@)),
        sig("working-directory"@) == 16241286097,
        plain_key("working-directory"@),
        is_windows(sig("working-directory"@)),
        sig("window-decoration"@) == 14764866129,
        plain_key("window-decoration"@),
        is_windows(sig("window-decoration"@)),
        sig("window-titlebar-background"@) == 13524376154,
        plain_key("window-titlebar-background"@),
        is_windows(sig("window-titlebar-background"@)),
        sig("window-titlebar-foreground"@) == 13539056218,
        plain_key("window-titlebar-foreground"@),
        is_windows(sig("window-titlebar-foreground"@)),
        sig("window-show-tab-bar"@) == 15403514451,
        plain_key("window-show-tab-bar"@),
        is_windows(sig("window-show-tab-bar"@)),
        sig("maximize"@) == 13555996744,
        plain_key("maximize"@),
        is_windows(sig("maximize"@)),
        sig("fullscreen"@) == 14763957578,
        plain_key("fullscreen"@),
        is_windows(sig("fullscreen"@)),
        sig("title"@) == 13555997253,
        plain_key("title"@),
        is_windows(sig("title"@)),
        sig("window-subtitle"@) == 13556947535,
        plain_key("window-subtitle"@),
        is_windows(sig("window-subtitle"@)),
        sig("window-title-font-family"@) == 16288422488,
        plain_key("window-title-font-family"@),
        is_windows(sig("window-title-font-family"@)),
        sig("window-step-resize"@) == 13662820946,
        plain_key("window-step-resize"@),
        is_windows(sig("window-step-resize"@)),
        sig("window-vsync"@) == 13288462924,
        plain_key("window-vsync"@),
        is_windows(sig("window-vsync"@)),
{
    reveal(sig);
    reveal(is_windows);
    reveal_strlit("window-new-tab-position");
    reveal_strlit("working-directory");
    reveal_strlit("window-decoration");
    reveal_strlit("window-titlebar-background");
    reveal_strlit("window-titlebar-foreground");
    reveal_strlit("window-show-tab-bar");
    reveal_strlit("maximize");
    reveal_strlit("fullscreen");
    reveal_strlit("title");
    reveal_strlit("window-subtitle");
    reveal_strlit("window-title-font-family");
    reveal_strlit("window-step-resize");
    reveal_strlit("window-vsync");
}

/// The numbers of the keys of this family.
#[verifier::opaque]
pub open spec fn is_windows(n: int) -> bool {
    ||| n == 14884911703
    ||| n == 16241286097
    ||| n == 14764866129
    ||| n == 13524376154
    ||| n == 13539056218
    ||| n == 15403514451
    ||| n == 13555996744
    ||| n == 14763957578
    ||| n == 13555997253
    ||| n == 13556947535
    ||| n == 16288422488
    ||| n == 13662820946
    ||| n == 13288462924
}

#[verifier::spinoff_prover]
#[verifier::rlimit(50)]
proof fn lemma_not_windows(
    c: crate::config::settings::WindowsView,
    d: Seq<Seq<char>>,
    key: Seq<char>,
    v: Seq<char>,
    e: SurroundingsView,
)
    requires
        !is_windows(sig(key)),
    ensures
        windows_key(c, d, key, v, e) is None,
{
    reveal(windows_key);
    reveal(is_windows);
    lemma_windows_keys();
}

/// The keys of this family are plain, and their numbers.
pub(crate) proof fn lemma_lifetime_keys()
    ensures
        sig("quit-after-last-window-closed"@) == 13532249437,
        plain_key("quit-after-last-window-closed"@),
        is_lifetime(sig("quit-after-last-window-closed"@)),
        sig("quit-after-last-window-closed-delay"@) == 16350821731,
        plain_key("quit-after-last-window-closed-delay"@),
        is_lifetime(sig("quit-after-last-window-closed-delay"@)),
        sig("initial-window"@) == 15972817806,
        plain_key("initial-window"@),
        is_lifetime(sig("initial-window"@)),
        sig("split-preserve-zoom"@) == 14746958867,
        plain_key("split-preserve-zoom"@),
        is_lifetime(sig("split-preserve-zoom"@)),
        sig("confirm-close-surface"@) == 13663861717,
        plain_key("confirm-close-surface"@),
        is_lifetime(sig("confirm-close-surface"@)),
        sig("window-save-state"@) == 13556824657,
        plain_key("window-save-state"@),
        is_lifetime(sig("window-save-state"@)),
{
    reveal(sig);
    reveal(is_lifetime);
    reveal_strlit("quit-after-last-window-closed");
    reveal_strlit("quit-after-last-window-closed-delay");
    reveal_strlit("initial-window");
    reveal_strlit("split-preserve-zoom");
    reveal_strlit("confirm-close-surface");
    reveal_strlit("window-save-state");
}

/// The numbers of the keys of this family.
#[verifier::opaque]
pub open spec fn is_lifetime(n: int) -> bool {
    ||| n == 13532249437
    ||| n == 16350821731
    ||| n == 15972817806
    ||| n == 14746958867
    ||| n == 13663861717
    ||| n == 13556824657
}

#[verifier::spinoff_prover]
#[verifier::rlimit(50)]
proof fn lemma_not_lifetime(
    c: crate::config::settings::LifetimeView,
    d: Seq<Seq<char>>,
    key: Seq<char>,
    v: Seq<char>,
    e: SurroundingsView,
)
    requires
        !is_lifetime(sig(key)),
    ensures
        lifetime_key(c, d, key, v, e) is None,
{
    reveal(lifetime_key);
    reveal(is_lifetime);
    lemma_lifetime_keys();
}

/// The keys of this family are plain, and their numbers.
pub(crate) proof fn lemma_geometry_keys()
    ensures
        sig("window-width"@) == 13959600716,
        plain_key("window-width"@),
        is_geometry(sig("window-width"@)),
        sig("window-height"@) == 15570106957,
        plain_key("window-height"@),
        is_geometry(sig("window-height"@)),
        sig("window-position-x"@) == 16106994257,
        plain_key("window-position-x"@),
        is_geometry(sig("window-position-x"@)),
        sig("window-position-y"@) == 16241211985,
        plain_key("window-position-y"@),
        is_geometry(sig("window-position-y"@)),
        sig("resize-overlay"@) == 16241285454,
        plain_key("resize-overlay"@),
        is_geometry(sig("resize-overlay"@)),
        sig("resize-overlay-position"@) == 14885476695,
        plain_key("resize-overlay-position"@),
        is_geometry(sig("resize-overlay-position"@)),
        sig("resize-overlay-duration"@) == 14884428119,
        plain_key("resize-overlay-duration"@),
        is_geometry(sig("resize-overlay-duration"@)),
        sig("scrollbar"@) == 15300827337,
        plain_key("scrollbar"@),
        is_geometry(sig("scrollbar"@)),
        sig("quick-terminal-position"@) == 14885403991,
        plain_key("quick-terminal-position"@),
        is_geometry(sig("quick-terminal-position"@)),
        sig("quick-terminal-size"@) == 13684784467,
        plain_key("quick-terminal-size"@),
        is_geometry(sig("quick-terminal-size"@)),
        sig("quick-terminal-screen"@) == 14884355413,
        plain_key("quick-terminal-screen"@),
        is_geometry(sig("quick-terminal-screen"@)),
        sig("quick-terminal-autohide"@) == 13678493015,
        plain_key("quick-terminal-autohide"@),
        is_geometry(sig("quick-terminal-autohide"@)),
        sig("quick-terminal-animation-duration"@) == 14874918241,
        plain_key("quick-terminal-animation-duration"@),
        is_geometry(sig("quick-terminal-animation-duration"@)),
        sig("tab-inherit-working-directory"@) == 16356644957,
        plain_key("tab-inherit-working-directory"@),
        is_geometry(sig("tab-inherit-working-directory"@)),
        sig("split-inherit-working-directory"@) == 16353483807,
        plain_key("split-inherit-working-directory"@),
        is_geometry(sig("split-inherit-working-directory"@)),
        sig("window-inherit-working-directory"@) == 16360716896,
        plain_key("window-inherit-working-directory"@),
        is_geometry(sig("window-inherit-working-directory"@)),
{
    reveal(sig);
    reveal(is_geometry);
    reveal_strlit("window-width");
    reveal_strlit("window-height");
    reveal_strlit("window-position-x");
    reveal_strlit("window-position-y");
    reveal_strlit("resize-overlay");
    reveal_strlit("resize-overlay-position");
    reveal_strlit("resize-overlay-duration");
    reveal_strlit("scrollbar");
    reveal_strlit("quick-terminal-position");
    reveal_strlit("quick-terminal-size");
    reveal_strlit("quick-terminal-screen");
    reveal_strlit("quick-terminal-autohide");
    reveal_strlit("quick-terminal-animation-duration");
    reveal_strlit("tab-inherit-working-directory");
    reveal_strlit("split-inherit-working-directory");
    reveal_strlit("window-inherit-working-directory");
}

/// The numbers of the keys of this family.
#[verifier::opaque]
pub open spec fn is_geometry(n: int) -> bool {
    ||| n == 13959600716
    ||| n == 15570106957
    ||| n == 16106994257
    ||| n == 16241211985
    ||| n == 16241285454
    ||| n == 14885476695
    ||| n == 14884428119
    ||| n == 15300827337
    ||| n == 14885403991
    ||| n == 13684784467
    ||| n == 14884355413
    ||| n == 13678493015
    ||| n == 14874918241
    ||| n == 16356644957
    ||| n == 16353483807
    ||| n == 16360716896
}

#[verifier::spinoff_prover]
#[verifier::rlimit(50)]
proof fn lemma_not_geometry(
    c: crate::config::settings::LayoutView,
    d: Seq<Seq<char>>,
    key: Seq<char>,
    v: Seq<char>,
    e: SurroundingsView,
)
    requires
        !is_geometry(sig(key)),
    ensures
        geometry_key(c, d, key, v, e) is None,
{
    reveal(geometry_key);
    reveal(is_geometry);
    lemma_geometry_keys();
}

/// The keys of this family are plain, and their numbers.
pub(crate) proof fn lemma_selection_keys()
    ensures
        sig("selection-clear-on-typing"@) == 13940586841,
        plain_key("selection-clear-on-typing"@),
        is_selection(sig("selection-clear-on-typing"@)),
        sig("selection-clear-on-copy"@) == 16356505943,
        plain_key("selection-clear-on-copy"@),
        is_selection(sig("selection-clear-on-copy"@)),
        sig("selection-word-chars"@) == 15537731924,
        plain_key("selection-word-chars"@),
        is_selection(sig("selection-word-chars"@)),
        sig("copy-on-select"@) == 15570148302,
        plain_key("copy-on-select"@),
        is_selection(sig("copy-on-select"@)),
        sig("right-click-action"@) == 14880176722,
        plain_key("right-click-action"@),
        is_selection(sig("right-click-action"@)),
        sig("middle-click-action"@) == 14881159763,
        plain_key("middle-click-action"@),
        is_selection(sig("middle-click-action"@)),
        sig("link-osc8"@) == 7516199497,
        plain_key("link-osc8"@),
        is_selection(sig("link-osc8"@)),
        sig("link-url"@) == 14495521352,
        plain_key("link-url"@),
        is_selection(sig("link-url"@)),
{
    reveal(sig);
    reveal(is_selection);
    reveal_strlit("selection-clear-on-typing");
    reveal_strlit("selection-clear-on-copy");
    reveal_strlit("selection-word-chars");
    reveal_strlit("copy-on-select");
    reveal_strlit("right-click-action");
    reveal_strlit("middle-click-action");
    reveal_strlit("link-osc8");
    reveal_strlit("link-url");
}

/// The numbers of the keys of this family.
#[verifier::opaque]
pub open spec fn is_selection(n: int) -> bool {
    ||| n == 13940586841
    ||| n == 16356505943
    ||| n == 15537731924
    ||| n == 15570148302
    ||| n == 14880176722
    ||| n == 14881159763
    ||| n == 7516199497
    ||| n == 14495521352
}

#[verifier::spinoff_prover]
#[verifier::rlimit(50)]
proof fn lemma_not_selection(
    c: crate::config::settings::SelectionView,
    d: Seq<Seq<char>>,
    key: Seq<char>,
    v: Seq<char>,
    e: SurroundingsView,
)
    requires
        !is_selection(sig(key)),
    ensures
        selection_key(c, d, key, v, e) is None,
{
    reveal(selection_key);
    reveal(is_selection);
    lemma_selection_keys();
}

/// The keys of this family are plain, and their numbers.
pub(crate) proof fn lemma_mouse_keys()
    ensures
        sig("mouse-shift-capture"@) == 13676485587,
        plain_key("mouse-shift-capture"@),
        is_mouse(sig("mouse-shift-capture"@)),
        sig("mouse-hide-while-typing"@) == 13946436567,
        plain_key("mouse-hide-while-typing"@),
        is_mouse(sig("mouse-hide-while-typing"@)),
        sig("mouse-reporting"@) == 13825366991,
        plain_key("mouse-reporting"@),
        is_mouse(sig("mouse-reporting"@)),
        sig("mouse-scroll-multiplier"@) == 15411813335,
        plain_key("mouse-scroll-multiplier"@),
        is_mouse(sig("mouse-scroll-multiplier"@)),
        sig("scroll-to-bottom"@) == 14630541520,
        plain_key("scroll-to-bottom"@),
        is_mouse(sig("scroll-to-bottom"@)),
        sig("focus-follows-mouse"@) == 13677493203,
        plain_key("focus-follows-mouse"@),
        is_mouse(sig("focus-follows-mouse"@)),
        sig("click-repeat-interval"@) == 14615853845,
        plain_key("click-repeat-interval"@),
        is_mouse(sig("click-repeat-interval"@)),
        sig("cursor-click-to-move"@) == 13673200980,
        plain_key("cursor-click-to-move"@),
        is_mouse(sig("cursor-click-to-move"@)),
{
    reveal(sig);
    reveal(is_mouse);
    reveal_strlit("mouse-shift-capture");
    reveal_strlit("mouse-hide-while-typing");
    reveal_strlit("mouse-reporting");
    reveal_strlit("mouse-scroll-multiplier");
    reveal_strlit("scroll-to-bottom");
    reveal_strlit("focus-follows-mouse");
    reveal_strlit("click-repeat-interval");
    reveal_strlit("cursor-click-to-move");
}

/// The numbers of the keys of this family.
#[verifier::opaque]
pub open spec fn is_mouse(n: int) -> bool {
    ||| n == 13676485587
    ||| n == 13946436567
    ||| n == 13825366991
    ||| n == 15411813335
    ||| n == 14630541520
    ||| n == 13677493203
    ||| n == 14615853845
    ||| n == 13673200980
}

#[verifier::spinoff_prover]
#[verifier::rlimit(50)]
proof fn lemma_not_mouse(
    c: crate::config::settings::MouseView,
    d: Seq<Seq<char>>,
    key: Seq<char>,
    v: Seq<char>,
    e: SurroundingsView,
)
    requires
        !is_mouse(sig(key)),
    ensures
        mouse_key(c, d, key, v, e) is None,
{
    reveal(mouse_key);
    reveal(is_mouse);
    lemma_mouse_keys();
}

/// The keys of this family are plain, and their numbers.
pub(crate) proof fn lemma_clipboard_keys()
    ensures
        sig("clipboard-read"@) == 13422713614,
        plain_key("clipboard-read"@),
        is_clipboard(sig("clipboard-read"@)),
        sig("clipboard-write"@) == 13556972303,
        plain_key("clipboard-write"@),
        is_clipboard(sig("clipboard-write"@)),
        sig("clipboard-trim-trailing-spaces"@) == 15537707806,
        plain_key("clipboard-trim-trailing-spaces"@),
        is_clipboard(sig("clipboard-trim-trailing-spaces"@)),
        sig("clipboard-paste-protection"@) == 14884412186,
        plain_key("clipboard-paste-protection"@),
        is_clipboard(sig("clipboard-paste-protection"@)),
        sig("clipboard-paste-bracketed-safe"@) == 13676452638,
        plain_key("clipboard-paste-bracketed-safe"@),
        is_clipboard(sig("clipboard-paste-bracketed-safe"@)),
        sig("clipboard-write-limit-bytes"@) == 15546120987,
        plain_key("clipboard-write-limit-bytes"@),
        is_clipboard(sig("clipboard-write-limit-bytes"@)),
        sig("clipboard-codepoint-map"@) == 15148546839,
        plain_key("clipboard-codepoint-map"@),
        is_clipboard(sig("clipboard-codepoint-map"@)),
{
    reveal(sig);
    reveal(is_clipboard);
    reveal_strlit("clipboard-read");
    reveal_strlit("clipboard-write");
    reveal_strlit("clipboard-trim-trailing-spaces");
    reveal_strlit("clipboard-paste-protection");
    reveal_strlit("clipboard-paste-bracketed-safe");
    reveal_strlit("clipboard-write-limit-bytes");
    reveal_strlit("clipboard-codepoint-map");
}

/// The numbers of the keys of this family.
#[verifier::opaque]
pub open spec fn is_clipboard(n: int) -> bool {
    ||| n == 13422713614
    ||| n == 13556972303
    ||| n == 15537707806
    ||| n == 14884412186
    ||| n == 13676452638
    ||| n == 15546120987
    ||| n == 15148546839
}

#[verifier::spinoff_prover]
#[verifier::rlimit(50)]
proof fn lemma_not_clipboard(
    c: crate::config::settings::ClipboardView,
    d: Seq<Seq<char>>,
    key: Seq<char>,
    v: Seq<char>,
    e: SurroundingsView,
)
    requires
        !is_clipboard(sig(key)),
    ensures
        clipboard_key(c, d, key, v, e) is None,
{
    reveal(clipboard_key);
    reveal(is_clipboard);
    lemma_clipboard_keys();
}

/// The keys of this family are plain, and their numbers.
pub(crate) proof fn lemma_engine_keys()
    ensures
        sig("scrollback-limit-bytes"@) == 15538174166,
        plain_key("scrollback-limit-bytes"@),
        is_engine(sig("scrollback-limit-bytes"@)),
        sig("scrollback-compression"@) == 14884911318,
        plain_key("scrollback-compression"@),
        is_engine(sig("scrollback-compression"@)),
        sig("scrollback-limit-lines"@) == 15548659926,
        plain_key("scrollback-limit-lines"@),
        is_engine(sig("scrollback-limit-lines"@)),
        sig("scrollback-limit"@) == 15569631440,
        plain_key("scrollback-limit"@),
        is_engine(sig("scrollback-limit"@)),
        sig("image-storage-limit"@) == 15680158547,
        plain_key("image-storage-limit"@),
        is_engine(sig("image-storage-limit"@)),
        sig("conpty-passthrough"@) == 14068644818,
        plain_key("conpty-passthrough"@),
        is_engine(sig("conpty-passthrough"@)),
        sig("title-report"@) == 15570197068,
        plain_key("title-report"@),
        is_engine(sig("title-report"@)),
        sig("vt-kam-allowed"@) == 13422689550,
        plain_key("vt-kam-allowed"@),
        is_engine(sig("vt-kam-allowed"@)),
        sig("grapheme-width-method"@) == 13544275093,
        plain_key("grapheme-width-method"@),
        is_engine(sig("grapheme-width-method"@)),
        sig("progress-style"@) == 13556948110,
        plain_key("progress-style"@),
        is_engine(sig("progress-style"@)),
        sig("desktop-notifications"@) == 15546095957,
        plain_key("desktop-notifications"@),
        is_engine(sig("desktop-notifications"@)),
        sig("bell-features"@) == 15435979085,
        plain_key("bell-features"@),
        is_engine(sig("bell-features"@)),
        sig("bell-audio-path"@) == 13959018831,
        plain_key("bell-audio-path"@),
        is_engine(sig("bell-audio-path"@)),
        sig("bell-audio-volume"@) == 13556365649,
        plain_key("bell-audio-volume"@),
        is_engine(sig("bell-audio-volume"@)),
        sig("app-notifications"@) == 15435856913,
        plain_key("app-notifications"@),
        is_engine(sig("app-notifications"@)),
{
    reveal(sig);
    reveal(is_engine);
    reveal_strlit("scrollback-limit-bytes");
    reveal_strlit("scrollback-compression");
    reveal_strlit("scrollback-limit-lines");
    reveal_strlit("scrollback-limit");
    reveal_strlit("image-storage-limit");
    reveal_strlit("conpty-passthrough");
    reveal_strlit("title-report");
    reveal_strlit("vt-kam-allowed");
    reveal_strlit("grapheme-width-method");
    reveal_strlit("progress-style");
    reveal_strlit("desktop-notifications");
    reveal_strlit("bell-features");
    reveal_strlit("bell-audio-path");
    reveal_strlit("bell-audio-volume");
    reveal_strlit("app-notifications");
}

/// The numbers of the keys of this family.
#[verifier::opaque]
pub open spec fn is_engine(n: int) -> bool {
    ||| n == 15538174166
    ||| n == 14884911318
    ||| n == 15548659926
    ||| n == 15569631440
    ||| n == 15680158547
    ||| n == 14068644818
    ||| n == 15570197068
    ||| n == 13422689550
    ||| n == 13544275093
    ||| n == 13556948110
    ||| n == 15546095957
    ||| n == 15435979085
    ||| n == 13959018831
    ||| n == 13556365649
    ||| n == 15435856913
}

#[verifier::spinoff_prover]
#[verifier::rlimit(50)]
proof fn lemma_not_engine(
    c: crate::config::settings::EngineView,
    d: Seq<Seq<char>>,
    key: Seq<char>,
    v: Seq<char>,
    e: SurroundingsView,
)
    requires
        !is_engine(sig(key)),
    ensures
        engine_key(c, d, key, v, e) is None,
{
    reveal(engine_key);
    reveal(is_engine);
    lemma_engine_keys();
}

/// The keys of this family are plain, and their numbers.
pub(crate) proof fn lemma_commands_keys()
    ensures
        sig("key-remap"@) == 15032392009,
        plain_key("key-remap"@),
        is_commands(sig("key-remap"@)),
        sig("command-palette-entry"@) == 16356580309,
        plain_key("command-palette-entry"@),
        is_commands(sig("command-palette-entry"@)),
        sig("initial-command"@) == 13422672783,
        plain_key("initial-command"@),
        is_commands(sig("initial-command"@)),
        sig("wait-after-command"@) == 13527005266,
        plain_key("wait-after-command"@),
        is_commands(sig("wait-after-command"@)),
        sig("shell-integration"@) == 14764800529,
        plain_key("shell-integration"@),
        is_commands(sig("shell-integration"@)),
        sig("shell-integration-features"@) == 15483075098,
        plain_key("shell-integration-features"@),
        is_commands(sig("shell-integration-features"@)),
        sig("abnormal-command-exit-runtime"@) == 13662812317,
        plain_key("abnormal-command-exit-runtime"@),
        is_commands(sig("abnormal-command-exit-runtime"@)),
        sig("env"@) == 15837698947,
        plain_key("env"@),
        is_commands(sig("env"@)),
        sig("input"@) == 15569263493,
        plain_key("input"@),
        is_commands(sig("input"@)),
        sig("command"@) == 13421779911,
        plain_key("command"@),
        is_commands(sig("command"@)),
        sig("keybind"@) == 13421779271,
        plain_key("keybind"@),
        is_commands(sig("keybind"@)),
        sig("notify-on-command-finish"@) == 14006647768,
        plain_key("notify-on-command-finish"@),
        is_commands(sig("notify-on-command-finish"@)),
        sig("notify-on-command-finish-action"@) == 14811954143,
        plain_key("notify-on-command-finish-action"@),
        is_commands(sig("notify-on-command-finish-action"@)),
        sig("notify-on-command-finish-after"@) == 15348825054,
        plain_key("notify-on-command-finish-after"@),
        is_commands(sig("notify-on-command-finish-after"@)),
        sig("undo-timeout"@) == 15570221964,
        plain_key("undo-timeout"@),
        is_commands(sig("undo-timeout"@)),
{
    reveal(sig);
    reveal(is_commands);
    reveal_strlit("key-remap");
    reveal_strlit("command-palette-entry");
    reveal_strlit("initial-command");
    reveal_strlit("wait-after-command");
    reveal_strlit("shell-integration");
    reveal_strlit("shell-integration-features");
    reveal_strlit("abnormal-command-exit-runtime");
    reveal_strlit("env");
    reveal_strlit("input");
    reveal_strlit("command");
    reveal_strlit("keybind");
    reveal_strlit("notify-on-command-finish");
    reveal_strlit("notify-on-command-finish-action");
    reveal_strlit("notify-on-command-finish-after");
    reveal_strlit("undo-timeout");
}

/// The numbers of the keys of this family.
#[verifier::opaque]
pub open spec fn is_commands(n: int) -> bool {
    ||| n == 15032392009
    ||| n == 16356580309
    ||| n == 13422672783
    ||| n == 13527005266
    ||| n == 14764800529
    ||| n == 15483075098
    ||| n == 13662812317
    ||| n == 15837698947
    ||| n == 15569263493
    ||| n == 13421779911
    ||| n == 13421779271
    ||| n == 14006647768
    ||| n == 14811954143
    ||| n == 15348825054
    ||| n == 15570221964
}

#[verifier::spinoff_prover]
#[verifier::rlimit(50)]
proof fn lemma_not_commands(
    c: crate::config::settings::CommandsView,
    d: Seq<Seq<char>>,
    key: Seq<char>,
    v: Seq<char>,
    e: SurroundingsView,
)
    requires
        !is_commands(sig(key)),
    ensures
        commands_key(c, d, key, v, e) is None,
{
    reveal(commands_key);
    reveal(is_commands);
    lemma_commands_keys();
}

/// A key of this family changes its settings and nothing else.
pub(crate) proof fn lemma_fonts_reached(
    c: ConfigView,
    key: Seq<char>,
    v: Seq<char>,
    e: SurroundingsView,
)
    requires
        is_fonts(sig(key)),
        plain_key(key),
        plain_value(v),
    ensures
        fonts_key(c.fonts, c.diagnostics, key, v, e) matches Some(n) ==> parsed(c, said(key, v), e)
            == (ConfigView { fonts: n.0, diagnostics: n.1, ..c }),
{
    law_line_sets_its_key(c, key, v, e);
    reveal(supported);
    lemma_bare_keys();
    assert(key != "config-file"@ && key != "theme"@) by {
        reveal(is_fonts);
    }
}

#[verifier::spinoff_prover]
#[verifier::rlimit(100)]
proof fn lemma_metrics_apart(n: int)
    requires
        is_metrics(n),
    ensures
        !is_fonts(n),
{
    reveal(is_fonts);
    reveal(is_metrics);
}

/// A key of this family changes its settings and nothing else.
pub(crate) proof fn lemma_metrics_reached(
    c: ConfigView,
    key: Seq<char>,
    v: Seq<char>,
    e: SurroundingsView,
)
    requires
        is_metrics(sig(key)),
        plain_key(key),
        plain_value(v),
    ensures
        metrics_key(c.adjust, c.diagnostics, key, v, e) matches Some(n)
            ==> parsed(c, said(key, v), e)
            == (ConfigView { adjust: n.0, diagnostics: n.1, ..c }),
{
    law_line_sets_its_key(c, key, v, e);
    reveal(supported);
    lemma_bare_keys();
    assert(key != "config-file"@ && key != "theme"@) by {
        reveal(is_metrics);
    }
    lemma_metrics_apart(sig(key));
    lemma_not_fonts(c.fonts, c.diagnostics, key, v, e);
}

#[verifier::spinoff_prover]
#[verifier::rlimit(100)]
proof fn lemma_colors_apart(n: int)
    requires
        is_colors(n),
    ensures
        !is_fonts(n),
        !is_metrics(n),
{
    reveal(is_fonts);
    reveal(is_metrics);
    reveal(is_colors);
}

/// A key of this family changes its settings and nothing else.
pub(crate) proof fn lemma_colors_reached(
    c: ConfigView,
    key: Seq<char>,
    v: Seq<char>,
    e: SurroundingsView,
)
    requires
        is_colors(sig(key)),
        plain_key(key),
        plain_value(v),
    ensures
        colors_key(c.colors, c.diagnostics, key, v, e) matches Some(n)
            ==> parsed(c, said(key, v), e)
            == (ConfigView { colors: n.0, diagnostics: n.1, ..c }),
{
    law_line_sets_its_key(c, key, v, e);
    reveal(supported);
    lemma_bare_keys();
    assert(key != "config-file"@ && key != "theme"@) by {
        reveal(is_colors);
    }
    lemma_colors_apart(sig(key));
    lemma_not_fonts(c.fonts, c.diagnostics, key, v, e);
    lemma_not_metrics(c.adjust, c.diagnostics, key, v, e);
}

#[verifier::spinoff_prover]
#[verifier::rlimit(100)]
proof fn lemma_backdrop_apart(n: int)
    requires
        is_backdrop(n),
    ensures
        !is_fonts(n),
        !is_metrics(n),
        !is_colors(n),
{
    reveal(is_fonts);
    reveal(is_metrics);
    reveal(is_colors);
    reveal(is_backdrop);
}

/// A key of this family changes its settings and nothing else.
pub(crate) proof fn lemma_backdrop_reached(
    c: ConfigView,
    key: Seq<char>,
    v: Seq<char>,
    e: SurroundingsView,
)
    requires
        is_backdrop(sig(key)),
        plain_key(key),
        plain_value(v),
    ensures
        backdrop_key(c.backdrop, c.diagnostics, key, v, e) matches Some(n)
            ==> parsed(c, said(key, v), e)
            == (ConfigView { backdrop: n.0, diagnostics: n.1, ..c }),
{
    law_line_sets_its_key(c, key, v, e);
    reveal(supported);
    lemma_bare_keys();
    assert(key != "config-file"@ && key != "theme"@) by {
        reveal(is_backdrop);
    }
    lemma_backdrop_apart(sig(key));
    lemma_not_fonts(c.fonts, c.diagnostics, key, v, e);
    lemma_not_metrics(c.adjust, c.diagnostics, key, v, e);
    lemma_not_colors(c.colors, c.diagnostics, key, v, e);
}

#[verifier::spinoff_prover]
#[verifier::rlimit(100)]
proof fn lemma_windows_apart(n: int)
    requires
        is_windows(n),
    ensures
        !is_fonts(n),
        !is_metrics(n),
        !is_colors(n),
        !is_backdrop(n),
{
    reveal(is_fonts);
    reveal(is_metrics);
    reveal(is_colors);
    reveal(is_backdrop);
    reveal(is_windows);
}

/// A key of this family changes its settings and nothing else.
pub(crate) proof fn lemma_windows_reached(
    c: ConfigView,
    key: Seq<char>,
    v: Seq<char>,
    e: SurroundingsView,
)
    requires
        is_windows(sig(key)),
        plain_key(key),
        plain_value(v),
    ensures
        windows_key(c.windows, c.diagnostics, key, v, e) matches Some(n)
            ==> parsed(c, said(key, v), e)
            == (ConfigView { windows: n.0, diagnostics: n.1, ..c }),
{
    law_line_sets_its_key(c, key, v, e);
    reveal(supported);
    lemma_bare_keys();
    assert(key != "config-file"@ && key != "theme"@) by {
        reveal(is_windows);
    }
    lemma_windows_apart(sig(key));
    lemma_not_fonts(c.fonts, c.diagnostics, key, v, e);
    lemma_not_metrics(c.adjust, c.diagnostics, key, v, e);
    lemma_not_colors(c.colors, c.diagnostics, key, v, e);
    lemma_not_backdrop(c.backdrop, c.diagnostics, key, v, e);
}

#[verifier::spinoff_prover]
#[verifier::rlimit(100)]
proof fn lemma_lifetime_apart(n: int)
    requires
        is_lifetime(n),
    ensures
        !is_fonts(n),
        !is_metrics(n),
        !is_colors(n),
        !is_backdrop(n),
        !is_windows(n),
{
    reveal(is_fonts);
    reveal(is_metrics);
    reveal(is_colors);
    reveal(is_backdrop);
    reveal(is_windows);
    reveal(is_lifetime);
}

/// A key of this family changes its settings and nothing else.
pub(crate) proof fn lemma_lifetime_reached(
    c: ConfigView,
    key: Seq<char>,
    v: Seq<char>,
    e: SurroundingsView,
)
    requires
        is_lifetime(sig(key)),
        plain_key(key),
        plain_value(v),
    ensures
        lifetime_key(c.lifetime, c.diagnostics, key, v, e) matches Some(n)
            ==> parsed(c, said(key, v), e)
            == (ConfigView { lifetime: n.0, diagnostics: n.1, ..c }),
{
    law_line_sets_its_key(c, key, v, e);
    reveal(supported);
    lemma_bare_keys();
    assert(key != "config-file"@ && key != "theme"@) by {
        reveal(is_lifetime);
    }
    lemma_lifetime_apart(sig(key));
    lemma_not_fonts(c.fonts, c.diagnostics, key, v, e);
    lemma_not_metrics(c.adjust, c.diagnostics, key, v, e);
    lemma_not_colors(c.colors, c.diagnostics, key, v, e);
    lemma_not_backdrop(c.backdrop, c.diagnostics, key, v, e);
    lemma_not_windows(c.windows, c.diagnostics, key, v, e);
}

#[verifier::spinoff_prover]
#[verifier::rlimit(100)]
proof fn lemma_geometry_apart(n: int)
    requires
        is_geometry(n),
    ensures
        !is_fonts(n),
        !is_metrics(n),
        !is_colors(n),
        !is_backdrop(n),
        !is_windows(n),
        !is_lifetime(n),
{
    reveal(is_fonts);
    reveal(is_metrics);
    reveal(is_colors);
    reveal(is_backdrop);
    reveal(is_windows);
    reveal(is_lifetime);
    reveal(is_geometry);
}

/// A key of this family changes its settings and nothing else.
pub(crate) proof fn lemma_geometry_reached(
    c: ConfigView,
    key: Seq<char>,
    v: Seq<char>,
    e: SurroundingsView,
)
    requires
        is_geometry(sig(key)),
        plain_key(key),
        plain_value(v),
    ensures
        geometry_key(c.layout, c.diagnostics, key, v, e) matches Some(n)
            ==> parsed(c, said(key, v), e)
            == (ConfigView { layout: n.0, diagnostics: n.1, ..c }),
{
    law_line_sets_its_key(c, key, v, e);
    reveal(supported);
    lemma_bare_keys();
    assert(key != "config-file"@ && key != "theme"@) by {
        reveal(is_geometry);
    }
    lemma_geometry_apart(sig(key));
    lemma_not_fonts(c.fonts, c.diagnostics, key, v, e);
    lemma_not_metrics(c.adjust, c.diagnostics, key, v, e);
    lemma_not_colors(c.colors, c.diagnostics, key, v, e);
    lemma_not_backdrop(c.backdrop, c.diagnostics, key, v, e);
    lemma_not_windows(c.windows, c.diagnostics, key, v, e);
    lemma_not_lifetime(c.lifetime, c.diagnostics, key, v, e);
}

#[verifier::spinoff_prover]
#[verifier::rlimit(100)]
proof fn lemma_selection_apart(n: int)
    requires
        is_selection(n),
    ensures
        !is_fonts(n),
        !is_metrics(n),
        !is_colors(n),
        !is_backdrop(n),
        !is_windows(n),
        !is_lifetime(n),
        !is_geometry(n),
{
    reveal(is_fonts);
    reveal(is_metrics);
    reveal(is_colors);
    reveal(is_backdrop);
    reveal(is_windows);
    reveal(is_lifetime);
    reveal(is_geometry);
    reveal(is_selection);
}

/// A key of this family changes its settings and nothing else.
pub(crate) proof fn lemma_selection_reached(
    c: ConfigView,
    key: Seq<char>,
    v: Seq<char>,
    e: SurroundingsView,
)
    requires
        is_selection(sig(key)),
        plain_key(key),
        plain_value(v),
    ensures
        selection_key(c.selection, c.diagnostics, key, v, e) matches Some(n)
            ==> parsed(c, said(key, v), e)
            == (ConfigView { selection: n.0, diagnostics: n.1, ..c }),
{
    law_line_sets_its_key(c, key, v, e);
    reveal(supported);
    lemma_bare_keys();
    assert(key != "config-file"@ && key != "theme"@) by {
        reveal(is_selection);
    }
    lemma_selection_apart(sig(key));
    lemma_not_fonts(c.fonts, c.diagnostics, key, v, e);
    lemma_not_metrics(c.adjust, c.diagnostics, key, v, e);
    lemma_not_colors(c.colors, c.diagnostics, key, v, e);
    lemma_not_backdrop(c.backdrop, c.diagnostics, key, v, e);
    lemma_not_windows(c.windows, c.diagnostics, key, v, e);
    lemma_not_lifetime(c.lifetime, c.diagnostics, key, v, e);
    lemma_not_geometry(c.layout, c.diagnostics, key, v, e);
}

#[verifier::spinoff_prover]
#[verifier::rlimit(100)]
proof fn lemma_mouse_apart(n: int)
    requires
        is_mouse(n),
    ensures
        !is_fonts(n),
        !is_metrics(n),
        !is_colors(n),
        !is_backdrop(n),
        !is_windows(n),
        !is_lifetime(n),
        !is_geometry(n),
        !is_selection(n),
{
    reveal(is_fonts);
    reveal(is_metrics);
    reveal(is_colors);
    reveal(is_backdrop);
    reveal(is_windows);
    reveal(is_lifetime);
    reveal(is_geometry);
    reveal(is_selection);
    reveal(is_mouse);
}

/// A key of this family changes its settings and nothing else.
pub(crate) proof fn lemma_mouse_reached(
    c: ConfigView,
    key: Seq<char>,
    v: Seq<char>,
    e: SurroundingsView,
)
    requires
        is_mouse(sig(key)),
        plain_key(key),
        plain_value(v),
    ensures
        mouse_key(c.mouse, c.diagnostics, key, v, e) matches Some(n) ==> parsed(c, said(key, v), e)
            == (ConfigView { mouse: n.0, diagnostics: n.1, ..c }),
{
    law_line_sets_its_key(c, key, v, e);
    reveal(supported);
    lemma_bare_keys();
    assert(key != "config-file"@ && key != "theme"@) by {
        reveal(is_mouse);
    }
    lemma_mouse_apart(sig(key));
    lemma_not_fonts(c.fonts, c.diagnostics, key, v, e);
    lemma_not_metrics(c.adjust, c.diagnostics, key, v, e);
    lemma_not_colors(c.colors, c.diagnostics, key, v, e);
    lemma_not_backdrop(c.backdrop, c.diagnostics, key, v, e);
    lemma_not_windows(c.windows, c.diagnostics, key, v, e);
    lemma_not_lifetime(c.lifetime, c.diagnostics, key, v, e);
    lemma_not_geometry(c.layout, c.diagnostics, key, v, e);
    lemma_not_selection(c.selection, c.diagnostics, key, v, e);
}

#[verifier::spinoff_prover]
#[verifier::rlimit(100)]
proof fn lemma_clipboard_apart(n: int)
    requires
        is_clipboard(n),
    ensures
        !is_fonts(n),
        !is_metrics(n),
        !is_colors(n),
        !is_backdrop(n),
        !is_windows(n),
        !is_lifetime(n),
        !is_geometry(n),
        !is_selection(n),
        !is_mouse(n),
{
    reveal(is_fonts);
    reveal(is_metrics);
    reveal(is_colors);
    reveal(is_backdrop);
    reveal(is_windows);
    reveal(is_lifetime);
    reveal(is_geometry);
    reveal(is_selection);
    reveal(is_mouse);
    reveal(is_clipboard);
}

/// A key of this family changes its settings and nothing else.
pub(crate) proof fn lemma_clipboard_reached(
    c: ConfigView,
    key: Seq<char>,
    v: Seq<char>,
    e: SurroundingsView,
)
    requires
        is_clipboard(sig(key)),
        plain_key(key),
        plain_value(v),
    ensures
        clipboard_key(c.clipboard, c.diagnostics, key, v, e) matches Some(n)
            ==> parsed(c, said(key, v), e)
            == (ConfigView { clipboard: n.0, diagnostics: n.1, ..c }),
{
    law_line_sets_its_key(c, key, v, e);
    reveal(supported);
    lemma_bare_keys();
    assert(key != "config-file"@ && key != "theme"@) by {
        reveal(is_clipboard);
    }
    lemma_clipboard_apart(sig(key));
    lemma_not_fonts(c.fonts, c.diagnostics, key, v, e);
    lemma_not_metrics(c.adjust, c.diagnostics, key, v, e);
    lemma_not_colors(c.colors, c.diagnostics, key, v, e);
    lemma_not_backdrop(c.backdrop, c.diagnostics, key, v, e);
    lemma_not_windows(c.windows, c.diagnostics, key, v, e);
    lemma_not_lifetime(c.lifetime, c.diagnostics, key, v, e);
    lemma_not_geometry(c.layout, c.diagnostics, key, v, e);
    lemma_not_selection(c.selection, c.diagnostics, key, v, e);
    lemma_not_mouse(c.mouse, c.diagnostics, key, v, e);
}

#[verifier::spinoff_prover]
#[verifier::rlimit(100)]
proof fn lemma_engine_apart(n: int)
    requires
        is_engine(n),
    ensures
        !is_fonts(n),
        !is_metrics(n),
        !is_colors(n),
        !is_backdrop(n),
        !is_windows(n),
        !is_lifetime(n),
        !is_geometry(n),
        !is_selection(n),
        !is_mouse(n),
        !is_clipboard(n),
{
    reveal(is_fonts);
    reveal(is_metrics);
    reveal(is_colors);
    reveal(is_backdrop);
    reveal(is_windows);
    reveal(is_lifetime);
    reveal(is_geometry);
    reveal(is_selection);
    reveal(is_mouse);
    reveal(is_clipboard);
    reveal(is_engine);
}

/// A key of this family changes its settings and nothing else.
pub(crate) proof fn lemma_engine_reached(
    c: ConfigView,
    key: Seq<char>,
    v: Seq<char>,
    e: SurroundingsView,
)
    requires
        is_engine(sig(key)),
        plain_key(key),
        plain_value(v),
    ensures
        engine_key(c.engine, c.diagnostics, key, v, e) matches Some(n)
            ==> parsed(c, said(key, v), e)
            == (ConfigView { engine: n.0, diagnostics: n.1, ..c }),
{
    law_line_sets_its_key(c, key, v, e);
    reveal(supported);
    lemma_bare_keys();
    assert(key != "config-file"@ && key != "theme"@) by {
        reveal(is_engine);
    }
    lemma_engine_apart(sig(key));
    lemma_not_fonts(c.fonts, c.diagnostics, key, v, e);
    lemma_not_metrics(c.adjust, c.diagnostics, key, v, e);
    lemma_not_colors(c.colors, c.diagnostics, key, v, e);
    lemma_not_backdrop(c.backdrop, c.diagnostics, key, v, e);
    lemma_not_windows(c.windows, c.diagnostics, key, v, e);
    lemma_not_lifetime(c.lifetime, c.diagnostics, key, v, e);
    lemma_not_geometry(c.layout, c.diagnostics, key, v, e);
    lemma_not_selection(c.selection, c.diagnostics, key, v, e);
    lemma_not_mouse(c.mouse, c.diagnostics, key, v, e);
    lemma_not_clipboard(c.clipboard, c.diagnostics, key, v, e);
}

#[verifier::spinoff_prover]
#[verifier::rlimit(100)]
proof fn lemma_commands_apart(n: int)
    requires
        is_commands(n),
    ensures
        !is_fonts(n),
        !is_metrics(n),
        !is_colors(n),
        !is_backdrop(n),
        !is_windows(n),
        !is_lifetime(n),
        !is_geometry(n),
        !is_selection(n),
        !is_mouse(n),
        !is_clipboard(n),
        !is_engine(n),
{
    reveal(is_fonts);
    reveal(is_metrics);
    reveal(is_colors);
    reveal(is_backdrop);
    reveal(is_windows);
    reveal(is_lifetime);
    reveal(is_geometry);
    reveal(is_selection);
    reveal(is_mouse);
    reveal(is_clipboard);
    reveal(is_engine);
    reveal(is_commands);
}

/// A key of this family changes its settings and nothing else.
pub(crate) proof fn lemma_commands_reached(
    c: ConfigView,
    key: Seq<char>,
    v: Seq<char>,
    e: SurroundingsView,
)
    requires
        is_commands(sig(key)),
        plain_key(key),
        plain_value(v),
    ensures
        commands_key(c.commands, c.diagnostics, key, v, e) matches Some(n)
            ==> parsed(c, said(key, v), e)
            == (ConfigView { commands: n.0, diagnostics: n.1, ..c }),
{
    law_line_sets_its_key(c, key, v, e);
    reveal(supported);
    lemma_bare_keys();
    assert(key != "config-file"@ && key != "theme"@) by {
        reveal(is_commands);
    }
    lemma_commands_apart(sig(key));
    lemma_not_fonts(c.fonts, c.diagnostics, key, v, e);
    lemma_not_metrics(c.adjust, c.diagnostics, key, v, e);
    lemma_not_colors(c.colors, c.diagnostics, key, v, e);
    lemma_not_backdrop(c.backdrop, c.diagnostics, key, v, e);
    lemma_not_windows(c.windows, c.diagnostics, key, v, e);
    lemma_not_lifetime(c.lifetime, c.diagnostics, key, v, e);
    lemma_not_geometry(c.layout, c.diagnostics, key, v, e);
    lemma_not_selection(c.selection, c.diagnostics, key, v, e);
    lemma_not_mouse(c.mouse, c.diagnostics, key, v, e);
    lemma_not_clipboard(c.clipboard, c.diagnostics, key, v, e);
    lemma_not_engine(c.engine, c.diagnostics, key, v, e);
}

proof fn lemma_bare_keys()
    ensures
        sig("config-file"@) == 13556825035,
        sig("theme"@) == 13555997189,
        plain_key("config-file"@),
{
    reveal(sig);
    reveal_strlit("config-file");
    reveal_strlit("theme");
}

/// A `config-file` line adds a file to those that the body names; without a value
/// it drops them.
pub proof fn law_config_file_lines_add_up(c: ConfigView, v: Seq<char>, e: SurroundingsView)
    requires
        plain_value(v),
    ensures
        parsed(c, said("config-file"@, v), e) == (ConfigView {
            config_file: if v.len() == 0 {
                Seq::empty()
            } else {
                c.config_file.push(v)
            },
            ..c
        }),
{
    lemma_bare_keys();
    law_line_sets_its_key(c, "config-file"@, v, e);
    reveal(supported);
}

// ---------------------------------------------------------------- words

/// A number that tells words apart.
#[verifier::opaque]
pub open spec fn word_sig(s: Seq<char>) -> int {
    s.len() + 64 * (at(s, 0) + 128 * (at(s, 1) + 128 * (at(s, 5) + 128 * at(s, s.len() - 1))))
}

/// The numbers of the words that values are made of.
pub(crate) proof fn lemma_words()
    ensures
        word_sig("0"@) == 6442454017,
        "0"@.len() == 1,
        word_sig("1"@) == 6576671809,
        "1"@.len() == 1,
        word_sig("16-bit"@) == 15691336774,
        "16-bit"@.len() == 6,
        word_sig("8-bit"@) == 15569628677,
        "8-bit"@.len() == 5,
        word_sig("after-first"@) == 15617284171,
        "after-first"@.len() == 11,
        word_sig("allow"@) == 15972800581,
        "allow"@.len() == 5,
        word_sig("always"@) == 15556515910,
        "always"@.len() == 6,
        word_sig("ask"@) == 14362245187,
        "ask"@.len() == 3,
        word_sig("attention"@) == 14886541385,
        "attention"@.len() == 9,
        word_sig("audio"@) == 14899132485,
        "audio"@.len() == 5,
        word_sig("auto"@) == 14899132484,
        "auto"@.len() == 4,
        word_sig("bar"@) == 15301621891,
        "bar"@.len() == 3,
        word_sig("bash"@) == 13959444612,
        "bash"@.len() == 4,
        word_sig("bell"@) == 14496348292,
        "bell"@.len() == 4,
        word_sig("block"@) == 14362187909,
        "block"@.len() == 5,
        word_sig("block-hollow"@) == 16019986572,
        "block-hollow"@.len() == 12,
        word_sig("block_hollow"@) == 16072415372,
        "block_hollow"@.len() == 12,
        word_sig("bold"@) == 13422688388,
        "bold"@.len() == 4,
        word_sig("bold-italic"@) == 13398571147,
        "bold-italic"@.len() == 11,
        word_sig("border"@) == 15421274246,
        "border"@.len() == 6,
        word_sig("both"@) == 13959559300,
        "both"@.len() == 4,
        word_sig("bottom-center"@) == 15416031373,
        "bottom-center"@.len() == 13,
        word_sig("bottom-left"@) == 15684466827,
        "bottom-left"@.len() == 11,
        word_sig("bottom-right"@) == 15684466828,
        "bottom-right"@.len() == 12,
        word_sig("bright"@) == 15691831430,
        "bright"@.len() == 6,
        word_sig("cell-background"@) == 13525366991,
        "cell-background"@.len() == 15,
        word_sig("cell-foreground"@) == 13529561295,
        "cell-foreground"@.len() == 15,
        word_sig("center"@) == 15421192390,
        "center"@.len() == 6,
        word_sig("center-center"@) == 15421192397,
        "center-center"@.len() == 13,
        word_sig("center-left"@) == 15689627851,
        "center-left"@.len() == 11,
        word_sig("center-right"@) == 15689627852,
        "center-right"@.len() == 12,
        word_sig("clear"@) == 15301712069,
        "clear"@.len() == 5,
        word_sig("client"@) == 15691782342,
        "client"@.len() == 6,
        word_sig("clipboard"@) == 13539055817,
        "clipboard"@.len() == 9,
        word_sig("clipboard-copy"@) == 16357628110,
        "clipboard-copy"@.len() == 14,
        word_sig("clipboard-paste"@) == 13673273551,
        "clipboard-paste"@.len() == 15,
        word_sig("config-reload"@) == 13530691789,
        "config-reload"@.len() == 13,
        word_sig("contain"@) == 14874966215,
        "contain"@.len() == 7,
        word_sig("context-menu"@) == 15830218956,
        "context-menu"@.len() == 12,
        word_sig("copy"@) == 16241260740,
        "copy"@.len() == 4,
        word_sig("copy-or-paste"@) == 13673298125,
        "copy-or-paste"@.len() == 13,
        word_sig("cover"@) == 15301736645,
        "cover"@.len() == 5,
        word_sig("current"@) == 15685564615,
        "current"@.len() == 7,
        word_sig("cursor"@) == 15421323462,
        "cursor"@.len() == 6,
        word_sig("dark"@) == 14362097924,
        "dark"@.len() == 4,
        word_sig("default"@) == 15683336455,
        "default"@.len() == 7,
        word_sig("deny"@) == 16241178884,
        "deny"@.len() == 4,
        word_sig("detect"@) == 15691725062,
        "detect"@.len() == 6,
        word_sig("elvish"@) == 14068586822,
        "elvish"@.len() == 6,
        word_sig("end"@) == 13422680387,
        "end"@.len() == 3,
        word_sig("equal"@) == 14496446789,
        "equal"@.len() == 5,
        word_sig("f"@) == 13690214785,
        "f"@.len() == 1,
        word_sig("false"@) == 13556791685,
        "false"@.len() == 5,
        word_sig("fish"@) == 13959510404,
        "fish"@.len() == 4,
        word_sig("home"@) == 13556906500,
        "home"@.len() == 4,
        word_sig("ignore"@) == 13662747206,
        "ignore"@.len() == 6,
        word_sig("inherit"@) == 15680264775,
        "inherit"@.len() == 7,
        word_sig("italic"@) == 13392321094,
        "italic"@.len() == 6,
        word_sig("keystroke"@) == 13676362441,
        "keystroke"@.len() == 9,
        word_sig("legacy"@) == 16368057094,
        "legacy"@.len() == 6,
        word_sig("light"@) == 15570123525,
        "light"@.len() == 5,
        word_sig("macos-glass-clear"@) == 15348808529,
        "macos-glass-clear"@.len() == 17,
        word_sig("macos-glass-regular"@) == 15348808531,
        "macos-glass-regular"@.len() == 19,
        word_sig("main"@) == 14764751684,
        "main"@.len() == 4,
        word_sig("navigation"@) == 14866463626,
        "navigation"@.len() == 10,
        word_sig("never"@) == 15301655429,
        "never"@.len() == 5,
        word_sig("no"@) == 14899084162,
        "no"@.len() == 2,
        word_sig("no-cursor"@) == 15421275017,
        "no-cursor"@.len() == 9,
        word_sig("no-navigation"@) == 14888598413,
        "no-navigation"@.len() == 13,
        word_sig("non-native"@) == 13658618762,
        "non-native"@.len() == 10,
        word_sig("non-native-padded-notch"@) == 14061271959,
        "non-native-padded-notch"@.len() == 23,
        word_sig("non-native-visible-menu"@) == 15806102423,
        "non-native-visible-menu"@.len() == 23,
        word_sig("none"@) == 13556906884,
        "none"@.len() == 4,
        word_sig("notify"@) == 16368139142,
        "notify"@.len() == 6,
        word_sig("nushell"@) == 14609726343,
        "nushell"@.len() == 7,
        word_sig("off"@) == 13691050947,
        "off"@.len() == 3,
        word_sig("on"@) == 14764858306,
        "on"@.len() == 2,
        word_sig("output"@) == 15691856838,
        "output"@.len() == 6,
        word_sig("paste"@) == 13556792325,
        "paste"@.len() == 5,
        word_sig("path"@) == 13959445508,
        "path"@.len() == 4,
        word_sig("primary"@) == 16360823815,
        "primary"@.len() == 7,
        word_sig("primary-paste"@) == 13676469261,
        "primary-paste"@.len() == 13,
        word_sig("server"@) == 15421193414,
        "server"@.len() == 6,
        word_sig("ssh-env"@) == 15953984711,
        "ssh-env"@.len() == 7,
        word_sig("ssh-terminfo"@) == 15005023436,
        "ssh-terminfo"@.len() == 12,
        word_sig("stretch"@) == 14063410375,
        "stretch"@.len() == 7,
        word_sig("sudo"@) == 14899133636,
        "sudo"@.len() == 4,
        word_sig("system"@) == 14745025734,
        "system"@.len() == 6,
        word_sig("t"@) == 15569263873,
        "t"@.len() == 1,
        word_sig("title"@) == 13556858117,
        "title"@.len() == 5,
        word_sig("top-center"@) == 15407643914,
        "top-center"@.len() == 10,
        word_sig("top-left"@) == 15676079368,
        "top-left"@.len() == 8,
        word_sig("top-right"@) == 15680273673,
        "top-right"@.len() == 9,
        word_sig("true"@) == 13556931844,
        "true"@.len() == 4,
        word_sig("underline"@) == 13670145353,
        "underline"@.len() == 9,
        word_sig("unfocused"@) == 13545364809,
        "unfocused"@.len() == 9,
        word_sig("unicode"@) == 13661756743,
        "unicode"@.len() == 7,
        word_sig("unlimited"@) == 13532781897,
        "unlimited"@.len() == 9,
        word_sig("working-directory"@) == 16356605393,
        "working-directory"@.len() == 17,
        word_sig("yes"@) == 15435873859,
        "yes"@.len() == 3,
        word_sig("zsh"@) == 13959593603,
        "zsh"@.len() == 3,
{
    reveal(word_sig);
    reveal_strlit("0");
    reveal_strlit("1");
    reveal_strlit("16-bit");
    reveal_strlit("8-bit");
    reveal_strlit("after-first");
    reveal_strlit("allow");
    reveal_strlit("always");
    reveal_strlit("ask");
    reveal_strlit("attention");
    reveal_strlit("audio");
    reveal_strlit("auto");
    reveal_strlit("bar");
    reveal_strlit("bash");
    reveal_strlit("bell");
    reveal_strlit("block");
    reveal_strlit("block-hollow");
    reveal_strlit("block_hollow");
    reveal_strlit("bold");
    reveal_strlit("bold-italic");
    reveal_strlit("border");
    reveal_strlit("both");
    reveal_strlit("bottom-center");
    reveal_strlit("bottom-left");
    reveal_strlit("bottom-right");
    reveal_strlit("bright");
    reveal_strlit("cell-background");
    reveal_strlit("cell-foreground");
    reveal_strlit("center");
    reveal_strlit("center-center");
    reveal_strlit("center-left");
    reveal_strlit("center-right");
    reveal_strlit("clear");
    reveal_strlit("client");
    reveal_strlit("clipboard");
    reveal_strlit("clipboard-copy");
    reveal_strlit("clipboard-paste");
    reveal_strlit("config-reload");
    reveal_strlit("contain");
    reveal_strlit("context-menu");
    reveal_strlit("copy");
    reveal_strlit("copy-or-paste");
    reveal_strlit("cover");
    reveal_strlit("current");
    reveal_strlit("cursor");
    reveal_strlit("dark");
    reveal_strlit("default");
    reveal_strlit("deny");
    reveal_strlit("detect");
    reveal_strlit("elvish");
    reveal_strlit("end");
    reveal_strlit("equal");
    reveal_strlit("f");
    reveal_strlit("false");
    reveal_strlit("fish");
    reveal_strlit("home");
    reveal_strlit("ignore");
    reveal_strlit("inherit");
    reveal_strlit("italic");
    reveal_strlit("keystroke");
    reveal_strlit("legacy");
    reveal_strlit("light");
    reveal_strlit("macos-glass-clear");
    reveal_strlit("macos-glass-regular");
    reveal_strlit("main");
    reveal_strlit("navigation");
    reveal_strlit("never");
    reveal_strlit("no");
    reveal_strlit("no-cursor");
    reveal_strlit("no-navigation");
    reveal_strlit("non-native");
    reveal_strlit("non-native-padded-notch");
    reveal_strlit("non-native-visible-menu");
    reveal_strlit("none");
    reveal_strlit("notify");
    reveal_strlit("nushell");
    reveal_strlit("off");
    reveal_strlit("on");
    reveal_strlit("output");
    reveal_strlit("paste");
    reveal_strlit("path");
    reveal_strlit("primary");
    reveal_strlit("primary-paste");
    reveal_strlit("server");
    reveal_strlit("ssh-env");
    reveal_strlit("ssh-terminfo");
    reveal_strlit("stretch");
    reveal_strlit("sudo");
    reveal_strlit("system");
    reveal_strlit("t");
    reveal_strlit("title");
    reveal_strlit("top-center");
    reveal_strlit("top-left");
    reveal_strlit("top-right");
    reveal_strlit("true");
    reveal_strlit("underline");
    reveal_strlit("unfocused");
    reveal_strlit("unicode");
    reveal_strlit("unlimited");
    reveal_strlit("working-directory");
    reveal_strlit("yes");
    reveal_strlit("zsh");
}

/// Whether a value says yes.
pub open spec fn says_yes(v: Seq<char>) -> bool {
    lower(v) == "true"@ || lower(v) == "yes"@ || lower(v) == "on"@ || lower(v) == "1"@
}

/// Whether a value says no.
pub open spec fn says_no(v: Seq<char>) -> bool {
    lower(v) == "false"@ || lower(v) == "no"@ || lower(v) == "off"@ || lower(v) == "0"@
}

pub(crate) proof fn lemma_says(v: Seq<char>)
    ensures
        says_yes(v) ==> v.len() > 0 && crate::config::set::bool_word(v) == Some(true),
        says_no(v) ==> v.len() > 0 && crate::config::set::bool_word(v) == Some(false),
        !says_yes(v) && !says_no(v) ==> crate::config::set::bool_word(v) is None,
        !(says_yes(v) && says_no(v)),
{
    reveal(crate::config::set::bool_word);
    lemma_words();
    assert(lower(v).len() == v.len());
}

} // verus!
