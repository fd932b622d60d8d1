//! Settings made of several parts, and the problems they report.

use crate::config::color::{
    color_value, parse_color, terminal_color_value, ColorNames, TerminalColor,
};
use crate::config::entry::{palette_row, parse_command_palette_entry, PaletteEntry};
use crate::config::grammar::{
    clipboard_map, codepoint_ranges, map_views, parse_clipboard_map, parse_codepoint_ranges,
    ClipboardMap, ClipboardMapView,
};
use crate::config::lines::{
    input_source, input_views, opt_view, InputSource, InputView, Located, LocatedView,
};
use crate::config::set::{
    font_variation, modifier, pairs, parse_font_variation, texts, FontVariation, MetricModifier,
    ModifierView, VariationView,
};
use crate::config::settings::{axes, font_maps, rows, FontCodepointMap, FontMapView};
use crate::config::values::BackgroundBlur;
use crate::engine::{BoldColor, Rgb};
use crate::text::{
    chars, concat3, eq_ignore_case, halves, lower, lowered, natural_to, pieces, read_natural,
    same_ignoring_case, spells, split, split_once, string, strip_prefix, stripped, trim, trim_start,
    trimmed, trimmed_start, views,
};
use vstd::prelude::*;

verus! {

// ---------------------------------------------------------------- problems

/// A message with `v` between two fixed texts.
pub open spec fn message(before: Seq<char>, v: Seq<char>, after: Seq<char>) -> Seq<char> {
    before + v + after
}

/// Report a problem: `v` between two fixed texts.
pub fn report(list: &mut Vec<String>, before: &str, v: &str, after: &str)
    ensures
        texts(final(list)@) == texts(old(list)@).push(message(before@, v@, after@)),
{
    let ghost start = list@;
    list.push(concat3(before, v, after));
    proof {
        assert(texts(list@) =~= texts(start).push(message(before@, v@, after@)));
    }
}

/// Rust's `Debug` text of a string: the string in double quotes, with escapes.
pub uninterp spec fn debug_text(s: Seq<char>) -> Seq<char>;

/// `format!("{v:?}")`, Rust's `Debug` text of a string. What it escapes, and
/// how, is not stated here.
#[verifier::external_body]
fn debug(v: &str) -> (r: String)
    ensures
        r@ == debug_text(v@),
{
    format!("{v:?}")
}

// ---------------------------------------------------------------- colours

/// A highlight colour: empty resets, a value that is none keeps `current`.
pub open spec fn terminal_color_or(
    v: Seq<char>,
    names: Seq<(Seq<char>, Rgb)>,
    current: TerminalColor,
    default: TerminalColor,
) -> TerminalColor {
    if v.len() == 0 {
        default
    } else {
        match terminal_color_value(v, names) {
            Some(c) => c,
            None => current,
        }
    }
}

/// The problems after a highlight colour is given `v`.
pub open spec fn color_problems(
    list: Seq<Seq<char>>,
    v: Seq<char>,
    names: Seq<(Seq<char>, Rgb)>,
) -> Seq<Seq<char>> {
    if v.len() > 0 && terminal_color_value(v, names) is None {
        list.push(message("ignoring unparseable color '"@, v, "'"@))
    } else {
        list
    }
}

/// Resolve one highlight colour: empty resets, a bad value keeps the current
/// one and says so.
pub fn terminal_color(
    v: &str,
    names: &ColorNames,
    current: TerminalColor,
    default: TerminalColor,
    list: &mut Vec<String>,
) -> (r: TerminalColor)
    ensures
        r == terminal_color_or(v@, names@, current, default),
        texts(final(list)@) == color_problems(texts(old(list)@), v@, names@),
{
    if v.is_empty() {
        return default;
    }
    match TerminalColor::parse(v, names) {
        Some(c) => c,
        None => {
            report(list, "ignoring unparseable color '", v, "'");
            current
        },
    }
}

/// The cursor's text colour after it is given `v`.
pub open spec fn cursor_text_or(
    v: Seq<char>,
    names: Seq<(Seq<char>, Rgb)>,
    current: Option<TerminalColor>,
) -> Option<TerminalColor> {
    if v.len() == 0 {
        None
    } else {
        match terminal_color_value(v, names) {
            Some(c) => Some(c),
            None => current,
        }
    }
}

/// Resolve the cursor's text colour.
pub fn cursor_text(
    v: &str,
    names: &ColorNames,
    current: Option<TerminalColor>,
) -> (r: Option<TerminalColor>)
    ensures
        r == cursor_text_or(v@, names@, current),
{
    if v.is_empty() {
        return None;
    }
    match TerminalColor::parse(v, names) {
        Some(c) => Some(c),
        None => current,
    }
}

/// The bold policy after it is given `v`: `bright` or a colour.
pub open spec fn bold_color_or(
    v: Seq<char>,
    names: Seq<(Seq<char>, Rgb)>,
    current: BoldColor,
) -> BoldColor {
    if v.len() == 0 {
        BoldColor::Off
    } else if lower(v) == "bright"@ {
        BoldColor::Bright
    } else {
        match color_value(v, names) {
            Some(c) => BoldColor::Color(c),
            None => current,
        }
    }
}

/// Resolve the bold policy.
pub fn bold_color(v: &str, names: &ColorNames, current: BoldColor) -> (r: BoldColor)
    ensures
        r == bold_color_or(v@, names@, current),
{
    if v.is_empty() {
        return BoldColor::Off;
    }
    let cs = chars(v);
    let w = lowered(cs.as_slice());
    if spells(w.as_slice(), "bright") {
        return BoldColor::Bright;
    }
    match parse_color(v, names) {
        Some(c) => BoldColor::Color(c),
        None => current,
    }
}

/// The blur after it is given `v`: a strict boolean, a glass effect, which
/// counts as on, or an intensity.
pub open spec fn blur_or(v: Seq<char>, current: BackgroundBlur) -> BackgroundBlur {
    let w = lower(v);
    if v.len() == 0 {
        BackgroundBlur::Off
    } else if w == "1"@ || w == "t"@ || w == "true"@ {
        BackgroundBlur::On
    } else if w == "0"@ || w == "f"@ || w == "false"@ {
        BackgroundBlur::Off
    } else if w == "macos-glass-regular"@ || w == "macos-glass-clear"@ {
        BackgroundBlur::On
    } else {
        match natural_to(v, 10, 255) {
            Some(n) => BackgroundBlur::Radius(n as u8),
            None => current,
        }
    }
}

/// Resolve the blur.
pub fn blur(v: &str, current: BackgroundBlur) -> (r: BackgroundBlur)
    ensures
        r == blur_or(v@, current),
{
    if v.is_empty() {
        return BackgroundBlur::Off;
    }
    let cs = chars(v);
    let w = lowered(cs.as_slice());
    let w = w.as_slice();
    if spells(w, "1") || spells(w, "t") || spells(w, "true") {
        BackgroundBlur::On
    } else if spells(w, "0") || spells(w, "f") || spells(w, "false") {
        BackgroundBlur::Off
    } else if spells(w, "macos-glass-regular") || spells(w, "macos-glass-clear") {
        BackgroundBlur::On
    } else {
        match read_natural(cs.as_slice(), 10, 255) {
            Some(n) => BackgroundBlur::Radius(n as u8),
            None => current,
        }
    }
}

// ---------------------------------------------------------------- directory

/// The start directory that a value names: `inherit` is none, `home` and `~/`
/// paths count from the home directory, which may be unknown.
pub open spec fn start_directory(v: Seq<char>, home: Option<Seq<char>>) -> Option<LocatedView> {
    if v.len() == 0 || v == "inherit"@ {
        None
    } else if v == "home"@ {
        match home {
            Some(h) => Some(LocatedView { base: None, path: h }),
            None => None,
        }
    } else {
        let rest = match strip_prefix(v, "~/"@) {
            Some(r) => Some(r),
            None => strip_prefix(v, "~\\"@),
        };
        match (rest, home) {
            (Some(r), Some(h)) => Some(LocatedView { base: Some(h), path: r }),
            (Some(r), None) => None,
            (None, _) => Some(LocatedView { base: None, path: v }),
        }
    }
}

/// Resolve the start directory.
pub fn working_directory(v: &str, home: &Option<String>) -> (r: Option<Located>)
    ensures
        match r {
            Some(l) => start_directory(v@, opt_view(*home)) == Some(l@),
            None => start_directory(v@, opt_view(*home)) is None,
        },
{
    let cs = chars(v);
    let cs = cs.as_slice();
    if v.is_empty() || spells(cs, "inherit") {
        return None;
    }
    if spells(cs, "home") {
        return match home {
            Some(h) => Some(Located { base: None, path: h.as_str().to_owned() }),
            None => None,
        };
    }
    let rest = match stripped(cs, "~/") {
        Some(r) => Some(r),
        None => stripped(cs, "~\\"),
    };
    match rest {
        Some(r) => match home {
            Some(h) => Some(Located { base: Some(h.as_str().to_owned()), path: string(r) }),
            None => None,
        },
        None => Some(Located { base: None, path: v.to_owned() }),
    }
}

// ---------------------------------------------------------------- lists

/// The pieces of a list that are not blank, trimmed.
pub open spec fn tokens(ps: Seq<Seq<char>>) -> Seq<Seq<char>>
    decreases ps.len(),
{
    if ps.len() == 0 {
        Seq::empty()
    } else if trim(ps.last()).len() == 0 {
        tokens(ps.drop_last())
    } else {
        tokens(ps.drop_last()).push(trim(ps.last()))
    }
}

/// The features after `font-feature` is given `v`: empty resets them, else the
/// comma-separated ones are appended.
pub open spec fn features_or(list: Seq<Seq<char>>, v: Seq<char>) -> Seq<Seq<char>> {
    if v.len() == 0 {
        Seq::empty()
    } else {
        list + tokens(split(v, ','))
    }
}

/// Apply one `font-feature` value.
pub fn add_features(list: &mut Vec<String>, v: &str)
    ensures
        texts(final(list)@) == features_or(texts(old(list)@), v@),
{
    if v.is_empty() {
        list.clear();
        proof {
            assert(texts(list@) =~= Seq::empty());
        }
        return;
    }
    let cs = chars(v);
    let ps = pieces(cs.as_slice(), ',');
    let ghost all = views(ps@);
    let ghost start = texts(list@);
    let mut i: usize = 0;
    proof {
        assert(start + tokens(all.take(0)) =~= start);
    }
    while i < ps.len()
        invariant
            all == views(ps@),
            i <= ps@.len(),
            texts(list@) == start + tokens(all.take(i as int)),
        decreases ps@.len() - i,
    {
        proof {
            assert(all.take(i as int + 1).drop_last() =~= all.take(i as int));
            assert(all.take(i as int + 1).last() == ps@[i as int]@);
        }
        let t = trimmed(ps[i].as_slice());
        if t.len() > 0 {
            let ghost before = list@;
            list.push(string(t));
            proof {
                assert(texts(list@) =~= texts(before).push(t@));
                assert(texts(before).push(t@) =~= start + tokens(all.take(i as int)).push(t@));
            }
        }
        i = i + 1;
    }
    proof {
        assert(all.take(all.len() as int) =~= all);
    }
}

/// Append a copied-text map where `v` spells one; empty clears the list.
pub open spec fn clipboard_maps_or(
    list: Seq<ClipboardMapView>,
    v: Seq<char>,
) -> Seq<ClipboardMapView> {
    if v.len() == 0 {
        Seq::empty()
    } else {
        match clipboard_map(v) {
            Some(m) => list.push(m),
            None => list,
        }
    }
}

/// Apply one `clipboard-codepoint-map` value.
pub fn add_clipboard_map(list: &mut Vec<ClipboardMap>, v: &str)
    ensures
        map_views(final(list)@) == clipboard_maps_or(map_views(old(list)@), v@),
{
    let ghost before = list@;
    if v.is_empty() {
        list.clear();
        proof {
            assert(map_views(list@) =~= Seq::empty());
        }
    } else {
        match parse_clipboard_map(v) {
            Some(m) => {
                list.push(m);
                proof {
                    assert(map_views(list@) =~= map_views(before).push(m@));
                }
            },
            None => {},
        }
    }
}

/// The font map that `ranges=family` spells.
pub open spec fn font_map(v: Seq<char>) -> Option<FontMapView> {
    match split_once(v, '=') {
        Some(p) => match codepoint_ranges(p.0) {
            Some(ranges) => if trim(p.1).len() > 0 {
                Some(FontMapView { ranges, family: trim(p.1) })
            } else {
                None
            },
            None => None,
        },
        None => None,
    }
}

/// Append a font map where `v` spells one; empty clears the list.
pub open spec fn font_maps_or(list: Seq<FontMapView>, v: Seq<char>) -> Seq<FontMapView> {
    if v.len() == 0 {
        Seq::empty()
    } else {
        match font_map(v) {
            Some(m) => list.push(m),
            None => list,
        }
    }
}

/// Apply one `font-codepoint-map` value.
pub fn add_font_map(list: &mut Vec<FontCodepointMap>, v: &str)
    ensures
        font_maps(final(list)@) == font_maps_or(font_maps(old(list)@), v@),
{
    let ghost before = list@;
    if v.is_empty() {
        list.clear();
        proof {
            assert(font_maps(list@) =~= Seq::empty());
        }
        return;
    }
    let cs = chars(v);
    match halves(cs.as_slice(), '=') {
        Some((lhs, family)) => {
            let left = string(lhs);
            let family = trimmed(family);
            match parse_codepoint_ranges(left.as_str()) {
                Some(ranges) => {
                    if family.len() > 0 {
                        let m = FontCodepointMap { ranges, family: string(family) };
                        list.push(m);
                        proof {
                            assert(font_maps(list@) =~= font_maps(before).push(m@));
                        }
                    }
                },
                None => {},
            }
        },
        None => {},
    }
}

/// The palette's rows after `command-palette-entry` is given `v`: empty and
/// `clear` drop the custom rows, a row is appended.
pub open spec fn rows_or(
    list: Seq<crate::config::entry::PaletteEntryView>,
    v: Seq<char>,
) -> Seq<crate::config::entry::PaletteEntryView> {
    if v.len() == 0 || v == "clear"@ {
        Seq::empty()
    } else {
        match palette_row(v) {
            Some(e) => list.push(e),
            None => list,
        }
    }
}

/// Whether the built-in rows show after `command-palette-entry` is given `v`.
pub open spec fn row_defaults_or(v: Seq<char>, current: bool) -> bool {
    if v.len() == 0 {
        true
    } else if v == "clear"@ {
        false
    } else {
        current
    }
}

/// Apply one `command-palette-entry` value; the result says whether the
/// built-in rows show.
pub fn add_palette_row(list: &mut Vec<PaletteEntry>, v: &str, current: bool) -> (r: bool)
    ensures
        rows(final(list)@) == rows_or(rows(old(list)@), v@),
        r == row_defaults_or(v@, current),
{
    let ghost before = list@;
    let cs = chars(v);
    if v.is_empty() {
        list.clear();
        proof {
            assert(rows(list@) =~= Seq::empty());
        }
        true
    } else if spells(cs.as_slice(), "clear") {
        list.clear();
        proof {
            assert(rows(list@) =~= Seq::empty());
        }
        false
    } else {
        match parse_command_palette_entry(v) {
            Some(e) => {
                list.push(e);
                proof {
                    assert(rows(list@) =~= rows(before).push(e@));
                }
            },
            None => {},
        }
        current
    }
}

/// The input sources after `input` is given `v`.
pub open spec fn inputs_or(list: Seq<InputView>, v: Seq<char>) -> Seq<InputView> {
    if v.len() == 0 {
        Seq::empty()
    } else {
        match input_source(v) {
            Some(s) => list.push(s),
            None => list,
        }
    }
}

/// Apply one `input` value. An invalid escape rejects it.
pub fn add_input(list: &mut Vec<InputSource>, v: &str)
    ensures
        input_views(final(list)@) == inputs_or(input_views(old(list)@), v@),
{
    let ghost before = list@;
    if v.is_empty() {
        list.clear();
        proof {
            assert(input_views(list@) =~= Seq::empty());
        }
    } else {
        match InputSource::parse(v) {
            Some(s) => {
                list.push(s);
                proof {
                    assert(input_views(list@) =~= input_views(before).push(s@));
                }
            },
            None => {},
        }
    }
}

/// The keybinds after `keybind` is given `v`: empty and `clear` drop them, and
/// `trigger=action` is appended, split at the first `=`.
pub open spec fn keybinds_or(
    list: Seq<(Seq<char>, Seq<char>)>,
    v: Seq<char>,
) -> Seq<(Seq<char>, Seq<char>)> {
    if v.len() == 0 || same_ignoring_case(v, "clear"@) {
        Seq::empty()
    } else {
        match split_once(v, '=') {
            Some(p) => list.push((trim(p.0), trim_start(p.1))),
            None => list,
        }
    }
}

/// The key remaps after `key-remap` is given `v`: `from=to`, neither of them
/// empty. Anything else is passed over.
#[verifier::opaque]
pub open spec fn remaps_or(
    list: Seq<(Seq<char>, Seq<char>)>,
    v: Seq<char>,
) -> Seq<(Seq<char>, Seq<char>)> {
    if v.len() == 0 {
        Seq::empty()
    } else {
        match split_once(v, '=') {
            Some(p) => if trim(p.0).len() > 0 && trim(p.1).len() > 0 {
                list.push((trim(p.0), trim(p.1)))
            } else {
                list
            },
            None => list,
        }
    }
}

/// Apply one `key-remap` value.
pub fn add_remap(list: &mut Vec<(String, String)>, v: &str)
    ensures
        pairs(final(list)@) == remaps_or(pairs(old(list)@), v@),
{
    proof {
        reveal(remaps_or);
    }
    let ghost before = list@;
    if v.is_empty() {
        list.clear();
        proof {
            assert(pairs(list@) =~= Seq::empty());
        }
        return;
    }
    let cs = chars(v);
    match halves(cs.as_slice(), '=') {
        Some((from, to)) => {
            let (from, to) = (trimmed(from), trimmed(to));
            if from.len() > 0 && to.len() > 0 {
                list.push((string(from), string(to)));
                proof {
                    assert(pairs(list@) =~= pairs(before).push((from@, to@)));
                }
            }
        },
        None => {},
    }
}

/// The problems after `keybind` is given `v`.
pub open spec fn keybind_problems(list: Seq<Seq<char>>, v: Seq<char>) -> Seq<Seq<char>> {
    if v.len() > 0 && !same_ignoring_case(v, "clear"@) && split_once(v, '=') is None {
        list.push(
            message("ignoring malformed keybind (expected 'trigger=action'): "@, v, ""@),
        )
    } else {
        list
    }
}

/// Apply one `keybind` value.
pub fn add_keybind(list: &mut Vec<(String, String)>, v: &str, problems: &mut Vec<String>)
    ensures
        pairs(final(list)@) == keybinds_or(pairs(old(list)@), v@),
        texts(final(problems)@) == keybind_problems(texts(old(problems)@), v@),
{
    let ghost before = list@;
    let cs = chars(v);
    if v.is_empty() || eq_ignore_case(v, "clear") {
        list.clear();
        proof {
            assert(pairs(list@) =~= Seq::empty());
        }
    } else {
        match halves(cs.as_slice(), '=') {
            Some((trigger, action)) => {
                let t = string(trimmed(trigger));
                let a = string(trimmed_start(action));
                list.push((t, a));
                proof {
                    assert(pairs(list@) =~= pairs(before).push((
                        trim(trigger@),
                        trim_start(action@),
                    )));
                }
            },
            None => {
                report(
                    problems,
                    "ignoring malformed keybind (expected 'trigger=action'): ",
                    v,
                    "",
                );
            },
        }
    }
}

// ---------------------------------------------------------------- metrics

/// A metric adjustment: empty resets, a value that is none keeps `current`.
pub open spec fn adjust_or(v: Seq<char>, current: ModifierView) -> ModifierView {
    if v.len() == 0 {
        ModifierView::Unset
    } else {
        match modifier(v) {
            Some(m) => m,
            None => current,
        }
    }
}

/// The problems after a metric adjustment is given `v`.
pub open spec fn adjust_problems(list: Seq<Seq<char>>, v: Seq<char>) -> Seq<Seq<char>> {
    if v.len() > 0 && modifier(v) is None {
        list.push(
            message(
                "ignoring adjustment '"@,
                v,
                "' (expected a number like '1', '-2' or '20%')"@,
            ),
        )
    } else {
        list
    }
}

/// Resolve one metric adjustment.
pub fn adjust_value(v: &str, current: &mut MetricModifier, problems: &mut Vec<String>)
    ensures
        final(current)@ == adjust_or(v@, old(current)@),
        texts(final(problems)@) == adjust_problems(texts(old(problems)@), v@),
{
    if v.is_empty() {
        *current = MetricModifier::Unset;
        return;
    }
    match MetricModifier::parse(v) {
        Some(m) => {
            *current = m;
        },
        None => {
            report(
                problems,
                "ignoring adjustment '",
                v,
                "' (expected a number like '1', '-2' or '20%')",
            );
        },
    }
}

/// One slot's axes after they are given `v`: empty resets them, an axis is
/// appended.
pub open spec fn axes_or(list: Seq<VariationView>, v: Seq<char>) -> Seq<VariationView> {
    if v.len() == 0 {
        Seq::empty()
    } else {
        match font_variation(v) {
            Some(x) => list.push(x),
            None => list,
        }
    }
}

/// The problems after a slot's axes are given `v`.
pub open spec fn axes_problems(list: Seq<Seq<char>>, v: Seq<char>) -> Seq<Seq<char>> {
    if v.len() > 0 && font_variation(v) is None {
        list.push(
            message(
                "font-variation: expected a 4-character axis and a number, e.g. `wght=200`; got "@,
                debug_text(v),
                ""@,
            ),
        )
    } else {
        list
    }
}

/// Apply one `font-variation` value to its slot. A malformed one is dropped and
/// reported.
pub fn set_font_variation(list: &mut Vec<FontVariation>, v: &str, problems: &mut Vec<String>)
    ensures
        axes(final(list)@) == axes_or(axes(old(list)@), v@),
        texts(final(problems)@) == axes_problems(texts(old(problems)@), v@),
{
    let ghost before = list@;
    if v.is_empty() {
        list.clear();
        proof {
            assert(axes(list@) =~= Seq::empty());
        }
        return;
    }
    match parse_font_variation(v) {
        Some(x) => {
            list.push(x);
            proof {
                assert(axes(list@) =~= axes(before).push(x@));
            }
        },
        None => {
            let shown = debug(v);
            report(
                problems,
                "font-variation: expected a 4-character axis and a number, e.g. `wght=200`; got ",
                shown.as_str(),
                "",
            );
        },
    }
}

/// The problems after `quick-terminal-screen` is given `v`: only `main` is
/// supported.
pub open spec fn screen_problems(list: Seq<Seq<char>>, v: Seq<char>) -> Seq<Seq<char>> {
    if v.len() > 0 && !same_ignoring_case(v, "main"@) {
        list.push(message("quick-terminal-screen '"@, v, "' is not supported; using 'main'"@))
    } else {
        list
    }
}

/// Report an unsupported `quick-terminal-screen`.
pub fn check_screen(v: &str, problems: &mut Vec<String>)
    ensures
        texts(final(problems)@) == screen_problems(texts(old(problems)@), v@),
{
    if !v.is_empty() && !eq_ignore_case(v, "main") {
        report(problems, "quick-terminal-screen '", v, "' is not supported; using 'main'");
    }
}

} // verus!
