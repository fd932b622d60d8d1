//! Lines about fonts, metrics, colours and the background.

use crate::config::apply::{backdrop_key, colors_key, fonts_key, metrics_key, palette_set_after};
use crate::config::color::{TerminalColor, color_value};
use crate::config::flags::packed;
use crate::config::laws::law_palette_entry_marks_its_index;
use crate::config::lines::FontStyleView;
use crate::config::load::{index_set, parsed};
use crate::config::meaning::{
    lemma_backdrop_keys, lemma_backdrop_reached, lemma_colors_keys, lemma_colors_reached,
    lemma_fonts_keys, lemma_fonts_reached, lemma_metrics_keys, lemma_metrics_reached, lemma_says,
    lemma_words, plain_key, plain_value, said, says_no, says_yes,
};
use crate::config::meaning::reading::{
    asked_or, flag_names, flag_word, law_adjustments, law_flag_lists, law_font_styles,
    law_numbers_are_told_from_words, law_palette_entries, lemma_decimal_is_tight, lemma_flag_name,
    lemma_no_number, lemma_plain_number, lemma_tight_stays, no_number, plain_number,
};
use crate::config::parts::tokens;
use crate::config::set::{ModifierView, VariationView, font_variation, switched};
use crate::config::settings::{
    AdjustView, BackdropView, ColorsView, ConfigView, FontsView, SurroundingsView,
};
use crate::config::values::{
    BackgroundBlur, BackgroundImageFit, BackgroundImagePosition, CustomShaderAnimation,
    OscColorReportFormat, PaddingBalance, WindowTheme,
};
use crate::engine::{BoldColor, CursorShape, Rgb};
use crate::text::{
    begins, decimal, joined, law_parts_at_the_first, lemma_first_index, lemma_split_joined, lower,
    split, tight,
};
use vstd::prelude::*;

verus! {

/// `font-size` keeps the numbers that were written since it was last reset.
pub proof fn law_font_size(c: ConfigView, v: Seq<char>, e: SurroundingsView)
    requires
        plain_value(v),
    ensures
        ({
            let n = parsed(c, said("font-size"@, v), e);
            let s = n.fonts.font_points;
            &&& n == (ConfigView { fonts: FontsView { font_points: s, ..c.fonts }, ..c })
            &&& plain_number(v) ==> v.len() > 0 ==> s == c.fonts.font_points.push(v)
            &&& v.len() == 0 ==> s == Seq::<Seq<char>>::empty()
            &&& no_number(v) ==> s == c.fonts.font_points
        }),
{
    lemma_fonts_keys();
    lemma_fonts_reached(c, "font-size"@, v, e);
    reveal(fonts_key);
    law_numbers_are_told_from_words(v);
}

/// `font-family` adds to its list; no value empties it.
pub proof fn law_font_family(c: ConfigView, v: Seq<char>, e: SurroundingsView)
    requires
        plain_value(v),
    ensures
        ({
            let n = parsed(c, said("font-family"@, v), e);
            let s = n.fonts.font_family;
            &&& n == (ConfigView { fonts: FontsView { font_family: s, ..c.fonts }, ..c })
            &&& v.len() > 0 ==> s == c.fonts.font_family.push(v)
            &&& v.len() == 0 ==> s == Seq::<Seq<char>>::empty()
        }),
{
    lemma_fonts_keys();
    lemma_fonts_reached(c, "font-family"@, v, e);
    reveal(fonts_key);
}

/// `font-family-bold` is the text that was written; no value is none.
pub proof fn law_font_family_bold(c: ConfigView, v: Seq<char>, e: SurroundingsView)
    requires
        plain_value(v),
    ensures
        ({
            let n = parsed(c, said("font-family-bold"@, v), e);
            let s = n.fonts.font_family_bold;
            &&& n == (ConfigView { fonts: FontsView { font_family_bold: s, ..c.fonts }, ..c })
            &&& v.len() > 0 ==> s == Some(v)
            &&& v.len() == 0 ==> s is None
        }),
{
    lemma_fonts_keys();
    lemma_fonts_reached(c, "font-family-bold"@, v, e);
    reveal(fonts_key);
}

/// `font-family-italic` is the text that was written; no value is none.
pub proof fn law_font_family_italic(c: ConfigView, v: Seq<char>, e: SurroundingsView)
    requires
        plain_value(v),
    ensures
        ({
            let n = parsed(c, said("font-family-italic"@, v), e);
            let s = n.fonts.font_family_italic;
            &&& n == (ConfigView { fonts: FontsView { font_family_italic: s, ..c.fonts }, ..c })
            &&& v.len() > 0 ==> s == Some(v)
            &&& v.len() == 0 ==> s is None
        }),
{
    lemma_fonts_keys();
    lemma_fonts_reached(c, "font-family-italic"@, v, e);
    reveal(fonts_key);
}

/// `font-family-bold-italic` is the text that was written; no value is none.
pub proof fn law_font_family_bold_italic(c: ConfigView, v: Seq<char>, e: SurroundingsView)
    requires
        plain_value(v),
    ensures
        ({
            let n = parsed(c, said("font-family-bold-italic"@, v), e);
            let s = n.fonts.font_family_bold_italic;
            &&& n == (ConfigView {
                fonts: FontsView { font_family_bold_italic: s, ..c.fonts },
                ..c
            })
            &&& v.len() > 0 ==> s == Some(v)
            &&& v.len() == 0 ==> s is None
        }),
{
    lemma_fonts_keys();
    lemma_fonts_reached(c, "font-family-bold-italic"@, v, e);
    reveal(fonts_key);
}

/// `font-thicken` is turned on and off; no value resets it, and any other leaves it as it was.
pub proof fn law_font_thicken(c: ConfigView, v: Seq<char>, e: SurroundingsView)
    requires
        plain_value(v),
    ensures
        ({
            let n = parsed(c, said("font-thicken"@, v), e);
            let s = n.fonts.font_thicken;
            &&& n == (ConfigView { fonts: FontsView { font_thicken: s, ..c.fonts }, ..c })
            &&& says_yes(v) ==> s
            &&& says_no(v) ==> !s
            &&& v.len() == 0 ==> s == false
            &&& v.len() > 0 && !says_yes(v) && !says_no(v) ==> s == c.fonts.font_thicken
        }),
{
    lemma_fonts_keys();
    lemma_fonts_reached(c, "font-thicken"@, v, e);
    reveal(fonts_key);
    lemma_says(v);
}

/// `font-thicken-strength` is the number that was written, as far as it goes;
/// no value resets it, and a word leaves it as it was.
pub proof fn law_font_thicken_strength(c: ConfigView, v: Seq<char>, k: nat, e: SurroundingsView)
    requires
        plain_value(v),
    ensures
        ({
            let n = parsed(c, said("font-thicken-strength"@, v), e);
            let s = n.fonts.font_thicken_strength;
            &&& n == (ConfigView { fonts: FontsView { font_thicken_strength: s, ..c.fonts }, ..c })
            &&& v == decimal(k) && k <= u8::MAX ==> s == k
            &&& v == decimal(k) && k > u8::MAX ==> s == c.fonts.font_thicken_strength
            &&& v.len() == 0 ==> s == 255
            &&& no_number(v) ==> s == c.fonts.font_thicken_strength
        }),
{
    lemma_fonts_keys();
    lemma_fonts_reached(c, "font-thicken-strength"@, v, e);
    reveal(fonts_key);
    lemma_decimal_is_tight(k);
    if no_number(v) {
        lemma_no_number(v);
    }
}

/// `text-gamma` keeps the number that was written; no value resets it, and a
/// word leaves it as it was.
pub proof fn law_text_gamma(c: ConfigView, v: Seq<char>, e: SurroundingsView)
    requires
        plain_value(v),
    ensures
        ({
            let n = parsed(c, said("text-gamma"@, v), e);
            let s = n.fonts.text_gamma;
            &&& n == (ConfigView { fonts: FontsView { text_gamma: s, ..c.fonts }, ..c })
            &&& plain_number(v) ==> s == Some(v)
            &&& v.len() == 0 ==> s is None
            &&& no_number(v) ==> s == c.fonts.text_gamma
        }),
{
    lemma_fonts_keys();
    lemma_fonts_reached(c, "text-gamma"@, v, e);
    reveal(fonts_key);
    law_numbers_are_told_from_words(v);
}

/// `adjust-cell-width` is a number of pixels or a percentage; no value resets
/// it, and what is neither is a problem.
pub proof fn law_adjust_cell_width(c: ConfigView, v: Seq<char>, k: nat, e: SurroundingsView)
    requires
        plain_value(v),
    ensures
        ({
            let n = parsed(c, said("adjust-cell-width"@, v), e);
            let s = n.adjust.cell_width;
            &&& n == (ConfigView {
                adjust: AdjustView { cell_width: s, ..c.adjust },
                diagnostics: n.diagnostics,
                ..c
            })
            &&& v == decimal(k) && k <= i32::MAX
                ==> s == ModifierView::Pixels(k as i32) && n.diagnostics == c.diagnostics
            &&& v == seq!['-'] + decimal(k) && k <= i32::MAX
                ==> s == ModifierView::Pixels(-(k as int) as i32)
            &&& v == decimal(k).push('%')
                ==> s == ModifierView::Percent(decimal(k)) && n.diagnostics == c.diagnostics
            &&& v.len() == 0 ==> s == ModifierView::Unset && n.diagnostics == c.diagnostics
            &&& no_number(v) && v.last() != '%'
                ==> s == c.adjust.cell_width && n.diagnostics.len() == c.diagnostics.len() + 1
        }),
{
    lemma_metrics_keys();
    lemma_metrics_reached(c, "adjust-cell-width"@, v, e);
    reveal(metrics_key);
    law_adjustments(k);
    lemma_decimal_is_tight(k);
    if no_number(v) {
        lemma_no_number(v);
        lemma_tight_stays(v);
    }
}

/// `adjust-cell-height` is a number of pixels or a percentage; no value resets
/// it, and what is neither is a problem.
pub proof fn law_adjust_cell_height(c: ConfigView, v: Seq<char>, k: nat, e: SurroundingsView)
    requires
        plain_value(v),
    ensures
        ({
            let n = parsed(c, said("adjust-cell-height"@, v), e);
            let s = n.adjust.cell_height;
            &&& n == (ConfigView {
                adjust: AdjustView { cell_height: s, ..c.adjust },
                diagnostics: n.diagnostics,
                ..c
            })
            &&& v == decimal(k) && k <= i32::MAX
                ==> s == ModifierView::Pixels(k as i32) && n.diagnostics == c.diagnostics
            &&& v == seq!['-'] + decimal(k) && k <= i32::MAX
                ==> s == ModifierView::Pixels(-(k as int) as i32)
            &&& v == decimal(k).push('%')
                ==> s == ModifierView::Percent(decimal(k)) && n.diagnostics == c.diagnostics
            &&& v.len() == 0 ==> s == ModifierView::Unset && n.diagnostics == c.diagnostics
            &&& no_number(v) && v.last() != '%'
                ==> s == c.adjust.cell_height && n.diagnostics.len() == c.diagnostics.len() + 1
        }),
{
    lemma_metrics_keys();
    lemma_metrics_reached(c, "adjust-cell-height"@, v, e);
    reveal(metrics_key);
    law_adjustments(k);
    lemma_decimal_is_tight(k);
    if no_number(v) {
        lemma_no_number(v);
        lemma_tight_stays(v);
    }
}

/// `adjust-font-baseline` is a number of pixels or a percentage; no value
/// resets it, and what is neither is a problem.
pub proof fn law_adjust_font_baseline(c: ConfigView, v: Seq<char>, k: nat, e: SurroundingsView)
    requires
        plain_value(v),
    ensures
        ({
            let n = parsed(c, said("adjust-font-baseline"@, v), e);
            let s = n.adjust.font_baseline;
            &&& n == (ConfigView {
                adjust: AdjustView { font_baseline: s, ..c.adjust },
                diagnostics: n.diagnostics,
                ..c
            })
            &&& v == decimal(k) && k <= i32::MAX
                ==> s == ModifierView::Pixels(k as i32) && n.diagnostics == c.diagnostics
            &&& v == seq!['-'] + decimal(k) && k <= i32::MAX
                ==> s == ModifierView::Pixels(-(k as int) as i32)
            &&& v == decimal(k).push('%')
                ==> s == ModifierView::Percent(decimal(k)) && n.diagnostics == c.diagnostics
            &&& v.len() == 0 ==> s == ModifierView::Unset && n.diagnostics == c.diagnostics
            &&& no_number(v) && v.last() != '%'
                ==> s == c.adjust.font_baseline && n.diagnostics.len() == c.diagnostics.len() + 1
        }),
{
    lemma_metrics_keys();
    lemma_metrics_reached(c, "adjust-font-baseline"@, v, e);
    reveal(metrics_key);
    law_adjustments(k);
    lemma_decimal_is_tight(k);
    if no_number(v) {
        lemma_no_number(v);
        lemma_tight_stays(v);
    }
}

/// `adjust-underline-position` is a number of pixels or a percentage; no value
/// resets it, and what is neither is a problem.
pub proof fn law_adjust_underline_position(c: ConfigView, v: Seq<char>, k: nat, e: SurroundingsView)
    requires
        plain_value(v),
    ensures
        ({
            let n = parsed(c, said("adjust-underline-position"@, v), e);
            let s = n.adjust.underline_position;
            &&& n == (ConfigView {
                adjust: AdjustView { underline_position: s, ..c.adjust },
                diagnostics: n.diagnostics,
                ..c
            })
            &&& v == decimal(k) && k <= i32::MAX
                ==> s == ModifierView::Pixels(k as i32) && n.diagnostics == c.diagnostics
            &&& v == seq!['-'] + decimal(k) && k <= i32::MAX
                ==> s == ModifierView::Pixels(-(k as int) as i32)
            &&& v == decimal(k).push('%')
                ==> s == ModifierView::Percent(decimal(k)) && n.diagnostics == c.diagnostics
            &&& v.len() == 0 ==> s == ModifierView::Unset && n.diagnostics == c.diagnostics
            &&& no_number(v) && v.last() != '%'
                ==> s == c.adjust.underline_position
                    && n.diagnostics.len() == c.diagnostics.len() + 1
        }),
{
    lemma_metrics_keys();
    lemma_metrics_reached(c, "adjust-underline-position"@, v, e);
    reveal(metrics_key);
    law_adjustments(k);
    lemma_decimal_is_tight(k);
    if no_number(v) {
        lemma_no_number(v);
        lemma_tight_stays(v);
    }
}

/// `adjust-underline-thickness` is a number of pixels or a percentage; no value
/// resets it, and what is neither is a problem.
pub proof fn law_adjust_underline_thickness(
    c: ConfigView,
    v: Seq<char>,
    k: nat,
    e: SurroundingsView,
)
    requires
        plain_value(v),
    ensures
        ({
            let n = parsed(c, said("adjust-underline-thickness"@, v), e);
            let s = n.adjust.underline_thickness;
            &&& n == (ConfigView {
                adjust: AdjustView { underline_thickness: s, ..c.adjust },
                diagnostics: n.diagnostics,
                ..c
            })
            &&& v == decimal(k) && k <= i32::MAX
                ==> s == ModifierView::Pixels(k as i32) && n.diagnostics == c.diagnostics
            &&& v == seq!['-'] + decimal(k) && k <= i32::MAX
                ==> s == ModifierView::Pixels(-(k as int) as i32)
            &&& v == decimal(k).push('%')
                ==> s == ModifierView::Percent(decimal(k)) && n.diagnostics == c.diagnostics
            &&& v.len() == 0 ==> s == ModifierView::Unset && n.diagnostics == c.diagnostics
            &&& no_number(v) && v.last() != '%'
                ==> s == c.adjust.underline_thickness
                    && n.diagnostics.len() == c.diagnostics.len() + 1
        }),
{
    lemma_metrics_keys();
    lemma_metrics_reached(c, "adjust-underline-thickness"@, v, e);
    reveal(metrics_key);
    law_adjustments(k);
    lemma_decimal_is_tight(k);
    if no_number(v) {
        lemma_no_number(v);
        lemma_tight_stays(v);
    }
}

/// `adjust-strikethrough-position` is a number of pixels or a percentage; no
/// value resets it, and what is neither is a problem.
pub proof fn law_adjust_strikethrough_position(
    c: ConfigView,
    v: Seq<char>,
    k: nat,
    e: SurroundingsView,
)
    requires
        plain_value(v),
    ensures
        ({
            let n = parsed(c, said("adjust-strikethrough-position"@, v), e);
            let s = n.adjust.strikethrough_position;
            &&& n == (ConfigView {
                adjust: AdjustView { strikethrough_position: s, ..c.adjust },
                diagnostics: n.diagnostics,
                ..c
            })
            &&& v == decimal(k) && k <= i32::MAX
                ==> s == ModifierView::Pixels(k as i32) && n.diagnostics == c.diagnostics
            &&& v == seq!['-'] + decimal(k) && k <= i32::MAX
                ==> s == ModifierView::Pixels(-(k as int) as i32)
            &&& v == decimal(k).push('%')
                ==> s == ModifierView::Percent(decimal(k)) && n.diagnostics == c.diagnostics
            &&& v.len() == 0 ==> s == ModifierView::Unset && n.diagnostics == c.diagnostics
            &&& no_number(v) && v.last() != '%'
                ==> s == c.adjust.strikethrough_position
                    && n.diagnostics.len() == c.diagnostics.len() + 1
        }),
{
    lemma_metrics_keys();
    lemma_metrics_reached(c, "adjust-strikethrough-position"@, v, e);
    reveal(metrics_key);
    law_adjustments(k);
    lemma_decimal_is_tight(k);
    if no_number(v) {
        lemma_no_number(v);
        lemma_tight_stays(v);
    }
}

/// `adjust-strikethrough-thickness` is a number of pixels or a percentage; no
/// value resets it, and what is neither is a problem.
pub proof fn law_adjust_strikethrough_thickness(
    c: ConfigView,
    v: Seq<char>,
    k: nat,
    e: SurroundingsView,
)
    requires
        plain_value(v),
    ensures
        ({
            let n = parsed(c, said("adjust-strikethrough-thickness"@, v), e);
            let s = n.adjust.strikethrough_thickness;
            &&& n == (ConfigView {
                adjust: AdjustView { strikethrough_thickness: s, ..c.adjust },
                diagnostics: n.diagnostics,
                ..c
            })
            &&& v == decimal(k) && k <= i32::MAX
                ==> s == ModifierView::Pixels(k as i32) && n.diagnostics == c.diagnostics
            &&& v == seq!['-'] + decimal(k) && k <= i32::MAX
                ==> s == ModifierView::Pixels(-(k as int) as i32)
            &&& v == decimal(k).push('%')
                ==> s == ModifierView::Percent(decimal(k)) && n.diagnostics == c.diagnostics
            &&& v.len() == 0 ==> s == ModifierView::Unset && n.diagnostics == c.diagnostics
            &&& no_number(v) && v.last() != '%'
                ==> s == c.adjust.strikethrough_thickness
                    && n.diagnostics.len() == c.diagnostics.len() + 1
        }),
{
    lemma_metrics_keys();
    lemma_metrics_reached(c, "adjust-strikethrough-thickness"@, v, e);
    reveal(metrics_key);
    law_adjustments(k);
    lemma_decimal_is_tight(k);
    if no_number(v) {
        lemma_no_number(v);
        lemma_tight_stays(v);
    }
}

/// `adjust-overline-position` is a number of pixels or a percentage; no value
/// resets it, and what is neither is a problem.
pub proof fn law_adjust_overline_position(c: ConfigView, v: Seq<char>, k: nat, e: SurroundingsView)
    requires
        plain_value(v),
    ensures
        ({
            let n = parsed(c, said("adjust-overline-position"@, v), e);
            let s = n.adjust.overline_position;
            &&& n == (ConfigView {
                adjust: AdjustView { overline_position: s, ..c.adjust },
                diagnostics: n.diagnostics,
                ..c
            })
            &&& v == decimal(k) && k <= i32::MAX
                ==> s == ModifierView::Pixels(k as i32) && n.diagnostics == c.diagnostics
            &&& v == seq!['-'] + decimal(k) && k <= i32::MAX
                ==> s == ModifierView::Pixels(-(k as int) as i32)
            &&& v == decimal(k).push('%')
                ==> s == ModifierView::Percent(decimal(k)) && n.diagnostics == c.diagnostics
            &&& v.len() == 0 ==> s == ModifierView::Unset && n.diagnostics == c.diagnostics
            &&& no_number(v) && v.last() != '%'
                ==> s == c.adjust.overline_position
                    && n.diagnostics.len() == c.diagnostics.len() + 1
        }),
{
    lemma_metrics_keys();
    lemma_metrics_reached(c, "adjust-overline-position"@, v, e);
    reveal(metrics_key);
    law_adjustments(k);
    lemma_decimal_is_tight(k);
    if no_number(v) {
        lemma_no_number(v);
        lemma_tight_stays(v);
    }
}

/// `adjust-overline-thickness` is a number of pixels or a percentage; no value
/// resets it, and what is neither is a problem.
pub proof fn law_adjust_overline_thickness(c: ConfigView, v: Seq<char>, k: nat, e: SurroundingsView)
    requires
        plain_value(v),
    ensures
        ({
            let n = parsed(c, said("adjust-overline-thickness"@, v), e);
            let s = n.adjust.overline_thickness;
            &&& n == (ConfigView {
                adjust: AdjustView { overline_thickness: s, ..c.adjust },
                diagnostics: n.diagnostics,
                ..c
            })
            &&& v == decimal(k) && k <= i32::MAX
                ==> s == ModifierView::Pixels(k as i32) && n.diagnostics == c.diagnostics
            &&& v == seq!['-'] + decimal(k) && k <= i32::MAX
                ==> s == ModifierView::Pixels(-(k as int) as i32)
            &&& v == decimal(k).push('%')
                ==> s == ModifierView::Percent(decimal(k)) && n.diagnostics == c.diagnostics
            &&& v.len() == 0 ==> s == ModifierView::Unset && n.diagnostics == c.diagnostics
            &&& no_number(v) && v.last() != '%'
                ==> s == c.adjust.overline_thickness
                    && n.diagnostics.len() == c.diagnostics.len() + 1
        }),
{
    lemma_metrics_keys();
    lemma_metrics_reached(c, "adjust-overline-thickness"@, v, e);
    reveal(metrics_key);
    law_adjustments(k);
    lemma_decimal_is_tight(k);
    if no_number(v) {
        lemma_no_number(v);
        lemma_tight_stays(v);
    }
}

/// `adjust-cursor-thickness` is a number of pixels or a percentage; no value
/// resets it, and what is neither is a problem.
pub proof fn law_adjust_cursor_thickness(c: ConfigView, v: Seq<char>, k: nat, e: SurroundingsView)
    requires
        plain_value(v),
    ensures
        ({
            let n = parsed(c, said("adjust-cursor-thickness"@, v), e);
            let s = n.adjust.cursor_thickness;
            &&& n == (ConfigView {
                adjust: AdjustView { cursor_thickness: s, ..c.adjust },
                diagnostics: n.diagnostics,
                ..c
            })
            &&& v == decimal(k) && k <= i32::MAX
                ==> s == ModifierView::Pixels(k as i32) && n.diagnostics == c.diagnostics
            &&& v == seq!['-'] + decimal(k) && k <= i32::MAX
                ==> s == ModifierView::Pixels(-(k as int) as i32)
            &&& v == decimal(k).push('%')
                ==> s == ModifierView::Percent(decimal(k)) && n.diagnostics == c.diagnostics
            &&& v.len() == 0 ==> s == ModifierView::Unset && n.diagnostics == c.diagnostics
            &&& no_number(v) && v.last() != '%'
                ==> s == c.adjust.cursor_thickness && n.diagnostics.len() == c.diagnostics.len() + 1
        }),
{
    lemma_metrics_keys();
    lemma_metrics_reached(c, "adjust-cursor-thickness"@, v, e);
    reveal(metrics_key);
    law_adjustments(k);
    lemma_decimal_is_tight(k);
    if no_number(v) {
        lemma_no_number(v);
        lemma_tight_stays(v);
    }
}

/// `adjust-cursor-height` is a number of pixels or a percentage; no value
/// resets it, and what is neither is a problem.
pub proof fn law_adjust_cursor_height(c: ConfigView, v: Seq<char>, k: nat, e: SurroundingsView)
    requires
        plain_value(v),
    ensures
        ({
            let n = parsed(c, said("adjust-cursor-height"@, v), e);
            let s = n.adjust.cursor_height;
            &&& n == (ConfigView {
                adjust: AdjustView { cursor_height: s, ..c.adjust },
                diagnostics: n.diagnostics,
                ..c
            })
            &&& v == decimal(k) && k <= i32::MAX
                ==> s == ModifierView::Pixels(k as i32) && n.diagnostics == c.diagnostics
            &&& v == seq!['-'] + decimal(k) && k <= i32::MAX
                ==> s == ModifierView::Pixels(-(k as int) as i32)
            &&& v == decimal(k).push('%')
                ==> s == ModifierView::Percent(decimal(k)) && n.diagnostics == c.diagnostics
            &&& v.len() == 0 ==> s == ModifierView::Unset && n.diagnostics == c.diagnostics
            &&& no_number(v) && v.last() != '%'
                ==> s == c.adjust.cursor_height && n.diagnostics.len() == c.diagnostics.len() + 1
        }),
{
    lemma_metrics_keys();
    lemma_metrics_reached(c, "adjust-cursor-height"@, v, e);
    reveal(metrics_key);
    law_adjustments(k);
    lemma_decimal_is_tight(k);
    if no_number(v) {
        lemma_no_number(v);
        lemma_tight_stays(v);
    }
}

/// `adjust-box-thickness` is a number of pixels or a percentage; no value
/// resets it, and what is neither is a problem.
pub proof fn law_adjust_box_thickness(c: ConfigView, v: Seq<char>, k: nat, e: SurroundingsView)
    requires
        plain_value(v),
    ensures
        ({
            let n = parsed(c, said("adjust-box-thickness"@, v), e);
            let s = n.adjust.box_thickness;
            &&& n == (ConfigView {
                adjust: AdjustView { box_thickness: s, ..c.adjust },
                diagnostics: n.diagnostics,
                ..c
            })
            &&& v == decimal(k) && k <= i32::MAX
                ==> s == ModifierView::Pixels(k as i32) && n.diagnostics == c.diagnostics
            &&& v == seq!['-'] + decimal(k) && k <= i32::MAX
                ==> s == ModifierView::Pixels(-(k as int) as i32)
            &&& v == decimal(k).push('%')
                ==> s == ModifierView::Percent(decimal(k)) && n.diagnostics == c.diagnostics
            &&& v.len() == 0 ==> s == ModifierView::Unset && n.diagnostics == c.diagnostics
            &&& no_number(v) && v.last() != '%'
                ==> s == c.adjust.box_thickness && n.diagnostics.len() == c.diagnostics.len() + 1
        }),
{
    lemma_metrics_keys();
    lemma_metrics_reached(c, "adjust-box-thickness"@, v, e);
    reveal(metrics_key);
    law_adjustments(k);
    lemma_decimal_is_tight(k);
    if no_number(v) {
        lemma_no_number(v);
        lemma_tight_stays(v);
    }
}

/// `adjust-icon-height` is a number of pixels or a percentage; no value resets
/// it, and what is neither is a problem.
pub proof fn law_adjust_icon_height(c: ConfigView, v: Seq<char>, k: nat, e: SurroundingsView)
    requires
        plain_value(v),
    ensures
        ({
            let n = parsed(c, said("adjust-icon-height"@, v), e);
            let s = n.adjust.icon_height;
            &&& n == (ConfigView {
                adjust: AdjustView { icon_height: s, ..c.adjust },
                diagnostics: n.diagnostics,
                ..c
            })
            &&& v == decimal(k) && k <= i32::MAX
                ==> s == ModifierView::Pixels(k as i32) && n.diagnostics == c.diagnostics
            &&& v == seq!['-'] + decimal(k) && k <= i32::MAX
                ==> s == ModifierView::Pixels(-(k as int) as i32)
            &&& v == decimal(k).push('%')
                ==> s == ModifierView::Percent(decimal(k)) && n.diagnostics == c.diagnostics
            &&& v.len() == 0 ==> s == ModifierView::Unset && n.diagnostics == c.diagnostics
            &&& no_number(v) && v.last() != '%'
                ==> s == c.adjust.icon_height && n.diagnostics.len() == c.diagnostics.len() + 1
        }),
{
    lemma_metrics_keys();
    lemma_metrics_reached(c, "adjust-icon-height"@, v, e);
    reveal(metrics_key);
    law_adjustments(k);
    lemma_decimal_is_tight(k);
    if no_number(v) {
        lemma_no_number(v);
        lemma_tight_stays(v);
    }
}

/// `search-background` is a colour, or one of the cell's own; no value resets
/// it, and what is none leaves it as it was and is a problem.
pub proof fn law_search_background(c: ConfigView, v: Seq<char>, e: SurroundingsView)
    requires
        plain_value(v),
    ensures
        ({
            let n = parsed(c, said("search-background"@, v), e);
            let s = n.colors.search_bg;
            &&& n == (ConfigView {
                colors: ColorsView { search_bg: s, ..c.colors },
                diagnostics: n.diagnostics,
                ..c
            })
            &&& lower(v) == "cell-foreground"@ ==> s == TerminalColor::CellForeground
            &&& lower(v) == "cell-background"@ ==> s == TerminalColor::CellBackground
            &&& v.len() > 0 && lower(v) != "cell-foreground"@ && lower(v) != "cell-background"@
                && color_value(v, e.colors) is Some
                ==> s == TerminalColor::Color(color_value(v, e.colors)->0)
            &&& v.len() == 0 ==> s == TerminalColor::Color(Rgb { r: 255, g: 224, b: 130 })
            &&& v.len() > 0 && lower(v) != "cell-foreground"@ && lower(v) != "cell-background"@
                && color_value(v, e.colors) is None
                ==> s == c.colors.search_bg && n.diagnostics.len() == c.diagnostics.len() + 1
        }),
{
    lemma_colors_keys();
    lemma_colors_reached(c, "search-background"@, v, e);
    reveal(colors_key);
    lemma_words();
    assert(lower(v).len() == v.len());
    lemma_tight_stays(v);
}

/// `search-foreground` is a colour, or one of the cell's own; no value resets
/// it, and what is none leaves it as it was and is a problem.
pub proof fn law_search_foreground(c: ConfigView, v: Seq<char>, e: SurroundingsView)
    requires
        plain_value(v),
    ensures
        ({
            let n = parsed(c, said("search-foreground"@, v), e);
            let s = n.colors.search_fg;
            &&& n == (ConfigView {
                colors: ColorsView { search_fg: s, ..c.colors },
                diagnostics: n.diagnostics,
                ..c
            })
            &&& lower(v) == "cell-foreground"@ ==> s == TerminalColor::CellForeground
            &&& lower(v) == "cell-background"@ ==> s == TerminalColor::CellBackground
            &&& v.len() > 0 && lower(v) != "cell-foreground"@ && lower(v) != "cell-background"@
                && color_value(v, e.colors) is Some
                ==> s == TerminalColor::Color(color_value(v, e.colors)->0)
            &&& v.len() == 0 ==> s == TerminalColor::Color(Rgb { r: 0, g: 0, b: 0 })
            &&& v.len() > 0 && lower(v) != "cell-foreground"@ && lower(v) != "cell-background"@
                && color_value(v, e.colors) is None
                ==> s == c.colors.search_fg && n.diagnostics.len() == c.diagnostics.len() + 1
        }),
{
    lemma_colors_keys();
    lemma_colors_reached(c, "search-foreground"@, v, e);
    reveal(colors_key);
    lemma_words();
    assert(lower(v).len() == v.len());
    lemma_tight_stays(v);
}

/// `search-selected-background` is a colour, or one of the cell's own; no value
/// resets it, and what is none leaves it as it was and is a problem.
pub proof fn law_search_selected_background(c: ConfigView, v: Seq<char>, e: SurroundingsView)
    requires
        plain_value(v),
    ensures
        ({
            let n = parsed(c, said("search-selected-background"@, v), e);
            let s = n.colors.search_selected_bg;
            &&& n == (ConfigView {
                colors: ColorsView { search_selected_bg: s, ..c.colors },
                diagnostics: n.diagnostics,
                ..c
            })
            &&& lower(v) == "cell-foreground"@ ==> s == TerminalColor::CellForeground
            &&& lower(v) == "cell-background"@ ==> s == TerminalColor::CellBackground
            &&& v.len() > 0 && lower(v) != "cell-foreground"@ && lower(v) != "cell-background"@
                && color_value(v, e.colors) is Some
                ==> s == TerminalColor::Color(color_value(v, e.colors)->0)
            &&& v.len() == 0 ==> s == TerminalColor::Color(Rgb { r: 242, g: 165, b: 126 })
            &&& v.len() > 0 && lower(v) != "cell-foreground"@ && lower(v) != "cell-background"@
                && color_value(v, e.colors) is None
                ==> s == c.colors.search_selected_bg
                    && n.diagnostics.len() == c.diagnostics.len() + 1
        }),
{
    lemma_colors_keys();
    lemma_colors_reached(c, "search-selected-background"@, v, e);
    reveal(colors_key);
    lemma_words();
    assert(lower(v).len() == v.len());
    lemma_tight_stays(v);
}

/// `search-selected-foreground` is a colour, or one of the cell's own; no value
/// resets it, and what is none leaves it as it was and is a problem.
pub proof fn law_search_selected_foreground(c: ConfigView, v: Seq<char>, e: SurroundingsView)
    requires
        plain_value(v),
    ensures
        ({
            let n = parsed(c, said("search-selected-foreground"@, v), e);
            let s = n.colors.search_selected_fg;
            &&& n == (ConfigView {
                colors: ColorsView { search_selected_fg: s, ..c.colors },
                diagnostics: n.diagnostics,
                ..c
            })
            &&& lower(v) == "cell-foreground"@ ==> s == TerminalColor::CellForeground
            &&& lower(v) == "cell-background"@ ==> s == TerminalColor::CellBackground
            &&& v.len() > 0 && lower(v) != "cell-foreground"@ && lower(v) != "cell-background"@
                && color_value(v, e.colors) is Some
                ==> s == TerminalColor::Color(color_value(v, e.colors)->0)
            &&& v.len() == 0 ==> s == TerminalColor::Color(Rgb { r: 0, g: 0, b: 0 })
            &&& v.len() > 0 && lower(v) != "cell-foreground"@ && lower(v) != "cell-background"@
                && color_value(v, e.colors) is None
                ==> s == c.colors.search_selected_fg
                    && n.diagnostics.len() == c.diagnostics.len() + 1
        }),
{
    lemma_colors_keys();
    lemma_colors_reached(c, "search-selected-foreground"@, v, e);
    reveal(colors_key);
    lemma_words();
    assert(lower(v).len() == v.len());
    lemma_tight_stays(v);
}

/// `split-divider-color` is a colour; no value resets it, and what is no colour
/// leaves it as it was.
pub proof fn law_split_divider_color(c: ConfigView, v: Seq<char>, e: SurroundingsView)
    requires
        plain_value(v),
    ensures
        ({
            let n = parsed(c, said("split-divider-color"@, v), e);
            let s = n.colors.split_divider_color;
            &&& n == (ConfigView { colors: ColorsView { split_divider_color: s, ..c.colors }, ..c })
            &&& v.len() > 0 && color_value(v, e.colors) is Some ==> s == color_value(v, e.colors)
            &&& v.len() == 0 ==> s is None
            &&& v.len() > 0 && color_value(v, e.colors) is None
                ==> s == c.colors.split_divider_color
        }),
{
    lemma_colors_keys();
    lemma_colors_reached(c, "split-divider-color"@, v, e);
    reveal(colors_key);
}

/// `foreground` is a colour; no value resets it, and what is no colour leaves it as it was.
pub proof fn law_foreground(c: ConfigView, v: Seq<char>, e: SurroundingsView)
    requires
        plain_value(v),
    ensures
        ({
            let n = parsed(c, said("foreground"@, v), e);
            let s = n.colors.fg;
            &&& n == (ConfigView { colors: ColorsView { fg: s, ..c.colors }, ..c })
            &&& v.len() > 0 && color_value(v, e.colors) is Some
                ==> Some(s) == color_value(v, e.colors)
            &&& v.len() == 0 ==> s == (Rgb { r: 197, g: 200, b: 198 })
            &&& v.len() > 0 && color_value(v, e.colors) is None ==> s == c.colors.fg
        }),
{
    lemma_colors_keys();
    lemma_colors_reached(c, "foreground"@, v, e);
    reveal(colors_key);
}

/// `background` is a colour; no value resets it, and what is no colour leaves it as it was.
pub proof fn law_background(c: ConfigView, v: Seq<char>, e: SurroundingsView)
    requires
        plain_value(v),
    ensures
        ({
            let n = parsed(c, said("background"@, v), e);
            let s = n.colors.bg;
            &&& n == (ConfigView { colors: ColorsView { bg: s, ..c.colors }, ..c })
            &&& v.len() > 0 && color_value(v, e.colors) is Some
                ==> Some(s) == color_value(v, e.colors)
            &&& v.len() == 0 ==> s == (Rgb { r: 16, g: 18, b: 24 })
            &&& v.len() > 0 && color_value(v, e.colors) is None ==> s == c.colors.bg
        }),
{
    lemma_colors_keys();
    lemma_colors_reached(c, "background"@, v, e);
    reveal(colors_key);
}

/// `cursor-color` is a colour; no value resets it, and what is no colour leaves it as it was.
pub proof fn law_cursor_color(c: ConfigView, v: Seq<char>, e: SurroundingsView)
    requires
        plain_value(v),
    ensures
        ({
            let n = parsed(c, said("cursor-color"@, v), e);
            let s = n.colors.cursor;
            &&& n == (ConfigView { colors: ColorsView { cursor: s, ..c.colors }, ..c })
            &&& v.len() > 0 && color_value(v, e.colors) is Some ==> s == color_value(v, e.colors)
            &&& v.len() == 0 ==> s is None
            &&& v.len() > 0 && color_value(v, e.colors) is None ==> s == c.colors.cursor
        }),
{
    lemma_colors_keys();
    lemma_colors_reached(c, "cursor-color"@, v, e);
    reveal(colors_key);
}

/// `cursor-style` takes these words in whichever case; no value resets it, and
/// any other leaves it as it was.
pub proof fn law_cursor_style(c: ConfigView, v: Seq<char>, e: SurroundingsView)
    requires
        plain_value(v),
    ensures
        ({
            let n = parsed(c, said("cursor-style"@, v), e);
            let s = n.colors.cursor_style;
            &&& n == (ConfigView { colors: ColorsView { cursor_style: s, ..c.colors }, ..c })
            &&& lower(v) == "block"@ ==> s == CursorShape::Block
            &&& lower(v) == "bar"@ ==> s == CursorShape::Bar
            &&& lower(v) == "underline"@ ==> s == CursorShape::Underline
            &&& lower(v) == "block_hollow"@ || lower(v) == "block-hollow"@
                ==> s == CursorShape::HollowBlock
            &&& v.len() == 0 ==> s == CursorShape::Block
            &&& v.len() > 0 && lower(v) != "block"@ && lower(v) != "bar"@
                && lower(v) != "underline"@ && lower(v) != "block_hollow"@
                && lower(v) != "block-hollow"@
                ==> s == c.colors.cursor_style
        }),
{
    lemma_colors_keys();
    lemma_colors_reached(c, "cursor-style"@, v, e);
    reveal(colors_key);
    lemma_words();
    assert(lower(v).len() == v.len());
}

/// `cursor-style-blink` takes these words in whichever case; no value resets
/// it, and any other leaves it as it was.
pub proof fn law_cursor_style_blink(c: ConfigView, v: Seq<char>, e: SurroundingsView)
    requires
        plain_value(v),
    ensures
        ({
            let n = parsed(c, said("cursor-style-blink"@, v), e);
            let s = n.colors.cursor_style_blink;
            &&& n == (ConfigView { colors: ColorsView { cursor_style_blink: s, ..c.colors }, ..c })
            &&& lower(v) == "true"@ || lower(v) == "1"@ || lower(v) == "on"@ || lower(v) == "yes"@
                ==> s == Some(true)
            &&& lower(v) == "false"@ || lower(v) == "0"@ || lower(v) == "off"@ || lower(v) == "no"@
                ==> s == Some(false)
            &&& v.len() == 0 ==> s is None
            &&& v.len() > 0 && lower(v) != "true"@ && lower(v) != "1"@ && lower(v) != "on"@
                && lower(v) != "yes"@ && lower(v) != "false"@ && lower(v) != "0"@
                && lower(v) != "off"@ && lower(v) != "no"@
                ==> s == c.colors.cursor_style_blink
        }),
{
    lemma_colors_keys();
    lemma_colors_reached(c, "cursor-style-blink"@, v, e);
    reveal(colors_key);
    lemma_words();
    assert(lower(v).len() == v.len());
}

/// `bold-is-bright` takes these words in whichever case; no value resets it,
/// and any other leaves it as it was.
pub proof fn law_bold_is_bright(c: ConfigView, v: Seq<char>, e: SurroundingsView)
    requires
        plain_value(v),
    ensures
        ({
            let n = parsed(c, said("bold-is-bright"@, v), e);
            let s = n.colors.bold_color;
            &&& n == (ConfigView { colors: ColorsView { bold_color: s, ..c.colors }, ..c })
            &&& lower(v) == "true"@ || lower(v) == "1"@ || lower(v) == "on"@ || lower(v) == "yes"@
                ==> s == BoldColor::Bright
            &&& lower(v) == "false"@ || lower(v) == "0"@ || lower(v) == "off"@ || lower(v) == "no"@
                ==> s == BoldColor::Off
            &&& v.len() == 0 ==> s == BoldColor::Off
            &&& v.len() > 0 && lower(v) != "true"@ && lower(v) != "1"@ && lower(v) != "on"@
                && lower(v) != "yes"@ && lower(v) != "false"@ && lower(v) != "0"@
                && lower(v) != "off"@ && lower(v) != "no"@
                ==> s == c.colors.bold_color
        }),
{
    lemma_colors_keys();
    lemma_colors_reached(c, "bold-is-bright"@, v, e);
    reveal(colors_key);
    lemma_words();
    assert(lower(v).len() == v.len());
}

/// `minimum-contrast` keeps the number that was written; no value resets it,
/// and a word leaves it as it was.
pub proof fn law_minimum_contrast(c: ConfigView, v: Seq<char>, e: SurroundingsView)
    requires
        plain_value(v),
    ensures
        ({
            let n = parsed(c, said("minimum-contrast"@, v), e);
            let s = n.colors.min_contrast;
            &&& n == (ConfigView { colors: ColorsView { min_contrast: s, ..c.colors }, ..c })
            &&& plain_number(v) ==> s == Some(v)
            &&& v.len() == 0 ==> s is None
            &&& no_number(v) ==> s == c.colors.min_contrast
        }),
{
    lemma_colors_keys();
    lemma_colors_reached(c, "minimum-contrast"@, v, e);
    reveal(colors_key);
    law_numbers_are_told_from_words(v);
}

/// `cursor-opacity` keeps the number that was written; no value resets it, and
/// a word leaves it as it was.
pub proof fn law_cursor_opacity(c: ConfigView, v: Seq<char>, e: SurroundingsView)
    requires
        plain_value(v),
    ensures
        ({
            let n = parsed(c, said("cursor-opacity"@, v), e);
            let s = n.colors.cursor_opacity;
            &&& n == (ConfigView { colors: ColorsView { cursor_opacity: s, ..c.colors }, ..c })
            &&& plain_number(v) ==> s == Some(v)
            &&& v.len() == 0 ==> s is None
            &&& no_number(v) ==> s == c.colors.cursor_opacity
        }),
{
    lemma_colors_keys();
    lemma_colors_reached(c, "cursor-opacity"@, v, e);
    reveal(colors_key);
    law_numbers_are_told_from_words(v);
}

/// `faint-opacity` keeps the number that was written; no value resets it, and a
/// word leaves it as it was.
pub proof fn law_faint_opacity(c: ConfigView, v: Seq<char>, e: SurroundingsView)
    requires
        plain_value(v),
    ensures
        ({
            let n = parsed(c, said("faint-opacity"@, v), e);
            let s = n.colors.faint_opacity;
            &&& n == (ConfigView { colors: ColorsView { faint_opacity: s, ..c.colors }, ..c })
            &&& plain_number(v) ==> s == Some(v)
            &&& v.len() == 0 ==> s is None
            &&& no_number(v) ==> s == c.colors.faint_opacity
        }),
{
    lemma_colors_keys();
    lemma_colors_reached(c, "faint-opacity"@, v, e);
    reveal(colors_key);
    law_numbers_are_told_from_words(v);
}

/// `palette-generate` is turned on and off; no value resets it, and any other leaves it as it was.
pub proof fn law_palette_generate(c: ConfigView, v: Seq<char>, e: SurroundingsView)
    requires
        plain_value(v),
    ensures
        ({
            let n = parsed(c, said("palette-generate"@, v), e);
            let s = n.colors.palette_generate;
            &&& n == (ConfigView { colors: ColorsView { palette_generate: s, ..c.colors }, ..c })
            &&& says_yes(v) ==> s
            &&& says_no(v) ==> !s
            &&& v.len() == 0 ==> s == false
            &&& v.len() > 0 && !says_yes(v) && !says_no(v) ==> s == c.colors.palette_generate
        }),
{
    lemma_colors_keys();
    lemma_colors_reached(c, "palette-generate"@, v, e);
    reveal(colors_key);
    lemma_says(v);
}

/// `palette-harmonious` is turned on and off; no value resets it, and any other
/// leaves it as it was.
pub proof fn law_palette_harmonious(c: ConfigView, v: Seq<char>, e: SurroundingsView)
    requires
        plain_value(v),
    ensures
        ({
            let n = parsed(c, said("palette-harmonious"@, v), e);
            let s = n.colors.palette_harmonious;
            &&& n == (ConfigView { colors: ColorsView { palette_harmonious: s, ..c.colors }, ..c })
            &&& says_yes(v) ==> s
            &&& says_no(v) ==> !s
            &&& v.len() == 0 ==> s == false
            &&& v.len() > 0 && !says_yes(v) && !says_no(v) ==> s == c.colors.palette_harmonious
        }),
{
    lemma_colors_keys();
    lemma_colors_reached(c, "palette-harmonious"@, v, e);
    reveal(colors_key);
    lemma_says(v);
}

/// `selection-background` is a colour; no value resets it, and what is no
/// colour leaves it as it was.
pub proof fn law_selection_background(c: ConfigView, v: Seq<char>, e: SurroundingsView)
    requires
        plain_value(v),
    ensures
        ({
            let n = parsed(c, said("selection-background"@, v), e);
            let s = n.colors.selection_bg;
            &&& n == (ConfigView { colors: ColorsView { selection_bg: s, ..c.colors }, ..c })
            &&& v.len() > 0 && color_value(v, e.colors) is Some
                ==> Some(s) == color_value(v, e.colors)
            &&& v.len() == 0 ==> s == (Rgb { r: 56, g: 90, b: 156 })
            &&& v.len() > 0 && color_value(v, e.colors) is None ==> s == c.colors.selection_bg
        }),
{
    lemma_colors_keys();
    lemma_colors_reached(c, "selection-background"@, v, e);
    reveal(colors_key);
}

/// `selection-foreground` is a colour; no value resets it, and what is no
/// colour leaves it as it was.
pub proof fn law_selection_foreground(c: ConfigView, v: Seq<char>, e: SurroundingsView)
    requires
        plain_value(v),
    ensures
        ({
            let n = parsed(c, said("selection-foreground"@, v), e);
            let s = n.colors.selection_fg;
            &&& n == (ConfigView { colors: ColorsView { selection_fg: s, ..c.colors }, ..c })
            &&& v.len() > 0 && color_value(v, e.colors) is Some ==> s == color_value(v, e.colors)
            &&& v.len() == 0 ==> s is None
            &&& v.len() > 0 && color_value(v, e.colors) is None ==> s == c.colors.selection_fg
        }),
{
    lemma_colors_keys();
    lemma_colors_reached(c, "selection-foreground"@, v, e);
    reveal(colors_key);
}

/// `osc-color-report-format` takes these words in whichever case; no value
/// resets it, and any other leaves it as it was.
pub proof fn law_osc_color_report_format(c: ConfigView, v: Seq<char>, e: SurroundingsView)
    requires
        plain_value(v),
    ensures
        ({
            let n = parsed(c, said("osc-color-report-format"@, v), e);
            let s = n.colors.osc_color_report_format;
            &&& n == (ConfigView {
                colors: ColorsView { osc_color_report_format: s, ..c.colors },
                ..c
            })
            &&& lower(v) == "none"@ ==> s == OscColorReportFormat::Off
            &&& lower(v) == "8-bit"@ ==> s == OscColorReportFormat::Bits8
            &&& lower(v) == "16-bit"@ ==> s == OscColorReportFormat::Bits16
            &&& v.len() == 0 ==> s == OscColorReportFormat::Bits16
            &&& v.len() > 0 && lower(v) != "none"@ && lower(v) != "8-bit"@ && lower(v) != "16-bit"@
                ==> s == c.colors.osc_color_report_format
        }),
{
    lemma_colors_keys();
    lemma_colors_reached(c, "osc-color-report-format"@, v, e);
    reveal(colors_key);
    lemma_words();
    assert(lower(v).len() == v.len());
}

/// `background-opacity` keeps the number that was written; no value resets it,
/// and a word leaves it as it was.
pub proof fn law_background_opacity(c: ConfigView, v: Seq<char>, e: SurroundingsView)
    requires
        plain_value(v),
    ensures
        ({
            let n = parsed(c, said("background-opacity"@, v), e);
            let s = n.backdrop.background_opacity;
            &&& n == (ConfigView {
                backdrop: BackdropView { background_opacity: s, ..c.backdrop },
                ..c
            })
            &&& plain_number(v) ==> s == Some(v)
            &&& v.len() == 0 ==> s is None
            &&& no_number(v) ==> s == c.backdrop.background_opacity
        }),
{
    lemma_backdrop_keys();
    lemma_backdrop_reached(c, "background-opacity"@, v, e);
    reveal(backdrop_key);
    law_numbers_are_told_from_words(v);
}

/// `background-opacity-cells` is turned on and off; no value resets it, and any
/// other leaves it as it was.
pub proof fn law_background_opacity_cells(c: ConfigView, v: Seq<char>, e: SurroundingsView)
    requires
        plain_value(v),
    ensures
        ({
            let n = parsed(c, said("background-opacity-cells"@, v), e);
            let s = n.backdrop.background_opacity_cells;
            &&& n == (ConfigView {
                backdrop: BackdropView { background_opacity_cells: s, ..c.backdrop },
                ..c
            })
            &&& says_yes(v) ==> s
            &&& says_no(v) ==> !s
            &&& v.len() == 0 ==> s == false
            &&& v.len() > 0 && !says_yes(v) && !says_no(v)
                ==> s == c.backdrop.background_opacity_cells
        }),
{
    lemma_backdrop_keys();
    lemma_backdrop_reached(c, "background-opacity-cells"@, v, e);
    reveal(backdrop_key);
    lemma_says(v);
}

/// `unfocused-split-opacity` keeps the number that was written; no value resets
/// it, and a word leaves it as it was.
pub proof fn law_unfocused_split_opacity(c: ConfigView, v: Seq<char>, e: SurroundingsView)
    requires
        plain_value(v),
    ensures
        ({
            let n = parsed(c, said("unfocused-split-opacity"@, v), e);
            let s = n.backdrop.unfocused_split_opacity;
            &&& n == (ConfigView {
                backdrop: BackdropView { unfocused_split_opacity: s, ..c.backdrop },
                ..c
            })
            &&& plain_number(v) ==> s == Some(v)
            &&& v.len() == 0 ==> s is None
            &&& no_number(v) ==> s == c.backdrop.unfocused_split_opacity
        }),
{
    lemma_backdrop_keys();
    lemma_backdrop_reached(c, "unfocused-split-opacity"@, v, e);
    reveal(backdrop_key);
    law_numbers_are_told_from_words(v);
}

/// `unfocused-split-fill` is a colour; no value resets it, and what is no
/// colour leaves it as it was.
pub proof fn law_unfocused_split_fill(c: ConfigView, v: Seq<char>, e: SurroundingsView)
    requires
        plain_value(v),
    ensures
        ({
            let n = parsed(c, said("unfocused-split-fill"@, v), e);
            let s = n.backdrop.unfocused_split_fill;
            &&& n == (ConfigView {
                backdrop: BackdropView { unfocused_split_fill: s, ..c.backdrop },
                ..c
            })
            &&& v.len() > 0 && color_value(v, e.colors) is Some ==> s == color_value(v, e.colors)
            &&& v.len() == 0 ==> s is None
            &&& v.len() > 0 && color_value(v, e.colors) is None
                ==> s == c.backdrop.unfocused_split_fill
        }),
{
    lemma_backdrop_keys();
    lemma_backdrop_reached(c, "unfocused-split-fill"@, v, e);
    reveal(backdrop_key);
}

/// `background-image` is the text that was written; no value is none.
pub proof fn law_background_image(c: ConfigView, v: Seq<char>, e: SurroundingsView)
    requires
        plain_value(v),
    ensures
        ({
            let n = parsed(c, said("background-image"@, v), e);
            let s = n.backdrop.background_image;
            &&& n == (ConfigView {
                backdrop: BackdropView { background_image: s, ..c.backdrop },
                ..c
            })
            &&& v.len() > 0 ==> s == Some(v)
            &&& v.len() == 0 ==> s is None
        }),
{
    lemma_backdrop_keys();
    lemma_backdrop_reached(c, "background-image"@, v, e);
    reveal(backdrop_key);
}

/// `background-image-opacity` keeps the number that was written; no value
/// resets it, and a word leaves it as it was.
pub proof fn law_background_image_opacity(c: ConfigView, v: Seq<char>, e: SurroundingsView)
    requires
        plain_value(v),
    ensures
        ({
            let n = parsed(c, said("background-image-opacity"@, v), e);
            let s = n.backdrop.background_image_opacity;
            &&& n == (ConfigView {
                backdrop: BackdropView { background_image_opacity: s, ..c.backdrop },
                ..c
            })
            &&& plain_number(v) ==> s == Some(v)
            &&& v.len() == 0 ==> s is None
            &&& no_number(v) ==> s == c.backdrop.background_image_opacity
        }),
{
    lemma_backdrop_keys();
    lemma_backdrop_reached(c, "background-image-opacity"@, v, e);
    reveal(backdrop_key);
    law_numbers_are_told_from_words(v);
}

/// `background-image-position` takes these words in whichever case; no value
/// resets it, and any other leaves it as it was.
pub proof fn law_background_image_position(c: ConfigView, v: Seq<char>, e: SurroundingsView)
    requires
        plain_value(v),
    ensures
        ({
            let n = parsed(c, said("background-image-position"@, v), e);
            let s = n.backdrop.background_image_position;
            &&& n == (ConfigView {
                backdrop: BackdropView { background_image_position: s, ..c.backdrop },
                ..c
            })
            &&& lower(v) == "top-left"@ ==> s == BackgroundImagePosition::TopLeft
            &&& lower(v) == "top-center"@ ==> s == BackgroundImagePosition::TopCenter
            &&& lower(v) == "top-right"@ ==> s == BackgroundImagePosition::TopRight
            &&& lower(v) == "center-left"@ ==> s == BackgroundImagePosition::CenterLeft
            &&& lower(v) == "center"@ || lower(v) == "center-center"@
                ==> s == BackgroundImagePosition::Center
            &&& lower(v) == "center-right"@ ==> s == BackgroundImagePosition::CenterRight
            &&& lower(v) == "bottom-left"@ ==> s == BackgroundImagePosition::BottomLeft
            &&& lower(v) == "bottom-center"@ ==> s == BackgroundImagePosition::BottomCenter
            &&& lower(v) == "bottom-right"@ ==> s == BackgroundImagePosition::BottomRight
            &&& v.len() == 0 ==> s == BackgroundImagePosition::Center
            &&& v.len() > 0 && lower(v) != "top-left"@ && lower(v) != "top-center"@
                && lower(v) != "top-right"@ && lower(v) != "center-left"@ && lower(v) != "center"@
                && lower(v) != "center-center"@ && lower(v) != "center-right"@
                && lower(v) != "bottom-left"@ && lower(v) != "bottom-center"@
                && lower(v) != "bottom-right"@
                ==> s == c.backdrop.background_image_position
        }),
{
    lemma_backdrop_keys();
    lemma_backdrop_reached(c, "background-image-position"@, v, e);
    reveal(backdrop_key);
    lemma_words();
    assert(lower(v).len() == v.len());
}

/// `background-image-fit` takes these words in whichever case; no value resets
/// it, and any other leaves it as it was.
pub proof fn law_background_image_fit(c: ConfigView, v: Seq<char>, e: SurroundingsView)
    requires
        plain_value(v),
    ensures
        ({
            let n = parsed(c, said("background-image-fit"@, v), e);
            let s = n.backdrop.background_image_fit;
            &&& n == (ConfigView {
                backdrop: BackdropView { background_image_fit: s, ..c.backdrop },
                ..c
            })
            &&& lower(v) == "contain"@ ==> s == BackgroundImageFit::Contain
            &&& lower(v) == "cover"@ ==> s == BackgroundImageFit::Cover
            &&& lower(v) == "stretch"@ ==> s == BackgroundImageFit::Stretch
            &&& lower(v) == "none"@ ==> s == BackgroundImageFit::Unscaled
            &&& v.len() == 0 ==> s == BackgroundImageFit::Contain
            &&& v.len() > 0 && lower(v) != "contain"@ && lower(v) != "cover"@
                && lower(v) != "stretch"@ && lower(v) != "none"@
                ==> s == c.backdrop.background_image_fit
        }),
{
    lemma_backdrop_keys();
    lemma_backdrop_reached(c, "background-image-fit"@, v, e);
    reveal(backdrop_key);
    lemma_words();
    assert(lower(v).len() == v.len());
}

/// `background-image-repeat` is turned on and off; no value resets it, and any
/// other leaves it as it was.
pub proof fn law_background_image_repeat(c: ConfigView, v: Seq<char>, e: SurroundingsView)
    requires
        plain_value(v),
    ensures
        ({
            let n = parsed(c, said("background-image-repeat"@, v), e);
            let s = n.backdrop.background_image_repeat;
            &&& n == (ConfigView {
                backdrop: BackdropView { background_image_repeat: s, ..c.backdrop },
                ..c
            })
            &&& says_yes(v) ==> s
            &&& says_no(v) ==> !s
            &&& v.len() == 0 ==> s == false
            &&& v.len() > 0 && !says_yes(v) && !says_no(v)
                ==> s == c.backdrop.background_image_repeat
        }),
{
    lemma_backdrop_keys();
    lemma_backdrop_reached(c, "background-image-repeat"@, v, e);
    reveal(backdrop_key);
    lemma_says(v);
}

/// `window-padding-x` keeps the number that was written; no value resets it,
/// and a word leaves it as it was.
pub proof fn law_window_padding_x(c: ConfigView, v: Seq<char>, e: SurroundingsView)
    requires
        plain_value(v),
    ensures
        ({
            let n = parsed(c, said("window-padding-x"@, v), e);
            let s = n.backdrop.padding_x;
            &&& n == (ConfigView { backdrop: BackdropView { padding_x: s, ..c.backdrop }, ..c })
            &&& plain_number(v) ==> s == Some(v)
            &&& v.len() == 0 ==> s is None
            &&& no_number(v) ==> s == c.backdrop.padding_x
        }),
{
    lemma_backdrop_keys();
    lemma_backdrop_reached(c, "window-padding-x"@, v, e);
    reveal(backdrop_key);
    law_numbers_are_told_from_words(v);
}

/// `window-padding-y` keeps the number that was written; no value resets it,
/// and a word leaves it as it was.
pub proof fn law_window_padding_y(c: ConfigView, v: Seq<char>, e: SurroundingsView)
    requires
        plain_value(v),
    ensures
        ({
            let n = parsed(c, said("window-padding-y"@, v), e);
            let s = n.backdrop.padding_y;
            &&& n == (ConfigView { backdrop: BackdropView { padding_y: s, ..c.backdrop }, ..c })
            &&& plain_number(v) ==> s == Some(v)
            &&& v.len() == 0 ==> s is None
            &&& no_number(v) ==> s == c.backdrop.padding_y
        }),
{
    lemma_backdrop_keys();
    lemma_backdrop_reached(c, "window-padding-y"@, v, e);
    reveal(backdrop_key);
    law_numbers_are_told_from_words(v);
}

/// `window-padding-balance` takes these words in whichever case; no value
/// resets it, and any other leaves it as it was.
pub proof fn law_window_padding_balance(c: ConfigView, v: Seq<char>, e: SurroundingsView)
    requires
        plain_value(v),
    ensures
        ({
            let n = parsed(c, said("window-padding-balance"@, v), e);
            let s = n.backdrop.window_padding_balance;
            &&& n == (ConfigView {
                backdrop: BackdropView { window_padding_balance: s, ..c.backdrop },
                ..c
            })
            &&& lower(v) == "false"@ || lower(v) == "no"@ || lower(v) == "off"@ || lower(v) == "0"@
                ==> s == PaddingBalance::Off
            &&& lower(v) == "true"@ || lower(v) == "yes"@ || lower(v) == "on"@ || lower(v) == "1"@
                ==> s == PaddingBalance::Balanced
            &&& lower(v) == "equal"@ ==> s == PaddingBalance::Equal
            &&& v.len() == 0 ==> s == PaddingBalance::Off
            &&& v.len() > 0 && lower(v) != "false"@ && lower(v) != "no"@ && lower(v) != "off"@
                && lower(v) != "0"@ && lower(v) != "true"@ && lower(v) != "yes"@
                && lower(v) != "on"@ && lower(v) != "1"@ && lower(v) != "equal"@
                ==> s == c.backdrop.window_padding_balance
        }),
{
    lemma_backdrop_keys();
    lemma_backdrop_reached(c, "window-padding-balance"@, v, e);
    reveal(backdrop_key);
    lemma_words();
    assert(lower(v).len() == v.len());
}

/// `window-theme` takes these words in whichever case; no value resets it, and
/// any other leaves it as it was.
pub proof fn law_window_theme(c: ConfigView, v: Seq<char>, e: SurroundingsView)
    requires
        plain_value(v),
    ensures
        ({
            let n = parsed(c, said("window-theme"@, v), e);
            let s = n.backdrop.window_theme;
            &&& n == (ConfigView { backdrop: BackdropView { window_theme: s, ..c.backdrop }, ..c })
            &&& lower(v) == "auto"@ || lower(v) == "system"@ ==> s == WindowTheme::Auto
            &&& lower(v) == "dark"@ ==> s == WindowTheme::Dark
            &&& lower(v) == "light"@ ==> s == WindowTheme::Light
            &&& v.len() == 0 ==> s == WindowTheme::Auto
            &&& v.len() > 0 && lower(v) != "auto"@ && lower(v) != "system"@ && lower(v) != "dark"@
                && lower(v) != "light"@
                ==> s == c.backdrop.window_theme
        }),
{
    lemma_backdrop_keys();
    lemma_backdrop_reached(c, "window-theme"@, v, e);
    reveal(backdrop_key);
    lemma_words();
    assert(lower(v).len() == v.len());
}

/// `custom-shader` adds to its list; no value empties it.
pub proof fn law_custom_shader(c: ConfigView, v: Seq<char>, e: SurroundingsView)
    requires
        plain_value(v),
    ensures
        ({
            let n = parsed(c, said("custom-shader"@, v), e);
            let s = n.backdrop.custom_shaders;
            &&& n == (ConfigView {
                backdrop: BackdropView { custom_shaders: s, ..c.backdrop },
                ..c
            })
            &&& v.len() > 0 ==> s == c.backdrop.custom_shaders.push(v)
            &&& v.len() == 0 ==> s == Seq::<Seq<char>>::empty()
        }),
{
    lemma_backdrop_keys();
    lemma_backdrop_reached(c, "custom-shader"@, v, e);
    reveal(backdrop_key);
}

/// `custom-shader-animation` takes these words in whichever case; no value
/// resets it, and any other leaves it as it was.
pub proof fn law_custom_shader_animation(c: ConfigView, v: Seq<char>, e: SurroundingsView)
    requires
        plain_value(v),
    ensures
        ({
            let n = parsed(c, said("custom-shader-animation"@, v), e);
            let s = n.backdrop.custom_shader_animation;
            &&& n == (ConfigView {
                backdrop: BackdropView { custom_shader_animation: s, ..c.backdrop },
                ..c
            })
            &&& lower(v) == "true"@ || lower(v) == "1"@ || lower(v) == "on"@ || lower(v) == "yes"@
                ==> s == CustomShaderAnimation::True
            &&& lower(v) == "false"@ || lower(v) == "0"@ || lower(v) == "off"@ || lower(v) == "no"@
                ==> s == CustomShaderAnimation::False
            &&& lower(v) == "always"@ ==> s == CustomShaderAnimation::Always
            &&& v.len() == 0 ==> s == CustomShaderAnimation::True
            &&& v.len() > 0 && lower(v) != "true"@ && lower(v) != "1"@ && lower(v) != "on"@
                && lower(v) != "yes"@ && lower(v) != "false"@ && lower(v) != "0"@
                && lower(v) != "off"@ && lower(v) != "no"@ && lower(v) != "always"@
                ==> s == c.backdrop.custom_shader_animation
        }),
{
    lemma_backdrop_keys();
    lemma_backdrop_reached(c, "custom-shader-animation"@, v, e);
    reveal(backdrop_key);
    lemma_words();
    assert(lower(v).len() == v.len());
}

/// `font-style` names the style of its own slot, turns it off or leaves the choice.
pub proof fn law_font_style(c: ConfigView, v: Seq<char>, e: SurroundingsView)
    requires
        plain_value(v),
        c.fonts.font_styles.len() == 4,
    ensures
        ({
            let n = parsed(c, said("font-style"@, v), e);
            let s = n.fonts.font_styles;
            &&& n == (ConfigView {
                fonts: FontsView { font_styles: c.fonts.font_styles.update(0, s[0]), ..c.fonts },
                ..c
            })
            &&& v.len() == 0 || v == "default"@ ==> s[0] == FontStyleView::Default
            &&& v == "false"@ ==> s[0] == FontStyleView::Disabled
            &&& v.len() > 0 && v != "default"@ && v != "false"@ ==> s[0] == FontStyleView::Named(v)
        }),
{
    lemma_fonts_keys();
    lemma_fonts_reached(c, "font-style"@, v, e);
    reveal(fonts_key);
    law_font_styles(v);
    lemma_words();
}

/// `font-style-bold` names the style of its own slot, turns it off or leaves the choice.
pub proof fn law_font_style_bold(c: ConfigView, v: Seq<char>, e: SurroundingsView)
    requires
        plain_value(v),
        c.fonts.font_styles.len() == 4,
    ensures
        ({
            let n = parsed(c, said("font-style-bold"@, v), e);
            let s = n.fonts.font_styles;
            &&& n == (ConfigView {
                fonts: FontsView { font_styles: c.fonts.font_styles.update(1, s[1]), ..c.fonts },
                ..c
            })
            &&& v.len() == 0 || v == "default"@ ==> s[1] == FontStyleView::Default
            &&& v == "false"@ ==> s[1] == FontStyleView::Disabled
            &&& v.len() > 0 && v != "default"@ && v != "false"@ ==> s[1] == FontStyleView::Named(v)
        }),
{
    lemma_fonts_keys();
    lemma_fonts_reached(c, "font-style-bold"@, v, e);
    reveal(fonts_key);
    law_font_styles(v);
    lemma_words();
}

/// `font-style-italic` names the style of its own slot, turns it off or leaves the choice.
pub proof fn law_font_style_italic(c: ConfigView, v: Seq<char>, e: SurroundingsView)
    requires
        plain_value(v),
        c.fonts.font_styles.len() == 4,
    ensures
        ({
            let n = parsed(c, said("font-style-italic"@, v), e);
            let s = n.fonts.font_styles;
            &&& n == (ConfigView {
                fonts: FontsView { font_styles: c.fonts.font_styles.update(2, s[2]), ..c.fonts },
                ..c
            })
            &&& v.len() == 0 || v == "default"@ ==> s[2] == FontStyleView::Default
            &&& v == "false"@ ==> s[2] == FontStyleView::Disabled
            &&& v.len() > 0 && v != "default"@ && v != "false"@ ==> s[2] == FontStyleView::Named(v)
        }),
{
    lemma_fonts_keys();
    lemma_fonts_reached(c, "font-style-italic"@, v, e);
    reveal(fonts_key);
    law_font_styles(v);
    lemma_words();
}

/// `font-style-bold-italic` names the style of its own slot, turns it off or leaves the choice.
pub proof fn law_font_style_bold_italic(c: ConfigView, v: Seq<char>, e: SurroundingsView)
    requires
        plain_value(v),
        c.fonts.font_styles.len() == 4,
    ensures
        ({
            let n = parsed(c, said("font-style-bold-italic"@, v), e);
            let s = n.fonts.font_styles;
            &&& n == (ConfigView {
                fonts: FontsView { font_styles: c.fonts.font_styles.update(3, s[3]), ..c.fonts },
                ..c
            })
            &&& v.len() == 0 || v == "default"@ ==> s[3] == FontStyleView::Default
            &&& v == "false"@ ==> s[3] == FontStyleView::Disabled
            &&& v.len() > 0 && v != "default"@ && v != "false"@ ==> s[3] == FontStyleView::Named(v)
        }),
{
    lemma_fonts_keys();
    lemma_fonts_reached(c, "font-style-bold-italic"@, v, e);
    reveal(fonts_key);
    law_font_styles(v);
    lemma_words();
}

/// `font-variation` adds an axis of four characters with its value to its own
/// slot; what is none is a problem.
pub proof fn law_font_variation(
    c: ConfigView,
    v: Seq<char>,
    tag: Seq<char>,
    value: Seq<char>,
    e: SurroundingsView,
)
    requires
        plain_value(v),
        c.fonts.font_variations.len() == 4,
        axis_name(tag),
        plain_number(value),
    ensures
        ({
            let n = parsed(c, said("font-variation"@, v), e);
            let s = n.fonts.font_variations;
            &&& n == (ConfigView {
                fonts: FontsView {
                    font_variations: c.fonts.font_variations.update(0, s[0]),
                    ..c.fonts
                },
                diagnostics: n.diagnostics,
                ..c
            })
            &&& v == tag.push('=') + value
                ==> s[0] == c.fonts.font_variations[0].push(VariationView { tag, value })
                    && n.diagnostics == c.diagnostics
            &&& v.len() == 0 ==> s[0].len() == 0 && n.diagnostics == c.diagnostics
            &&& v.len() > 0 && !v.contains('=')
                ==> s[0] == c.fonts.font_variations[0]
                    && n.diagnostics.len() == c.diagnostics.len() + 1
        }),
{
    lemma_fonts_keys();
    lemma_fonts_reached(c, "font-variation"@, v, e);
    reveal(fonts_key);
    lemma_plain_number(value);
    lemma_tight_stays(tag);
    lemma_tight_stays(value);
    law_parts_at_the_first(tag, '=', value);
    lemma_first_index(v, '=');
    assert(tag[0] == tag[0] && tag[1] == tag[1] && tag[2] == tag[2] && tag[3] == tag[3]);
}

/// `font-variation-bold` adds an axis of four characters with its value to its
/// own slot; what is none is a problem.
pub proof fn law_font_variation_bold(
    c: ConfigView,
    v: Seq<char>,
    tag: Seq<char>,
    value: Seq<char>,
    e: SurroundingsView,
)
    requires
        plain_value(v),
        c.fonts.font_variations.len() == 4,
        axis_name(tag),
        plain_number(value),
    ensures
        ({
            let n = parsed(c, said("font-variation-bold"@, v), e);
            let s = n.fonts.font_variations;
            &&& n == (ConfigView {
                fonts: FontsView {
                    font_variations: c.fonts.font_variations.update(1, s[1]),
                    ..c.fonts
                },
                diagnostics: n.diagnostics,
                ..c
            })
            &&& v == tag.push('=') + value
                ==> s[1] == c.fonts.font_variations[1].push(VariationView { tag, value })
                    && n.diagnostics == c.diagnostics
            &&& v.len() == 0 ==> s[1].len() == 0 && n.diagnostics == c.diagnostics
            &&& v.len() > 0 && !v.contains('=')
                ==> s[1] == c.fonts.font_variations[1]
                    && n.diagnostics.len() == c.diagnostics.len() + 1
        }),
{
    lemma_fonts_keys();
    lemma_fonts_reached(c, "font-variation-bold"@, v, e);
    reveal(fonts_key);
    lemma_plain_number(value);
    lemma_tight_stays(tag);
    lemma_tight_stays(value);
    law_parts_at_the_first(tag, '=', value);
    lemma_first_index(v, '=');
    assert(tag[0] == tag[0] && tag[1] == tag[1] && tag[2] == tag[2] && tag[3] == tag[3]);
}

/// `font-variation-italic` adds an axis of four characters with its value to
/// its own slot; what is none is a problem.
pub proof fn law_font_variation_italic(
    c: ConfigView,
    v: Seq<char>,
    tag: Seq<char>,
    value: Seq<char>,
    e: SurroundingsView,
)
    requires
        plain_value(v),
        c.fonts.font_variations.len() == 4,
        axis_name(tag),
        plain_number(value),
    ensures
        ({
            let n = parsed(c, said("font-variation-italic"@, v), e);
            let s = n.fonts.font_variations;
            &&& n == (ConfigView {
                fonts: FontsView {
                    font_variations: c.fonts.font_variations.update(2, s[2]),
                    ..c.fonts
                },
                diagnostics: n.diagnostics,
                ..c
            })
            &&& v == tag.push('=') + value
                ==> s[2] == c.fonts.font_variations[2].push(VariationView { tag, value })
                    && n.diagnostics == c.diagnostics
            &&& v.len() == 0 ==> s[2].len() == 0 && n.diagnostics == c.diagnostics
            &&& v.len() > 0 && !v.contains('=')
                ==> s[2] == c.fonts.font_variations[2]
                    && n.diagnostics.len() == c.diagnostics.len() + 1
        }),
{
    lemma_fonts_keys();
    lemma_fonts_reached(c, "font-variation-italic"@, v, e);
    reveal(fonts_key);
    lemma_plain_number(value);
    lemma_tight_stays(tag);
    lemma_tight_stays(value);
    law_parts_at_the_first(tag, '=', value);
    lemma_first_index(v, '=');
    assert(tag[0] == tag[0] && tag[1] == tag[1] && tag[2] == tag[2] && tag[3] == tag[3]);
}

/// `font-variation-bold-italic` adds an axis of four characters with its value
/// to its own slot; what is none is a problem.
pub proof fn law_font_variation_bold_italic(
    c: ConfigView,
    v: Seq<char>,
    tag: Seq<char>,
    value: Seq<char>,
    e: SurroundingsView,
)
    requires
        plain_value(v),
        c.fonts.font_variations.len() == 4,
        axis_name(tag),
        plain_number(value),
    ensures
        ({
            let n = parsed(c, said("font-variation-bold-italic"@, v), e);
            let s = n.fonts.font_variations;
            &&& n == (ConfigView {
                fonts: FontsView {
                    font_variations: c.fonts.font_variations.update(3, s[3]),
                    ..c.fonts
                },
                diagnostics: n.diagnostics,
                ..c
            })
            &&& v == tag.push('=') + value
                ==> s[3] == c.fonts.font_variations[3].push(VariationView { tag, value })
                    && n.diagnostics == c.diagnostics
            &&& v.len() == 0 ==> s[3].len() == 0 && n.diagnostics == c.diagnostics
            &&& v.len() > 0 && !v.contains('=')
                ==> s[3] == c.fonts.font_variations[3]
                    && n.diagnostics.len() == c.diagnostics.len() + 1
        }),
{
    lemma_fonts_keys();
    lemma_fonts_reached(c, "font-variation-bold-italic"@, v, e);
    reveal(fonts_key);
    lemma_plain_number(value);
    lemma_tight_stays(tag);
    lemma_tight_stays(value);
    law_parts_at_the_first(tag, '=', value);
    lemma_first_index(v, '=');
    assert(tag[0] == tag[0] && tag[1] == tag[1] && tag[2] == tag[2] && tag[3] == tag[3]);
}
/// The name of an axis: four characters of ASCII, without white space round them
/// and without an equals sign.
pub open spec fn axis_name(s: Seq<char>) -> bool {
    &&& s.len() == 4
    &&& tight(s)
    &&& !s.contains('=')
    &&& forall|i: int| 0 <= i < 4 ==> (#[trigger] s[i]) as int <= 127
}
proof fn lemma_tokens(ps: Seq<Seq<char>>)
    requires
        forall|i: int| 0 <= i < ps.len() ==> tight(#[trigger] ps[i]) && ps[i].len() > 0,
    ensures
        tokens(ps) == ps,
    decreases ps.len(),
{
    if ps.len() > 0 {
        assert(tight(ps[ps.len() - 1]));
        lemma_tight_stays(ps.last());
        assert forall|i: int| 0 <= i < ps.drop_last().len() implies tight(
            #[trigger] ps.drop_last()[i],
        ) && ps.drop_last()[i].len() > 0 by {
            assert(tight(ps[i]));
        }
        lemma_tokens(ps.drop_last());
        assert(ps.drop_last().push(ps.last()) =~= ps);
    }
}

/// `font-feature` adds the features of a list, in order; no value empties it.
pub proof fn law_font_feature(c: ConfigView, v: Seq<char>, fs: Seq<Seq<char>>, e: SurroundingsView)
    requires
        plain_value(v),
        fs.len() > 0,
        forall|i: int|
            0 <= i < fs.len() ==> tight(#[trigger] fs[i]) && fs[i].len() > 0 && !fs[i].contains(','),
    ensures
        ({
            let n = parsed(c, said("font-feature"@, v), e);
            let s = n.fonts.font_features;
            &&& n == (ConfigView { fonts: FontsView { font_features: s, ..c.fonts }, ..c })
            &&& v == joined(fs, ',') && v.len() > 0 ==> s == c.fonts.font_features + fs
            &&& v.len() == 0 ==> s.len() == 0
        }),
{
    lemma_fonts_keys();
    lemma_fonts_reached(c, "font-feature"@, v, e);
    reveal(fonts_key);
    lemma_split_joined(fs, ',');
    lemma_tokens(fs);
}

/// `font-shaping-break` is turned on and off by these words; no value resets
/// it, and any other leaves it as it was.
pub proof fn law_font_shaping_break(c: ConfigView, v: Seq<char>, e: SurroundingsView)
    requires
        plain_value(v),
    ensures
        ({
            let n = parsed(c, said("font-shaping-break"@, v), e);
            let s = n.fonts.font_shaping_break_cursor;
            &&& n == (ConfigView {
                fonts: FontsView { font_shaping_break_cursor: s, ..c.fonts },
                ..c
            })
            &&& lower(v) == "cursor"@ || lower(v) == "true"@ ==> s
            &&& lower(v) == "no-cursor"@ || lower(v) == "false"@ ==> !s
            &&& v.len() == 0 ==> s == true
            &&& v.len() > 0 && !v.contains(',') && lower(v) != "cursor"@ && lower(v) != "no-cursor"@
                && lower(v) != "true"@ && lower(v) != "false"@
                ==> s == c.fonts.font_shaping_break_cursor
        }),
{
    lemma_fonts_keys();
    lemma_fonts_reached(c, "font-shaping-break"@, v, e);
    reveal(fonts_key);
    lemma_words();
    assert(lower(v).len() == v.len());
    lemma_tight_stays(v);
    lemma_first_index(v, ',');
    reveal_strlit("cursor");
    reveal_strlit("no-cursor");
    reveal_strlit("true");
    reveal_strlit("false");
    if v.contains(',') {
        let i = v.index_of(',');
        assert(lower(v)[i] == ',');
        lemma_no_comma("cursor"@);
        lemma_no_comma("no-cursor"@);
        lemma_no_comma("true"@);
        lemma_no_comma("false"@);
    } else {
        assert(split(v, ',') =~= seq![v]);
        assert(seq![v].drop_last() =~= Seq::<Seq<char>>::empty());
        reveal_with_fuel(switched, 2);
    }
}
proof fn lemma_no_comma(w: Seq<char>)
    requires
        plain_key(w),
    ensures
        forall|i: int| 0 <= i < w.len() ==> #[trigger] w[i] != ',',
{
    assert forall|i: int| 0 <= i < w.len() implies #[trigger] w[i] != ',' by {
        assert(w[i] == w[i]);
    }
}

/// `cursor-text` is a colour, or one of the cell's own; no value is none, and
/// what is no colour leaves it as it was.
pub proof fn law_cursor_text(c: ConfigView, v: Seq<char>, e: SurroundingsView)
    requires
        plain_value(v),
    ensures
        ({
            let n = parsed(c, said("cursor-text"@, v), e);
            let s = n.colors.cursor_text;
            &&& n == (ConfigView { colors: ColorsView { cursor_text: s, ..c.colors }, ..c })
            &&& lower(v) == "cell-foreground"@ ==> s == Some(TerminalColor::CellForeground)
            &&& lower(v) == "cell-background"@ ==> s == Some(TerminalColor::CellBackground)
            &&& v.len() > 0 && lower(v) != "cell-foreground"@ && lower(v) != "cell-background"@
                && color_value(v, e.colors) is Some
                ==> s == Some(TerminalColor::Color(color_value(v, e.colors)->0))
            &&& v.len() == 0 ==> s is None
            &&& v.len() > 0 && lower(v) != "cell-foreground"@ && lower(v) != "cell-background"@
                && color_value(v, e.colors) is None
                ==> s == c.colors.cursor_text
        }),
{
    lemma_colors_keys();
    lemma_colors_reached(c, "cursor-text"@, v, e);
    reveal(colors_key);
    lemma_words();
    assert(lower(v).len() == v.len());
    lemma_tight_stays(v);
}

/// `bold-color` is `bright` or a colour; no value turns it off, and what is
/// neither leaves it as it was.
pub proof fn law_bold_color(c: ConfigView, v: Seq<char>, e: SurroundingsView)
    requires
        plain_value(v),
    ensures
        ({
            let n = parsed(c, said("bold-color"@, v), e);
            let s = n.colors.bold_color;
            &&& n == (ConfigView { colors: ColorsView { bold_color: s, ..c.colors }, ..c })
            &&& lower(v) == "bright"@ ==> s == BoldColor::Bright
            &&& v.len() == 0 ==> s == BoldColor::Off
            &&& v.len() > 0 && lower(v) != "bright"@ && color_value(v, e.colors) is Some
                ==> s == BoldColor::Color(color_value(v, e.colors)->0)
            &&& v.len() > 0 && lower(v) != "bright"@ && color_value(v, e.colors) is None
                ==> s == c.colors.bold_color
        }),
{
    lemma_colors_keys();
    lemma_colors_reached(c, "bold-color"@, v, e);
    reveal(colors_key);
    lemma_words();
    assert(lower(v).len() == v.len());
}

/// `palette` sets the one colour that its entry names and marks it as set; a
/// bad entry is a problem.
pub proof fn law_palette(c: ConfigView, v: Seq<char>, k: nat, w: Seq<char>, e: SurroundingsView)
    requires
        plain_value(v),
        tight(w),
        c.colors.palette_set.len() == 4,
    ensures
        ({
            let n = parsed(c, said("palette"@, v), e);
            let s = n.colors.palette;
            &&& n == (ConfigView {
                colors: ColorsView { palette: s, palette_set: n.colors.palette_set, ..c.colors },
                diagnostics: n.diagnostics,
                ..c
            })
            &&& v == decimal(k).push('=') + w && k <= 255 && color_value(w, e.colors) is Some
                ==> s == c.colors.palette.update(k as int, color_value(w, e.colors)->0) && n.diagnostics == c.diagnostics && forall|j: int| 0 <= j < 256 ==> #[trigger] index_set(n.colors.palette_set, j) == (j == k
                    || index_set(c.colors.palette_set, j))
            &&& v == decimal(k).push('=') + w && (k > 255 || color_value(w, e.colors) is None)
                ==> s == c.colors.palette && n.colors.palette_set == c.colors.palette_set
                    && n.diagnostics.len() == c.diagnostics.len() + 1
        }),
{
    lemma_colors_keys();
    lemma_colors_reached(c, "palette"@, v, e);
    reveal(colors_key);
    law_palette_entries(k, w, e.colors);
    assert((decimal(k).push('=') + w).len() > 0);
    assert(parsed(c, said("palette"@, v), e).colors.palette_set == n_of(c, v, e));
    if v == decimal(k).push('=') + w && k <= 255 && color_value(w, e.colors) is Some {
        assert(v.len() > 0);
        assert forall|j: int| 0 <= j < 256 implies #[trigger] index_set(n_of(c, v, e), j) == (j == k
            || index_set(c.colors.palette_set, j)) by {
            law_palette_entry_marks_its_index(c.colors.palette_set, v, e.colors, j);
        }
    }
}
spec fn n_of(c: ConfigView, v: Seq<char>, e: SurroundingsView) -> Seq<u64> {
    palette_set_after(c.colors.palette_set, v, e.colors)
}

/// `background-blur` is turned on and off, or given a strength; no value turns
/// it off, and any other word leaves it as it was.
pub proof fn law_background_blur(c: ConfigView, v: Seq<char>, k: nat, e: SurroundingsView)
    requires
        plain_value(v),
    ensures
        ({
            let n = parsed(c, said("background-blur"@, v), e);
            let s = n.backdrop.background_blur;
            &&& n == (ConfigView {
                backdrop: BackdropView { background_blur: s, ..c.backdrop },
                ..c
            })
            &&& lower(v) == "true"@ || lower(v) == "t"@ ==> s == BackgroundBlur::On
            &&& lower(v) == "false"@ || lower(v) == "f"@ ==> s == BackgroundBlur::Off
            &&& lower(v) == "1"@ ==> s == BackgroundBlur::On
            &&& lower(v) == "0"@ ==> s == BackgroundBlur::Off
            &&& lower(v) == "macos-glass-regular"@ || lower(v) == "macos-glass-clear"@
                ==> s == BackgroundBlur::On
            &&& v.len() == 0 ==> s == BackgroundBlur::Off
            &&& v == decimal(k) && 2 <= k <= 255 ==> s == BackgroundBlur::Radius(k as u8)
            &&& no_number(v) && lower(v) != "true"@ && lower(v) != "t"@ && lower(v) != "false"@
                && lower(v) != "f"@ && lower(v) != "macos-glass-regular"@
                && lower(v) != "macos-glass-clear"@
                ==> s == c.backdrop.background_blur
        }),
{
    lemma_backdrop_keys();
    lemma_backdrop_reached(c, "background-blur"@, v, e);
    reveal(backdrop_key);
    lemma_words();
    assert(lower(v).len() == v.len());
    lemma_decimal_is_tight(k);
    if no_number(v) {
        lemma_no_number(v);
        assert(lower(v)[0] == crate::text::lower_char(v[0]));
        reveal_strlit("1");
        reveal_strlit("0");
        assert("1"@[0] == '1' && "0"@[0] == '0');
    }
    if v == decimal(k) && 2 <= k <= 255 {
        let l = lower(v);
        assert(l =~= v) by {
            assert forall|i: int| 0 <= i < v.len() implies l[i] == v[i] by {
                assert('0' <= decimal(k)[i] <= '9');
            }
        }
        reveal_strlit("1");
        reveal_strlit("0");
        reveal_strlit("t");
        reveal_strlit("f");
        reveal_strlit("true");
        reveal_strlit("false");
        reveal_strlit("macos-glass-regular");
        reveal_strlit("macos-glass-clear");
        assert("t"@[0] == 't' && "f"@[0] == 'f' && "true"@[0] == 't' && "false"@[0] == 'f'
            && "macos-glass-regular"@[0] == 'm' && "macos-glass-clear"@[0] == 'm');
        assert('0' <= decimal(k)[0] <= '9');
        lemma_decimal_is_tight(1);
        lemma_decimal_is_tight(0);
        assert(decimal(1) =~= "1"@) by {
            assert("1"@[0] == '1');
        }
        assert(decimal(0) =~= "0"@) by {
            assert("0"@[0] == '0');
        }
    }
}

/// The flags of `font-synthetic-style`, in order.
pub open spec fn font_synthetic_style_names() -> Seq<Seq<char>> {
    seq!["bold"@, "italic"@, "bold-italic"@]
}

proof fn lemma_font_synthetic_style_names()
    ensures
        flag_names(font_synthetic_style_names()),
        forall|i: int|
            0 <= i < 3 ==> (#[trigger] font_synthetic_style_names()[i]).len() > 1 && font_synthetic_style_names()[i]
                != "true"@ && font_synthetic_style_names()[i] != "false"@,
{
    lemma_words();
    let names = font_synthetic_style_names();
    reveal_strlit("bold");
    reveal_strlit("italic");
    reveal_strlit("bold-italic");
    assert(names[0] == "bold"@);
    assert("bold"@[0] == 'b');
    assert("bold"@[1] == 'o');
    assert("bold"@[2] == 'l');
    lemma_flag_name("bold"@);
    assert(names[1] == "italic"@);
    assert("italic"@[0] == 'i');
    assert("italic"@[1] == 't');
    assert("italic"@[2] == 'a');
    lemma_flag_name("italic"@);
    assert(names[2] == "bold-italic"@);
    assert("bold-italic"@[0] == 'b');
    assert("bold-italic"@[1] == 'o');
    assert("bold-italic"@[2] == 'l');
    lemma_flag_name("bold-italic"@);
    assert forall|i: int| 0 <= i < names.len() implies {
        let n = #[trigger] names[i];
        &&& n.len() > 1 && n != "true"@ && n != "false"@
        &&& n.len() > 0
        &&& lower(n) == n
        &&& tight(n)
        &&& !n.contains(',')
        &&& !begins(n, seq!['n', 'o', '-'])
    } by {
        if i == 0 {
            assert(names[i] == "bold"@);
        } else if i == 1 {
            assert(names[i] == "italic"@);
        } else if i == 2 {
            assert(names[i] == "bold-italic"@);
        }
    }
    assert forall|i: int, j: int|
        0 <= i < names.len() && 0 <= j < names.len() && i != j implies #[trigger] names[i]
        != #[trigger] names[j] by {
        let a = names[i];
        let b = names[j];
        assert(a == "bold"@ && i == 0 || a == "italic"@ && i == 1 || a == "bold-italic"@ && i == 2);
        assert(b == "bold"@ && j == 0 || b == "italic"@ && j == 1 || b == "bold-italic"@ && j == 2);
    }
}

/// `font-synthetic-style` turns its flags on and off, the last word on a flag
/// counting and the others taking their defaults; one word turns all of them on
/// or off, and no value resets them.
pub proof fn law_font_synthetic_style(
    c: ConfigView,
    v: Seq<char>,
    asked: Seq<(int, bool)>,
    e: SurroundingsView,
)
    requires
        plain_value(v),
        asked.len() > 0,
        forall|k: int| 0 <= k < asked.len() ==> 0 <= (#[trigger] asked[k]).0 < 3,
    ensures
        ({
            let n = parsed(c, said("font-synthetic-style"@, v), e);
            let s = n.fonts.font_synthetic_style;
            &&& n == (ConfigView {
                fonts: FontsView { font_synthetic_style: s, ..c.fonts },
                diagnostics: n.diagnostics,
                ..c
            })
            &&& v == joined(Seq::new(asked.len(), |k: int| flag_word(font_synthetic_style_names(), asked[k])), ',')
                && v.len() > 0
                ==> n.diagnostics == c.diagnostics && s.bold == asked_or(asked, 0, true)
                    && s.italic == asked_or(asked, 1, true)
                    && s.bold_italic == asked_or(asked, 2, true)
            &&& v == "true"@ || v == "t"@ || v == "1"@ ==> s.bold && s.italic && s.bold_italic
            &&& v == "false"@ || v == "f"@ || v == "0"@ ==> !s.bold && !s.italic && !s.bold_italic
            &&& v.len() == 0 ==> s.bold && s.italic && s.bold_italic
        }),
{
    lemma_fonts_keys();
    lemma_fonts_reached(c, "font-synthetic-style"@, v, e);
    reveal(fonts_key);
    lemma_words();
    lemma_font_synthetic_style_names();
    law_flag_lists(font_synthetic_style_names(), seq![true, true, true], asked);
    lemma_tight_stays(v);
    let all = Seq::new(asked.len(), |k: int| flag_word(font_synthetic_style_names(), asked[k]));
    if v == joined(all, ',') {
        let f = packed(v, font_synthetic_style_names(), seq![true, true, true])->0;
        assert(f[0] == asked_or(asked, 0, true));
        assert(f[1] == asked_or(asked, 1, true));
        assert(f[2] == asked_or(asked, 2, true));
    }
}

} // verus!
