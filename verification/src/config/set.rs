//! How one setting takes its value: what resets it, what it accepts, and what
//! leaves it as it was.

use crate::config::grammar::{duration_ms, parse_duration_ms, run_len};
use crate::config::values::ClipboardAccess;
use crate::text::{
    chars, halves, integer_in, is_digits, lower, lowered, natural_to, pieces, read_integer,
    read_natural, spells, split, split_once, string, trim, trimmed, views,
};
use vstd::prelude::*;
use vstd::slice::slice_subrange;

verus! {

// ---------------------------------------------------------------- booleans

/// The boolean that a word stands for.
#[verifier::opaque]
pub open spec fn bool_word(v: Seq<char>) -> Option<bool> {
    let w = lower(v);
    if w == "true"@ || w == "yes"@ || w == "on"@ || w == "1"@ {
        Some(true)
    } else if w == "false"@ || w == "no"@ || w == "off"@ || w == "0"@ {
        Some(false)
    } else {
        None
    }
}

/// The boolean that a word stands for, else `other`.
pub open spec fn bool_or(v: Seq<char>, other: bool) -> bool {
    match bool_word(v) {
        Some(b) => b,
        None => other,
    }
}

/// A boolean where empty resets to `default` and any other word keeps `current`.
pub open spec fn bool_kept(v: Seq<char>, default: bool, current: bool) -> bool {
    if v.len() == 0 {
        default
    } else {
        bool_or(v, current)
    }
}

/// The boolean that `v` stands for, if it does.
pub fn read_bool(v: &str) -> (r: Option<bool>)
    ensures
        r == bool_word(v@),
{
    proof {
        reveal(bool_word);
    }
    let cs = chars(v);
    let w = lowered(cs.as_slice());
    let w = w.as_slice();
    if spells(w, "true") || spells(w, "yes") || spells(w, "on") || spells(w, "1") {
        Some(true)
    } else if spells(w, "false") || spells(w, "no") || spells(w, "off") || spells(w, "0") {
        Some(false)
    } else {
        None
    }
}

/// Parse a boolean (`true`/`false`, `yes`/`no`, `on`/`off`, `1`/`0`), `default`
/// for an empty or unrecognized value.
pub fn parse_bool(v: &str, default: bool) -> (r: bool)
    ensures
        r == bool_or(v@, default),
{
    match read_bool(v) {
        Some(b) => b,
        None => default,
    }
}

/// Parse a boolean setting that an unrecognized value leaves as it was.
pub fn keep_bool(v: &str, default: bool, current: bool) -> (r: bool)
    ensures
        r == bool_kept(v@, default, current),
{
    if v.is_empty() {
        default
    } else {
        parse_bool(v, current)
    }
}

/// A word that stands for no boolean leaves a setting as it was, and no word at
/// all resets it.
pub proof fn law_unreadable_boolean_keeps_the_setting(v: Seq<char>, default: bool, current: bool)
    ensures
        v.len() > 0 && bool_word(v) is None ==> bool_kept(v, default, current) == current,
        v.len() == 0 ==> bool_kept(v, default, current) == default,
{
}

// ---------------------------------------------------------------- text

/// An optional text: empty is none.
pub open spec fn text_or(v: Seq<char>, default: Option<Seq<char>>) -> Option<Seq<char>> {
    if v.len() == 0 {
        default
    } else {
        Some(v)
    }
}

/// Resolve an optional text setting: empty resets to `default`, anything else
/// is taken verbatim.
pub fn opt_string(value: &str, default: &Option<String>) -> (r: Option<String>)
    ensures
        crate::config::lines::opt_view(r) == text_or(
            value@,
            crate::config::lines::opt_view(*default),
        ),
{
    if value.is_empty() {
        match default {
            Some(d) => Some(d.as_str().to_owned()),
            None => None,
        }
    } else {
        Some(value.to_owned())
    }
}

/// A list of texts: empty clears it, anything else is appended.
pub open spec fn list_or(list: Seq<Seq<char>>, v: Seq<char>) -> Seq<Seq<char>> {
    if v.len() == 0 {
        Seq::empty()
    } else {
        list.push(v)
    }
}

/// The texts of a list.
pub open spec fn texts(v: Seq<String>) -> Seq<Seq<char>> {
    Seq::new(v.len(), |i: int| v[i]@)
}

/// Append `v` to a list, or clear the list where `v` is empty.
pub fn append_or_clear(list: &mut Vec<String>, v: &str)
    ensures
        texts(final(list)@) == list_or(texts(old(list)@), v@),
{
    if v.is_empty() {
        list.clear();
        proof {
            assert(texts(list@) =~= Seq::empty());
        }
    } else {
        let ghost before = list@;
        list.push(v.to_owned());
        proof {
            assert(texts(list@) =~= texts(before).push(v@));
        }
    }
}

// ---------------------------------------------------------------- integers

/// A number of at most `max`: empty resets to `default`, a text that is none
/// keeps `current`.
pub open spec fn number_or(v: Seq<char>, max: int, default: int, current: int) -> int {
    if v.len() == 0 {
        default
    } else {
        match natural_to(v, 10, max) {
            Some(n) => n,
            None => current,
        }
    }
}

/// Resolve a number of at most `max`.
pub fn keep_number(v: &str, max: u64, default: u64, current: u64) -> (r: u64)
    ensures
        r == number_or(v@, max as int, default as int, current as int),
        r <= max || r == default || r == current,
{
    if v.is_empty() {
        return default;
    }
    let cs = chars(v);
    match read_natural(cs.as_slice(), 10, max as u128) {
        Some(n) => n as u64,
        None => current,
    }
}

/// A limit: empty resets to `default`, `unlimited` is none, and a text that is
/// no number keeps `current`.
#[verifier::opaque]
pub open spec fn limit_or(
    v: Seq<char>,
    default: Option<usize>,
    current: Option<usize>,
) -> Option<usize> {
    if v.len() == 0 {
        default
    } else if v == "unlimited"@ {
        None
    } else {
        match natural_to(v, 10, usize::MAX as int) {
            Some(n) => Some(n as usize),
            None => current,
        }
    }
}

/// Resolve a limit that may be `unlimited`.
pub fn limit(v: &str, default: Option<usize>, current: Option<usize>) -> (r: Option<usize>)
    ensures
        r == limit_or(v@, default, current),
{
    proof {
        reveal(limit_or);
    }
    if v.is_empty() {
        return default;
    }
    let cs = chars(v);
    if spells(cs.as_slice(), "unlimited") {
        return None;
    }
    match read_natural(cs.as_slice(), 10, usize::MAX as u128) {
        Some(n) => Some(n as usize),
        None => current,
    }
}

/// A cell count: empty resets, zero is unset, and any other number is at least
/// `min`.
pub open spec fn cells_or(v: Seq<char>, default: u32, current: u32, min: u32) -> u32 {
    if v.len() == 0 {
        default
    } else {
        match natural_to(v, 10, u32::MAX as int) {
            Some(n) => if n == 0 {
                0
            } else if n < min {
                min
            } else {
                n as u32
            },
            None => current,
        }
    }
}

/// Resolve a cell count.
pub fn cells(value: &str, default: u32, current: u32, min: u32) -> (r: u32)
    ensures
        r == cells_or(value@, default, current, min),
{
    if value.is_empty() {
        return default;
    }
    let cs = chars(value);
    match read_natural(cs.as_slice(), 10, u32::MAX as u128) {
        Some(n) => if n == 0 {
            0
        } else if n < min as u128 {
            min
        } else {
            n as u32
        },
        None => current,
    }
}

/// An optional pixel coordinate: empty resets, a whole number sets it.
pub open spec fn coord_or(v: Seq<char>, default: Option<i16>, current: Option<i16>) -> Option<i16> {
    if v.len() == 0 {
        default
    } else {
        match integer_in(v, i16::MIN as int, i16::MAX as int) {
            Some(n) => Some(n as i16),
            None => current,
        }
    }
}

/// Resolve an optional pixel coordinate. Negative is legal.
pub fn coord(value: &str, default: Option<i16>, current: Option<i16>) -> (r: Option<i16>)
    ensures
        r == coord_or(value@, default, current),
{
    if value.is_empty() {
        return default;
    }
    let cs = chars(value);
    match read_integer(cs.as_slice(), i16::MIN as i64, i16::MAX as i64) {
        Some(n) => Some(n as i16),
        None => current,
    }
}

/// A duration in milliseconds: empty resets, a text that is none keeps
/// `current`.
pub open spec fn duration_or(v: Seq<char>, default: u64, current: u64) -> u64 {
    if v.len() == 0 {
        default
    } else {
        match duration_ms(v) {
            Some(n) => n as u64,
            None => current,
        }
    }
}

/// Resolve a duration in milliseconds.
pub fn keep_duration(v: &str, default: u64, current: u64) -> (r: u64)
    ensures
        r == duration_or(v@, default, current),
{
    if v.is_empty() {
        return default;
    }
    match parse_duration_ms(v) {
        Some(n) => n,
        None => current,
    }
}

// ---------------------------------------------------------------- clipboard

/// A clipboard permission: empty resets, an unknown word keeps `current`.
pub open spec fn access_or(
    v: Seq<char>,
    default: ClipboardAccess,
    current: ClipboardAccess,
) -> ClipboardAccess {
    let w = lower(v);
    if v.len() == 0 {
        default
    } else if w == "allow"@ {
        ClipboardAccess::Allow
    } else if w == "deny"@ {
        ClipboardAccess::Deny
    } else if w == "ask"@ {
        ClipboardAccess::Ask
    } else {
        current
    }
}

/// Parse a `clipboard-read` or `-write` value.
pub fn parse_clipboard_access(
    v: &str,
    default: ClipboardAccess,
    current: ClipboardAccess,
) -> (r: ClipboardAccess)
    ensures
        r == access_or(v@, default, current),
{
    if v.is_empty() {
        return default;
    }
    let cs = chars(v);
    let w = lowered(cs.as_slice());
    let w = w.as_slice();
    if spells(w, "allow") {
        ClipboardAccess::Allow
    } else if spells(w, "deny") {
        ClipboardAccess::Deny
    } else if spells(w, "ask") {
        ClipboardAccess::Ask
    } else {
        current
    }
}

// ---------------------------------------------------------------- switches

/// A switch after the words of a list, each of which may turn it on or off.
pub open spec fn switched(
    ps: Seq<Seq<char>>,
    on: Seq<char>,
    off: Seq<char>,
    start: bool,
) -> bool
    decreases ps.len(),
{
    if ps.len() == 0 {
        start
    } else {
        let w = lower(trim(ps.last()));
        if w == on || w == "true"@ {
            true
        } else if w == off || w == "false"@ {
            false
        } else {
            switched(ps.drop_last(), on, off, start)
        }
    }
}

/// A switch after a comma-separated list of `on`, `off` and bare booleans.
pub fn switch(v: &str, on: &str, off: &str, start: bool) -> (r: bool)
    ensures
        r == switched(split(v@, ','), on@, off@, start),
{
    let cs = chars(v);
    let ps = pieces(cs.as_slice(), ',');
    let ghost all = views(ps@);
    let mut state = start;
    let mut i: usize = 0;
    while i < ps.len()
        invariant
            all == views(ps@),
            i <= ps@.len(),
            state == switched(all.take(i as int), on@, off@, start),
        decreases ps@.len() - i,
    {
        proof {
            assert(all.take(i as int + 1).drop_last() =~= all.take(i as int));
            assert(all.take(i as int + 1).last() == ps@[i as int]@);
        }
        let w = lowered(trimmed(ps[i].as_slice()));
        let w = w.as_slice();
        if spells(w, on) || spells(w, "true") {
            state = true;
        } else if spells(w, off) || spells(w, "false") {
            state = false;
        }
        i = i + 1;
    }
    proof {
        assert(all.take(all.len() as int) =~= all);
    }
    state
}

// ---------------------------------------------------------------- decimals

/// Whether `t` is an exponent: `e`, at most one sign, and digits.
pub open spec fn is_exponent(t: Seq<char>) -> bool {
    t.len() > 0 && (t[0] == 'e' || t[0] == 'E') && is_digits(
        if t.len() > 1 && (t[1] == '+' || t[1] == '-') {
            t.skip(2)
        } else {
            t.skip(1)
        },
        10,
    )
}

/// Whether `s` is digits with at most one point among or round them, and then
/// at most one exponent.
pub open spec fn is_decimal_text(s: Seq<char>) -> bool {
    let d = run_len(s, true);
    let after = s.skip(d);
    let f = if after.len() > 0 && after[0] == '.' {
        run_len(after.skip(1), true)
    } else {
        0
    };
    let tail = if after.len() > 0 && after[0] == '.' {
        after.skip(1 + f)
    } else {
        after
    };
    d + f > 0 && (tail.len() == 0 || is_exponent(tail))
}

/// Whether `s` is a word for a number that is not finite.
pub open spec fn is_nonfinite_word(s: Seq<char>) -> bool {
    lower(s) == "inf"@ || lower(s) == "infinity"@ || lower(s) == "nan"@
}

/// `s` without one sign before it.
pub open spec fn unsigned(s: Seq<char>) -> Seq<char> {
    if s.len() > 0 && (s[0] == '+' || s[0] == '-') {
        s.skip(1)
    } else {
        s
    }
}

/// Whether a text is a floating-point number as Rust reads one: at most one
/// sign, then a decimal or a word for infinity or no number.
pub open spec fn is_number(s: Seq<char>) -> bool {
    is_nonfinite_word(unsigned(s)) || is_decimal_text(unsigned(s))
}

fn exponent(t: &[char]) -> (r: bool)
    ensures
        r == is_exponent(t@),
{
    let n = t.len();
    if n == 0 || !(t[0] == 'e' || t[0] == 'E') {
        return false;
    }
    let from: usize = if n > 1 && (t[1] == '+' || t[1] == '-') {
        2
    } else {
        1
    };
    let rest = slice_subrange(t, from, n);
    proof {
        assert(rest@ =~= t@.skip(from as int));
    }
    all_digits(rest)
}

fn all_digits(cs: &[char]) -> (r: bool)
    ensures
        r == is_digits(cs@, 10),
{
    if cs.len() == 0 {
        return false;
    }
    let mut i: usize = 0;
    while i < cs.len()
        invariant
            i <= cs@.len(),
            forall|j: int| 0 <= j < i ==> #[trigger] crate::text::digit(cs@[j]) < 10,
        decreases cs@.len() - i,
    {
        if crate::text::digit_of(cs[i]) >= 10 {
            return false;
        }
        i = i + 1;
    }
    true
}

fn digit_run(cs: &[char]) -> (r: usize)
    ensures
        r == run_len(cs@, true),
        r <= cs@.len(),
{
    let mut i: usize = 0;
    proof {
        assert(cs@.skip(0) =~= cs@);
    }
    while i < cs.len() && '0' <= cs[i] && cs[i] <= '9'
        invariant
            i <= cs@.len(),
            run_len(cs@, true) == i + run_len(cs@.skip(i as int), true),
        decreases cs@.len() - i,
    {
        proof {
            assert(cs@.skip(i as int).skip(1) =~= cs@.skip(i as int + 1));
        }
        i = i + 1;
    }
    i
}

fn decimal_text(s: &[char]) -> (r: bool)
    ensures
        r == is_decimal_text(s@),
{
    let n = s.len();
    let d = digit_run(s);
    let after = slice_subrange(s, d, n);
    proof {
        assert(after@ =~= s@.skip(d as int));
    }
    let m = after.len();
    if m > 0 && after[0] == '.' {
        let frac = slice_subrange(after, 1, m);
        proof {
            assert(frac@ =~= after@.skip(1));
        }
        let f = digit_run(frac);
        let k = frac.len();
        let tail = slice_subrange(frac, f, k);
        proof {
            assert(tail@ =~= after@.skip(1 + f));
        }
        (d > 0 || f > 0) && (tail.len() == 0 || exponent(tail))
    } else {
        d > 0 && (m == 0 || exponent(after))
    }
}

fn without_sign(s: &[char]) -> (r: &[char])
    ensures
        r@ == unsigned(s@),
{
    let n = s.len();
    if n > 0 && (s[0] == '+' || s[0] == '-') {
        let rest = slice_subrange(s, 1, n);
        proof {
            assert(rest@ =~= s@.skip(1));
        }
        rest
    } else {
        s
    }
}

fn nonfinite_word(s: &[char]) -> (r: bool)
    ensures
        r == is_nonfinite_word(s@),
{
    let w = lowered(s);
    let w = w.as_slice();
    spells(w, "inf") || spells(w, "infinity") || spells(w, "nan")
}

/// Whether a text is a floating-point number.
pub fn number(s: &[char]) -> (r: bool)
    ensures
        r == is_number(s@),
{
    let u = without_sign(s);
    nonfinite_word(u) || decimal_text(u)
}

/// A decimal setting, kept as it was written: empty resets it, a number sets
/// it, anything else keeps `current`.
pub open spec fn decimal_or(v: Seq<char>, current: Option<Seq<char>>) -> Option<Seq<char>> {
    if v.len() == 0 {
        None
    } else if is_number(v) {
        Some(v)
    } else {
        current
    }
}

/// Resolve a decimal setting.
pub fn keep_decimal(v: &str, current: &mut Option<String>)
    ensures
        crate::config::lines::opt_view(*final(current)) == decimal_or(
            v@,
            crate::config::lines::opt_view(*old(current)),
        ),
{
    if v.is_empty() {
        *current = None;
    } else {
        let cs = chars(v);
        if number(cs.as_slice()) {
            *current = Some(v.to_owned());
        }
    }
}

/// The numbers that a decimal setting was given since its last reset.
pub open spec fn decimals_or(list: Seq<Seq<char>>, v: Seq<char>) -> Seq<Seq<char>> {
    if v.len() == 0 {
        Seq::empty()
    } else if is_number(v) {
        list.push(v)
    } else {
        list
    }
}

/// Note a number that a decimal setting is given.
pub fn note_decimal(list: &mut Vec<String>, v: &str)
    ensures
        texts(final(list)@) == decimals_or(texts(old(list)@), v@),
{
    if v.is_empty() {
        list.clear();
        proof {
            assert(texts(list@) =~= Seq::empty());
        }
    } else {
        let cs = chars(v);
        if number(cs.as_slice()) {
            let ghost before = list@;
            list.push(v.to_owned());
            proof {
                assert(texts(list@) =~= texts(before).push(v@));
            }
        }
    }
}

// ---------------------------------------------------------------- scrolling

/// Wheel-distance multipliers, as they were written; `None` is the default.
#[derive(Clone, Debug, PartialEq, Eq)]
pub struct MouseScrollMultiplier {
    /// Trackpads and other smooth devices.
    pub precision: Option<String>,
    /// Notched wheels.
    pub discrete: Option<String>,
}

/// A `MouseScrollMultiplier` as sequences.
pub ghost struct ScrollView {
    pub precision: Option<Seq<char>>,
    pub discrete: Option<Seq<char>>,
}

impl View for MouseScrollMultiplier {
    type V = ScrollView;

    open spec fn view(&self) -> ScrollView {
        ScrollView {
            precision: crate::config::lines::opt_view(self.precision),
            discrete: crate::config::lines::opt_view(self.discrete),
        }
    }
}

/// The multipliers after the `precision:` and `discrete:` parts of a list.
pub open spec fn scroll_parts(ps: Seq<Seq<char>>, current: ScrollView) -> Option<ScrollView>
    decreases ps.len(),
{
    if ps.len() == 0 {
        Some(current)
    } else {
        match (scroll_parts(ps.drop_last(), current), split_once(trim(ps.last()), ':')) {
            (Some(m), Some(p)) => {
                let name = lower(trim(p.0));
                let value = trim(p.1);
                if !is_number(value) {
                    None
                } else if name == "precision"@ {
                    Some(ScrollView { precision: Some(value), ..m })
                } else if name == "discrete"@ {
                    Some(ScrollView { discrete: Some(value), ..m })
                } else {
                    None
                }
            },
            _ => None,
        }
    }
}

/// What a `mouse-scroll-multiplier` value sets: a bare number both, else the
/// parts of a list one by one.
pub open spec fn scroll_multiplier(v: Seq<char>, current: ScrollView) -> Option<ScrollView> {
    if is_number(trim(v)) {
        Some(ScrollView { precision: Some(trim(v)), discrete: Some(trim(v)) })
    } else {
        scroll_parts(split(v, ','), current)
    }
}

proof fn lemma_scroll_spoiled(ps: Seq<Seq<char>>, current: ScrollView, k: int)
    requires
        0 <= k <= ps.len(),
        scroll_parts(ps.take(k), current) is None,
    ensures
        scroll_parts(ps, current) is None,
    decreases ps.len() - k,
{
    if k == ps.len() {
        assert(ps.take(k) =~= ps);
    } else {
        assert(ps.take(k + 1).drop_last() =~= ps.take(k));
        lemma_scroll_spoiled(ps, current, k + 1);
    }
}

fn copy_opt(s: &Option<String>) -> (r: Option<String>)
    ensures
        crate::config::lines::opt_view(r) == crate::config::lines::opt_view(*s),
{
    match s {
        Some(t) => Some(t.as_str().to_owned()),
        None => None,
    }
}

/// Parse `mouse-scroll-multiplier`: a bare number sets both, or a list of
/// `precision:` and `discrete:` parts sets them one by one.
pub fn parse_scroll_multiplier(
    v: &str,
    current: &MouseScrollMultiplier,
) -> (r: Option<MouseScrollMultiplier>)
    ensures
        match r {
            Some(m) => scroll_multiplier(v@, current@) == Some(m@),
            None => scroll_multiplier(v@, current@) is None,
        },
{
    let cs = chars(v);
    let t = trimmed(cs.as_slice());
    if number(t) {
        return Some(
            MouseScrollMultiplier { precision: Some(string(t)), discrete: Some(string(t)) },
        );
    }
    let ps = pieces(cs.as_slice(), ',');
    let ghost all = views(ps@);
    let mut out = MouseScrollMultiplier {
        precision: copy_opt(&current.precision),
        discrete: copy_opt(&current.discrete),
    };
    let mut i: usize = 0;
    while i < ps.len()
        invariant
            all == views(ps@),
            all == split(v@, ','),
            !is_number(trim(v@)),
            i <= ps@.len(),
            scroll_parts(all.take(i as int), current@) == Some(out@),
        decreases ps@.len() - i,
    {
        let ghost next = all.take(i as int + 1);
        proof {
            assert(next.drop_last() =~= all.take(i as int));
            assert(next.last() == ps@[i as int]@);
        }
        let (name, value) = match halves(trimmed(ps[i].as_slice()), ':') {
            Some((a, b)) => (lowered(trimmed(a)), trimmed(b)),
            None => {
                proof {
                    lemma_scroll_spoiled(all, current@, i as int + 1);
                }
                return None;
            },
        };
        if !number(value) {
            proof {
                lemma_scroll_spoiled(all, current@, i as int + 1);
            }
            return None;
        }
        if spells(name.as_slice(), "precision") {
            out.precision = Some(string(value));
        } else if spells(name.as_slice(), "discrete") {
            out.discrete = Some(string(value));
        } else {
            proof {
                lemma_scroll_spoiled(all, current@, i as int + 1);
            }
            return None;
        }
        i = i + 1;
    }
    proof {
        assert(all.take(all.len() as int) =~= all);
    }
    Some(out)
}

// ---------------------------------------------------------------- metrics

/// A change to a derived metric.
#[derive(Clone, Debug, PartialEq, Eq)]
pub enum MetricModifier {
    /// Use the derived value.
    Unset,
    /// Add this many pixels.
    Pixels(i32),
    /// Change by this percentage, kept as it was written.
    Percent(String),
}

/// A `MetricModifier` as sequences.
pub ghost enum ModifierView {
    Unset,
    Pixels(i32),
    Percent(Seq<char>),
}

impl View for MetricModifier {
    type V = ModifierView;

    open spec fn view(&self) -> ModifierView {
        match self {
            MetricModifier::Unset => ModifierView::Unset,
            MetricModifier::Pixels(n) => ModifierView::Pixels(*n),
            MetricModifier::Percent(t) => ModifierView::Percent(t@),
        }
    }
}

/// The change that a whole number of pixels or a percentage spells.
pub open spec fn modifier(v: Seq<char>) -> Option<ModifierView> {
    let s = trim(v);
    if s.len() > 0 && s.last() == '%' {
        let p = trim(s.drop_last());
        if is_number(p) {
            Some(ModifierView::Percent(p))
        } else {
            None
        }
    } else {
        match integer_in(s, i32::MIN as int, i32::MAX as int) {
            Some(n) => Some(ModifierView::Pixels(n as i32)),
            None => None,
        }
    }
}

impl MetricModifier {
    /// Parse a whole number of pixels, or a number followed by `%`.
    pub fn parse(v: &str) -> (r: Option<Self>)
        ensures
            match r {
                Some(m) => modifier(v@) == Some(m@),
                None => modifier(v@) is None,
            },
    {
        let cs = chars(v);
        let s = trimmed(cs.as_slice());
        let n = s.len();
        if n > 0 && s[n - 1] == '%' {
            let body = slice_subrange(s, 0, n - 1);
            proof {
                assert(body@ =~= s@.drop_last());
            }
            let p = trimmed(body);
            if number(p) {
                Some(MetricModifier::Percent(string(p)))
            } else {
                None
            }
        } else {
            match read_integer(s, i32::MIN as i64, i32::MAX as i64) {
                Some(k) => Some(MetricModifier::Pixels(k as i32)),
                None => None,
            }
        }
    }
}

// ---------------------------------------------------------------- variations

/// One variable-font axis setting, its value kept as it was written.
#[derive(Clone, Debug, PartialEq, Eq)]
pub struct FontVariation {
    /// The axis: four ASCII characters.
    pub tag: String,
    pub value: String,
}

/// A `FontVariation` as sequences.
pub ghost struct VariationView {
    pub tag: Seq<char>,
    pub value: Seq<char>,
}

impl View for FontVariation {
    type V = VariationView;

    open spec fn view(&self) -> VariationView {
        VariationView { tag: self.tag@, value: self.value@ }
    }
}

/// Whether `s` is four ASCII characters.
pub open spec fn is_tag(s: Seq<char>) -> bool {
    s.len() == 4 && s[0] <= '\x7f' && s[1] <= '\x7f' && s[2] <= '\x7f' && s[3] <= '\x7f'
}

/// The axis and value that `id=value` spells.
pub open spec fn font_variation(s: Seq<char>) -> Option<VariationView> {
    match split_once(s, '=') {
        Some(p) => {
            let value = trim(p.1);
            if is_tag(trim(p.0)) && is_decimal_text(unsigned(value)) {
                Some(VariationView { tag: trim(p.0), value })
            } else {
                None
            }
        },
        None => None,
    }
}

/// Parse one `id=value` variation. The axis is exactly four ASCII characters.
pub fn parse_font_variation(s: &str) -> (r: Option<FontVariation>)
    ensures
        match r {
            Some(m) => font_variation(s@) == Some(m@),
            None => font_variation(s@) is None,
        },
{
    let cs = chars(s);
    match halves(cs.as_slice(), '=') {
        Some((id, value)) => {
            let id = trimmed(id);
            let value = trimmed(value);
            if id.len() == 4 && id[0] <= '\x7f' && id[1] <= '\x7f' && id[2] <= '\x7f' && id[3]
                <= '\x7f' && decimal_text(without_sign(value)) {
                Some(FontVariation { tag: string(id), value: string(value) })
            } else {
                None
            }
        },
        None => None,
    }
}

impl FontVariation {
    /// The axis as text.
    pub fn tag_str(&self) -> (r: String)
        ensures
            r@ == self@.tag,
    {
        self.tag.as_str().to_owned()
    }
}

// ---------------------------------------------------------------- environment

/// `env` without the entries of `key`.
pub open spec fn env_without(
    env: Seq<(Seq<char>, Seq<char>)>,
    key: Seq<char>,
) -> Seq<(Seq<char>, Seq<char>)>
    decreases env.len(),
{
    if env.len() == 0 {
        env
    } else if env.last().0 == key {
        env_without(env.drop_last(), key)
    } else {
        env_without(env.drop_last(), key).push(env.last())
    }
}

/// Where `key` first stands in `env`; its length where it does not.
pub open spec fn env_place(env: Seq<(Seq<char>, Seq<char>)>, key: Seq<char>) -> int
    decreases env.len(),
{
    if env.len() == 0 || env[0].0 == key {
        0
    } else {
        1 + env_place(env.skip(1), key)
    }
}

/// An environment after `KEY=value`: empty resets it, `KEY=` removes the key,
/// and a key set again keeps its place.
pub open spec fn env_or(
    env: Seq<(Seq<char>, Seq<char>)>,
    v: Seq<char>,
) -> Seq<(Seq<char>, Seq<char>)> {
    if v.len() == 0 {
        Seq::empty()
    } else {
        match split_once(v, '=') {
            None => env,
            Some(p) => {
                let key = trim(p.0);
                if key.len() == 0 {
                    env
                } else if p.1.len() == 0 {
                    env_without(env, key)
                } else if env_place(env, key) < env.len() {
                    env.update(env_place(env, key), (key, p.1))
                } else {
                    env.push((key, p.1))
                }
            },
        }
    }
}

/// Pairs of texts.
pub open spec fn pairs(v: Seq<(String, String)>) -> Seq<(Seq<char>, Seq<char>)> {
    Seq::new(v.len(), |i: int| (v[i].0@, v[i].1@))
}

fn place_in(env: &Vec<(String, String)>, key: &[char]) -> (r: usize)
    ensures
        r == env_place(pairs(env@), key@),
        r <= env@.len(),
        r < env@.len() ==> env@[r as int].0@ == key@,
{
    let mut i: usize = 0;
    proof {
        assert(pairs(env@).skip(0) =~= pairs(env@));
    }
    while i < env.len()
        invariant
            i <= env@.len(),
            env_place(pairs(env@), key@) == i + env_place(pairs(env@).skip(i as int), key@),
        decreases env@.len() - i,
    {
        if spells(key, env[i].0.as_str()) {
            return i;
        }
        proof {
            assert(pairs(env@).skip(i as int).skip(1) =~= pairs(env@).skip(i as int + 1));
        }
        i = i + 1;
    }
    i
}

fn remove_key(env: &Vec<(String, String)>, key: &[char]) -> (r: Vec<(String, String)>)
    ensures
        pairs(r@) == env_without(pairs(env@), key@),
{
    let ghost all = pairs(env@);
    let mut out: Vec<(String, String)> = Vec::new();
    let mut i: usize = 0;
    proof {
        assert(pairs(out@) =~= all.take(0));
    }
    while i < env.len()
        invariant
            all == pairs(env@),
            i <= env@.len(),
            pairs(out@) == env_without(all.take(i as int), key@),
        decreases env@.len() - i,
    {
        proof {
            assert(all.take(i as int + 1).drop_last() =~= all.take(i as int));
            assert(all.take(i as int + 1).last() == all[i as int]);
        }
        let ghost before = out@;
        if !spells(key, env[i].0.as_str()) {
            out.push((env[i].0.as_str().to_owned(), env[i].1.as_str().to_owned()));
            proof {
                assert(pairs(out@) =~= pairs(before).push(all[i as int]));
            }
        }
        i = i + 1;
    }
    proof {
        assert(all.take(all.len() as int) =~= all);
    }
    out
}

/// Apply one `env` value.
pub fn set_env(env: &mut Vec<(String, String)>, v: &str)
    ensures
        pairs(final(env)@) == env_or(pairs(old(env)@), v@),
{
    if v.is_empty() {
        env.clear();
        proof {
            assert(pairs(env@) =~= Seq::empty());
        }
        return;
    }
    let cs = chars(v);
    match halves(cs.as_slice(), '=') {
        None => {},
        Some((k, val)) => {
            let key = trimmed(k);
            if key.len() == 0 {
                return;
            }
            let ghost before = env@;
            if val.len() == 0 {
                let kept = remove_key(env, key);
                *env = kept;
            } else {
                let i = place_in(env, key);
                if i < env.len() {
                    env.set(i, (string(key), string(val)));
                    proof {
                        assert(pairs(env@) =~= pairs(before).update(i as int, (key@, val@)));
                    }
                } else {
                    env.push((string(key), string(val)));
                    proof {
                        assert(pairs(env@) =~= pairs(before).push((key@, val@)));
                    }
                }
            }
        },
    }
}

/// A key set again is found at the place it had, with its new value.
pub proof fn law_env_set_then_found(
    env: Seq<(Seq<char>, Seq<char>)>,
    key: Seq<char>,
    value: Seq<char>,
)
    requires
        key.len() > 0,
        value.len() > 0,
        trim(key) == key,
        !key.contains('='),
    ensures
        ({
            let after = env_or(env, key + seq!['='] + value);
            let i = env_place(env, key);
            &&& 0 <= i <= env.len()
            &&& i < after.len()
            &&& after[i] == (key, value)
            &&& i < env.len() ==> after.len() == env.len()
            &&& forall|j: int| 0 <= j < env.len() && j != i ==> after[j] == env[j]
        }),
{
    let v = key + seq!['='] + value;
    assert forall|j: int| 0 <= j < key.len() implies v[j] != '=' by {
        assert(v[j] == key[j]);
    }
    crate::text::lemma_first_index_at(v, '=', key.len() as int);
    assert(v.take(key.len() as int) =~= key);
    assert(v.skip(key.len() as int + 1) =~= value);
    lemma_env_place(env, key);
}

proof fn lemma_env_place(env: Seq<(Seq<char>, Seq<char>)>, key: Seq<char>)
    ensures
        0 <= env_place(env, key) <= env.len(),
    decreases env.len(),
{
    if env.len() > 0 && env[0].0 != key {
        lemma_env_place(env.skip(1), key);
    }
}

/// What is said of a mouse scroll multiplier is said of its own fields, each of
/// the field of its name.
pub proof fn law_mouse_scroll_multiplier_shows_its_fields(x: MouseScrollMultiplier)
    ensures
        x@.precision == crate::config::lines::opt_view(x.precision),
        x@.discrete == crate::config::lines::opt_view(x.discrete),
{
}

/// What is said of a font variation is said of its own fields, each of the field of its name.
pub proof fn law_font_variation_shows_its_fields(x: FontVariation)
    ensures
        x@.tag == x.tag@,
        x@.value == x.value@,
{
}

} // verus!
