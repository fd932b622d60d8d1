//! The small grammars that configuration values are written in.

use crate::text::{
    char_of, chars, digit, digit_of, digits_value, find, first_index, from_utf8, halves, is_decimal,
    is_digits, natural_to, pieces, read_digits, read_natural, spells, split, split_once, string,
    strip_prefix, stripped, trim, trimmed, utf8_of, views,
};
use vstd::prelude::*;
use vstd::slice::slice_subrange;
use vstd::utf8::{decode_utf8, encode_utf8, is_scalar, valid_utf8};

verus! {

// ---------------------------------------------------------------- escapes

/// `head` before what `rest` gives, where it gives anything.
pub open spec fn ahead<T>(head: Seq<T>, rest: Option<Seq<T>>) -> Option<Seq<T>> {
    match rest {
        Some(t) => Some(head + t),
        None => None,
    }
}

/// Whether `c` is a hex digit.
pub open spec fn is_hex(c: char) -> bool {
    digit(c) < 16
}

/// The byte that a one-letter escape stands for.
pub open spec fn simple_escape(c: char) -> Option<u8> {
    if c == 'n' {
        Some(10u8)
    } else if c == 'r' {
        Some(13u8)
    } else if c == 't' {
        Some(9u8)
    } else if c == '\\' {
        Some(92u8)
    } else if c == '\'' {
        Some(39u8)
    } else if c == '"' {
        Some(34u8)
    } else {
        None
    }
}

/// One unit of a text with string-literal escapes.
pub enum Unit {
    /// A byte that an escape stands for.
    Byte(u8),
    /// A character, as it is or by its code.
    Char(char),
}

/// The first unit of a text, and how many characters spell it: a character as
/// it is; `\n \r \t \\ \' \"` and `\xNN` for a byte; `\u{N..}` for a character.
/// Any other escape is no unit.
pub open spec fn first_unit(s: Seq<char>) -> Option<(Unit, int)> {
    if s.len() == 0 {
        None
    } else if s[0] != '\\' {
        Some((Unit::Char(s[0]), 1))
    } else if s.len() < 2 {
        None
    } else if s[1] == 'x' {
        if s.len() >= 4 && is_hex(s[2]) && is_hex(s[3]) {
            Some((Unit::Byte((digit(s[2]) * 16 + digit(s[3])) as u8), 4))
        } else {
            None
        }
    } else if s[1] == 'u' {
        let body = s.skip(3);
        let n = first_index(body, '}');
        let code = digits_value(body.take(n), 16);
        if s.len() >= 3 && s[2] == '{' && 0 <= n < body.len() && is_digits(body.take(n), 16)
            && 0 <= code <= u32::MAX && is_scalar(code as u32) {
            Some((Unit::Char(code as u32 as char), 3 + n + 1))
        } else {
            None
        }
    } else {
        match simple_escape(s[1]) {
            Some(b) => Some((Unit::Byte(b), 2)),
            None => None,
        }
    }
}

/// The bytes of a unit: the byte itself, or the character's in UTF-8.
pub open spec fn unit_bytes(u: Unit) -> Seq<u8> {
    match u {
        Unit::Byte(b) => seq![b],
        Unit::Char(c) => encode_utf8(seq![c]),
    }
}

/// The character of a unit: a byte stands for the character of that code.
pub open spec fn unit_char(u: Unit) -> char {
    match u {
        Unit::Byte(b) => b as u32 as char,
        Unit::Char(c) => c,
    }
}

/// The bytes of a text with string-literal escapes. A part that is no unit
/// spoils the text.
pub open spec fn unescaped(s: Seq<char>) -> Option<Seq<u8>>
    decreases s.len(),
{
    if s.len() == 0 {
        Some(Seq::empty())
    } else {
        match first_unit(s) {
            Some((u, n)) => if 0 < n <= s.len() {
                ahead(unit_bytes(u), unescaped(s.skip(n)))
            } else {
                None
            },
            None => None,
        }
    }
}

/// The text that an escaped literal stands for. A part that is no unit spoils
/// it.
pub open spec fn literal(s: Seq<char>) -> Option<Seq<char>>
    decreases s.len(),
{
    if s.len() == 0 {
        Some(Seq::empty())
    } else {
        match first_unit(s) {
            Some((u, n)) => if 0 < n <= s.len() {
                ahead(seq![unit_char(u)], literal(s.skip(n)))
            } else {
                None
            },
            None => None,
        }
    }
}

proof fn lemma_ahead_twice<T>(a: Seq<T>, b: Seq<T>, rest: Option<Seq<T>>)
    ensures
        ahead(a, ahead(b, rest)) == ahead(a + b, rest),
{
    if rest is Some {
        assert(a + (b + rest->0) =~= (a + b) + rest->0);
    }
}

fn escape_byte(c: char) -> (r: Option<u8>)
    ensures
        r == simple_escape(c),
{
    if c == 'n' {
        Some(10)
    } else if c == 'r' {
        Some(13)
    } else if c == 't' {
        Some(9)
    } else if c == '\\' {
        Some(92)
    } else if c == '\'' {
        Some(39)
    } else if c == '"' {
        Some(34)
    } else {
        None
    }
}

fn read_unit(cs: &[char], i: usize) -> (r: Option<(Unit, usize)>)
    requires
        i < cs@.len(),
    ensures
        match r {
            Some((u, n)) => first_unit(cs@.skip(i as int)) == Some((u, n as int)) && 0 < n
                && i + n <= cs@.len(),
            None => first_unit(cs@.skip(i as int)) is None,
        },
{
    let n = cs.len();
    let ghost rest = cs@.skip(i as int);
    let c = cs[i];
    if c != '\\' {
        return Some((Unit::Char(c), 1));
    }
    if n - i < 2 {
        return None;
    }
    let e = cs[i + 1];
    if e == 'x' {
        if n - i < 4 {
            return None;
        }
        let hi = digit_of(cs[i + 2]);
        let lo = digit_of(cs[i + 3]);
        if hi >= 16 || lo >= 16 {
            return None;
        }
        Some((Unit::Byte((hi * 16 + lo) as u8), 4))
    } else if e == 'u' {
        if n - i < 3 || cs[i + 2] != '{' {
            return None;
        }
        let body = slice_subrange(cs, i + 3, n);
        proof {
            assert(body@ =~= rest.skip(3));
        }
        let k = find(body, '}');
        if k >= body.len() {
            return None;
        }
        let digits = slice_subrange(body, 0, k);
        proof {
            assert(digits@ =~= body@.take(k as int));
        }
        match read_digits(digits, 16, u32::MAX as u128) {
            None => None,
            Some(code) => match char_of(code as u32) {
                None => None,
                Some(ch) => {
                    proof {
                        vstd::utf8::char_u32_cast(ch, code as u32);
                    }
                    Some((Unit::Char(ch), 3 + k + 1))
                },
            },
        }
    } else {
        match escape_byte(e) {
            None => None,
            Some(b) => Some((Unit::Byte(b), 2)),
        }
    }
}

/// Decode string-literal escapes into the bytes they stand for.
pub fn parse_zig_string(s: &str) -> (r: Option<Vec<u8>>)
    ensures
        match r {
            Some(b) => unescaped(s@) == Some(b@),
            None => unescaped(s@) is None,
        },
{
    let cs = chars(s);
    unescape(cs.as_slice())
}

/// Decode string-literal escapes into the bytes they stand for.
pub fn unescape(cs: &[char]) -> (r: Option<Vec<u8>>)
    ensures
        match r {
            Some(b) => unescaped(cs@) == Some(b@),
            None => unescaped(cs@) is None,
        },
{
    let n = cs.len();
    let mut out: Vec<u8> = Vec::new();
    let mut i: usize = 0;
    proof {
        assert(cs@.skip(0) =~= cs@);
        if unescaped(cs@) is Some {
            assert(out@ + unescaped(cs@)->0 =~= unescaped(cs@)->0);
        }
    }
    while i < n
        invariant
            n == cs@.len(),
            i <= n,
            unescaped(cs@) == ahead(out@, unescaped(cs@.skip(i as int))),
        decreases n - i,
    {
        let ghost rest = cs@.skip(i as int);
        let ghost before = out@;
        match read_unit(cs, i) {
            None => {
                return None;
            },
            Some((u, k)) => {
                proof {
                    assert(rest.skip(k as int) =~= cs@.skip(i + k));
                    lemma_ahead_twice(before, unit_bytes(u), unescaped(rest.skip(k as int)));
                }
                match u {
                    Unit::Byte(b) => {
                        out.push(b);
                        proof {
                            assert(out@ =~= before + seq![b]);
                        }
                    },
                    Unit::Char(c) => {
                        let mut b = utf8_of(c);
                        out.append(&mut b);
                    },
                }
                i = i + k;
            },
        }
    }
    proof {
        assert(cs@.skip(n as int) =~= Seq::<char>::empty());
        assert(out@ + Seq::<u8>::empty() =~= out@);
    }
    Some(out)
}

/// The text that escaped bytes spell in UTF-8.
pub open spec fn unescaped_text(s: Seq<char>) -> Option<Seq<char>> {
    match unescaped(s) {
        Some(b) => if valid_utf8(b) {
            Some(decode_utf8(b))
        } else {
            None
        },
        None => None,
    }
}

/// Decode string-literal escapes into the text that their bytes spell.
pub fn unescape_text(cs: &[char]) -> (r: Option<String>)
    ensures
        match r {
            Some(t) => unescaped_text(cs@) == Some(t@),
            None => unescaped_text(cs@) is None,
        },
{
    match unescape(cs) {
        Some(b) => from_utf8(b),
        None => None,
    }
}

/// Decode an escaped literal to text.
pub fn decode_escapes(cs: &[char]) -> (r: Option<String>)
    ensures
        match r {
            Some(t) => literal(cs@) == Some(t@),
            None => literal(cs@) is None,
        },
{
    let n = cs.len();
    let mut out: Vec<char> = Vec::new();
    let mut i: usize = 0;
    proof {
        assert(cs@.skip(0) =~= cs@);
        if literal(cs@) is Some {
            assert(out@ + literal(cs@)->0 =~= literal(cs@)->0);
        }
    }
    while i < n
        invariant
            n == cs@.len(),
            i <= n,
            literal(cs@) == ahead(out@, literal(cs@.skip(i as int))),
        decreases n - i,
    {
        let ghost rest = cs@.skip(i as int);
        let ghost before = out@;
        match read_unit(cs, i) {
            None => {
                return None;
            },
            Some((u, k)) => {
                proof {
                    assert(rest.skip(k as int) =~= cs@.skip(i + k));
                    lemma_ahead_twice(before, seq![unit_char(u)], literal(rest.skip(k as int)));
                }
                let c: char = match u {
                    Unit::Byte(b) => b as char,
                    Unit::Char(c) => c,
                };
                out.push(c);
                proof {
                    assert(out@ =~= before + seq![unit_char(u)]);
                }
                i = i + k;
            },
        }
    }
    proof {
        assert(cs@.skip(n as int) =~= Seq::<char>::empty());
        assert(out@ + Seq::<char>::empty() =~= out@);
    }
    Some(string(out.as_slice()))
}

// ---------------------------------------------------------------- durations

/// How many of the first characters of `s` are decimal digits, or are none,
/// as `digits` says.
pub open spec fn run_len(s: Seq<char>, digits: bool) -> int
    decreases s.len(),
{
    if s.len() == 0 || is_decimal(s[0]) != digits {
        0
    } else {
        1 + run_len(s.skip(1), digits)
    }
}

pub proof fn lemma_run_len(s: Seq<char>, digits: bool)
    ensures
        0 <= run_len(s, digits) <= s.len(),
        forall|i: int| 0 <= i < run_len(s, digits) ==> is_decimal(#[trigger] s[i]) == digits,
        run_len(s, digits) < s.len() ==> is_decimal(s[run_len(s, digits)]) != digits,
    decreases s.len(),
{
    if s.len() > 0 && is_decimal(s[0]) == digits {
        lemma_run_len(s.skip(1), digits);
        assert forall|i: int| 0 <= i < run_len(s, digits) implies is_decimal(#[trigger] s[i])
            == digits by {
            if i > 0 {
                assert(s.skip(1)[i - 1] == s[i]);
            }
        }
    }
}

/// Nanoseconds in one of a unit.
pub open spec fn unit_ns(u: Seq<char>) -> Option<int> {
    if u == "y"@ {
        Some(31_536_000_000_000_000)
    } else if u == "d"@ {
        Some(86_400_000_000_000)
    } else if u == "w"@ {
        Some(604_800_000_000_000)
    } else if u == "h"@ {
        Some(3_600_000_000_000)
    } else if u == "m"@ {
        Some(60_000_000_000)
    } else if u == "s"@ {
        Some(1_000_000_000)
    } else if u == "ms"@ {
        Some(1_000_000)
    } else if u == "us"@ || u == "\u{b5}s"@ {
        Some(1_000)
    } else if u == "ns"@ {
        Some(1)
    } else {
        None
    }
}

/// The nanoseconds that a series of numbers with units adds up to.
pub open spec fn duration_ns(s: Seq<char>) -> Option<int>
    decreases s.len(),
{
    if s.len() == 0 {
        Some(0)
    } else {
        let d = run_len(s, true);
        let tail = s.skip(d);
        let u = run_len(tail, false);
        let n = digits_value(s.take(d), 10);
        if 0 < d < s.len() && n <= u128::MAX && 0 <= u <= tail.len() {
            match (unit_ns(tail.take(u)), duration_ns(tail.skip(u))) {
                (Some(per), Some(rest)) => Some(n * per + rest),
                _ => None,
            }
        } else {
            None
        }
    }
}

/// The milliseconds that a duration spells: a bare number of them, or numbers
/// with units that add. Less than a millisecond counts for nothing, and more
/// than fit in 64 bits stop there.
pub open spec fn duration_ms(value: Seq<char>) -> Option<int> {
    let s = trim(value);
    if s.len() == 0 {
        None
    } else {
        match natural_to(s, 10, u64::MAX as int) {
            Some(n) => Some(n),
            None => match duration_ns(s) {
                Some(ns) => Some(
                    if ns / 1_000_000 <= u64::MAX {
                        ns / 1_000_000
                    } else {
                        u64::MAX as int
                    },
                ),
                None => None,
            },
        }
    }
}

/// A run goes on into `t` only where it takes all of `s`.
proof fn lemma_run_len_before(s: Seq<char>, t: Seq<char>, digits: bool)
    requires
        run_len(s, digits) < s.len() || t.len() == 0 || is_decimal(t[0]) != digits,
    ensures
        run_len(s + t, digits) == run_len(s, digits),
    decreases s.len(),
{
    if s.len() == 0 {
        assert(s + t =~= t);
    } else {
        assert((s + t)[0] == s[0]);
        if is_decimal(s[0]) == digits {
            assert((s + t).skip(1) =~= s.skip(1) + t);
            lemma_run_len_before(s.skip(1), t, digits);
        }
    }
}

/// Durations add: one written behind another is as long as both together.
pub proof fn law_durations_add(a: Seq<char>, b: Seq<char>)
    requires
        duration_ns(a) is Some,
        duration_ns(b) is Some,
    ensures
        duration_ns(a + b) == Some(duration_ns(a)->0 + duration_ns(b)->0),
    decreases a.len(),
{
    if a.len() == 0 {
        assert(a + b =~= b);
    } else {
        let d = run_len(a, true);
        let tail = a.skip(d);
        let u = run_len(tail, false);
        lemma_run_len(a, true);
        lemma_run_len(tail, false);
        lemma_run_len_before(a, b, true);
        assert((a + b).take(d) =~= a.take(d));
        assert((a + b).skip(d) =~= tail + b);
        if b.len() > 0 {
            lemma_run_len(b, true);
            assert(is_decimal(b[0]));
        }
        lemma_run_len_before(tail, b, false);
        assert((tail + b).take(u) =~= tail.take(u));
        assert((tail + b).skip(u) =~= tail.skip(u) + b);
        law_durations_add(tail.skip(u), b);
    }
}

/// Whether every unit of a series is a millisecond or more.
pub open spec fn coarse(s: Seq<char>) -> bool
    decreases s.len(),
{
    s.len() == 0 || {
        let d = run_len(s, true);
        let tail = s.skip(d);
        let u = run_len(tail, false);
        &&& 0 < d < s.len()
        &&& 0 <= u <= tail.len()
        &&& unit_ns(tail.take(u)) matches Some(per) && per >= 1_000_000
        &&& coarse(tail.skip(u))
    }
}

proof fn lemma_coarse_is_whole(s: Seq<char>)
    requires
        duration_ns(s) is Some,
        coarse(s),
    ensures
        duration_ns(s)->0 % 1_000_000 == 0,
        duration_ns(s)->0 >= 0,
    decreases s.len(),
{
    lemma_duration_nonneg(s);
    if s.len() > 0 {
        let d = run_len(s, true);
        let tail = s.skip(d);
        let u = run_len(tail, false);
        lemma_coarse_is_whole(tail.skip(u));
        let n = digits_value(s.take(d), 10);
        let per = unit_ns(tail.take(u))->0;
        let k = per / 1_000_000;
        assert(per == k * 1_000_000);
        assert(n * per == (n * k) * 1_000_000) by (nonlinear_arith)
            requires
                per == k * 1_000_000,
        ;
    }
}

/// A series starts with a digit, ends with a unit's letter and is no bare
/// number.
proof fn lemma_series_ends(s: Seq<char>)
    requires
        duration_ns(s) is Some,
        s.len() > 0,
    ensures
        is_decimal(s[0]),
        !crate::text::is_white(s[0]),
        !crate::text::is_white(s.last()),
        !is_decimal(s.last()),
        trim(s) == s,
        natural_to(s, 10, u64::MAX as int) is None,
    decreases s.len(),
{
    let d = run_len(s, true);
    let tail = s.skip(d);
    let u = run_len(tail, false);
    lemma_run_len(s, true);
    lemma_run_len(tail, false);
    assert(is_decimal(s[0]));
    reveal_strlit("y");
    reveal_strlit("d");
    reveal_strlit("w");
    reveal_strlit("h");
    reveal_strlit("m");
    reveal_strlit("s");
    reveal_strlit("ms");
    reveal_strlit("us");
    reveal_strlit("\u{b5}s");
    reveal_strlit("ns");
    assert(u > 0);
    assert(!is_decimal(tail[0]));
    if u < tail.len() {
        lemma_series_ends(tail.skip(u));
        assert(tail.skip(u).last() == s.last());
    } else {
        assert(tail.take(u) =~= tail);
        assert(tail.last() == s.last());
    }
    assert(trim(s) == s);
    assert(s[d] == tail[0]);
    assert(digit(s[d]) >= 10);
}

/// Durations whose units are a millisecond or more add in milliseconds, as far
/// as 64 bits hold them.
pub proof fn law_durations_add_in_milliseconds(a: Seq<char>, b: Seq<char>)
    requires
        a.len() > 0,
        b.len() > 0,
        duration_ns(a) is Some,
        duration_ns(b) is Some,
        coarse(a),
        coarse(b),
    ensures
        ({
            let sum = duration_ns(a)->0 / 1_000_000 + duration_ns(b)->0 / 1_000_000;
            &&& duration_ms(a) is Some
            &&& duration_ms(b) is Some
            &&& duration_ms(a + b) == Some(
                if sum <= u64::MAX {
                    sum
                } else {
                    u64::MAX as int
                },
            )
            &&& duration_ms(a)->0 + duration_ms(b)->0 <= u64::MAX ==> duration_ms(a + b) == Some(
                duration_ms(a)->0 + duration_ms(b)->0,
            )
        }),
{
    law_durations_add(a, b);
    lemma_coarse_is_whole(a);
    lemma_coarse_is_whole(b);
    lemma_series_ends(a);
    lemma_series_ends(b);
    lemma_series_ends(a + b);
}

fn run(cs: &[char], digits: bool) -> (r: usize)
    ensures
        r == run_len(cs@, digits),
        r <= cs@.len(),
{
    let mut i: usize = 0;
    proof {
        assert(cs@.skip(0) =~= cs@);
    }
    while i < cs.len() && (('0' <= cs[i] && cs[i] <= '9') == digits)
        invariant
            i <= cs@.len(),
            run_len(cs@, digits) == i + run_len(cs@.skip(i as int), digits),
        decreases cs@.len() - i,
    {
        proof {
            assert(cs@.skip(i as int).skip(1) =~= cs@.skip(i as int + 1));
        }
        i = i + 1;
    }
    i
}

fn unit(u: &[char]) -> (r: Option<u128>)
    ensures
        match r {
            Some(n) => unit_ns(u@) == Some(n as int) && n > 0,
            None => unit_ns(u@) is None,
        },
{
    if spells(u, "y") {
        Some(31_536_000_000_000_000)
    } else if spells(u, "d") {
        Some(86_400_000_000_000)
    } else if spells(u, "w") {
        Some(604_800_000_000_000)
    } else if spells(u, "h") {
        Some(3_600_000_000_000)
    } else if spells(u, "m") {
        Some(60_000_000_000)
    } else if spells(u, "s") {
        Some(1_000_000_000)
    } else if spells(u, "ms") {
        Some(1_000_000)
    } else if spells(u, "us") || spells(u, "\u{b5}s") {
        Some(1_000)
    } else if spells(u, "ns") {
        Some(1)
    } else {
        None
    }
}

/// `a + n * per`, or the largest number where that is more.
fn saturating_mul_add(a: u128, n: u128, per: u128) -> (r: u128)
    ensures
        a + n * per <= u128::MAX ==> r == a + n * per,
        a + n * per > u128::MAX ==> r == u128::MAX,
{
    proof {
        assert(n * per >= 0) by (nonlinear_arith)
            requires
                n >= 0,
                per >= 0,
        ;
    }
    match n.checked_mul(per) {
        None => u128::MAX,
        Some(m) => match a.checked_add(m) {
            None => u128::MAX,
            Some(t) => t,
        },
    }
}

proof fn lemma_duration_nonneg(s: Seq<char>)
    ensures
        duration_ns(s) matches Some(n) ==> n >= 0,
    decreases s.len(),
{
    if s.len() > 0 {
        lemma_run_len(s, true);
        let d = run_len(s, true);
        let tail = s.skip(d);
        lemma_run_len(tail, false);
        let u = run_len(tail, false);
        let n = digits_value(s.take(d), 10);
        if 0 < d < s.len() && n <= u128::MAX {
            lemma_duration_nonneg(tail.skip(u));
            lemma_value_nonneg(s.take(d));
            if unit_ns(tail.take(u)) is Some {
                let per = unit_ns(tail.take(u))->0;
                assert(n * per >= 0) by (nonlinear_arith)
                    requires
                        n >= 0,
                        per >= 0,
                ;
            }
        }
    }
}

proof fn lemma_value_nonneg(s: Seq<char>)
    ensures
        digits_value(s, 10) >= 0,
    decreases s.len(),
{
    if s.len() > 0 {
        lemma_value_nonneg(s.drop_last());
    }
}

/// `t` more than what `rest` adds up to.
pub open spec fn more(t: int, rest: Option<int>) -> Option<int> {
    match rest {
        Some(r) => Some(t + r),
        None => None,
    }
}

/// Parse a duration into milliseconds.
pub fn parse_duration_ms(value: &str) -> (r: Option<u64>)
    ensures
        match r {
            Some(n) => duration_ms(value@) == Some(n as int),
            None => duration_ms(value@) is None,
        },
{
    let cs = chars(value);
    let s = trimmed(cs.as_slice());
    let len = s.len();
    if len == 0 {
        return None;
    }
    match read_natural(s, 10, u64::MAX as u128) {
        Some(n) => {
            return Some(n as u64);
        },
        None => {},
    }
    let mut total: u128 = 0;
    let mut at: usize = 0;
    let ghost mut sum: int = 0;
    proof {
        assert(s@.skip(0) =~= s@);
    }
    while at < len
        invariant
            len == s@.len(),
            at <= len,
            sum >= 0,
            total == (if sum <= u128::MAX {
                sum
            } else {
                u128::MAX as int
            }),
            duration_ns(s@) == more(sum, duration_ns(s@.skip(at as int))),
            s@ == trim(value@),
            s@.len() > 0,
            natural_to(s@, 10, u64::MAX as int) is None,
        decreases len - at,
    {
        let rest = slice_subrange(s, at, len);
        proof {
            assert(rest@ =~= s@.skip(at as int));
            lemma_run_len(rest@, true);
        }
        let d = run(rest, true);
        let m = rest.len();
        if d == 0 || d >= m {
            return None;
        }
        let num = slice_subrange(rest, 0, d);
        let tail = slice_subrange(rest, d, m);
        proof {
            assert(num@ =~= rest@.take(d as int));
            assert(tail@ =~= rest@.skip(d as int));
            assert(is_digits(num@, 10)) by {
                assert forall|i: int| 0 <= i < num@.len() implies #[trigger] digit(num@[i]) < 10 by {
                    assert(is_decimal(rest@[i]));
                }
            }
            lemma_run_len(tail@, false);
        }
        let n = match read_digits(num, 10, u128::MAX) {
            Some(n) => n,
            None => {
                return None;
            },
        };
        let u = run(tail, false);
        let name = slice_subrange(tail, 0, u);
        proof {
            assert(name@ =~= tail@.take(u as int));
            assert(tail@.skip(u as int) =~= s@.skip(at + d + u));
        }
        let per = match unit(name) {
            Some(p) => p,
            None => {
                return None;
            },
        };
        let ghost before = sum;
        proof {
            assert(n * per >= 0) by (nonlinear_arith)
                requires
                    n >= 0,
                    per >= 0,
            ;
            sum = sum + n * per;
        }
        total = saturating_mul_add(total, n, per);
        at = at + d + u;
    }
    proof {
        assert(s@.skip(len as int) =~= Seq::<char>::empty());
        assert(duration_ns(s@) == Some(sum));
    }
    let ms: u128 = total / 1_000_000;
    if ms <= u64::MAX as u128 {
        Some(ms as u64)
    } else {
        Some(u64::MAX)
    }
}

// ---------------------------------------------------------------- code points

/// The code point that `U+XXXX` names.
pub open spec fn codepoint(piece: Seq<char>) -> Option<u32> {
    let s = trim(piece);
    let h = match strip_prefix(s, "U+"@) {
        Some(h) => Some(h),
        None => strip_prefix(s, "u+"@),
    };
    match h {
        Some(h) => match natural_to(h, 16, u32::MAX as int) {
            Some(n) => if is_scalar(n as u32) {
                Some(n as u32)
            } else {
                None
            },
            None => None,
        },
        None => None,
    }
}

/// The range that `U+XXXX` or `U+XXXX-U+YYYY` names, first and last.
pub open spec fn codepoint_range(piece: Seq<char>) -> Option<(u32, u32)> {
    let r = trim(piece);
    match split_once(r, '-') {
        Some(p) => match (codepoint(p.0), codepoint(p.1)) {
            (Some(a), Some(b)) => if a <= b {
                Some((a, b))
            } else {
                None
            },
            _ => None,
        },
        None => match codepoint(r) {
            Some(a) => Some((a, a)),
            None => None,
        },
    }
}

/// The ranges that the pieces name, where every piece names one.
pub open spec fn ranges_of(ps: Seq<Seq<char>>) -> Option<Seq<(u32, u32)>>
    decreases ps.len(),
{
    if ps.len() == 0 {
        Some(Seq::empty())
    } else {
        match (ranges_of(ps.drop_last()), codepoint_range(ps.last())) {
            (Some(rs), Some(r)) => Some(rs.push(r)),
            _ => None,
        }
    }
}

/// The ranges of a comma-separated list.
pub open spec fn codepoint_ranges(v: Seq<char>) -> Option<Seq<(u32, u32)>> {
    ranges_of(split(v, ','))
}

fn one_codepoint(piece: &[char]) -> (r: Option<u32>)
    ensures
        r == codepoint(piece@),
{
    let s = trimmed(piece);
    let h = match stripped(s, "U+") {
        Some(h) => h,
        None => match stripped(s, "u+") {
            Some(h) => h,
            None => {
                return None;
            },
        },
    };
    match read_natural(h, 16, u32::MAX as u128) {
        Some(n) => match char_of(n as u32) {
            Some(_) => Some(n as u32),
            None => None,
        },
        None => None,
    }
}

fn one_range(piece: &[char]) -> (r: Option<(u32, u32)>)
    ensures
        r == codepoint_range(piece@),
{
    let r = trimmed(piece);
    match halves(r, '-') {
        Some((a, b)) => match (one_codepoint(a), one_codepoint(b)) {
            (Some(a), Some(b)) => if a <= b {
                Some((a, b))
            } else {
                None
            },
            _ => None,
        },
        None => match one_codepoint(r) {
            Some(a) => Some((a, a)),
            None => None,
        },
    }
}

/// A list with a piece that names nothing names nothing.
proof fn lemma_ranges_spoiled(ps: Seq<Seq<char>>, k: int)
    requires
        0 <= k < ps.len(),
        codepoint_range(ps[k]) is None,
    ensures
        ranges_of(ps) is None,
    decreases ps.len(),
{
    if k < ps.len() - 1 {
        lemma_ranges_spoiled(ps.drop_last(), k);
    }
}

/// Parse a comma-separated list of `U+XXXX` / `U+XXXX-U+YYYY` ranges.
pub fn parse_codepoint_ranges(v: &str) -> (r: Option<Vec<(u32, u32)>>)
    ensures
        match r {
            Some(rs) => codepoint_ranges(v@) == Some(rs@),
            None => codepoint_ranges(v@) is None,
        },
{
    let cs = chars(v);
    let ps = pieces(cs.as_slice(), ',');
    let ghost all = views(ps@);
    let mut out: Vec<(u32, u32)> = Vec::new();
    let mut i: usize = 0;
    proof {
        assert(out@ =~= Seq::<(u32, u32)>::empty());
    }
    while i < ps.len()
        invariant
            all == views(ps@),
            all == split(v@, ','),
            i <= ps@.len(),
            ranges_of(all.take(i as int)) == Some(out@),
        decreases ps@.len() - i,
    {
        proof {
            assert(all.take(i as int + 1).drop_last() =~= all.take(i as int));
            assert(all.take(i as int + 1).last() == ps@[i as int]@);
            assert(all[i as int] == ps@[i as int]@);
        }
        match one_range(ps[i].as_slice()) {
            Some(r) => {
                out.push(r);
            },
            None => {
                proof {
                    lemma_ranges_spoiled(all, i as int);
                }
                return None;
            },
        }
        i = i + 1;
    }
    proof {
        assert(all.take(all.len() as int) =~= all);
    }
    Some(out)
}

/// One `clipboard-codepoint-map` line: ranges and their replacement text.
#[derive(Clone, Debug, PartialEq, Eq)]
pub struct ClipboardMap {
    pub ranges: Vec<(u32, u32)>,
    pub replacement: String,
}

/// A `ClipboardMap` as sequences.
pub ghost struct ClipboardMapView {
    pub ranges: Seq<(u32, u32)>,
    pub replacement: Seq<char>,
}

impl View for ClipboardMap {
    type V = ClipboardMapView;

    open spec fn view(&self) -> ClipboardMapView {
        ClipboardMapView { ranges: self.ranges@, replacement: self.replacement@ }
    }
}

/// The map that `ranges=text` spells. A text that is one `U+XXXX` stands for
/// that character.
pub open spec fn clipboard_map(v: Seq<char>) -> Option<ClipboardMapView> {
    match split_once(v, '=') {
        Some(p) => match codepoint_ranges(p.0) {
            Some(ranges) => {
                let rhs = trim(p.1);
                let one = codepoint_ranges(rhs);
                Some(
                    ClipboardMapView {
                        ranges,
                        replacement: if one is Some && one->0.len() == 1 && one->0[0].0
                            == one->0[0].1 {
                            seq![one->0[0].0 as char]
                        } else {
                            rhs
                        },
                    },
                )
            },
            None => None,
        },
        None => None,
    }
}

/// Every end of a named range is a scalar value.
proof fn lemma_ranges_scalar(ps: Seq<Seq<char>>, i: int)
    requires
        ranges_of(ps) is Some,
        0 <= i < ranges_of(ps)->0.len(),
    ensures
        is_scalar(ranges_of(ps)->0[i].0),
        is_scalar(ranges_of(ps)->0[i].1),
    decreases ps.len(),
{
    if ps.len() > 0 {
        let rs = ranges_of(ps.drop_last())->0;
        if i < rs.len() {
            lemma_ranges_scalar(ps.drop_last(), i);
        }
    }
}

/// Parse `U+2500=U+002D` or `U+03A3=SUM`.
pub fn parse_clipboard_map(v: &str) -> (r: Option<ClipboardMap>)
    ensures
        match r {
            Some(m) => clipboard_map(v@) == Some(m@),
            None => clipboard_map(v@) is None,
        },
{
    let cs = chars(v);
    match halves(cs.as_slice(), '=') {
        None => None,
        Some((lhs, rhs)) => {
            let left = string(lhs);
            match parse_codepoint_ranges(left.as_str()) {
                None => None,
                Some(ranges) => {
                    let text = string(trimmed(rhs));
                    let replacement = match parse_codepoint_ranges(text.as_str()) {
                        Some(one) => if one.len() == 1 && one[0].0 == one[0].1 {
                            proof {
                                lemma_ranges_scalar(split(text@, ','), 0);
                            }
                            let mut t = String::new();
                            match char_of(one[0].0) {
                                Some(c) => {
                                    t.push(c);
                                    proof {
                                        vstd::utf8::char_u32_cast(c, one@[0].0);
                                        assert(t@ =~= seq![one@[0].0 as char]);
                                    }
                                },
                                None => {},
                            }
                            t
                        } else {
                            text
                        },
                        None => text,
                    };
                    Some(ClipboardMap { ranges, replacement })
                },
            }
        },
    }
}

/// The maps as sequences.
pub open spec fn map_views(maps: Seq<ClipboardMap>) -> Seq<ClipboardMapView> {
    Seq::new(maps.len(), |i: int| maps[i]@)
}

/// Whether one of the ranges covers `cp`.
pub open spec fn covers(ranges: Seq<(u32, u32)>, cp: u32) -> bool {
    exists|i: int| 0 <= i < ranges.len() && #[trigger] ranges[i].0 <= cp <= ranges[i].1
}

/// What one character of copied text becomes. The last map that covers it
/// counts.
pub open spec fn mapped_char(maps: Seq<ClipboardMapView>, c: char) -> Seq<char>
    decreases maps.len(),
{
    if maps.len() == 0 {
        seq![c]
    } else if covers(maps.last().ranges, c as u32) {
        maps.last().replacement
    } else {
        mapped_char(maps.drop_last(), c)
    }
}

/// Copied text with every character mapped.
pub open spec fn mapped_text(maps: Seq<ClipboardMapView>, text: Seq<char>) -> Seq<char>
    decreases text.len(),
{
    if text.len() == 0 {
        Seq::empty()
    } else {
        mapped_text(maps, text.drop_last()) + mapped_char(maps, text.last())
    }
}

fn in_ranges(ranges: &Vec<(u32, u32)>, cp: u32) -> (r: bool)
    ensures
        r == covers(ranges@, cp),
{
    let mut i: usize = 0;
    while i < ranges.len()
        invariant
            i <= ranges@.len(),
            forall|j: int| 0 <= j < i ==> !(#[trigger] ranges@[j].0 <= cp <= ranges@[j].1),
        decreases ranges@.len() - i,
    {
        if ranges[i].0 <= cp && cp <= ranges[i].1 {
            return true;
        }
        i = i + 1;
    }
    false
}

fn map_char(maps: &[ClipboardMap], c: char, out: &mut String)
    ensures
        final(out)@ == old(out)@ + mapped_char(map_views(maps@), c),
{
    let cp = c as u32;
    let ghost w = map_views(maps@);
    let mut n: usize = maps.len();
    proof {
        assert(w.take(n as int) =~= w);
    }
    while n > 0
        invariant
            w == map_views(maps@),
            cp == c as u32,
            n <= maps@.len(),
            mapped_char(w, c) == mapped_char(w.take(n as int), c),
            out@ == old(out)@,
        decreases n,
    {
        proof {
            assert(w.take(n as int).drop_last() =~= w.take(n as int - 1));
            assert(w.take(n as int).last() == maps@[n as int - 1]@);
        }
        let m = &maps[n - 1];
        if in_ranges(&m.ranges, cp) {
            out.append(m.replacement.as_str());
            return;
        }
        n = n - 1;
    }
    out.push(c);
    proof {
        assert(old(out)@.push(c) =~= old(out)@ + seq![c]);
    }
}

/// Apply `clipboard-codepoint-map` to copied text. Later entries win over
/// earlier ones.
pub fn map_clipboard_text(maps: &[ClipboardMap], text: &str) -> (r: String)
    ensures
        r@ == mapped_text(map_views(maps@), text@),
{
    let cs = chars(text);
    let mut out = String::new();
    let mut i: usize = 0;
    proof {
        assert(cs@.take(0) =~= Seq::<char>::empty());
    }
    while i < cs.len()
        invariant
            i <= cs@.len(),
            out@ == mapped_text(map_views(maps@), cs@.take(i as int)),
        decreases cs@.len() - i,
    {
        proof {
            assert(cs@.take(i as int + 1).drop_last() =~= cs@.take(i as int));
        }
        map_char(maps, cs[i], &mut out);
        i = i + 1;
    }
    proof {
        assert(cs@.take(cs@.len() as int) =~= cs@);
    }
    out
}

/// Without a map, copied text stays as it is.
pub proof fn law_no_map_keeps_text(text: Seq<char>)
    ensures
        mapped_text(Seq::empty(), text) == text,
    decreases text.len(),
{
    if text.len() > 0 {
        law_no_map_keeps_text(text.drop_last());
        assert(text.drop_last() + seq![text.last()] =~= text);
    } else {
        assert(text =~= Seq::empty());
    }
}

/// What is said of a clipboard map is said of its own fields, each of the field of its name.
pub proof fn law_clipboard_map_shows_its_fields(x: ClipboardMap)
    ensures
        x@.ranges == x.ranges@,
        x@.replacement == x.replacement@,
{
}

} // verus!
