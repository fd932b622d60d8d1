//! Text as sequences of characters: trimming, splitting, matching and reading
//! integers, each stated over `Seq<char>`.

use vstd::prelude::*;
use vstd::slice::slice_subrange;

verus! {

/// `String::push` appends the character to the end of the string.
pub assume_specification[ String::push ](s: &mut String, c: char)
    ensures
        final(s)@ == old(s)@.push(c),
;

// ---------------------------------------------------------------- characters

/// The characters with Unicode's `White_Space` property.
pub open spec fn is_white(c: char) -> bool {
    ||| '\u{9}' <= c <= '\u{d}'
    ||| c == ' '
    ||| c == '\u{85}'
    ||| c == '\u{a0}'
    ||| c == '\u{1680}'
    ||| '\u{2000}' <= c <= '\u{200a}'
    ||| c == '\u{2028}'
    ||| c == '\u{2029}'
    ||| c == '\u{202f}'
    ||| c == '\u{205f}'
    ||| c == '\u{3000}'
}

/// Whether `c` is white space.
pub fn white(c: char) -> (r: bool)
    ensures
        r == is_white(c),
{
    ('\u{9}' <= c && c <= '\u{d}') || c == ' ' || c == '\u{85}' || c == '\u{a0}' || c == '\u{1680}'
        || ('\u{2000}' <= c && c <= '\u{200a}') || c == '\u{2028}' || c == '\u{2029}'
        || c == '\u{202f}' || c == '\u{205f}' || c == '\u{3000}'
}

/// `c` with an ASCII capital made small.
pub open spec fn lower_char(c: char) -> char {
    if 'A' <= c <= 'Z' {
        (c as u32 + 32) as char
    } else {
        c
    }
}

/// The ASCII small letter of an ASCII capital; any other character is itself.
pub fn to_lower(c: char) -> (r: char)
    ensures
        r == lower_char(c),
{
    if 'A' <= c && c <= 'Z' {
        (c as u8 + 32) as char
    } else {
        c
    }
}

/// Every character made small.
pub open spec fn lower(s: Seq<char>) -> Seq<char> {
    Seq::new(s.len(), |i: int| lower_char(s[i]))
}

/// The value of `c` as a digit, ten and up written `a`, `b`, … in either case.
pub open spec fn digit(c: char) -> int {
    if '0' <= c <= '9' {
        c as int - '0' as int
    } else if 'a' <= c <= 'z' {
        c as int - 'a' as int + 10
    } else if 'A' <= c <= 'Z' {
        c as int - 'A' as int + 10
    } else {
        99
    }
}

/// The value of `c` as a digit; 99 where it is none.
pub fn digit_of(c: char) -> (r: u32)
    ensures
        r == digit(c),
        r <= 99,
{
    if '0' <= c && c <= '9' {
        c as u32 - '0' as u32
    } else if 'a' <= c && c <= 'z' {
        c as u32 - 'a' as u32 + 10
    } else if 'A' <= c && c <= 'Z' {
        c as u32 - 'A' as u32 + 10
    } else {
        99
    }
}

/// Whether `c` is one of `0` to `9`.
pub open spec fn is_decimal(c: char) -> bool {
    '0' <= c <= '9'
}

// ---------------------------------------------------------------- conversion

/// The characters of a string, one by one.
pub fn chars(s: &str) -> (r: Vec<char>)
    ensures
        r@ == s@,
{
    let mut out: Vec<char> = Vec::new();
    for c in it: s.chars()
        invariant
            it.seq() == s@,
            out@ == s@.take(it.index() as int),
    {
        out.push(c);
        proof {
            assert(s@.take(it.index() as int + 1) =~= s@.take(it.index() as int).push(c));
        }
    }
    proof {
        assert(s@.take(s@.len() as int) =~= s@);
    }
    out
}

/// The string made of `cs`.
pub fn string(cs: &[char]) -> (r: String)
    ensures
        r@ == cs@,
{
    let mut out = String::new();
    let mut i: usize = 0;
    while i < cs.len()
        invariant
            i <= cs@.len(),
            out@ == cs@.take(i as int),
        decreases cs@.len() - i,
    {
        out.push(cs[i]);
        proof {
            assert(cs@.take(i as int + 1) =~= cs@.take(i as int).push(cs@[i as int]));
        }
        i = i + 1;
    }
    proof {
        assert(cs@.take(cs@.len() as int) =~= cs@);
    }
    out
}

/// A vector of its own with the characters of `cs`.
pub fn copied(cs: &[char]) -> (r: Vec<char>)
    ensures
        r@ == cs@,
{
    vstd::slice::slice_to_vec(cs)
}

// ---------------------------------------------------------------- equality

/// Whether two runs of characters are the same.
pub fn same(a: &[char], b: &[char]) -> (r: bool)
    ensures
        r == (a@ == b@),
{
    if a.len() != b.len() {
        return false;
    }
    let mut i: usize = 0;
    while i < a.len()
        invariant
            a@.len() == b@.len(),
            i <= a@.len(),
            forall|j: int| 0 <= j < i ==> a@[j] == b@[j],
        decreases a@.len() - i,
    {
        if a[i] != b[i] {
            proof {
                assert(a@[i as int] != b@[i as int]);
            }
            return false;
        }
        i = i + 1;
    }
    proof {
        assert(a@ =~= b@);
    }
    true
}

/// Whether `cs` spells `word`.
pub fn spells(cs: &[char], word: &str) -> (r: bool)
    ensures
        r == (cs@ == word@),
{
    let w = chars(word);
    same(cs, w.as_slice())
}

/// Whether two strings hold the same characters.
pub fn same_str(a: &str, b: &str) -> (r: bool)
    ensures
        r == (a@ == b@),
{
    let x = chars(a);
    spells(x.as_slice(), b)
}

/// Every ASCII capital of `cs` made small.
pub fn lowered(cs: &[char]) -> (r: Vec<char>)
    ensures
        r@ == lower(cs@),
{
    let mut out: Vec<char> = Vec::new();
    let mut i: usize = 0;
    while i < cs.len()
        invariant
            i <= cs@.len(),
            out@ == lower(cs@).take(i as int),
        decreases cs@.len() - i,
    {
        out.push(to_lower(cs[i]));
        proof {
            assert(lower(cs@).take(i as int + 1) =~= lower(cs@).take(i as int).push(
                lower(cs@)[i as int],
            ));
        }
        i = i + 1;
    }
    proof {
        assert(lower(cs@).take(cs@.len() as int) =~= lower(cs@));
    }
    out
}

/// Whether the two read the same once ASCII capitals are made small.
pub open spec fn same_ignoring_case(a: Seq<char>, b: Seq<char>) -> bool {
    lower(a) == lower(b)
}

/// Whether `a` and `b` read the same up to the case of ASCII letters.
pub fn eq_ignore_case(a: &str, b: &str) -> (r: bool)
    ensures
        r == same_ignoring_case(a@, b@),
{
    let x = chars(a);
    let y = chars(b);
    let lx = lowered(x.as_slice());
    let ly = lowered(y.as_slice());
    same(lx.as_slice(), ly.as_slice())
}

// ---------------------------------------------------------------- trimming

/// `s` without the white space it begins with.
pub open spec fn trim_start(s: Seq<char>) -> Seq<char>
    decreases s.len(),
{
    if s.len() > 0 && is_white(s[0]) {
        trim_start(s.skip(1))
    } else {
        s
    }
}

/// `s` without the white space it ends with.
pub open spec fn trim_end(s: Seq<char>) -> Seq<char>
    decreases s.len(),
{
    if s.len() > 0 && is_white(s.last()) {
        trim_end(s.drop_last())
    } else {
        s
    }
}

/// `s` without the white space at either end.
pub open spec fn trim(s: Seq<char>) -> Seq<char> {
    trim_end(trim_start(s))
}

/// `cs` without the white space it begins with.
pub fn trimmed_start(cs: &[char]) -> (r: &[char])
    ensures
        r@ == trim_start(cs@),
{
    let mut i: usize = 0;
    proof {
        assert(cs@.skip(0) =~= cs@);
    }
    while i < cs.len() && white(cs[i])
        invariant
            i <= cs@.len(),
            trim_start(cs@) == trim_start(cs@.skip(i as int)),
        decreases cs@.len() - i,
    {
        proof {
            assert(cs@.skip(i as int).skip(1) =~= cs@.skip(i as int + 1));
        }
        i = i + 1;
    }
    let n = cs.len();
    proof {
        assert(cs@.skip(i as int) =~= cs@.subrange(i as int, n as int));
    }
    slice_subrange(cs, i, n)
}

/// `cs` without the white space it ends with.
pub fn trimmed_end(cs: &[char]) -> (r: &[char])
    ensures
        r@ == trim_end(cs@),
{
    let mut n: usize = cs.len();
    proof {
        assert(cs@.take(n as int) =~= cs@);
    }
    while n > 0 && white(cs[n - 1])
        invariant
            n <= cs@.len(),
            trim_end(cs@) == trim_end(cs@.take(n as int)),
        decreases n,
    {
        proof {
            assert(cs@.take(n as int).drop_last() =~= cs@.take(n as int - 1));
        }
        n = n - 1;
    }
    proof {
        assert(cs@.take(n as int) =~= cs@.subrange(0, n as int));
    }
    slice_subrange(cs, 0, n)
}

/// `cs` without the white space at either end.
pub fn trimmed(cs: &[char]) -> (r: &[char])
    ensures
        r@ == trim(cs@),
{
    let a = trimmed_start(cs);
    trimmed_end(a)
}

// ---------------------------------------------------------------- searching

/// Where `c` first stands in `s`; the length of `s` where it does not.
pub open spec fn first_index(s: Seq<char>, c: char) -> int
    decreases s.len(),
{
    if s.len() == 0 || s[0] == c {
        0
    } else {
        1 + first_index(s.skip(1), c)
    }
}

/// What the first index means.
pub proof fn lemma_first_index(s: Seq<char>, c: char)
    ensures
        0 <= first_index(s, c) <= s.len(),
        first_index(s, c) < s.len() ==> s[first_index(s, c)] == c,
        forall|i: int| 0 <= i < first_index(s, c) ==> s[i] != c,
        (first_index(s, c) < s.len()) == s.contains(c),
    decreases s.len(),
{
    if s.len() == 0 || s[0] == c {
    } else {
        let t = s.skip(1);
        lemma_first_index(t, c);
        assert forall|i: int| 0 <= i < first_index(s, c) implies s[i] != c by {
            if i > 0 {
                assert(t[i - 1] == s[i]);
            }
        }
        if s.contains(c) {
            let k = choose|k: int| 0 <= k < s.len() && s[k] == c;
            assert(t[k - 1] == c);
        }
    }
}

/// An index with `c` and none before it is the first.
pub proof fn lemma_first_index_at(s: Seq<char>, c: char, i: int)
    requires
        0 <= i <= s.len(),
        i < s.len() ==> s[i] == c,
        forall|j: int| 0 <= j < i ==> s[j] != c,
    ensures
        first_index(s, c) == i,
{
    lemma_first_index(s, c);
    let k = first_index(s, c);
    if k < i {
        assert(s[k] == c);
    }
    if i < k {
        assert(s[i] != c);
    }
}

/// Where `c` first stands in `cs`, or the length of `cs`.
pub fn find(cs: &[char], c: char) -> (r: usize)
    ensures
        r == first_index(cs@, c),
        r <= cs@.len(),
        r < cs@.len() ==> cs@[r as int] == c,
{
    let mut i: usize = 0;
    while i < cs.len() && cs[i] != c
        invariant
            i <= cs@.len(),
            forall|j: int| 0 <= j < i ==> cs@[j] != c,
        decreases cs@.len() - i,
    {
        i = i + 1;
    }
    proof {
        lemma_first_index_at(cs@, c, i as int);
    }
    i
}

/// The two sides of the first `c` in `s`.
pub open spec fn split_once(s: Seq<char>, c: char) -> Option<(Seq<char>, Seq<char>)> {
    let i = first_index(s, c);
    if i < s.len() {
        Some((s.take(i), s.skip(i + 1)))
    } else {
        None
    }
}

/// The two sides of the first `c` in `cs`, where there is one.
pub fn halves(cs: &[char], c: char) -> (r: Option<(&[char], &[char])>)
    ensures
        match r {
            Some(p) => split_once(cs@, c) == Some((p.0@, p.1@)),
            None => split_once(cs@, c) is None,
        },
{
    let i = find(cs, c);
    let n = cs.len();
    if i < n {
        proof {
            assert(cs@.take(i as int) =~= cs@.subrange(0, i as int));
            assert(cs@.skip(i as int + 1) =~= cs@.subrange(i as int + 1, n as int));
        }
        Some((slice_subrange(cs, 0, i), slice_subrange(cs, i + 1, n)))
    } else {
        None
    }
}

/// Whether `s` begins with `p`.
pub open spec fn begins(s: Seq<char>, p: Seq<char>) -> bool {
    p.len() <= s.len() && s.take(p.len() as int) == p
}

/// `s` after the `p` it begins with.
pub open spec fn strip_prefix(s: Seq<char>, p: Seq<char>) -> Option<Seq<char>> {
    if begins(s, p) {
        Some(s.skip(p.len() as int))
    } else {
        None
    }
}

/// What follows `p` in `cs`, where `cs` begins with `p`.
pub fn stripped<'a>(cs: &'a [char], p: &str) -> (r: Option<&'a [char]>)
    ensures
        match r {
            Some(t) => strip_prefix(cs@, p@) == Some(t@),
            None => strip_prefix(cs@, p@) is None,
        },
{
    let w = chars(p);
    let n = w.len();
    if n > cs.len() {
        return None;
    }
    proof {
        assert(cs@.take(n as int) =~= cs@.subrange(0, n as int));
    }
    let head = slice_subrange(cs, 0, n);
    if same(head, w.as_slice()) {
        let m = cs.len();
        proof {
            assert(cs@.skip(n as int) =~= cs@.subrange(n as int, m as int));
        }
        Some(slice_subrange(cs, n, m))
    } else {
        None
    }
}

/// Whether `p` stands somewhere in `s`.
pub open spec fn holds(s: Seq<char>, p: Seq<char>) -> bool {
    exists|i: int| 0 <= i && i + p.len() <= s.len() && #[trigger] s.skip(i).take(p.len() as int) == p
}

/// Whether `word` stands somewhere in `cs`.
pub fn contains(cs: &[char], word: &str) -> (r: bool)
    ensures
        r == holds(cs@, word@),
{
    let w = chars(word);
    let n = cs.len();
    let m = w.len();
    if m > n {
        return false;
    }
    if m == 0 {
        proof {
            assert(cs@.skip(0).take(0) =~= word@);
        }
        return true;
    }
    let mut i: usize = 0;
    while i <= n - m
        invariant
            n == cs@.len(),
            m == w@.len(),
            w@ == word@,
            0 < m <= n,
            i <= n - m + 1,
            forall|j: int| 0 <= j < i ==> #[trigger] cs@.skip(j).take(m as int) != word@,
        decreases n - m + 1 - i,
    {
        let part = slice_subrange(cs, i, i + m);
        proof {
            assert(cs@.skip(i as int).take(m as int) =~= cs@.subrange(i as int, i + m));
        }
        if same(part, w.as_slice()) {
            return true;
        }
        i = i + 1;
    }
    false
}

/// Whether `c` stands in `cs`.
pub fn has(cs: &[char], c: char) -> (r: bool)
    ensures
        r == cs@.contains(c),
{
    proof {
        lemma_first_index(cs@, c);
    }
    find(cs, c) < cs.len()
}

// ---------------------------------------------------------------- splitting

/// The pieces of `s` between its `c`s; one more than there are `c`s.
pub open spec fn split(s: Seq<char>, c: char) -> Seq<Seq<char>>
    decreases s.len(),
{
    let i = first_index(s, c);
    if 0 <= i < s.len() {
        seq![s.take(i)] + split(s.skip(i + 1), c)
    } else {
        seq![s]
    }
}

/// Texts joined by `c`.
pub open spec fn joined(v: Seq<Seq<char>>, c: char) -> Seq<char>
    decreases v.len(),
{
    if v.len() == 0 {
        Seq::empty()
    } else if v.len() == 1 {
        v[0]
    } else {
        joined(v.drop_last(), c).push(c) + v.last()
    }
}

/// Splitting a text that ends in a piece behind a separator.
proof fn lemma_split_last(s: Seq<char>, c: char, t: Seq<char>)
    requires
        !t.contains(c),
    ensures
        split(s.push(c) + t, c) == split(s, c).push(t),
    decreases s.len(),
{
    let whole = s.push(c) + t;
    lemma_first_index(s, c);
    lemma_first_index(whole, c);
    lemma_first_index(t, c);
    let i = first_index(s, c);
    if i < s.len() {
        lemma_first_index_at(whole, c, i);
        assert(whole.take(i) =~= s.take(i));
        assert(whole.skip(i + 1) =~= s.skip(i + 1).push(c) + t);
        lemma_split_last(s.skip(i + 1), c, t);
        assert(split(whole, c) =~= split(s, c).push(t));
    } else {
        lemma_first_index_at(whole, c, s.len() as int);
        assert(whole.take(s.len() as int) =~= s);
        assert(whole.skip(s.len() as int + 1) =~= t);
        if first_index(t, c) < t.len() {
            assert(t.contains(t[first_index(t, c)]));
        }
        assert(split(t, c) =~= seq![t]);
        assert(split(whole, c) =~= seq![s] + seq![t]);
    }
}

/// Splitting texts that were joined gives them back.
pub proof fn lemma_split_joined(v: Seq<Seq<char>>, c: char)
    requires
        v.len() > 0,
        forall|i: int| 0 <= i < v.len() ==> !(#[trigger] v[i]).contains(c),
    ensures
        split(joined(v, c), c) == v,
    decreases v.len(),
{
    if v.len() == 1 {
        let t = v[0];
        lemma_first_index(t, c);
        if first_index(t, c) < t.len() {
            assert(t.contains(t[first_index(t, c)]));
        }
        assert(split(t, c) =~= v);
    } else {
        lemma_split_joined(v.drop_last(), c);
        lemma_split_last(joined(v.drop_last(), c), c, v.last());
        assert(v.drop_last().push(v.last()) =~= v);
    }
}

/// The sequences that the vectors of `v` hold.
pub open spec fn views(v: Seq<Vec<char>>) -> Seq<Seq<char>> {
    Seq::new(v.len(), |i: int| v[i]@)
}

/// The pieces of `cs` between its `c`s.
pub fn pieces(cs: &[char], c: char) -> (r: Vec<Vec<char>>)
    ensures
        views(r@) == split(cs@, c),
        r@.len() > 0,
{
    let n = cs.len();
    let mut out: Vec<Vec<char>> = Vec::new();
    let mut at: usize = 0;
    proof {
        assert(cs@.skip(0) =~= cs@);
        assert(views(out@) + split(cs@, c) =~= split(cs@, c));
    }
    loop
        invariant
            n == cs@.len(),
            at <= n,
            split(cs@, c) == views(out@) + split(cs@.skip(at as int), c),
        decreases n - at,
    {
        let rest = slice_subrange(cs, at, n);
        proof {
            assert(rest@ =~= cs@.skip(at as int));
        }
        let i = find(rest, c);
        let ghost before = out@;
        if i < rest.len() {
            let piece = slice_subrange(rest, 0, i);
            proof {
                assert(piece@ =~= rest@.take(i as int));
                assert(rest@.skip(i as int + 1) =~= cs@.skip(at + i + 1));
            }
            out.push(copied(piece));
            proof {
                assert(views(out@) =~= views(before).push(rest@.take(i as int)));
                assert(views(before) + (seq![rest@.take(i as int)] + split(
                    rest@.skip(i as int + 1),
                    c,
                )) =~= views(out@) + split(rest@.skip(i as int + 1), c));
            }
            at = at + i + 1;
        } else {
            out.push(copied(rest));
            proof {
                assert(views(out@) =~= views(before) + seq![rest@]);
            }
            return out;
        }
    }
}

// ---------------------------------------------------------------- lines

/// One line without its ending: a `\n`, and a `\r` before it.
pub open spec fn line_body(s: Seq<char>) -> Seq<char> {
    if s.len() > 0 && s.last() == '\r' {
        s.drop_last()
    } else {
        s
    }
}

/// The lines of a text. A line ends at `\n` or `\r\n`; the last may go without.
pub open spec fn lines(s: Seq<char>) -> Seq<Seq<char>>
    decreases s.len(),
{
    let i = first_index(s, '\n');
    if s.len() == 0 {
        Seq::empty()
    } else if 0 <= i < s.len() {
        seq![line_body(s.take(i))] + lines(s.skip(i + 1))
    } else {
        seq![s]
    }
}

/// The lines of `cs`.
pub fn lines_of(cs: &[char]) -> (r: Vec<Vec<char>>)
    ensures
        views(r@) == lines(cs@),
{
    let n = cs.len();
    let mut out: Vec<Vec<char>> = Vec::new();
    let mut at: usize = 0;
    proof {
        assert(cs@.skip(0) =~= cs@);
        assert(views(out@) + lines(cs@) =~= lines(cs@));
    }
    while at < n
        invariant
            n == cs@.len(),
            at <= n,
            lines(cs@) == views(out@) + lines(cs@.skip(at as int)),
        decreases n - at,
    {
        let rest = slice_subrange(cs, at, n);
        proof {
            assert(rest@ =~= cs@.skip(at as int));
        }
        let i = find(rest, '\n');
        let ghost before = out@;
        if i < rest.len() {
            let end = if i > 0 && rest[i - 1] == '\r' {
                i - 1
            } else {
                i
            };
            let piece = slice_subrange(rest, 0, end);
            proof {
                assert(piece@ =~= line_body(rest@.take(i as int)));
                assert(rest@.skip(i as int + 1) =~= cs@.skip(at + i + 1));
            }
            out.push(copied(piece));
            proof {
                assert(views(out@) =~= views(before).push(line_body(rest@.take(i as int))));
                assert(views(before) + (seq![line_body(rest@.take(i as int))] + lines(
                    rest@.skip(i as int + 1),
                )) =~= views(out@) + lines(rest@.skip(i as int + 1)));
            }
            at = at + i + 1;
        } else {
            out.push(copied(rest));
            proof {
                assert(views(out@) =~= views(before) + seq![rest@]);
                assert(cs@.skip(n as int) =~= Seq::<char>::empty());
                assert(views(out@) + Seq::<Seq<char>>::empty() =~= views(out@));
            }
            at = n;
        }
    }
    proof {
        assert(cs@.skip(n as int) =~= Seq::<char>::empty());
        assert(views(out@) + Seq::<Seq<char>>::empty() =~= views(out@));
    }
    out
}

// ---------------------------------------------------------------- integers

/// The number that digits spell in base `radix`, the last one weighing least.
pub open spec fn digits_value(s: Seq<char>, radix: int) -> int
    decreases s.len(),
{
    if s.len() == 0 {
        0
    } else {
        digits_value(s.drop_last(), radix) * radix + digit(s.last())
    }
}

/// Whether `s` is one digit of base `radix` or more, and nothing else.
pub open spec fn is_digits(s: Seq<char>, radix: int) -> bool {
    s.len() > 0 && forall|i: int| 0 <= i < s.len() ==> #[trigger] digit(s[i]) < radix
}

/// The natural number that `s` spells in base `radix`: digits, behind at most
/// one `+`.
pub open spec fn natural(s: Seq<char>, radix: int) -> Option<int> {
    let d = if s.len() > 0 && s[0] == '+' {
        s.skip(1)
    } else {
        s
    };
    if is_digits(d, radix) {
        Some(digits_value(d, radix))
    } else {
        None
    }
}

/// The natural number that `s` spells, where it is no larger than `max`.
pub open spec fn natural_to(s: Seq<char>, radix: int, max: int) -> Option<int> {
    match natural(s, radix) {
        Some(n) => if n <= max {
            Some(n)
        } else {
            None
        },
        None => None,
    }
}

/// The whole number that `s` spells in base ten, where it lies in `min..=max`:
/// digits, behind at most one `+` or `-`.
pub open spec fn integer_in(s: Seq<char>, min: int, max: int) -> Option<int> {
    if s.len() > 0 && s[0] == '-' {
        if is_digits(s.skip(1), 10) && min <= -digits_value(s.skip(1), 10) {
            Some(-digits_value(s.skip(1), 10))
        } else {
            None
        }
    } else {
        natural_to(s, 10, max)
    }
}

/// A digit is never below zero.
proof fn lemma_digit_nonneg(c: char)
    ensures
        digit(c) >= 0,
{
}

proof fn lemma_digits_nonneg(s: Seq<char>, radix: int)
    requires
        radix >= 1,
    ensures
        digits_value(s, radix) >= 0,
    decreases s.len(),
{
    if s.len() > 0 {
        lemma_digits_nonneg(s.drop_last(), radix);
        lemma_digit_nonneg(s.last());
        let a = digits_value(s.drop_last(), radix);
        assert(a * radix >= 0) by (nonlinear_arith)
            requires
                a >= 0,
                radix >= 1,
        ;
    }
}

/// A natural number is never below zero.
pub proof fn lemma_natural_nonneg(s: Seq<char>, radix: int)
    requires
        radix >= 1,
    ensures
        natural(s, radix) matches Some(n) ==> n >= 0,
{
    lemma_digits_nonneg(s, radix);
    lemma_digits_nonneg(s.skip(1), radix);
}

/// One digit more never takes the number down.
proof fn lemma_digits_grow(s: Seq<char>, radix: int)
    requires
        s.len() > 0,
        radix >= 1,
    ensures
        0 <= digits_value(s.drop_last(), radix) <= digits_value(s, radix),
{
    let a = digits_value(s.drop_last(), radix);
    lemma_digits_nonneg(s.drop_last(), radix);
    lemma_digit_nonneg(s.last());
    assert(a * radix >= a) by (nonlinear_arith)
        requires
            a >= 0,
            radix >= 1,
    ;
}

/// The number that the digits `cs` spell, where they are digits and it is at
/// most `max`.
pub fn read_digits(cs: &[char], radix: u32, max: u128) -> (r: Option<u128>)
    requires
        2 <= radix <= 36,
    ensures
        match r {
            Some(n) => is_digits(cs@, radix as int) && n == digits_value(cs@, radix as int) && n <= max,
            None => !is_digits(cs@, radix as int) || digits_value(cs@, radix as int) > max,
        },
{
    if cs.len() == 0 {
        return None;
    }
    let mut i: usize = 0;
    let mut n: u128 = 0;
    let mut over = false;
    while i < cs.len()
        invariant
            2 <= radix <= 36,
            i <= cs@.len(),
            forall|j: int| 0 <= j < i ==> #[trigger] digit(cs@[j]) < radix,
            over ==> digits_value(cs@.take(i as int), radix as int) > max,
            !over ==> n == digits_value(cs@.take(i as int), radix as int) && n <= max,
        decreases cs@.len() - i,
    {
        let d = digit_of(cs[i]);
        if d >= radix {
            proof {
                assert(digit(cs@[i as int]) >= radix);
            }
            return None;
        }
        proof {
            assert(cs@.take(i as int + 1).drop_last() =~= cs@.take(i as int));
            lemma_digits_grow(cs@.take(i as int + 1), radix as int);
        }
        if !over {
            match n.checked_mul(radix as u128) {
                None => {
                    over = true;
                },
                Some(m) => {
                    match m.checked_add(d as u128) {
                        None => {
                            over = true;
                        },
                        Some(k) => {
                            if k > max {
                                over = true;
                            } else {
                                n = k;
                            }
                        },
                    }
                },
            }
        }
        i = i + 1;
    }
    proof {
        assert(cs@.take(cs@.len() as int) =~= cs@);
    }
    if over {
        None
    } else {
        Some(n)
    }
}

/// The natural number that `cs` spells in base `radix`, where it is at most
/// `max`.
pub fn read_natural(cs: &[char], radix: u32, max: u128) -> (r: Option<u128>)
    requires
        2 <= radix <= 36,
    ensures
        match r {
            Some(n) => natural_to(cs@, radix as int, max as int) == Some(n as int) && n <= max,
            None => natural_to(cs@, radix as int, max as int) is None,
        },
{
    if cs.len() > 0 && cs[0] == '+' {
        let n = cs.len();
        let rest = slice_subrange(cs, 1, n);
        proof {
            assert(rest@ =~= cs@.skip(1));
        }
        read_digits(rest, radix, max)
    } else {
        read_digits(cs, radix, max)
    }
}

/// The whole number that `cs` spells, where it lies in `min..=max`.
pub fn read_integer(cs: &[char], min: i64, max: i64) -> (r: Option<i64>)
    requires
        min <= 0 <= max,
    ensures
        match r {
            Some(n) => integer_in(cs@, min as int, max as int) == Some(n as int) && min <= n <= max,
            None => integer_in(cs@, min as int, max as int) is None,
        },
{
    if cs.len() > 0 && cs[0] == '-' {
        let n = cs.len();
        let rest = slice_subrange(cs, 1, n);
        proof {
            assert(rest@ =~= cs@.skip(1));
        }
        let low: u128 = (-(min as i128)) as u128;
        match read_digits(rest, 10, low) {
            Some(k) => Some((-(k as i128)) as i64),
            None => None,
        }
    } else {
        match read_natural(cs, 10, max as u128) {
            Some(k) => Some(k as i64),
            None => None,
        }
    }
}

/// The character of one decimal digit.
pub open spec fn digit_char(d: int) -> char {
    (48 + d) as u32 as char
}

/// A natural number in decimal digits.
pub open spec fn decimal(n: nat) -> Seq<char>
    decreases n,
{
    if n < 10 {
        seq![digit_char(n as int)]
    } else {
        decimal(n / 10).push(digit_char((n % 10) as int))
    }
}

/// Append a number in decimal digits.
pub fn push_decimal(out: &mut String, n: u64)
    ensures
        final(out)@ == old(out)@ + decimal(n as nat),
    decreases n,
{
    let ghost before = out@;
    if n >= 10 {
        push_decimal(out, n / 10);
    }
    let d: u8 = (n % 10) as u8;
    out.push((48u8 + d) as char);
    proof {
        assert(out@ =~= before + decimal(n as nat));
    }
}

/// A number in decimal digits.
pub fn to_decimal(n: u64) -> (r: String)
    ensures
        r@ == decimal(n as nat),
{
    let mut out = String::new();
    push_decimal(&mut out, n);
    proof {
        assert(out@ =~= decimal(n as nat));
    }
    out
}

// ---------------------------------------------------------------- encoding

/// `String::from_utf8` gives back the string that valid UTF-8 spells, and fails
/// on any other bytes.
#[verifier::external_body]
pub(crate) fn from_utf8(bytes: Vec<u8>) -> (r: Option<String>)
    ensures
        r is Some <==> vstd::utf8::valid_utf8(bytes@),
        r matches Some(s) ==> s@ == vstd::utf8::decode_utf8(bytes@),
{
    String::from_utf8(bytes).ok()
}

/// `char::from_u32` gives the character of a Unicode scalar value, and nothing
/// for any other number.
#[verifier::external_body]
pub(crate) fn char_of(n: u32) -> (r: Option<char>)
    ensures
        r is Some <==> vstd::utf8::is_scalar(n),
        r matches Some(c) ==> c as u32 == n,
{
    char::from_u32(n)
}

/// The UTF-8 bytes of one character.
pub fn utf8_of(c: char) -> (r: Vec<u8>)
    ensures
        r@ == vstd::utf8::encode_utf8(seq![c]),
{
    let mut s = String::new();
    s.push(c);
    proof {
        assert(s@ =~= seq![c]);
    }
    s.as_str().as_bytes_vec()
}

/// The string with `b` behind `a`.
pub fn concat(a: &str, b: &str) -> (r: String)
    ensures
        r@ == a@ + b@,
{
    let mut s = a.to_owned();
    s.append(b);
    s
}

/// The string with `b` between `a` and `c`.
pub fn concat3(a: &str, b: &str, c: &str) -> (r: String)
    ensures
        r@ == a@ + b@ + c@,
{
    let mut s = a.to_owned();
    s.append(b);
    s.append(c);
    s
}

// ---------------------------------------------------------------- laws

/// Making a text small changes nothing but ASCII capitals, each of which becomes
/// the letter 32 places on; so texts that differ in the case of ASCII letters
/// alone become the same.
pub proof fn law_small_letters(s: Seq<char>)
    ensures
        lower(s).len() == s.len(),
        forall|i: int|
            0 <= i < s.len() && 65 <= s[i] as int <= 90 ==> (#[trigger] lower(s)[i]) as int
                == s[i] as int + 32,
        forall|i: int|
            0 <= i < s.len() && !(65 <= s[i] as int <= 90) ==> #[trigger] lower(s)[i] == s[i],
{
}

/// Spaces, tabs and line endings are white space; no other ASCII character that
/// can be seen is.
pub proof fn law_ascii_white_space(c: char)
    ensures
        c == ' ' || c == '\t' || c == '\n' || c == '\r' ==> is_white(c),
        33 <= c as int <= 126 ==> !is_white(c),
{
}

/// Whether a text is white space throughout.
pub open spec fn all_white(s: Seq<char>) -> bool {
    forall|i: int| 0 <= i < s.len() ==> is_white(#[trigger] s[i])
}

/// Whether a text neither begins nor ends in white space.
pub open spec fn tight(s: Seq<char>) -> bool {
    s.len() > 0 ==> !is_white(s[0]) && !is_white(s.last())
}

pub(crate) proof fn lemma_trim_start_drops(a: Seq<char>, s: Seq<char>)
    requires
        all_white(a),
    ensures
        trim_start(a + s) == trim_start(s),
    decreases a.len(),
{
    if a.len() == 0 {
        assert(a + s =~= s);
    } else {
        assert(is_white(a[0]));
        assert(all_white(a.skip(1))) by {
            assert forall|i: int| 0 <= i < a.skip(1).len() implies is_white(
                #[trigger] a.skip(1)[i],
            ) by {
                assert(is_white(a[i + 1]));
            }
        }
        lemma_trim_start_drops(a.skip(1), s);
        assert((a + s).skip(1) =~= a.skip(1) + s);
    }
}

proof fn lemma_trim_end_drops(s: Seq<char>, b: Seq<char>)
    requires
        all_white(b),
    ensures
        trim_end(s + b) == trim_end(s),
    decreases b.len(),
{
    if b.len() == 0 {
        assert(s + b =~= s);
    } else {
        assert(is_white(b[b.len() - 1]));
        assert(all_white(b.drop_last())) by {
            assert forall|i: int| 0 <= i < b.drop_last().len() implies is_white(
                #[trigger] b.drop_last()[i],
            ) by {
                assert(is_white(b[i]));
            }
        }
        lemma_trim_end_drops(s, b.drop_last());
        assert((s + b).drop_last() =~= s + b.drop_last());
    }
}

/// Trimming takes away the white space round a text, all of it and nothing else.
pub proof fn law_trim_takes_the_white_space_round(a: Seq<char>, s: Seq<char>, b: Seq<char>)
    requires
        all_white(a),
        all_white(b),
        tight(s),
    ensures
        trim(a + s + b) == s,
{
    let t = s + b;
    assert(a + s + b =~= a + t);
    lemma_trim_start_drops(a, t);
    if s.len() == 0 {
        assert(t =~= b);
        assert(b =~= b + Seq::<char>::empty());
        lemma_trim_start_drops(b, Seq::empty());
        assert(trim(a + s + b) =~= s);
    } else {
        assert(t[0] == s[0]);
        assert(trim_start(t) == t);
        lemma_trim_end_drops(s, b);
    }
}

/// A text with `c` in it parts at the first one.
pub proof fn law_parts_at_the_first(a: Seq<char>, c: char, b: Seq<char>)
    requires
        !a.contains(c),
    ensures
        split_once(a.push(c) + b, c) == Some((a, b)),
        split_once(a, c) is None,
{
    let w = a.push(c) + b;
    assert forall|j: int| 0 <= j < a.len() implies w[j] != c by {
        if w[j] == c {
            assert(a[j] == c);
        }
    }
    lemma_first_index_at(w, c, a.len() as int);
    assert(w.take(a.len() as int) =~= a);
    assert(w.skip(a.len() as int + 1) =~= b);
    lemma_first_index(a, c);
}

/// Texts with a line ending behind each: `\n`, or `\r\n`.
pub open spec fn ended(ls: Seq<Seq<char>>, crlf: bool) -> Seq<char>
    decreases ls.len(),
{
    if ls.len() == 0 {
        Seq::empty()
    } else {
        (if crlf {
            ls[0].push('\r')
        } else {
            ls[0]
        }).push('\n') + ended(ls.skip(1), crlf)
    }
}

/// The lines of a text are those it was put together from, whichever way they
/// end; the last one may go without an ending.
pub proof fn law_lines_read_back(ls: Seq<Seq<char>>, crlf: bool, last: Seq<char>)
    requires
        forall|i: int|
            0 <= i < ls.len() ==> !(#[trigger] ls[i]).contains('\n') && (crlf || ls[i].len() == 0
                || ls[i].last() != '\r'),
        !last.contains('\n'),
    ensures
        lines(ended(ls, crlf) + last) == (if last.len() == 0 {
            ls
        } else {
            ls.push(last)
        }),
    decreases ls.len(),
{
    if ls.len() == 0 {
        assert(ended(ls, crlf) + last =~= last);
        lemma_first_index(last, '\n');
        if last.len() > 0 {
            assert(lines(last) =~= ls.push(last));
        } else {
            assert(lines(last) =~= ls);
        }
    } else {
        let l = ls[0];
        let body = if crlf {
            l.push('\r')
        } else {
            l
        };
        let rest = ended(ls.skip(1), crlf) + last;
        let whole = ended(ls, crlf) + last;
        assert(whole =~= body.push('\n') + rest);
        assert forall|i: int| 0 <= i < ls.skip(1).len() implies !(
        #[trigger] ls.skip(1)[i]).contains('\n') && (crlf || ls.skip(1)[i].len() == 0
            || ls.skip(1)[i].last() != '\r') by {
            assert(ls.skip(1)[i] == ls[i + 1]);
        }
        law_lines_read_back(ls.skip(1), crlf, last);
        assert(!l.contains('\n'));
        assert(!body.contains('\n')) by {
            if body.contains('\n') {
                let k = body.index_of('\n');
                assert(l[k] == '\n');
            }
        }
        law_parts_at_the_first(body, '\n', rest);
        lemma_first_index(whole, '\n');
        assert(line_body(body) =~= l);
        assert(lines(whole) =~= seq![l] + lines(rest));
        if last.len() == 0 {
            assert(seq![l] + ls.skip(1) =~= ls);
        } else {
            assert(seq![l] + ls.skip(1).push(last) =~= ls.push(last));
        }
    }
}

/// The digits are worth zero to nine, the letters ten and up in either case, and
/// no other character is a digit.
pub proof fn law_digit_values(c: char)
    ensures
        48 <= c as int <= 57 ==> digit(c) == c as int - 48,
        97 <= c as int <= 122 ==> digit(c) == c as int - 87,
        65 <= c as int <= 90 ==> digit(c) == c as int - 55,
        !(48 <= c as int <= 57) && !(97 <= c as int <= 122) && !(65 <= c as int <= 90) ==> digit(c)
            >= 36,
{
}

/// A number written in decimal digits reads back, behind a plus sign too.
pub proof fn law_decimal_reads_back(n: nat)
    ensures
        natural(decimal(n), 10) == Some(n as int),
        natural(seq!['+'] + decimal(n), 10) == Some(n as int),
        integer_in(seq!['-'] + decimal(n), -(n as int), n as int) == Some(-(n as int)),
{
    lemma_decimal(n);
    let d = decimal(n);
    assert((seq!['+'] + d).skip(1) =~= d);
    assert((seq!['-'] + d).skip(1) =~= d);
}

pub(crate) proof fn lemma_decimal(n: nat)
    ensures
        is_digits(decimal(n), 10),
        digits_value(decimal(n), 10) == n,
        forall|i: int| 0 <= i < decimal(n).len() ==> '0' <= #[trigger] decimal(n)[i] <= '9',
    decreases n,
{
    let d = decimal(n);
    let c = digit_char((n % 10) as int);
    assert(vstd::utf8::is_scalar((48 + (n % 10) as int) as u32));
    assert(digit(c) == n % 10);
    if n < 10 {
        assert(d =~= seq![c]);
        assert(d.drop_last() =~= Seq::empty());
        assert(digits_value(d.drop_last(), 10) == 0);
    } else {
        lemma_decimal(n / 10);
        let h = decimal(n / 10);
        assert(d.drop_last() =~= h);
        assert(n == 10 * (n / 10) + n % 10);
        assert forall|i: int| 0 <= i < d.len() implies #[trigger] digit(d[i]) < 10 && '0' <= d[i]
            <= '9' by {
            if i < h.len() {
                assert(d[i] == h[i]);
                assert(digit(h[i]) < 10);
            }
        }
    }
}

/// White space is what Unicode calls so, and nothing else.
pub proof fn law_white_space(c: char)
    ensures
        is_white(c) <==> {
            let n = c as int;
            ||| 9 <= n <= 13
            ||| n == 32
            ||| n == 133
            ||| n == 160
            ||| n == 5760
            ||| 8192 <= n <= 8202
            ||| n == 8232
            ||| n == 8233
            ||| n == 8239
            ||| n == 8287
            ||| n == 12288
        },
{
}

/// A text begins with what it was put together from first, and what is left is the
/// rest of it; nothing begins with more than it has.
pub proof fn law_beginnings(p: Seq<char>, s: Seq<char>)
    ensures
        begins(p + s, p),
        strip_prefix(p + s, p) == Some(s),
        begins(s, p) ==> s == p + s.skip(p.len() as int),
        !begins(s, p) ==> strip_prefix(s, p) is None,
{
    assert((p + s).take(p.len() as int) =~= p);
    assert((p + s).skip(p.len() as int) =~= s);
    if begins(s, p) {
        assert(s =~= s.take(p.len() as int) + s.skip(p.len() as int));
    }
}

/// A text holds whatever it was put together from, wherever that stands, and
/// nothing that is longer than itself.
pub proof fn law_holding(a: Seq<char>, p: Seq<char>, b: Seq<char>)
    ensures
        holds(a + p + b, p),
        p.len() > a.len() ==> !holds(a, p),
{
    let s = a + p + b;
    assert(s.skip(a.len() as int).take(p.len() as int) =~= p);
}

/// Texts that differ in the case of ASCII letters alone are the same, ignoring
/// case, whichever comes first; and no others are.
pub proof fn law_ignoring_case(a: Seq<char>, b: Seq<char>)
    ensures
        same_ignoring_case(a, lower(a)),
        same_ignoring_case(a, b) == same_ignoring_case(b, a),
        same_ignoring_case(a, b) <==> a.len() == b.len() && forall|i: int|
            0 <= i < a.len() ==> lower(a)[i] == #[trigger] lower(b)[i],
{
    assert(lower(lower(a)) =~= lower(a));
    if a.len() == b.len() && forall|i: int|
        0 <= i < a.len() ==> lower(a)[i] == #[trigger] lower(b)[i] {
        assert(lower(a) =~= lower(b));
    }
}

} // verus!
