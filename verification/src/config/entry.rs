//! Custom rows of the command palette.

use crate::config::grammar::{decode_escapes, literal};
use crate::config::lines::opt_view;
use crate::text::{
    chars, find, first_index, halves, spells, is_white, lemma_first_index, split_once, string, trim,
    trim_start, trimmed, trimmed_start,
};
use vstd::prelude::*;
use vstd::slice::slice_subrange;

verus! {

/// One row of the command palette.
#[derive(Clone, Debug, PartialEq, Eq)]
pub struct PaletteEntry {
    pub title: String,
    pub description: Option<String>,
    /// The action, in keybind-action syntax.
    pub action: String,
}

/// A `PaletteEntry` as sequences.
pub ghost struct PaletteEntryView {
    pub title: Seq<char>,
    pub description: Option<Seq<char>>,
    pub action: Seq<char>,
}

impl View for PaletteEntry {
    type V = PaletteEntryView;

    open spec fn view(&self) -> PaletteEntryView {
        PaletteEntryView {
            title: self.title@,
            description: opt_view(self.description),
            action: self.action@,
        }
    }
}

/// Where the quote stands that closes a literal, escapes skipped.
pub open spec fn quote_end(s: Seq<char>) -> Option<int>
    decreases s.len(),
{
    if s.len() == 0 {
        None
    } else if s[0] == '"' {
        Some(0)
    } else if s[0] == '\\' {
        if s.len() < 2 {
            None
        } else {
            match quote_end(s.skip(2)) {
                Some(n) => Some(n + 2),
                None => None,
            }
        }
    } else {
        match quote_end(s.skip(1)) {
            Some(n) => Some(n + 1),
            None => None,
        }
    }
}

/// The first `name:value` of a list: its name, its value, and what follows. A
/// value is a quoted literal, or runs to the next comma.
pub open spec fn field(rest: Seq<char>) -> Option<(Seq<char>, Seq<char>, Seq<char>)> {
    match split_once(rest, ':') {
        None => None,
        Some(p) => {
            let after = trim_start(p.1);
            if after.len() > 0 && after[0] == '"' {
                let q = after.skip(1);
                match quote_end(q) {
                    None => None,
                    Some(e) => match literal(q.take(e)) {
                        None => None,
                        Some(v) => Some((trim(p.0), v, trim_start(q.skip(e + 1)))),
                    },
                }
            } else {
                let i = first_index(after, ',');
                Some((trim(p.0), trim(after.take(i)), after.skip(i)))
            }
        },
    }
}

/// What is left to read behind a field: the list goes on behind a comma, or is
/// over.
pub open spec fn behind(tail: Seq<char>) -> Option<Seq<char>> {
    if tail.len() == 0 {
        Some(tail)
    } else if tail[0] == ',' {
        Some(trim_start(tail.skip(1)))
    } else {
        None
    }
}

/// The fields of a list, each the last of its name. An unknown name spoils it.
pub open spec fn fields(
    rest: Seq<char>,
    title: Option<Seq<char>>,
    description: Option<Seq<char>>,
    action: Option<Seq<char>>,
) -> Option<(Option<Seq<char>>, Option<Seq<char>>, Option<Seq<char>>)>
    decreases rest.len(),
    via fields_shrink
{
    if rest.len() == 0 {
        Some((title, description, action))
    } else {
        match field(rest) {
            None => None,
            Some(f) => match behind(f.2) {
                None => None,
                Some(next) => if f.0 == "title"@ {
                    fields(next, Some(f.1), description, action)
                } else if f.0 == "description"@ {
                    fields(next, title, Some(f.1), action)
                } else if f.0 == "action"@ {
                    fields(next, title, description, Some(f.1))
                } else {
                    None
                },
            },
        }
    }
}

#[via_fn]
proof fn fields_shrink(
    rest: Seq<char>,
    title: Option<Seq<char>>,
    description: Option<Seq<char>>,
    action: Option<Seq<char>>,
) {
    if rest.len() > 0 && field(rest) is Some {
        lemma_field_shrinks(rest);
        lemma_trim_start_len((field(rest)->0).2.skip(1));
    }
}

proof fn lemma_trim_start_len(s: Seq<char>)
    ensures
        trim_start(s).len() <= s.len(),
    decreases s.len(),
{
    if s.len() > 0 && is_white(s[0]) {
        lemma_trim_start_len(s.skip(1));
    }
}

proof fn lemma_quote_end(s: Seq<char>)
    ensures
        quote_end(s) matches Some(n) ==> 0 <= n < s.len(),
    decreases s.len(),
{
    if s.len() > 0 && s[0] != '"' {
        if s[0] == '\\' {
            if s.len() >= 2 {
                lemma_quote_end(s.skip(2));
            }
        } else {
            lemma_quote_end(s.skip(1));
        }
    }
}

proof fn lemma_field_shrinks(rest: Seq<char>)
    requires
        field(rest) is Some,
    ensures
        (field(rest)->0).2.len() < rest.len(),
{
    lemma_first_index(rest, ':');
    let p = split_once(rest, ':')->0;
    lemma_trim_start_len(p.1);
    let after = trim_start(p.1);
    if after.len() > 0 && after[0] == '"' {
        let q = after.skip(1);
        lemma_quote_end(q);
        let e = quote_end(q)->0;
        lemma_trim_start_len(q.skip(e + 1));
    } else {
        lemma_first_index(after, ',');
    }
}

/// `o`, unless it is empty.
pub open spec fn filled(o: Option<Seq<char>>) -> Option<Seq<char>> {
    match o {
        Some(t) => if t.len() > 0 {
            o
        } else {
            None
        },
        None => None,
    }
}

/// The row that `title:…,description:…,action:…` spells. A title and an action
/// are needed.
pub open spec fn palette_row(v: Seq<char>) -> Option<PaletteEntryView> {
    match fields(trim(v), None, None, None) {
        None => None,
        Some(f) => match (filled(f.0), filled(f.2)) {
            (Some(title), Some(action)) => Some(
                PaletteEntryView { title, description: filled(f.1), action },
            ),
            _ => None,
        },
    }
}

fn closing_quote(q: &[char]) -> (r: Option<usize>)
    ensures
        match r {
            Some(n) => quote_end(q@) == Some(n as int) && n < q@.len(),
            None => quote_end(q@) is None,
        },
{
    let n = q.len();
    let mut i: usize = 0;
    proof {
        assert(q@.skip(0) =~= q@);
    }
    while i < n
        invariant
            n == q@.len(),
            i <= n,
            quote_end(q@) == (match quote_end(q@.skip(i as int)) {
                Some(k) => Some(k + i),
                None => None,
            }),
        decreases n - i,
    {
        let ghost rest = q@.skip(i as int);
        if q[i] == '\\' {
            if n - i < 2 {
                return None;
            }
            proof {
                assert(rest.skip(2) =~= q@.skip(i + 2));
            }
            i = i + 2;
        } else if q[i] == '"' {
            return Some(i);
        } else {
            proof {
                assert(rest.skip(1) =~= q@.skip(i + 1));
            }
            i = i + 1;
        }
    }
    None
}

fn read_field(rest: &[char]) -> (r: Option<(&[char], String, &[char])>)
    ensures
        match r {
            Some(f) => field(rest@) == Some((f.0@, f.1@, f.2@)),
            None => field(rest@) is None,
        },
{
    match halves(rest, ':') {
        None => None,
        Some((k, a)) => {
            let key = trimmed(k);
            let after = trimmed_start(a);
            let n = after.len();
            if n > 0 && after[0] == '"' {
                let q = slice_subrange(after, 1, n);
                proof {
                    assert(q@ =~= after@.skip(1));
                }
                match closing_quote(q) {
                    None => None,
                    Some(e) => {
                        let body = slice_subrange(q, 0, e);
                        let m = q.len();
                        let tail = slice_subrange(q, e + 1, m);
                        proof {
                            assert(body@ =~= q@.take(e as int));
                            assert(tail@ =~= q@.skip(e + 1));
                        }
                        match decode_escapes(body) {
                            None => None,
                            Some(v) => Some((key, v, trimmed_start(tail))),
                        }
                    },
                }
            } else {
                let i = find(after, ',');
                let body = slice_subrange(after, 0, i);
                let tail = slice_subrange(after, i, n);
                proof {
                    assert(body@ =~= after@.take(i as int));
                    assert(tail@ =~= after@.skip(i as int));
                }
                Some((key, string(trimmed(body)), tail))
            }
        },
    }
}

fn nonempty(s: Option<String>) -> (r: Option<String>)
    ensures
        opt_view(r) == filled(opt_view(s)),
{
    match s {
        Some(t) => if t.as_str().is_empty() {
            None
        } else {
            Some(t)
        },
        None => None,
    }
}

/// Parse `title:…,description:…,action:…`. A value may be a double-quoted
/// literal. `title` and `action` are required; an unknown field rejects the
/// line.
pub fn parse_command_palette_entry(v: &str) -> (r: Option<PaletteEntry>)
    ensures
        match r {
            Some(e) => palette_row(v@) == Some(e@),
            None => palette_row(v@) is None,
        },
{
    let cs = chars(v);
    let mut rest = trimmed(cs.as_slice());
    let mut title: Option<String> = None;
    let mut description: Option<String> = None;
    let mut action: Option<String> = None;
    let ghost all = fields(trim(v@), None, None, None);
    while rest.len() > 0
        invariant
            all == fields(trim(v@), None, None, None),
            all == fields(rest@, opt_view(title), opt_view(description), opt_view(action)),
        decreases rest@.len(),
    {
        match read_field(rest) {
            None => {
                return None;
            },
            Some((key, value, tail)) => {
                proof {
                    lemma_field_shrinks(rest@);
                }
                let n = tail.len();
                let next = if n == 0 {
                    tail
                } else if tail[0] == ',' {
                    let t = slice_subrange(tail, 1, n);
                    proof {
                        assert(t@ =~= tail@.skip(1));
                        lemma_trim_start_len(t@);
                    }
                    trimmed_start(t)
                } else {
                    return None;
                };
                if spells(key, "title") {
                    title = Some(value);
                } else if spells(key, "description") {
                    description = Some(value);
                } else if spells(key, "action") {
                    action = Some(value);
                } else {
                    return None;
                }
                rest = next;
            },
        }
    }
    match (nonempty(title), nonempty(action)) {
        (Some(title), Some(action)) => Some(
            PaletteEntry { title, description: nonempty(description), action },
        ),
        _ => None,
    }
}

/// Whether a text can stand as a value without quotes.
pub open spec fn bare(v: Seq<char>) -> bool {
    &&& crate::text::tight(v)
    &&& !v.contains(',')
    &&& v.len() > 0 ==> v[0] != '"'
}

/// A name, a colon and a value.
pub open spec fn pair(name: Seq<char>, v: Seq<char>) -> Seq<char> {
    name.push(':') + v
}

/// A value in quotes.
pub open spec fn in_quotes(v: Seq<char>) -> Seq<char> {
    seq!['"'] + v + seq!['"']
}

proof fn lemma_trim_tight(v: Seq<char>)
    requires
        crate::text::tight(v),
    ensures
        trim(v) == v,
        trim_start(v) == v,
{
}

proof fn lemma_bare_field(name: Seq<char>, v: Seq<char>, tail: Seq<char>)
    requires
        !name.contains(':'),
        crate::text::tight(name),
        bare(v),
        tail.len() == 0 || tail[0] == ',',
        v.len() == 0 ==> tail.len() == 0 || !is_white(tail[0]),
    ensures
        field(pair(name, v) + tail) == Some((name, v, tail)),
{
    let s = pair(name, v) + tail;
    let after = v + tail;
    assert(s =~= name.push(':') + after);
    crate::text::law_parts_at_the_first(name, ':', after);
    lemma_trim_tight(name);
    lemma_trim_tight(v);
    if v.len() > 0 {
        assert(after[0] == v[0]);
    } else {
        assert(after =~= tail);
    }
    assert(trim_start(after) == after);
    assert forall|j: int| 0 <= j < v.len() implies after[j] != ',' by {
        if after[j] == ',' {
            assert(v[j] == ',');
        }
    }
    crate::text::lemma_first_index_at(after, ',', v.len() as int);
    assert(after.take(v.len() as int) =~= v);
    assert(after.skip(v.len() as int) =~= tail);
}

proof fn lemma_quote_closes(q: Seq<char>, tail: Seq<char>)
    requires
        !q.contains('"'),
        !q.contains('\\'),
    ensures
        quote_end(q + seq!['"'] + tail) == Some(q.len() as int),
    decreases q.len(),
{
    let s = q + seq!['"'] + tail;
    if q.len() > 0 {
        let r = q.skip(1);
        assert(q.contains(q[0]));
        assert(s[0] == q[0]);
        assert(s.skip(1) =~= r + seq!['"'] + tail);
        assert forall|c: char| r.contains(c) implies q.contains(c) by {
            let k = choose|k: int| 0 <= k < r.len() && r[k] == c;
            assert(q[k + 1] == c);
        }
        lemma_quote_closes(r, tail);
    } else {
        assert(s[0] == '"');
    }
}

proof fn lemma_quoted_field(name: Seq<char>, v: Seq<char>, tail: Seq<char>)
    requires
        !name.contains(':'),
        crate::text::tight(name),
        !v.contains('"'),
        !v.contains('\\'),
        literal(v) == Some(v),
        tail.len() == 0 || tail[0] == ',',
    ensures
        field(pair(name, in_quotes(v)) + tail) == Some((name, v, tail)),
{
    let s = pair(name, in_quotes(v)) + tail;
    let after = in_quotes(v) + tail;
    assert(s =~= name.push(':') + after);
    crate::text::law_parts_at_the_first(name, ':', after);
    lemma_trim_tight(name);
    crate::text::law_ascii_white_space('"');
    crate::text::law_ascii_white_space(',');
    assert(after[0] == '"');
    assert(trim_start(after) == after);
    let q = after.skip(1);
    assert(q =~= v + seq!['"'] + tail);
    lemma_quote_closes(v, tail);
    assert(q.take(v.len() as int) =~= v);
    assert(q.skip(v.len() as int + 1) =~= tail);
    assert(trim_start(tail) == tail);
}

proof fn lemma_plain_literal(v: Seq<char>)
    requires
        !v.contains('\\'),
    ensures
        literal(v) == Some(v),
    decreases v.len(),
{
    if v.len() > 0 {
        let r = v.skip(1);
        assert(v.contains(v[0]));
        assert forall|c: char| r.contains(c) implies v.contains(c) by {
            let k = choose|k: int| 0 <= k < r.len() && r[k] == c;
            assert(v[k + 1] == c);
        }
        lemma_plain_literal(r);
        assert(seq![v[0]] + r =~= v);
    }
}

/// The fields of two lists, one behind the other.
pub open spec fn listed(a: Seq<char>, b: Seq<char>) -> Seq<char> {
    a.push(',') + b
}

proof fn lemma_row(
    s: Seq<char>,
    name: Seq<char>,
    v: Seq<char>,
    next: Seq<char>,
    title: Option<Seq<char>>,
    description: Option<Seq<char>>,
    action: Option<Seq<char>>,
)
    requires
        s.len() > 0,
        field(s) == Some((name, v, seq![','] + next)) || (field(s) == Some((name, v, next))
            && next.len() == 0),
        next.len() > 0 ==> !is_white(next[0]),
        name == "title"@ || name == "description"@ || name == "action"@,
    ensures
        fields(s, title, description, action) == fields(
            next,
            if name == "title"@ {
                Some(v)
            } else {
                title
            },
            if name == "description"@ {
                Some(v)
            } else {
                description
            },
            if name == "action"@ {
                Some(v)
            } else {
                action
            },
        ),
{
    reveal_strlit("title");
    reveal_strlit("description");
    reveal_strlit("action");
    assert("title"@[0] == 't' && "description"@[0] == 'd' && "action"@[0] == 'a');
    let f = field(s)->0;
    let tail = f.2;
    if tail.len() > 0 {
        assert(tail.skip(1) =~= next);
        assert(trim_start(next) == next);
    } else {
        assert(tail =~= next);
    }
    assert(behind(tail) == Some(next));
}

/// A row has the title, the description and the action that its fields name, in
/// whatever order they stand; an empty description is none. A value may stand in
/// quotes, and may then hold commas.
#[verifier::spinoff_prover]
#[verifier::rlimit(40)]
pub proof fn law_row_has_what_its_fields_name(t: Seq<char>, d: Seq<char>, a: Seq<char>)
    requires
        t.len() > 0,
        a.len() > 0,
        bare(t),
        bare(d),
        !a.contains('"'),
        !a.contains('\\'),
    ensures
        ({
            let title = pair("title"@, t);
            let description = pair("description"@, d);
            let action = pair("action"@, in_quotes(a));
            let row = Some(PaletteEntryView { title: t, description: filled(Some(d)), action: a });
            &&& palette_row(listed(title, listed(description, action))) == row
            &&& palette_row(listed(action, listed(description, title))) == row
            &&& palette_row(listed(title, action)) == Some(
                PaletteEntryView { title: t, description: None, action: a },
            )
            &&& palette_row(title) is None
            &&& palette_row(action) is None
        }),
{
    reveal_strlit("title");
    reveal_strlit("description");
    reveal_strlit("action");
    crate::text::law_ascii_white_space('t');
    crate::text::law_ascii_white_space('d');
    crate::text::law_ascii_white_space('a');
    crate::text::law_ascii_white_space('e');
    crate::text::law_ascii_white_space('n');
    crate::text::law_ascii_white_space('"');
    crate::text::law_ascii_white_space(',');
    let (nt, nd, na) = ("title"@, "description"@, "action"@);
    assert(nt[0] == 't' && nt[4] == 'e' && nd[0] == 'd' && nd[10] == 'n' && na[0] == 'a' && na[5]
        == 'n');
    assert(!nt.contains(':') && !nd.contains(':') && !na.contains(':'));
    let title = pair(nt, t);
    let description = pair(nd, d);
    let action = pair(na, in_quotes(a));
    let none = Seq::<char>::empty();
    assert(title.last() == t.last());
    assert(action.last() == '"');
    lemma_plain_literal(a);
    lemma_bare_field(nt, t, none);
    assert(title + none =~= title);
    lemma_quoted_field(na, a, none);
    assert(action + none =~= action);
    lemma_row(title, nt, t, none, None, None, None);
    lemma_row(action, na, a, none, None, None, None);
    lemma_trim_tight(title);
    lemma_trim_tight(action);
    assert(palette_row(title) is None);
    assert(palette_row(action) is None);
    // title and action
    let s = listed(title, action);
    lemma_bare_field(nt, t, seq![','] + action);
    assert(title + (seq![','] + action) =~= s);
    lemma_trim_tight(s);
    lemma_row(s, nt, t, action, None, None, None);
    lemma_row(action, na, a, none, Some(t), None, None);
    assert(palette_row(s) == Some(
        PaletteEntryView { title: t, description: None, action: a },
    ));
    // all three
    let rest = listed(description, action);
    let s = listed(title, rest);
    lemma_bare_field(nt, t, seq![','] + rest);
    assert(title + (seq![','] + rest) =~= s);
    assert(s.last() == '"');
    lemma_trim_tight(s);
    lemma_bare_field(nd, d, seq![','] + action);
    assert(description + (seq![','] + action) =~= rest);
    lemma_row(s, nt, t, rest, None, None, None);
    lemma_row(rest, nd, d, action, Some(t), None, None);
    lemma_row(action, na, a, none, Some(t), Some(d), None);
    // the other way round
    let rest = listed(description, title);
    let s = listed(action, rest);
    lemma_quoted_field(na, a, seq![','] + rest);
    assert(action + (seq![','] + rest) =~= s);
    assert(s.last() == t.last());
    lemma_trim_tight(s);
    lemma_bare_field(nd, d, seq![','] + title);
    assert(description + (seq![','] + title) =~= rest);
    lemma_row(s, na, a, rest, None, None, None);
    lemma_row(rest, nd, d, title, None, None, Some(a));
    lemma_row(title, nt, t, none, None, Some(d), Some(a));
}

/// A field of any other name spoils the row.
pub proof fn law_unknown_field_spoils_the_row(name: Seq<char>, v: Seq<char>)
    requires
        !name.contains(':'),
        name.len() > 0,
        crate::text::tight(name),
        v.len() > 0,
        bare(v),
        name != "title"@ && name != "description"@ && name != "action"@,
    ensures
        palette_row(pair(name, v)) is None,
{
    let s = pair(name, v);
    lemma_bare_field(name, v, Seq::empty());
    assert(s + Seq::<char>::empty() =~= s);
    assert(s.last() == v.last());
    assert(s[0] == name[0]);
    lemma_trim_tight(s);
}

/// What is said of a palette entry is said of its own fields, each of the field of its name.
pub proof fn law_palette_entry_shows_its_fields(x: PaletteEntry)
    ensures
        x@.title == x.title@,
        x@.description == opt_view(x.description),
        x@.action == x.action@,
{
}

} // verus!
