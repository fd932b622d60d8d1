//! Bodies, the themes they ask for and the files they name.

use crate::config::laws::law_theme_line_is_inert;
use crate::config::lines::{
    body_value, expanded, included, last_value, line_kind, theme_places, theme_variant, unquoted,
    Line, LocatedView,
};
use crate::config::load::{
    applied_line, applied_lines, body_applied, files_of, parsed, theme_wanted_by, without_bom,
    ThemeFile,
};
use crate::config::meaning::behavior::law_title;
use crate::config::meaning::{
    law_body_of_two_lines, law_line_sets_its_key, lemma_line_kind, plain_key, plain_value, said,
};
use crate::config::settings::{ConfigView, SurroundingsView};
use crate::text::{ended, law_lines_read_back, lines};
use vstd::prelude::*;

verus! {

proof fn lemma_said(key: Seq<char>, v: Seq<char>)
    requires
        plain_key(key),
        plain_value(v),
    ensures
        line_kind(said(key, v)) == Line::Pair(key, v),
{
    let none = Seq::<char>::empty();
    crate::text::law_ascii_white_space(' ');
    lemma_line_kind(none, key, seq![' '], seq![' '], v, none);
}

/// The last line that gives a key its value counts; lines about other keys do not.
pub proof fn law_last_value_counts(
    ls: Seq<Seq<char>>,
    key: Seq<char>,
    other: Seq<char>,
    v: Seq<char>,
)
    requires
        plain_key(key),
        plain_key(other),
        plain_value(v),
        key != other,
    ensures
        last_value(ls.push(said(key, v)), key) == Some(v),
        last_value(ls.push(said(other, v)), key) == last_value(ls, key),
        last_value(Seq::empty(), key) is None,
{
    lemma_said(key, v);
    lemma_said(other, v);
    assert(ls.push(said(key, v)).drop_last() =~= ls);
    assert(ls.push(said(other, v)).drop_last() =~= ls);
}

proof fn lemma_said_is_one_line(key: Seq<char>, v: Seq<char>)
    requires
        plain_key(key),
        plain_value(v),
    ensures
        !said(key, v).contains('\n'),
        said(key, v).last() != '\r',
        said(key, v).len() > 0,
{
    let s = said(key, v);
    if s.contains('\n') {
        let i = choose|i: int| 0 <= i < s.len() && s[i] == '\n';
        if i < key.len() {
            assert(key[i] == '\n');
        } else if i >= key.len() + 3 {
            assert(v[i - key.len() - 3] == '\n');
        }
    }
    if v.len() > 0 {
        assert(s.last() == v.last());
        crate::text::law_ascii_white_space('\r');
    }
}

/// A theme lies under the body that asks for it: what the body says itself holds,
/// whatever the theme says; what it does not say is as the theme says.
pub proof fn law_body_lies_over_its_theme(
    c: ConfigView,
    name: Seq<char>,
    title: Seq<char>,
    theme: String,
    crlf: bool,
    e: SurroundingsView,
)
    requires
        plain_value(name),
        plain_value(title),
        theme_variant(name).len() > 0,
        title.len() > 0,
    ensures
        body_applied(
            c,
            ended(seq![said("theme"@, name), said("title"@, title)], crlf),
            ThemeFile::Body(theme),
            e,
        ).windows.title == Some(title),
        body_applied(
            c,
            ended(seq![said("theme"@, name)], crlf),
            ThemeFile::Body(theme),
            e,
        ) == (ConfigView { config_file: Seq::empty(), ..parsed(c, theme@, e) }),
{
    reveal_strlit("theme");
    reveal_strlit("title");
    let (k1, k2) = ("theme"@, "title"@);
    assert(plain_key(k1) && plain_key(k2));
    assert(k1[1] == 'h' && k2[1] == 'i');
    let (l1, l2) = (said(k1, name), said(k2, title));
    let none = Seq::<char>::empty();
    lemma_said_is_one_line(k1, name);
    lemma_said_is_one_line(k2, title);
    let both = ended(seq![l1, l2], crlf);
    law_lines_read_back(seq![l1, l2], crlf, none);
    assert(both + none =~= both);
    assert(lines(both) == seq![l1, l2]);
    law_last_value_counts(Seq::empty(), k1, k2, name);
    law_last_value_counts(seq![l1], k1, k2, title);
    assert(Seq::<Seq<char>>::empty().push(l1) =~= seq![l1]);
    assert(seq![l1].push(l2) =~= seq![l1, l2]);
    assert(body_value(both, k1) == Some(name));
    let start = ConfigView { config_file: Seq::empty(), ..parsed(c, theme@, e) };
    law_body_of_two_lines(start, k1, name, k2, title, crlf, e);
    law_theme_line_is_inert(start, name, e);
    law_line_sets_its_key(start, k2, title, e);
    law_title(start, title, e);
    // the theme alone
    let one = ended(seq![l1], crlf);
    law_lines_read_back(seq![l1], crlf, none);
    assert(one + none =~= one);
    assert(lines(one) == seq![l1]);
    assert(body_value(one, k1) == Some(name));
    lemma_said(k1, name);
    assert(one.len() > 0 && one[0] == 't') by {
        assert(l1[0] == 't');
    }
    assert(without_bom(one) == one);
    assert(seq![l1].drop_last() =~= Seq::<Seq<char>>::empty());
    assert(applied_lines(start, Seq::<Seq<char>>::empty(), e) == start);
    assert(applied_lines(start, seq![l1], e) == applied_line(start, l1, 1, e));
    assert(applied_line(start, l1, 1, e) == start);
    assert(theme_wanted_by(one) is Some);
}

/// A body that asks for no theme is the same whatever a theme would have said, and
/// one whose theme is missing keeps its settings and says so.
pub proof fn law_theme_is_taken_only_where_asked_for(
    c: ConfigView,
    text: Seq<char>,
    a: ThemeFile,
    b: ThemeFile,
    e: SurroundingsView,
)
    ensures
        theme_wanted_by(text) is None ==> body_applied(c, text, a, e) == body_applied(
            c,
            text,
            b,
            e,
        ),
        theme_wanted_by(text) is Some && a is Missing ==> exists|m: Seq<char>|
            body_applied(c, text, a, e) == parsed(
                ConfigView {
                    config_file: Seq::empty(),
                    diagnostics: c.diagnostics.push(#[trigger] named_in(m, theme_wanted_by(text)->0)),
                    ..c
                },
                text,
                e,
            ),
{
    if theme_wanted_by(text) is Some && a is Missing {
        let name = theme_wanted_by(text)->0;
        let m = "' not found (looked in <config-dir>/themes/)"@;
        assert("theme '"@ + name + m =~= named_in(m, name));
        assert(body_applied(c, text, a, e) == parsed(
            ConfigView {
                config_file: Seq::empty(),
                diagnostics: c.diagnostics.push(named_in(m, name)),
                ..c
            },
            text,
            e,
        ));
    }
}

/// A message about the theme `name`.
pub open spec fn named_in(m: Seq<char>, name: Seq<char>) -> Seq<char> {
    "theme '"@ + name + m
}

/// The files that a body names are located one by one, in the order in which they
/// are named; a blank name is none.
pub proof fn law_named_files_keep_their_order(
    a: Seq<Seq<char>>,
    b: Seq<Seq<char>>,
    base: Option<Seq<char>>,
)
    ensures
        files_of(a + b, base) == files_of(a, base) + files_of(b, base),
        b.len() == 1 && included(b[0], base) is Some ==> files_of(b, base) == seq![
            included(b[0], base)->0,
        ],
        b.len() == 1 && included(b[0], base) is None ==> files_of(b, base).len() == 0,
    decreases b.len(),
{
    if b.len() == 0 {
        assert(a + b =~= a);
    } else {
        law_named_files_keep_their_order(a, b.drop_last(), base);
        assert((a + b).drop_last() =~= a + b.drop_last());
        assert((a + b).last() == b.last());
        if b.len() == 1 {
            assert(b.drop_last() =~= Seq::<Seq<char>>::empty());
        }
        assert(files_of(a + b, base) =~= files_of(a, base) + files_of(b, base));
    }
}

/// A theme is looked for at the path that its name is, then by its name in the
/// directory of themes, where there is one, and nowhere else.
pub proof fn law_themes_are_looked_for(
    name: Seq<char>,
    home: Option<Seq<char>>,
    themes: Option<Seq<char>>,
)
    ensures
        theme_places(name, home, themes).len() == (if themes is Some {
            2int
        } else {
            1int
        }),
        theme_places(name, home, themes)[0] == expanded(name, home),
        themes is Some ==> theme_places(name, home, themes)[1] == (LocatedView {
            base: themes,
            path: name,
        }),
{
}

} // verus!
