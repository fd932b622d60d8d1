//! Lines, lists and paths of a configuration body.

use crate::config::grammar::{unescape, unescape_text, unescaped, unescaped_text};
use crate::text::{
    chars, contains, halves, holds, lines, lines_of, pieces, spells, split, split_once, string,
    strip_prefix, stripped, trim, trimmed, views,
};
use vstd::prelude::*;
use vstd::slice::slice_subrange;

verus! {

// ---------------------------------------------------------------- quotes

/// `s` without one pair of matching quotes round it.
pub open spec fn unquoted(s: Seq<char>) -> Seq<char> {
    if s.len() >= 2 && (s[0] == '"' || s[0] == '\'') && s.last() == s[0] {
        s.subrange(1, s.len() - 1)
    } else {
        s
    }
}

/// Strip a single pair of matching surrounding quotes, if present.
pub fn unquote(s: &[char]) -> (r: &[char])
    ensures
        r@ == unquoted(s@),
{
    let n = s.len();
    if n >= 2 && (s[0] == '"' || s[0] == '\'') && s[n - 1] == s[0] {
        slice_subrange(s, 1, n - 1)
    } else {
        s
    }
}

// ---------------------------------------------------------------- lines

/// What a line of a configuration body is.
pub ghost enum Line {
    /// Blank, or a comment.
    Nothing,
    /// Neither blank nor `key = value`.
    Malformed,
    /// `key = value`, trimmed and the value unquoted.
    Pair(Seq<char>, Seq<char>),
}

/// What a line of a configuration body is.
pub open spec fn line_kind(raw: Seq<char>) -> Line {
    let line = trim(raw);
    if line.len() == 0 || line[0] == '#' {
        Line::Nothing
    } else {
        match split_once(line, '=') {
            Some(p) => Line::Pair(trim(p.0), unquoted(trim(p.1))),
            None => Line::Malformed,
        }
    }
}

/// The value of the last `key = value` among the lines.
pub open spec fn last_value(ls: Seq<Seq<char>>, key: Seq<char>) -> Option<Seq<char>>
    decreases ls.len(),
{
    if ls.len() == 0 {
        None
    } else {
        match line_kind(ls.last()) {
            Line::Pair(k, v) => if k == key {
                Some(v)
            } else {
                last_value(ls.drop_last(), key)
            },
            _ => last_value(ls.drop_last(), key),
        }
    }
}

/// The value of the last `key = value` in a body.
pub open spec fn body_value(text: Seq<char>, key: Seq<char>) -> Option<Seq<char>> {
    last_value(lines(text), key)
}

/// Return the last `key = value` value in a configuration body.
pub fn config_value(text: &str, key: &str) -> (r: Option<String>)
    ensures
        match r {
            Some(v) => body_value(text@, key@) == Some(v@),
            None => body_value(text@, key@) is None,
        },
{
    let cs = chars(text);
    let ls = lines_of(cs.as_slice());
    let ghost all = views(ls@);
    let mut found: Option<String> = None;
    let mut i: usize = 0;
    while i < ls.len()
        invariant
            all == views(ls@),
            i <= ls@.len(),
            match found {
                Some(v) => last_value(all.take(i as int), key@) == Some(v@),
                None => last_value(all.take(i as int), key@) is None,
            },
        decreases ls@.len() - i,
    {
        proof {
            assert(all.take(i as int + 1).drop_last() =~= all.take(i as int));
            assert(all.take(i as int + 1).last() == ls@[i as int]@);
        }
        let line = trimmed(ls[i].as_slice());
        if line.len() > 0 && line[0] != '#' {
            match halves(line, '=') {
                Some((k, v)) => {
                    if spells(trimmed(k), key) {
                        found = Some(string(unquote(trimmed(v))));
                    }
                },
                None => {},
            }
        }
        i = i + 1;
    }
    proof {
        assert(all.take(all.len() as int) =~= all);
    }
    found
}

// ---------------------------------------------------------------- themes

/// The part of a theme list that names the variant, the last one counting.
pub open spec fn variant(ps: Seq<Seq<char>>, dark: bool) -> Option<Seq<char>>
    decreases ps.len(),
{
    if ps.len() == 0 {
        None
    } else {
        let part = trim(ps.last());
        let d = strip_prefix(part, "dark:"@);
        let l = strip_prefix(part, "light:"@);
        if dark && d is Some {
            Some(trim(d->0))
        } else if !dark && d is None && l is Some {
            Some(trim(l->0))
        } else {
            variant(ps.drop_last(), dark)
        }
    }
}

/// The theme that a `theme` value names. A list of variants names its dark one,
/// else its light one; any other value is the name itself.
pub open spec fn theme_variant(spec_: Seq<char>) -> Seq<char> {
    if holds(spec_, "light:"@) || holds(spec_, "dark:"@) {
        match variant(split(spec_, ','), true) {
            Some(n) => n,
            None => match variant(split(spec_, ','), false) {
                Some(n) => n,
                None => Seq::empty(),
            },
        }
    } else {
        spec_
    }
}

/// Choose the theme name from a `theme` value.
pub fn select_theme_variant(value: &str) -> (r: String)
    ensures
        r@ == theme_variant(value@),
{
    let cs = chars(value);
    if contains(cs.as_slice(), "light:") || contains(cs.as_slice(), "dark:") {
        let ps = pieces(cs.as_slice(), ',');
        let ghost all = views(ps@);
        let mut light: Option<String> = None;
        let mut dark: Option<String> = None;
        let mut i: usize = 0;
        while i < ps.len()
            invariant
                all == views(ps@),
                i <= ps@.len(),
                match dark {
                    Some(n) => variant(all.take(i as int), true) == Some(n@),
                    None => variant(all.take(i as int), true) is None,
                },
                match light {
                    Some(n) => variant(all.take(i as int), false) == Some(n@),
                    None => variant(all.take(i as int), false) is None,
                },
            decreases ps@.len() - i,
        {
            proof {
                assert(all.take(i as int + 1).drop_last() =~= all.take(i as int));
                assert(all.take(i as int + 1).last() == ps@[i as int]@);
            }
            let part = trimmed(ps[i].as_slice());
            match stripped(part, "dark:") {
                Some(rest) => {
                    dark = Some(string(trimmed(rest)));
                },
                None => match stripped(part, "light:") {
                    Some(rest) => {
                        light = Some(string(trimmed(rest)));
                    },
                    None => {},
                },
            }
            i = i + 1;
        }
        proof {
            assert(all.take(all.len() as int) =~= all);
        }
        match dark {
            Some(n) => n,
            None => match light {
                Some(n) => n,
                None => String::new(),
            },
        }
    } else {
        value.to_owned()
    }
}

// ---------------------------------------------------------------- paths

/// A path as written, with the directory a relative one counts from.
#[derive(Clone, Debug, PartialEq, Eq)]
pub struct Located {
    pub base: Option<String>,
    pub path: String,
}

/// A `Located` as sequences.
pub ghost struct LocatedView {
    pub base: Option<Seq<char>>,
    pub path: Seq<char>,
}

/// The characters of an optional string.
pub open spec fn opt_view(s: Option<String>) -> Option<Seq<char>> {
    match s {
        Some(t) => Some(t@),
        None => None,
    }
}

/// The characters of an optional string slice.
pub open spec fn opt_str(s: Option<&str>) -> Option<Seq<char>> {
    match s {
        Some(t) => Some(t@),
        None => None,
    }
}

impl View for Located {
    type V = LocatedView;

    open spec fn view(&self) -> LocatedView {
        LocatedView { base: opt_view(self.base), path: self.path@ }
    }
}

/// The path that a value names, counted from `base`. Blank is no path.
pub open spec fn located(raw: Seq<char>, base: Option<Seq<char>>) -> Option<LocatedView> {
    if trim(raw).len() == 0 {
        None
    } else {
        Some(LocatedView { base, path: trim(raw) })
    }
}

/// Resolve a path value against `config_dir`. An empty or blank value means
/// unset, not the directory itself.
pub fn resolve_path(raw: &str, config_dir: Option<&str>) -> (r: Option<Located>)
    ensures
        match r {
            Some(p) => located(raw@, opt_str(config_dir)) == Some(p@),
            None => located(raw@, opt_str(config_dir)) is None,
        },
{
    let cs = chars(raw);
    let t = trimmed(cs.as_slice());
    if t.len() == 0 {
        return None;
    }
    let base = match config_dir {
        Some(d) => Some(d.to_owned()),
        None => None,
    };
    Some(Located { base, path: string(t) })
}

/// The file that a `config-file` value names, and whether it may be missing.
pub open spec fn included(
    value: Seq<char>,
    base: Option<Seq<char>>,
) -> Option<(LocatedView, bool)> {
    let s = trim(value);
    let optional = s.len() > 0 && s[0] == '?';
    match located(
        if optional {
            s.skip(1)
        } else {
            s
        },
        base,
    ) {
        Some(p) => Some((p, optional)),
        None => None,
    }
}

/// Split one `config-file` value into a path and whether it is optional, which
/// a leading `?` says.
pub fn parse_include(value: &str, base: Option<&str>) -> (r: Option<(Located, bool)>)
    ensures
        match r {
            Some(p) => included(value@, opt_str(base)) == Some((p.0@, p.1)),
            None => included(value@, opt_str(base)) is None,
        },
{
    let cs = chars(value);
    let s = trimmed(cs.as_slice());
    let n = s.len();
    if n > 0 && s[0] == '?' {
        let rest = slice_subrange(s, 1, n);
        proof {
            assert(rest@ =~= s@.skip(1));
        }
        let text = string(rest);
        match resolve_path(text.as_str(), base) {
            Some(p) => Some((p, true)),
            None => None,
        }
    } else {
        let text = string(s);
        match resolve_path(text.as_str(), base) {
            Some(p) => Some((p, false)),
            None => None,
        }
    }
}

/// Where a `~` path leads.
pub ghost enum HomePath {
    /// The home directory itself.
    Home,
    /// A path below the home directory.
    BelowHome(Seq<char>),
    /// The path as written.
    AsWritten(Seq<char>),
}

/// Where a path leads: `~` is the home directory, and `~/` or `~\` begin a path
/// below it.
pub open spec fn home_path(p: Seq<char>) -> HomePath {
    if p == "~"@ {
        HomePath::Home
    } else {
        match strip_prefix(p, "~/"@) {
            Some(rest) => HomePath::BelowHome(rest),
            None => match strip_prefix(p, "~\\"@) {
                Some(rest) => HomePath::BelowHome(rest),
                None => HomePath::AsWritten(p),
            },
        }
    }
}

/// The located path that `~` expansion makes of `p`, given the home directory.
/// Without one, every path stays as written.
pub open spec fn expanded(p: Seq<char>, home: Option<Seq<char>>) -> LocatedView {
    match (home_path(p), home) {
        (HomePath::Home, Some(h)) => LocatedView { base: None, path: h },
        (HomePath::BelowHome(rest), Some(h)) => LocatedView { base: Some(h), path: rest },
        _ => LocatedView { base: None, path: p },
    }
}

/// Expand a leading `~/` or `~\`, or a bare `~`, to the home directory.
pub fn expand_home(p: &str, home: Option<&str>) -> (r: Located)
    ensures
        r@ == expanded(p@, opt_str(home)),
{
    let cs = chars(p);
    match home {
        None => Located { base: None, path: p.to_owned() },
        Some(h) => {
            if spells(cs.as_slice(), "~") {
                return Located { base: None, path: h.to_owned() };
            }
            let rest = match stripped(cs.as_slice(), "~/") {
                Some(rest) => Some(rest),
                None => stripped(cs.as_slice(), "~\\"),
            };
            match rest {
                Some(rest) => Located { base: Some(h.to_owned()), path: string(rest) },
                None => Located { base: None, path: p.to_owned() },
            }
        },
    }
}

/// The config file: the one that is given, else `giest\\config` in the
/// application data directory; `None` where there is neither.
pub fn config_file(given: Option<&str>, appdata: Option<&str>) -> (r: Option<Located>)
    ensures
        match (given, appdata) {
            (Some(p), _) => r matches Some(l) && l@ == (LocatedView { base: None, path: p@ }),
            (None, Some(dir)) => r matches Some(l) && l@ == (LocatedView {
                base: Some(dir@),
                path: "giest\\config"@,
            }),
            (None, None) => r is None,
        },
{
    match (given, appdata) {
        (Some(p), _) => Some(Located { base: None, path: p.to_owned() }),
        (None, Some(dir)) => Some(
            Located { base: Some(dir.to_owned()), path: "giest\\config".to_owned() },
        ),
        (None, None) => None,
    }
}

/// The home directory: the user's profile, else a path on a drive; `None` where
/// one of these two is missing too.
pub fn home_directory(profile: Option<&str>, drive: Option<&str>, path: Option<&str>) -> (r: Option<
    Located,
>)
    ensures
        match (profile, drive, path) {
            (Some(p), _, _) => r matches Some(l) && l@ == (LocatedView { base: None, path: p@ }),
            (None, Some(d), Some(p)) => r matches Some(l) && l@ == (LocatedView {
                base: Some(d@),
                path: p@,
            }),
            _ => r is None,
        },
{
    match (profile, drive, path) {
        (Some(p), _, _) => Some(Located { base: None, path: p.to_owned() }),
        (None, Some(d), Some(p)) => Some(
            Located { base: Some(d.to_owned()), path: p.to_owned() },
        ),
        _ => None,
    }
}

/// Where the theme `name` may lie, the first place that holds a file winning:
/// the path it is itself, then the directory of themes.
pub open spec fn theme_places(
    name: Seq<char>,
    home: Option<Seq<char>>,
    themes: Option<Seq<char>>,
) -> Seq<LocatedView> {
    seq![expanded(name, home)] + match themes {
        Some(dir) => seq![LocatedView { base: Some(dir), path: name }],
        None => Seq::empty(),
    }
}

/// Where the theme `name` may lie, the first place that holds a file winning.
pub fn theme_files(name: &str, home: Option<&str>, themes: Option<&str>) -> (v: Vec<Located>)
    ensures
        v@.map_values(|l: Located| l@) == theme_places(name@, opt_str(home), opt_str(themes)),
{
    let mut v: Vec<Located> = Vec::new();
    v.push(expand_home(name, home));
    match themes {
        Some(dir) => {
            v.push(Located { base: Some(dir.to_owned()), path: name.to_owned() });
        },
        None => {},
    }
    assert(v@.map_values(|l: Located| l@) =~= theme_places(
        name@,
        opt_str(home),
        opt_str(themes),
    ));
    v
}

// ---------------------------------------------------------------- input

/// One source of startup input.
#[derive(Clone, Debug, PartialEq, Eq)]
pub enum InputSource {
    /// Bytes to send as they are, escapes decoded.
    Raw(Vec<u8>),
    /// A file whose contents are sent.
    Path(String),
}

/// An `InputSource` as sequences.
pub ghost enum InputView {
    Raw(Seq<u8>),
    Path(Seq<char>),
}

impl View for InputSource {
    type V = InputView;

    open spec fn view(&self) -> InputView {
        match self {
            InputSource::Raw(b) => InputView::Raw(b@),
            InputSource::Path(p) => InputView::Path(p@),
        }
    }
}

/// The largest file that is sent, in bytes.
pub const INPUT_PATH_MAX_BYTES: u64 = 10_485_760;

/// The source that `raw:<text>`, `path:<file>` or an untagged text spells.
pub open spec fn input_source(v: Seq<char>) -> Option<InputView> {
    match strip_prefix(v, "path:"@) {
        Some(p) => match unescaped_text(p) {
            Some(t) => Some(InputView::Path(t)),
            None => None,
        },
        None => {
            let raw = match strip_prefix(v, "raw:"@) {
                Some(r) => r,
                None => v,
            };
            match unescaped(raw) {
                Some(b) => Some(InputView::Raw(b)),
                None => None,
            }
        },
    }
}

impl InputSource {
    /// Parse `raw:<text>`, `path:<file>`, or an untagged value, which is raw.
    /// Escapes are decoded in both.
    pub fn parse(v: &str) -> (r: Option<Self>)
        ensures
            match r {
                Some(s) => input_source(v@) == Some(s@),
                None => input_source(v@) is None,
            },
    {
        let cs = chars(v);
        match stripped(cs.as_slice(), "path:") {
            Some(p) => match unescape_text(p) {
                Some(t) => Some(InputSource::Path(t)),
                None => None,
            },
            None => {
                let raw = match stripped(cs.as_slice(), "raw:") {
                    Some(r) => r,
                    None => cs.as_slice(),
                };
                match unescape(raw) {
                    Some(b) => Some(InputSource::Raw(b)),
                    None => None,
                }
            },
        }
    }
}

/// Whether a file is read as input: it is a file, and not over the cap.
pub fn input_readable(is_file: bool, len: u64) -> (r: bool)
    ensures
        r == (is_file && len <= 10 * 1024 * 1024),
{
    is_file && len <= INPUT_PATH_MAX_BYTES
}

/// The bytes of one source, given what its file holds, if it could be read.
pub open spec fn source_bytes(s: InputView, file: Option<Seq<u8>>) -> Option<Seq<u8>> {
    match s {
        InputView::Raw(b) => Some(b),
        InputView::Path(_) => file,
    }
}

/// The bytes of every source in turn, or nothing where one has none.
pub open spec fn all_input(sources: Seq<InputView>, files: Seq<Option<Seq<u8>>>) -> Option<Seq<u8>>
    decreases sources.len(),
{
    if sources.len() == 0 {
        Some(Seq::empty())
    } else {
        match (
            all_input(sources.drop_last(), files.drop_last()),
            source_bytes(sources.last(), files.last()),
        ) {
            (Some(a), Some(b)) => Some(a + b),
            _ => None,
        }
    }
}

/// The sources as sequences.
pub open spec fn input_views(v: Seq<InputSource>) -> Seq<InputView> {
    Seq::new(v.len(), |i: int| v[i]@)
}

/// The files as sequences.
pub open spec fn file_views(v: Seq<Option<Vec<u8>>>) -> Seq<Option<Seq<u8>>> {
    Seq::new(
        v.len(),
        |i: int|
            match v[i] {
                Some(b) => Some(b@),
                None => None,
            },
    )
}

proof fn lemma_input_spoiled(sources: Seq<InputView>, files: Seq<Option<Seq<u8>>>, k: int)
    requires
        sources.len() == files.len(),
        0 <= k < sources.len(),
        source_bytes(sources[k], files[k]) is None,
    ensures
        all_input(sources, files) is None,
    decreases sources.len(),
{
    if k < sources.len() - 1 {
        lemma_input_spoiled(sources.drop_last(), files.drop_last(), k);
    }
}

/// Concatenate every input source, `files[i]` being what the file of source `i`
/// holds. One that could not be read leaves nothing to send at all.
pub fn resolve_input(sources: &[InputSource], files: &[Option<Vec<u8>>]) -> (r: Option<Vec<u8>>)
    requires
        sources@.len() == files@.len(),
    ensures
        match r {
            Some(b) => all_input(input_views(sources@), file_views(files@)) == Some(b@),
            None => all_input(input_views(sources@), file_views(files@)) is None,
        },
{
    let ghost ss = input_views(sources@);
    let ghost fs = file_views(files@);
    let mut out: Vec<u8> = Vec::new();
    let mut i: usize = 0;
    proof {
        assert(out@ =~= Seq::<u8>::empty());
    }
    while i < sources.len()
        invariant
            ss == input_views(sources@),
            fs == file_views(files@),
            sources@.len() == files@.len(),
            i <= sources@.len(),
            all_input(ss.take(i as int), fs.take(i as int)) == Some(out@),
        decreases sources@.len() - i,
    {
        proof {
            assert(ss.take(i as int + 1).drop_last() =~= ss.take(i as int));
            assert(fs.take(i as int + 1).drop_last() =~= fs.take(i as int));
            assert(ss.take(i as int + 1).last() == sources@[i as int]@);
            assert(fs.take(i as int + 1).last() == fs[i as int]);
            assert(ss[i as int] == sources@[i as int]@);
        }
        let ghost before = out@;
        match &sources[i] {
            InputSource::Raw(b) => {
                let mut part = vstd::slice::slice_to_vec(b.as_slice());
                out.append(&mut part);
            },
            InputSource::Path(_) => match &files[i] {
                Some(b) => {
                    let mut part = vstd::slice::slice_to_vec(b.as_slice());
                    out.append(&mut part);
                },
                None => {
                    proof {
                        lemma_input_spoiled(ss, fs, i as int);
                    }
                    return None;
                },
            },
        }
        i = i + 1;
    }
    proof {
        assert(ss.take(ss.len() as int) =~= ss);
        assert(fs.take(fs.len() as int) =~= fs);
    }
    Some(out)
}

// ---------------------------------------------------------------- boundaries

/// The characters that a `selection-word-chars` value lists, with `\t`, `\n`
/// and `\\` read as escapes. Any other escape keeps both of its characters.
pub open spec fn word_chars(s: Seq<char>) -> Seq<char>
    decreases s.len(),
{
    if s.len() == 0 {
        Seq::empty()
    } else if s[0] != '\\' {
        seq![s[0]] + word_chars(s.skip(1))
    } else if s.len() == 1 {
        seq!['\\']
    } else if s[1] == 't' {
        seq!['\t'] + word_chars(s.skip(2))
    } else if s[1] == 'n' {
        seq!['\n'] + word_chars(s.skip(2))
    } else if s[1] == '\\' {
        seq!['\\'] + word_chars(s.skip(2))
    } else {
        seq!['\\', s[1]] + word_chars(s.skip(2))
    }
}

/// Parse `selection-word-chars`: every character is a word boundary, and NUL
/// always is one.
pub fn parse_word_chars(v: &str) -> (r: Vec<char>)
    ensures
        r@ == seq!['\0'] + word_chars(v@),
{
    let cs = chars(v);
    let n = cs.len();
    let mut out: Vec<char> = Vec::new();
    out.push('\0');
    let mut i: usize = 0;
    proof {
        assert(cs@.skip(0) =~= cs@);
        assert(out@ =~= seq!['\0']);
    }
    while i < n
        invariant
            n == cs@.len(),
            i <= n,
            seq!['\0'] + word_chars(cs@) == out@ + word_chars(cs@.skip(i as int)),
        decreases n - i,
    {
        let ghost rest = cs@.skip(i as int);
        let ghost before = out@;
        let c = cs[i];
        if c != '\\' {
            out.push(c);
            proof {
                assert(rest.skip(1) =~= cs@.skip(i + 1));
                assert(before + (seq![c] + word_chars(rest.skip(1))) =~= out@ + word_chars(
                    rest.skip(1),
                ));
            }
            i = i + 1;
        } else if n - i == 1 {
            out.push('\\');
            proof {
                assert(cs@.skip(i + 1) =~= Seq::<char>::empty());
                assert(before + seq!['\\'] =~= out@ + Seq::<char>::empty());
            }
            i = i + 1;
        } else {
            let e = cs[i + 1];
            proof {
                assert(rest.skip(2) =~= cs@.skip(i + 2));
            }
            if e == 't' {
                out.push('\t');
                proof {
                    assert(before + (seq!['\t'] + word_chars(rest.skip(2))) =~= out@ + word_chars(
                        rest.skip(2),
                    ));
                }
            } else if e == 'n' {
                out.push('\n');
                proof {
                    assert(before + (seq!['\n'] + word_chars(rest.skip(2))) =~= out@ + word_chars(
                        rest.skip(2),
                    ));
                }
            } else if e == '\\' {
                out.push('\\');
                proof {
                    assert(before + (seq!['\\'] + word_chars(rest.skip(2))) =~= out@ + word_chars(
                        rest.skip(2),
                    ));
                }
            } else {
                out.push('\\');
                out.push(e);
                proof {
                    assert(before + (seq!['\\', e] + word_chars(rest.skip(2))) =~= out@
                        + word_chars(rest.skip(2)));
                }
            }
            i = i + 2;
        }
    }
    proof {
        assert(cs@.skip(n as int) =~= Seq::<char>::empty());
        assert(out@ + Seq::<char>::empty() =~= out@);
    }
    out
}

// ---------------------------------------------------------------- font style

/// What a `font-style` value asks for.
#[derive(Clone, Debug, PartialEq, Eq)]
pub enum FontStyle {
    /// Pick the style by the face's own flags.
    Default,
    /// Turn the style off.
    Disabled,
    /// Match the font's own style name.
    Named(String),
}

/// A `FontStyle` as sequences.
pub ghost enum FontStyleView {
    Default,
    Disabled,
    Named(Seq<char>),
}

impl View for FontStyle {
    type V = FontStyleView;

    open spec fn view(&self) -> FontStyleView {
        match self {
            FontStyle::Default => FontStyleView::Default,
            FontStyle::Disabled => FontStyleView::Disabled,
            FontStyle::Named(n) => FontStyleView::Named(n@),
        }
    }
}

/// What a `font-style` value asks for.
pub open spec fn font_style(v: Seq<char>) -> FontStyleView {
    if trim(v) == "default"@ {
        FontStyleView::Default
    } else if trim(v) == "false"@ {
        FontStyleView::Disabled
    } else {
        FontStyleView::Named(trim(v))
    }
}

impl FontStyle {
    /// Parse `default`, `false`, or a style's name.
    pub fn parse(v: &str) -> (r: Self)
        ensures
            r@ == font_style(v@),
    {
        let cs = chars(v);
        let t = trimmed(cs.as_slice());
        if spells(t, "default") {
            FontStyle::Default
        } else if spells(t, "false") {
            FontStyle::Disabled
        } else {
            FontStyle::Named(string(t))
        }
    }
}

/// What is said of a located is said of its own fields, each of the field of its name.
pub proof fn law_located_shows_its_fields(x: Located)
    ensures
        x@.base == opt_view(x.base),
        x@.path == x.path@,
{
}

} // verus!
