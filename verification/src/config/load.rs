//! Reading configuration bodies, the themes under them and the files they
//! name.

use crate::config::apply::{applied_key, index_bit};
use crate::config::lines::{
    body_value, config_value, included, line_kind, opt_str, parse_include, select_theme_variant,
    theme_variant, unquote, Line, Located, LocatedView,
};
use crate::config::parts::{message, report};
use crate::config::set::texts;
use crate::config::settings::{defaults, Config, ConfigView, Surroundings, SurroundingsView};
use crate::engine::Rgb;
use crate::text::{
    chars, decimal, halves, lines, lines_of, same_str, string, to_decimal, trimmed, views,
};
use std::collections::VecDeque;
use vstd::prelude::*;
use vstd::slice::slice_subrange;

verus! {

// ---------------------------------------------------------------- bodies

/// A text without the byte order mark it may begin with.
pub open spec fn without_bom(text: Seq<char>) -> Seq<char> {
    if text.len() > 0 && text[0] == '\u{feff}' {
        text.skip(1)
    } else {
        text
    }
}

/// What the line with number `n` does to the settings.
pub open spec fn applied_line(
    c: ConfigView,
    raw: Seq<char>,
    n: nat,
    e: SurroundingsView,
) -> ConfigView {
    match line_kind(raw) {
        Line::Nothing => c,
        Line::Malformed => ConfigView {
            diagnostics: c.diagnostics.push(
                message("ignoring malformed config line "@ + decimal(n), ": "@, raw),
            ),
            ..c
        },
        Line::Pair(key, v) => applied_key(c, key, v, e),
    }
}

/// The settings after a body's lines, taken in order.
pub open spec fn applied_lines(
    c: ConfigView,
    ls: Seq<Seq<char>>,
    e: SurroundingsView,
) -> ConfigView
    decreases ls.len(),
{
    if ls.len() == 0 {
        c
    } else {
        applied_line(applied_lines(c, ls.drop_last(), e), ls.last(), ls.len(), e)
    }
}

/// The settings after a body.
pub open spec fn parsed(c: ConfigView, text: Seq<char>, e: SurroundingsView) -> ConfigView {
    applied_lines(c, lines(without_bom(text)), e)
}

impl Config {
    /// Parse a configuration body, applying each `key = value` line. Blank lines
    /// and `#` comment lines are skipped; malformed lines and unknown keys are
    /// reported, and the rest still applies.
    pub fn parse(&mut self, text: &str, e: &Surroundings)
        ensures
            final(self)@ == parsed(old(self)@, text@, e@),
    {
        let cs = chars(text);
        let n = cs.len();
        let body = if n > 0 && cs[0] == '\u{feff}' {
            slice_subrange(cs.as_slice(), 1, n)
        } else {
            cs.as_slice()
        };
        proof {
            assert(body@ =~= without_bom(text@));
        }
        let ls = lines_of(body);
        let ghost all = views(ls@);
        let ghost start = self@;
        let mut i: usize = 0;
        while i < ls.len()
            invariant
                all == views(ls@),
                i <= ls@.len(),
                self@ == applied_lines(start, all.take(i as int), e@),
            decreases ls@.len() - i,
        {
            proof {
                assert(all.take(i as int + 1).drop_last() =~= all.take(i as int));
                assert(all.take(i as int + 1).last() == ls@[i as int]@);
            }
            let raw = ls[i].as_slice();
            let line = trimmed(raw);
            if line.len() > 0 && line[0] != '#' {
                match halves(line, '=') {
                    Some((key, value)) => {
                        let k = string(trimmed(key));
                        let v = string(unquote(trimmed(value)));
                        self.apply(k.as_str(), v.as_str(), e);
                    },
                    None => {
                        let number = to_decimal(i as u64 + 1);
                        let head = crate::text::concat(
                            "ignoring malformed config line ",
                            number.as_str(),
                        );
                        let whole = string(raw);
                        report(&mut self.diagnostics, head.as_str(), ": ", whole.as_str());
                    },
                }
            }
            i = i + 1;
        }
        proof {
            assert(all.take(all.len() as int) =~= all);
        }
    }
}

// ---------------------------------------------------------------- themes

/// The theme that a body asks for, if it asks for one.
pub open spec fn theme_wanted_by(text: Seq<char>) -> Option<Seq<char>> {
    match body_value(text, "theme"@) {
        Some(v) => if theme_variant(v).len() > 0 {
            Some(theme_variant(v))
        } else {
            None
        },
        None => None,
    }
}

/// The name of the theme that a body asks for, if it asks for one.
pub fn theme_wanted(text: &str) -> (r: Option<String>)
    ensures
        match r {
            Some(n) => theme_wanted_by(text@) == Some(n@),
            None => theme_wanted_by(text@) is None,
        },
{
    match config_value(text, "theme") {
        Some(v) => {
            let name = select_theme_variant(v.as_str());
            if name.as_str().is_empty() {
                None
            } else {
                Some(name)
            }
        },
        None => None,
    }
}

/// What looking for a theme's file gave.
#[derive(Clone, Debug)]
pub enum ThemeFile {
    /// No such file.
    Missing,
    /// A file that could not be read: its path, and why.
    Unreadable(String, String),
    /// Its body.
    Body(String),
}

/// The settings after a theme's file, the base under a body's own keys.
pub open spec fn themed(
    c: ConfigView,
    name: Seq<char>,
    file: ThemeFile,
    e: SurroundingsView,
) -> ConfigView {
    match file {
        ThemeFile::Missing => ConfigView {
            diagnostics: c.diagnostics.push(
                message("theme '"@, name, "' not found (looked in <config-dir>/themes/)"@),
            ),
            ..c
        },
        ThemeFile::Unreadable(path, error) => ConfigView {
            diagnostics: c.diagnostics.push(
                message("could not read theme file "@ + path@, ": "@, error@),
            ),
            ..c
        },
        ThemeFile::Body(text) => parsed(c, text@, e),
    }
}

impl Config {
    /// Apply the theme `name`, given what its file gave.
    pub fn apply_theme(&mut self, name: &str, file: &ThemeFile, e: &Surroundings)
        ensures
            final(self)@ == themed(old(self)@, name@, *file, e@),
    {
        match file {
            ThemeFile::Missing => {
                report(
                    &mut self.diagnostics,
                    "theme '",
                    name,
                    "' not found (looked in <config-dir>/themes/)",
                );
            },
            ThemeFile::Unreadable(path, error) => {
                let head = crate::text::concat("could not read theme file ", path.as_str());
                report(&mut self.diagnostics, head.as_str(), ": ", error.as_str());
            },
            ThemeFile::Body(text) => {
                self.parse(text.as_str(), e);
            },
        }
    }
}

// ---------------------------------------------------------------- a whole body

/// The settings before a body's own keys: the theme it asks for, if any.
pub open spec fn based(
    c: ConfigView,
    text: Seq<char>,
    theme: ThemeFile,
    e: SurroundingsView,
) -> ConfigView {
    match theme_wanted_by(text) {
        Some(name) => themed(c, name, theme, e),
        None => c,
    }
}

/// The settings after a body, the files it names still listed.
pub open spec fn body_applied(
    c: ConfigView,
    text: Seq<char>,
    theme: ThemeFile,
    e: SurroundingsView,
) -> ConfigView {
    parsed(ConfigView { config_file: Seq::empty(), ..based(c, text, theme, e) }, text, e)
}

/// The files that a list of `config-file` values names.
pub open spec fn files_of(
    specs: Seq<Seq<char>>,
    base: Option<Seq<char>>,
) -> Seq<(LocatedView, bool)>
    decreases specs.len(),
{
    if specs.len() == 0 {
        Seq::empty()
    } else {
        match included(specs.last(), base) {
            Some(p) => files_of(specs.drop_last(), base).push(p),
            None => files_of(specs.drop_last(), base),
        }
    }
}

/// Named files as sequences.
pub open spec fn file_list(v: Seq<(Located, bool)>) -> Seq<(LocatedView, bool)> {
    Seq::new(v.len(), |i: int| (v[i].0@, v[i].1))
}

impl Config {
    /// Apply one body over this configuration and return the files it asks for,
    /// located from `base`, the directory of the file the body came from.
    ///
    /// A theme that the body asks for is applied first, so that the body's own
    /// keys win over it wherever they stand; `theme` is what its file gave.
    pub fn apply_body(
        &mut self,
        text: &str,
        theme: &ThemeFile,
        base: Option<&str>,
        e: &Surroundings,
    ) -> (r: Vec<(Located, bool)>)
        ensures
            ({
                let after = body_applied(old(self)@, text@, *theme, e@);
                &&& final(self)@ == (ConfigView { config_file: Seq::empty(), ..after })
                &&& file_list(r@) == files_of(after.config_file, opt_str(base))
            }),
    {
        match theme_wanted(text) {
            Some(name) => {
                self.apply_theme(name.as_str(), theme, e);
            },
            None => {},
        }
        self.config_file.clear();
        proof {
            assert(texts(self.config_file@) =~= Seq::empty());
        }
        self.parse(text, e);
        let ghost after = self@;
        let mut specs: Vec<String> = Vec::new();
        std::mem::swap(&mut specs, &mut self.config_file);
        proof {
            assert(texts(self.config_file@) =~= Seq::empty());
        }
        let ghost all = texts(specs@);
        let mut out: Vec<(Located, bool)> = Vec::new();
        let mut i: usize = 0;
        proof {
            assert(file_list(out@) =~= Seq::empty());
        }
        while i < specs.len()
            invariant
                all == texts(specs@),
                i <= specs@.len(),
                file_list(out@) == files_of(all.take(i as int), opt_str(base)),
            decreases specs@.len() - i,
        {
            proof {
                assert(all.take(i as int + 1).drop_last() =~= all.take(i as int));
                assert(all.take(i as int + 1).last() == specs@[i as int]@);
            }
            let ghost before = out@;
            match parse_include(specs[i].as_str(), base) {
                Some(p) => {
                    out.push(p);
                    proof {
                        assert(file_list(out@) =~= file_list(before).push((p.0@, p.1)));
                    }
                },
                None => {},
            }
            i = i + 1;
        }
        proof {
            assert(all.take(all.len() as int) =~= all);
        }
        out
    }

    /// Build a configuration by applying a body over the built-in defaults. The
    /// files it names are dropped.
    pub fn from_ghostty_config(text: &str, theme: &ThemeFile, e: &Surroundings) -> (r: Self)
        ensures
            r@ == (ConfigView {
                config_file: Seq::empty(),
                ..body_applied(defaults(), text@, *theme, e@)
            }),
    {
        let mut c = Config::default();
        let _ = c.apply_body(text, theme, None, e);
        c
    }
}

// ---------------------------------------------------------------- many files

/// The files still to load, and the identities of those already begun.
///
/// A file is loaded after the whole file that named it, and the files it names
/// join the end of one queue, so that loading goes breadth first.
#[derive(Debug)]
pub struct Includes {
    queue: VecDeque<(Located, bool)>,
    seen: Vec<String>,
}

/// What reading a named file gave.
#[derive(Clone, Debug)]
pub enum IncludeFailure {
    /// There is no such file: why.
    NotFound(String),
    /// Any other failure: why.
    Other(String),
}

impl Includes {
    /// The identities of the files begun, in order.
    pub closed spec fn begun(&self) -> Seq<Seq<char>> {
        texts(self.seen@)
    }

    /// The files still to load, and whether each may be missing.
    pub closed spec fn waiting(&self) -> Seq<(LocatedView, bool)> {
        file_list(self.queue@)
    }

    /// No file is begun twice.
    pub open spec fn well_formed(&self) -> bool {
        self.begun().no_duplicates()
    }

    /// A load that begins with the file of identity `root`.
    pub fn new(root: &str) -> (r: Self)
        ensures
            r.well_formed(),
            r.begun() == seq![root@],
            r.waiting() == Seq::<(LocatedView, bool)>::empty(),
    {
        let mut seen: Vec<String> = Vec::new();
        seen.push(root.to_owned());
        let r = Includes { queue: VecDeque::new(), seen };
        proof {
            assert(r.begun() =~= seq![root@]);
            assert(r.waiting() =~= Seq::empty());
        }
        r
    }

    /// Put the files that a body names at the end of the queue.
    pub fn enqueue(&mut self, files: Vec<(Located, bool)>)
        requires
            old(self).well_formed(),
        ensures
            final(self).well_formed(),
            final(self).begun() == old(self).begun(),
            final(self).waiting() == old(self).waiting() + file_list(files@),
    {
        let ghost start = self.waiting();
        let ghost all = files@;
        let mut more: VecDeque<(Located, bool)> = VecDeque::new();
        let mut rest = files;
        let mut reversed: Vec<(Located, bool)> = Vec::new();
        while rest.len() > 0
            invariant
                rest@.len() + reversed@.len() == all.len(),
                rest@ == all.take(rest@.len() as int),
                forall|j: int|
                    0 <= j < reversed@.len() ==> reversed@[j] == all[all.len() - 1 - j],
            decreases rest@.len(),
        {
            match rest.pop() {
                Some(x) => {
                    reversed.push(x);
                },
                None => {},
            }
        }
        while reversed.len() > 0
            invariant
                more@.len() + reversed@.len() == all.len(),
                forall|j: int|
                    0 <= j < reversed@.len() ==> reversed@[j] == all[all.len() - 1 - j],
                forall|j: int| 0 <= j < more@.len() ==> more@[j] == all[j],
            decreases reversed@.len(),
        {
            match reversed.pop() {
                Some(x) => {
                    more.push_back(x);
                },
                None => {},
            }
        }
        proof {
            assert(more@ =~= all);
        }
        self.queue.append(&mut more);
        proof {
            assert(self.waiting() =~= start + file_list(all));
        }
    }

    /// Take the file at the head of the queue, and whether it may be missing.
    pub fn next(&mut self) -> (r: Option<(Located, bool)>)
        requires
            old(self).well_formed(),
        ensures
            final(self).well_formed(),
            final(self).begun() == old(self).begun(),
            match r {
                Some(f) => old(self).waiting().len() > 0 && (f.0@, f.1) == old(self).waiting()[0]
                    && final(self).waiting() == old(self).waiting().skip(1),
                None => old(self).waiting().len() == 0 && final(self).waiting() == old(
                    self,
                ).waiting(),
            },
    {
        let ghost before = self.queue@;
        let r = self.queue.pop_front();
        proof {
            if before.len() > 0 {
                assert(file_list(self.queue@) =~= file_list(before).skip(1));
            }
        }
        r
    }

    /// Begin the file of identity `key`, unless it was begun before. A repeat is
    /// reported under the file's name, so that a cycle ends.
    pub fn begin(&mut self, key: &str, name: &str, c: &mut Config) -> (r: bool)
        requires
            old(self).well_formed(),
        ensures
            final(self).well_formed(),
            final(self).waiting() == old(self).waiting(),
            r == !old(self).begun().contains(key@),
            r ==> final(self).begun() == old(self).begun().push(key@) && final(c)@ == old(c)@,
            !r ==> final(self).begun() == old(self).begun() && final(c)@ == (ConfigView {
                diagnostics: old(c)@.diagnostics.push(
                    message("config-file "@, name@, ": already loaded (cycle), ignoring"@),
                ),
                ..old(c)@
            }),
    {
        let ghost before = self.begun();
        let mut i: usize = 0;
        while i < self.seen.len()
            invariant
                i <= self.seen@.len(),
                before == self.begun(),
                *self == *old(self),
                c@ == old(c)@,
                old(self).well_formed(),
                before == old(self).begun(),
                forall|j: int| 0 <= j < i ==> before[j] != key@,
            decreases self.seen@.len() - i,
        {
            if same_str(self.seen[i].as_str(), key) {
                proof {
                    assert(before[i as int] == key@);
                }
                report(
                    &mut c.diagnostics,
                    "config-file ",
                    name,
                    ": already loaded (cycle), ignoring",
                );
                return false;
            }
            proof {
                assert(before[i as int] == self.seen@[i as int]@);
            }
            i = i + 1;
        }
        self.seen.push(key.to_owned());
        proof {
            assert(self.begun() =~= before.push(key@));
            assert(!before.contains(key@));
        }
        true
    }
}

impl Config {
    /// Report a named file that could not be read. A missing file that may be
    /// missing is no problem.
    pub fn unreadable_include(&mut self, name: &str, optional: bool, failure: &IncludeFailure)
        ensures
            final(self)@ == (match *failure {
                IncludeFailure::NotFound(why) => if optional {
                    old(self)@
                } else {
                    ConfigView {
                        diagnostics: old(self)@.diagnostics.push(
                            message("error reading config-file "@ + name@, ": "@, why@),
                        ),
                        ..old(self)@
                    }
                },
                IncludeFailure::Other(why) => ConfigView {
                    diagnostics: old(self)@.diagnostics.push(
                        message("error reading config-file "@ + name@, ": "@, why@),
                    ),
                    ..old(self)@
                },
            }),
    {
        let why = match failure {
            IncludeFailure::NotFound(why) => {
                if optional {
                    return;
                }
                why
            },
            IncludeFailure::Other(why) => why,
        };
        let head = crate::text::concat("error reading config-file ", name);
        report(&mut self.diagnostics, head.as_str(), ": ", why.as_str());
    }
}

/// A file that waits to be loaded.
pub ghost struct Waiting {
    pub file: LocatedView,
    pub optional: bool,
    /// The identity of the file that names it.
    pub by: Seq<char>,
    /// How many files lie on the way to it from the first one.
    pub depth: nat,
}

/// A file that was begun.
pub ghost struct Begun {
    pub key: Seq<char>,
    pub by: Seq<char>,
    pub depth: nat,
}

/// A load at one moment.
pub ghost struct LoadState {
    pub waiting: Seq<Waiting>,
    pub begun: Seq<Begun>,
}

/// The files a disk holds: the identity of each, and the files that its body
/// names; none for a file that cannot be read.
pub ghost struct Disk {
    pub key: spec_fn(LocatedView) -> Seq<char>,
    pub names: spec_fn(Seq<char>) -> Seq<(LocatedView, bool)>,
}

/// The identities of the files begun.
pub open spec fn begun_keys(s: LoadState) -> Seq<Seq<char>> {
    s.begun.map_values(|b: Begun| b.key)
}

/// The files that the body of a file names, as they join the queue.
pub open spec fn named_by(disk: Disk, b: Begun) -> Seq<Waiting> {
    (disk.names)(b.key).map_values(
        |f: (LocatedView, bool)|
            Waiting { file: f.0, optional: f.1, by: b.key, depth: b.depth + 1 },
    )
}

/// A load whose first file was loaded.
pub open spec fn load_start(disk: Disk, root: Seq<char>) -> LoadState {
    let b = Begun { key: root, by: root, depth: 0 };
    LoadState { waiting: named_by(disk, b), begun: seq![b] }
}

/// One turn of a load: the file at the head of the queue is taken and, unless it
/// was begun before, loaded, and the files it names join the end of the queue.
pub open spec fn load_turn(disk: Disk, s: LoadState) -> LoadState {
    if s.waiting.len() == 0 {
        s
    } else {
        let w = s.waiting[0];
        let b = Begun { key: (disk.key)(w.file), by: w.by, depth: w.depth };
        if begun_keys(s).contains(b.key) {
            LoadState { waiting: s.waiting.skip(1), begun: s.begun }
        } else {
            LoadState {
                waiting: s.waiting.skip(1) + named_by(disk, b),
                begun: s.begun.push(b),
            }
        }
    }
}

/// A load after `n` turns.
pub open spec fn load_turns(disk: Disk, root: Seq<char>, n: nat) -> LoadState
    decreases n,
{
    if n == 0 {
        load_start(disk, root)
    } else {
        load_turn(disk, load_turns(disk, root, (n - 1) as nat))
    }
}

/// Whether the file at place `i` was begun after a file that names it.
pub open spec fn after_its_namer(begun: Seq<Begun>, i: int) -> bool {
    exists|j: int|
        0 <= j < i && (#[trigger] begun[j]).key == begun[i].by && begun[j].depth + 1
            == begun[i].depth
}

/// Whether files were begun layer by layer, each once and after one that names
/// it.
pub open spec fn breadth_first(s: LoadState) -> bool {
    &&& begun_keys(s).no_duplicates()
    &&& forall|i: int, j: int|
        0 <= i < j < s.begun.len() ==> (#[trigger] s.begun[i]).depth <= (
        #[trigger] s.begun[j]).depth
    &&& forall|i: int| 0 < i < s.begun.len() ==> #[trigger] after_its_namer(s.begun, i)
}

/// Whether a file that waits was named by one that was begun.
spec fn has_namer(begun: Seq<Begun>, w: Waiting) -> bool {
    exists|j: int|
        0 <= j < begun.len() && (#[trigger] begun[j]).key == w.by && begun[j].depth + 1 == w.depth
}

/// Whether the queue goes on from the files begun, layer by layer.
spec fn layered(s: LoadState) -> bool {
    &&& s.begun.len() > 0
    &&& forall|i: int, j: int|
        0 <= i < j < s.waiting.len() ==> (#[trigger] s.waiting[i]).depth <= (
        #[trigger] s.waiting[j]).depth
    &&& forall|i: int|
        0 <= i < s.waiting.len() ==> s.begun.last().depth <= (#[trigger] s.waiting[i]).depth
            <= s.begun.last().depth + 1
    &&& forall|i: int|
        0 <= i < s.waiting.len() ==> has_namer(s.begun, #[trigger] s.waiting[i])
}

proof fn lemma_turn_keeps_layers(disk: Disk, s: LoadState)
    requires
        breadth_first(s),
        layered(s),
    ensures
        breadth_first(load_turn(disk, s)),
        layered(load_turn(disk, s)),
{
    let t = load_turn(disk, s);
    if s.waiting.len() > 0 {
        let w = s.waiting[0];
        let b = Begun { key: (disk.key)(w.file), by: w.by, depth: w.depth };
        let more = named_by(disk, b);
        let n = s.begun.len() as int;
        let left = s.waiting.skip(1);
        assert forall|i: int| 0 <= i < left.len() implies #[trigger] left[i] == s.waiting[i + 1] by {}
        if begun_keys(s).contains(b.key) {
            assert forall|i: int| 0 <= i < t.waiting.len() implies has_namer(
                t.begun,
                #[trigger] t.waiting[i],
            ) by {
                assert(t.waiting[i] == s.waiting[i + 1]);
            }
        } else {
            assert(begun_keys(t) =~= begun_keys(s).push(b.key));
            assert forall|i: int| 0 <= i < n implies #[trigger] t.begun[i] == s.begun[i] by {}
            assert forall|i: int| 0 < i < t.begun.len() implies #[trigger] after_its_namer(
                t.begun,
                i,
            ) by {
                if i < n {
                    assert(after_its_namer(s.begun, i));
                    let j = choose|j: int|
                        0 <= j < i && (#[trigger] s.begun[j]).key == s.begun[i].by
                            && s.begun[j].depth + 1 == s.begun[i].depth;
                    assert(t.begun[j].key == t.begun[i].by);
                } else {
                    assert(has_namer(s.begun, s.waiting[0]));
                    let j = choose|j: int|
                        0 <= j < s.begun.len() && (#[trigger] s.begun[j]).key == w.by
                            && s.begun[j].depth + 1 == w.depth;
                    assert(t.begun[j].key == t.begun[i].by);
                }
            }
            assert forall|i: int| 0 <= i < t.waiting.len() implies has_namer(
                t.begun,
                #[trigger] t.waiting[i],
            ) by {
                if i < left.len() {
                    assert(t.waiting[i] == s.waiting[i + 1]);
                    assert(has_namer(s.begun, s.waiting[i + 1]));
                    let j = choose|j: int|
                        0 <= j < s.begun.len() && (#[trigger] s.begun[j]).key == s.waiting[i
                            + 1].by && s.begun[j].depth + 1 == s.waiting[i + 1].depth;
                    assert(t.begun[j].key == t.waiting[i].by);
                } else {
                    assert(t.waiting[i] == more[i - left.len()]);
                    assert(t.begun[n] == b);
                }
            }
            assert forall|i: int| 0 <= i < t.waiting.len() implies t.begun.last().depth <= (
            #[trigger] t.waiting[i]).depth <= t.begun.last().depth + 1 by {
                if i < left.len() {
                    assert(t.waiting[i] == s.waiting[i + 1]);
                    assert(s.waiting[0].depth <= s.waiting[i + 1].depth);
                } else {
                    assert(t.waiting[i] == more[i - left.len()]);
                }
            }
            assert forall|i: int, j: int| 0 <= i < j < t.waiting.len() implies (
            #[trigger] t.waiting[i]).depth <= (#[trigger] t.waiting[j]).depth by {
                if i < left.len() {
                    assert(t.waiting[i] == s.waiting[i + 1]);
                    if j < left.len() {
                        assert(t.waiting[j] == s.waiting[j + 1]);
                    } else {
                        assert(t.waiting[j] == more[j - left.len()]);
                    }
                } else {
                    assert(t.waiting[i] == more[i - left.len()]);
                    assert(t.waiting[j] == more[j - left.len()]);
                }
            }
        }
    }
}

/// A whole load goes breadth first: whatever the files on disk name, after any
/// number of turns each file begun was begun once, after one that names it, and
/// none before a file fewer steps away from the first one.
pub proof fn law_loads_breadth_first(disk: Disk, root: Seq<char>, n: nat)
    ensures
        breadth_first(load_turns(disk, root, n)),
        load_turns(disk, root, n).begun[0] == (Begun { key: root, by: root, depth: 0 }),
{
    lemma_layered(disk, root, n);
}

/// Whether the queue and the identities of `i` are those of a load.
pub open spec fn follows(i: Includes, s: LoadState) -> bool {
    &&& i.waiting() == s.waiting.map_values(|w: Waiting| (w.file, w.optional))
    &&& i.begun() == begun_keys(s)
}

/// [`Includes`] takes the turns of a load: with the head of the queue taken, the
/// file begun unless it was before, and the files it names put in the queue, it
/// follows the load into its next turn.
pub proof fn law_includes_take_turns(
    disk: Disk,
    s: LoadState,
    before: Includes,
    taken: Includes,
    after: Includes,
)
    requires
        follows(before, s),
        s.waiting.len() > 0,
        taken.waiting() == before.waiting().skip(1),
        taken.begun() == before.begun(),
        ({
            let key = (disk.key)(before.waiting()[0].0);
            if taken.begun().contains(key) {
                after.begun() == taken.begun() && after.waiting() == taken.waiting()
            } else {
                after.begun() == taken.begun().push(key) && after.waiting() == taken.waiting()
                    + (disk.names)(key)
            }
        }),
    ensures
        follows(after, load_turn(disk, s)),
{
    let w = s.waiting[0];
    let b = Begun { key: (disk.key)(w.file), by: w.by, depth: w.depth };
    assert(before.waiting()[0] == (w.file, w.optional));
    let t = load_turn(disk, s);
    assert(after.waiting() =~= t.waiting.map_values(|w: Waiting| (w.file, w.optional)));
    assert(after.begun() =~= begun_keys(t));
}

proof fn lemma_layered(disk: Disk, root: Seq<char>, n: nat)
    ensures
        breadth_first(load_turns(disk, root, n)),
        layered(load_turns(disk, root, n)),
        load_turns(disk, root, n).begun[0] == (Begun { key: root, by: root, depth: 0 }),
    decreases n,
{
    if n == 0 {
        let s = load_start(disk, root);
        let b = s.begun[0];
        assert forall|i: int| 0 <= i < s.waiting.len() implies has_namer(
            s.begun,
            #[trigger] s.waiting[i],
        ) by {
            assert(s.begun[0].key == s.waiting[i].by);
        }
    } else {
        lemma_layered(disk, root, (n - 1) as nat);
        lemma_turn_keeps_layers(disk, load_turns(disk, root, (n - 1) as nat));
    }
}

// ---------------------------------------------------------------- palette

/// Whether a palette index was set explicitly.
pub open spec fn index_set(mask: Seq<u64>, i: int) -> bool {
    mask[i / 64] & index_bit(i) != 0
}

impl Config {
    /// Whether palette index `i` was set explicitly, so that generating the
    /// palette leaves it alone.
    pub fn palette_index_set(&self, i: u8) -> (r: bool)
        ensures
            r == index_set(self@.colors.palette_set, i as int),
    {
        let k: usize = i as usize;
        self.colors.palette_set[k / 64] & (1u64 << (k % 64) as u64) != 0
    }

    /// The palette the terminal should use: as configured, or `generated` from
    /// the base colours where generating is on.
    pub fn effective_palette(&self, generated: &[Rgb; 256]) -> (r: [Rgb; 256])
        ensures
            r@ == if self@.colors.palette_generate {
                generated@
            } else {
                self@.colors.palette
            },
    {
        if self.colors.palette_generate {
            *generated
        } else {
            self.colors.palette
        }
    }
}

} // verus!
