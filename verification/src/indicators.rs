//! The small in-window indicators: search corner and count, key state, progress
//! and undo toasts.

use crate::keybind::{key_name, label, mod_names, name_of, Chord, TableEntry};
use crate::text::{concat3, decimal, joined, to_decimal};
use vstd::prelude::*;

verus! {

/// A corner of a pane.
#[derive(Clone, Copy, Debug, PartialEq, Eq, Structural)]
pub enum Corner {
    TopLeft,
    TopRight,
    BottomLeft,
    BottomRight,
}

impl Default for Corner {
    fn default() -> (c: Self)
        ensures
            c == Corner::TopRight,
    {
        Corner::TopRight
    }
}

/// Where something pinned to a corner hangs: at which edges, and which way the
/// margin moves it.
#[derive(Clone, Copy, Debug, PartialEq, Eq, Structural)]
pub struct Anchor {
    pub left: bool,
    pub top: bool,
    /// Sign of the margin to the right and down.
    pub dx: i8,
    pub dy: i8,
}

impl Corner {
    /// The corner's edges.
    pub open spec fn edges(self) -> (bool, bool) {
        (
            self == Corner::TopLeft || self == Corner::BottomLeft,
            self == Corner::TopLeft || self == Corner::TopRight,
        )
    }

    /// Where something pinned to this corner hangs, the margin moving it into
    /// the pane.
    pub fn anchor(self) -> (a: Anchor)
        ensures
            (a.left, a.top) == self.edges(),
            a.dx == if a.left {
                1i8
            } else {
                -1i8
            },
            a.dy == if a.top {
                1i8
            } else {
                -1i8
            },
    {
        match self {
            Corner::TopLeft => Anchor { left: true, top: true, dx: 1, dy: 1 },
            Corner::TopRight => Anchor { left: false, top: true, dx: -1, dy: 1 },
            Corner::BottomLeft => Anchor { left: true, top: false, dx: 1, dy: -1 },
            Corner::BottomRight => Anchor { left: false, top: false, dx: -1, dy: -1 },
        }
    }
}

/// The corner of the quadrant a point lies in, told by whether it is left of and
/// above the middle.
pub fn closest_corner(left_of_middle: bool, above_middle: bool) -> (c: Corner)
    ensures
        c.edges() == (left_of_middle, above_middle),
{
    if left_of_middle {
        if above_middle {
            Corner::TopLeft
        } else {
            Corner::BottomLeft
        }
    } else if above_middle {
        Corner::TopRight
    } else {
        Corner::BottomRight
    }
}

/// The search bar's match counter.
pub open spec fn count_text(count: nat, current: nat, query_empty: bool) -> Seq<char> {
    if count == 0 {
        if query_empty {
            Seq::empty()
        } else {
            "0/0"@
        }
    } else {
        decimal(
            (if current < count {
                current
            } else {
                (count - 1) as nat
            }) + 1,
        ) + "/"@ + decimal(count)
    }
}

/// The search bar's match counter: the selected match and the total; nothing
/// without a query, and a stale selection reads as the last match.
pub fn search_count_label(count: usize, current: usize, query_empty: bool) -> (s: String)
    ensures
        s@ == count_text(count as nat, current as nat, query_empty),
{
    if count == 0 {
        if query_empty {
            proof {
                reveal_strlit("");
            }
            let s = "".to_owned();
            assert(s@ =~= Seq::empty());
            s
        } else {
            "0/0".to_owned()
        }
    } else {
        let at: usize = if current < count {
            current
        } else {
            count - 1
        };
        let a = to_decimal(at as u64 + 1);
        let b = to_decimal(count as u64);
        concat3(a.as_str(), "/", b.as_str())
    }
}

/// A chord's label: each modifier held with a plus sign behind it, then the key.
proof fn lemma_label(c: Chord)
    ensures
        label(c) == (if c.mods.ctrl {
            "ctrl+"@
        } else {
            Seq::empty()
        }) + (if c.mods.alt {
            "alt+"@
        } else {
            Seq::empty()
        }) + (if c.mods.shift {
            "shift+"@
        } else {
            Seq::empty()
        }) + (if c.mods.sup {
            "super+"@
        } else {
            Seq::empty()
        }) + name_of(c.code),
{
    reveal_strlit("ctrl");
    reveal_strlit("alt");
    reveal_strlit("shift");
    reveal_strlit("super");
    reveal_strlit("ctrl+");
    reveal_strlit("alt+");
    reveal_strlit("shift+");
    reveal_strlit("super+");
    assert("ctrl+"@ =~= "ctrl"@.push('+'));
    assert("alt+"@ =~= "alt"@.push('+'));
    assert("shift+"@ =~= "shift"@.push('+'));
    assert("super+"@ =~= "super"@.push('+'));
    let v = mod_names(c.mods);
    let n = name_of(c.code);
    let w = v.push(n);
    assert(w.drop_last() =~= v);
    let e = Seq::<char>::empty();
    let a = if c.mods.ctrl {
        "ctrl"@.push('+')
    } else {
        e
    };
    let b = if c.mods.alt {
        "alt"@.push('+')
    } else {
        e
    };
    let d = if c.mods.shift {
        "shift"@.push('+')
    } else {
        e
    };
    let f = if c.mods.sup {
        "super"@.push('+')
    } else {
        e
    };
    assert(label(c) =~= a + b + d + f + n) by {
        reveal_with_fuel(joined, 6);
        if v.len() > 0 {
            let v1 = v.drop_last();
            if v1.len() > 0 {
                let v2 = v1.drop_last();
                if v2.len() > 0 {
                    let v3 = v2.drop_last();
                    assert(v3.len() <= 1);
                }
            }
        }
    }
}

/// One chord in config spelling.
pub fn chord_label(chord: &Chord) -> (r: String)
    ensures
        r@ == label(*chord),
{
    proof {
        reveal_strlit("");
        assert(""@ =~= Seq::empty());
        lemma_label(*chord);
    }
    let mut s = "".to_owned();
    let ghost e = Seq::<char>::empty();
    if chord.mods.ctrl {
        s.append("ctrl+");
    }
    assert(s@ =~= (if chord.mods.ctrl {
        "ctrl+"@
    } else {
        e
    }));
    let ghost a = s@;
    if chord.mods.alt {
        s.append("alt+");
    }
    assert(s@ =~= a + (if chord.mods.alt {
        "alt+"@
    } else {
        e
    }));
    let ghost b = s@;
    if chord.mods.shift {
        s.append("shift+");
    }
    assert(s@ =~= b + (if chord.mods.shift {
        "shift+"@
    } else {
        e
    }));
    let ghost c = s@;
    if chord.mods.sup {
        s.append("super+");
    }
    assert(s@ =~= c + (if chord.mods.sup {
        "super+"@
    } else {
        e
    }));
    s.append(key_name(chord.code));
    s
}

/// Texts with `sep` between each two of them.
pub open spec fn strung(v: Seq<Seq<char>>, sep: Seq<char>) -> Seq<char>
    decreases v.len(),
{
    if v.len() == 0 {
        Seq::empty()
    } else if v.len() == 1 {
        v[0]
    } else {
        strung(v.drop_last(), sep) + sep + v.last()
    }
}

/// The names of key tables.
pub open spec fn table_names(t: Seq<TableEntry>) -> Seq<Seq<char>> {
    t.map_values(|e: TableEntry| e.name@)
}

/// The labels of chords.
pub open spec fn labels(p: Seq<Chord>) -> Seq<Seq<char>> {
    p.map_values(|c: Chord| label(c))
}

/// The active key tables as the indicator shows them.
pub open spec fn tables_text(t: Seq<TableEntry>) -> Seq<char> {
    "["@ + strung(table_names(t), " › "@) + "]"@
}

/// The leaders of a key sequence as the indicator shows them.
pub open spec fn pending_text(p: Seq<Chord>) -> Seq<char> {
    strung(labels(p), " "@) + " …"@
}

/// What the key-state indicator shows: the active key tables, outermost first,
/// and the leaders of an unfinished key sequence; nothing without either.
pub open spec fn key_state(p: Seq<Chord>, t: Seq<TableEntry>) -> Option<Seq<char>> {
    if t.len() > 0 && p.len() > 0 {
        Some(tables_text(t) + "  |  "@ + pending_text(p))
    } else if t.len() > 0 {
        Some(tables_text(t))
    } else if p.len() > 0 {
        Some(pending_text(p))
    } else {
        None
    }
}

/// String texts together, one more at a time.
fn add_piece(s: &mut String, first: bool, sep: &str, piece: &str, v: Ghost<Seq<Seq<char>>>)
    requires
        old(s)@ == strung(v@, sep@),
        first == (v@.len() == 0),
    ensures
        final(s)@ == strung(v@.push(piece@), sep@),
{
    let ghost w = v@.push(piece@);
    assert(w.drop_last() =~= v@);
    if !first {
        s.append(sep);
    }
    s.append(piece);
    assert(s@ =~= strung(w, sep@));
}

/// What the key-state indicator shows.
pub fn key_state_label(pending: &[Chord], tables: &[TableEntry]) -> (r: Option<String>)
    ensures
        match r {
            Some(s) => key_state(pending@, tables@) == Some(s@),
            None => key_state(pending@, tables@) is None,
        },
{
    proof {
        reveal_strlit("");
    }
    let mut names = "".to_owned();
    let mut i: usize = 0;
    assert(tables@.take(0) =~= Seq::empty());
    assert(table_names(tables@.take(0)) =~= Seq::empty());
    assert(names@ =~= Seq::empty());
    while i < tables.len()
        invariant
            i <= tables@.len(),
            names@ == strung(table_names(tables@.take(i as int)), " › "@),
        decreases tables@.len() - i,
    {
        let ghost v = table_names(tables@.take(i as int));
        add_piece(&mut names, i == 0, " › ", tables[i].name.as_str(), Ghost(v));
        assert(table_names(tables@.take(i + 1)) =~= v.push(tables@[i as int].name@));
        i += 1;
    }
    assert(tables@.take(tables@.len() as int) =~= tables@);
    let mut keys = "".to_owned();
    let mut i: usize = 0;
    assert(pending@.take(0) =~= Seq::empty());
    assert(labels(pending@.take(0)) =~= Seq::empty());
    assert(keys@ =~= Seq::empty());
    while i < pending.len()
        invariant
            i <= pending@.len(),
            keys@ == strung(labels(pending@.take(i as int)), " "@),
        decreases pending@.len() - i,
    {
        let ghost v = labels(pending@.take(i as int));
        let l = chord_label(&pending[i]);
        add_piece(&mut keys, i == 0, " ", l.as_str(), Ghost(v));
        assert(labels(pending@.take(i + 1)) =~= v.push(label(pending@[i as int])));
        i += 1;
    }
    assert(pending@.take(pending@.len() as int) =~= pending@);
    let shown_tables = concat3("[", names.as_str(), "]");
    keys.append(" …");
    if tables.len() > 0 && pending.len() > 0 {
        Some(concat3(shown_tables.as_str(), "  |  ", keys.as_str()))
    } else if tables.len() > 0 {
        Some(shown_tables)
    } else if pending.len() > 0 {
        Some(keys)
    } else {
        None
    }
}

/// Progress that a program reports.
#[derive(Clone, Copy, Debug, PartialEq, Eq, Structural)]
pub enum Progress {
    Off,
    Normal(u8),
    Error(u8),
    Indeterminate,
    Paused(u8),
}

/// How a tab's progress bar is drawn.
#[derive(Clone, Copy, Debug, PartialEq, Eq, Structural)]
pub enum ProgressBar {
    Hidden,
    /// Filled to this many percent.
    Filled(u8),
    /// A segment sweeping across.
    Sweeping,
}

/// The bar that shows a progress.
pub open spec fn bar_of(p: Progress) -> ProgressBar {
    match p {
        Progress::Off => ProgressBar::Hidden,
        Progress::Indeterminate => ProgressBar::Sweeping,
        Progress::Normal(v) | Progress::Error(v) | Progress::Paused(v) => ProgressBar::Filled(
            if v > 100 {
                100
            } else {
                v
            },
        ),
    }
}

/// How a tab's progress bar is drawn; no more than full.
pub fn progress_bar(p: Progress) -> (b: ProgressBar)
    ensures
        b == bar_of(p),
        b == (match p {
            Progress::Off => ProgressBar::Hidden,
            Progress::Indeterminate => ProgressBar::Sweeping,
            Progress::Normal(v) | Progress::Error(v) | Progress::Paused(v) => ProgressBar::Filled(
                if v > 100 {
                    100
                } else {
                    v
                },
            ),
        }),
{
    let v: u8 = match p {
        Progress::Off => {
            return ProgressBar::Hidden;
        },
        Progress::Indeterminate => {
            return ProgressBar::Sweeping;
        },
        Progress::Normal(v) => v,
        Progress::Error(v) => v,
        Progress::Paused(v) => v,
    };
    ProgressBar::Filled(
        if v > 100 {
            100
        } else {
            v
        },
    )
}

/// What an undo entry did.
#[derive(Clone, Copy, Debug, PartialEq, Eq, Structural)]
pub enum UndoKind {
    ReopenSplit,
    CloseSplit,
    ReopenTabs(usize),
    CloseTabs(usize),
    ReopenWindow,
    CloseWindow,
}

/// One tab, or how many.
pub open spec fn tabs_text(n: nat) -> Seq<char> {
    if n == 1 {
        "tab"@
    } else {
        decimal(n) + " tabs"@
    }
}

/// What an undo entry did, in words.
pub open spec fn undo_text(kind: UndoKind) -> Seq<char> {
    match kind {
        UndoKind::ReopenSplit => "reopened split"@,
        UndoKind::CloseSplit => "closed split"@,
        UndoKind::ReopenTabs(n) => "reopened "@ + tabs_text(n as nat),
        UndoKind::CloseTabs(n) => "closed "@ + tabs_text(n as nat),
        UndoKind::ReopenWindow => "reopened window"@,
        UndoKind::CloseWindow => "closed window"@,
    }
}

/// One tab, or how many.
fn tabs(n: usize) -> (s: String)
    ensures
        s@ == tabs_text(n as nat),
{
    if n == 1 {
        "tab".to_owned()
    } else {
        let mut s = to_decimal(n as u64);
        s.append(" tabs");
        s
    }
}

/// The toast for an undo, or for a redo.
pub fn undo_toast(kind: UndoKind, redo: bool) -> (s: String)
    ensures
        s@ == (if redo {
            "Redo"@
        } else {
            "Undo"@
        }) + ": "@ + undo_text(kind),
{
    let verb = if redo {
        "Redo"
    } else {
        "Undo"
    };
    let what = match kind {
        UndoKind::ReopenSplit => "reopened split".to_owned(),
        UndoKind::CloseSplit => "closed split".to_owned(),
        UndoKind::ReopenTabs(n) => crate::text::concat("reopened ", tabs(n).as_str()),
        UndoKind::CloseTabs(n) => crate::text::concat("closed ", tabs(n).as_str()),
        UndoKind::ReopenWindow => "reopened window".to_owned(),
        UndoKind::CloseWindow => "closed window".to_owned(),
    };
    concat3(verb, ": ", what.as_str())
}

/// A bar is hidden exactly where there is no progress, and sweeps exactly where
/// it cannot be measured. Any other is filled as far as the progress says, and
/// never more than full, whether it goes on, failed or is paused.
pub proof fn law_bar_shows_the_progress(p: Progress, v: u8)
    ensures
        bar_of(p) == ProgressBar::Hidden <==> p == Progress::Off,
        bar_of(p) == ProgressBar::Sweeping <==> p == Progress::Indeterminate,
        bar_of(Progress::Normal(v)) is Filled,
        v <= 100 ==> bar_of(Progress::Normal(v))->0 == v,
        v > 100 ==> bar_of(Progress::Normal(v))->0 == 100,
        bar_of(Progress::Error(v)) == bar_of(Progress::Normal(v)),
        bar_of(Progress::Paused(v)) == bar_of(Progress::Normal(v)),
{
}

/// A corner lies on the two edges that it is named after.
pub proof fn law_corner_lies_on_its_edges(c: Corner)
    ensures
        c.edges().0 <==> c is TopLeft || c is BottomLeft,
        !c.edges().0 <==> c is TopRight || c is BottomRight,
        c.edges().1 <==> c is TopLeft || c is TopRight,
        !c.edges().1 <==> c is BottomLeft || c is BottomRight,
{
}

/// The counter shows the place of the selected match, counted from one and never
/// behind the last, and the number of matches, whatever the query; without a
/// match it shows nothing for an empty query and zeros for another.
pub proof fn law_counter_shows_place_and_total(count: nat, current: nat, query_empty: bool)
    ensures
        current < count ==> count_text(count, current, query_empty) == decimal(current + 1) + "/"@
            + decimal(count),
        0 < count <= current ==> count_text(count, current, query_empty) == count_text(
            count,
            (count - 1) as nat,
            query_empty,
        ),
        count == 0 ==> (count_text(count, current, query_empty).len() == 0 <==> query_empty),
        count == 0 && !query_empty ==> count_text(count, current, query_empty) == decimal(0) + "/"@
            + decimal(0),
{
    reveal_strlit("0/0");
    reveal_strlit("/");
    assert(decimal(0) =~= seq!['0']);
    assert("0/0"@ =~= seq!['0'] + "/"@ + seq!['0']);
}

/// Texts are strung in order: a list of one is its text, and two lists strung one
/// after the other have the separator between them.
pub proof fn law_strung_in_order(v: Seq<Seq<char>>, w: Seq<Seq<char>>, sep: Seq<char>)
    requires
        v.len() > 0,
    ensures
        v.len() == 1 ==> strung(v, sep) == v[0],
        w.len() > 0 ==> strung(v + w, sep) == strung(v, sep) + sep + strung(w, sep),
        w.len() == 0 ==> strung(v + w, sep) == strung(v, sep),
    decreases w.len(),
{
    if w.len() == 0 {
        assert(v + w =~= v);
    } else {
        assert((v + w).drop_last() =~= v + w.drop_last());
        law_strung_in_order(v, w.drop_last(), sep);
        if w.len() == 1 {
            assert((v + w).drop_last() =~= v);
        } else {
            assert(strung(v, sep) + sep + strung(w.drop_last(), sep) + sep + w.last() =~= strung(
                v,
                sep,
            ) + sep + (strung(w.drop_last(), sep) + sep + w.last()));
        }
    }
}

/// The indicator shows nothing exactly where there is nothing to show; tables and
/// leaders are shown as each is alone, tables first. Tables stand in brackets, and
/// leaders have an ellipsis behind them.
pub proof fn law_indicator_shows_what_there_is(p: Seq<Chord>, t: Seq<TableEntry>)
    ensures
        key_state(p, t) is None <==> p.len() == 0 && t.len() == 0,
        p.len() > 0 && t.len() > 0 ==> key_state(p, t)->0 == key_state(Seq::empty(), t)->0
            + "  |  "@ + key_state(p, Seq::empty())->0,
        t.len() == 1 ==> key_state(Seq::empty(), t) == Some("["@ + t[0].name@ + "]"@),
        p.len() == 1 ==> key_state(p, Seq::empty()) == Some(label(p[0]) + " …"@),
{
}

/// Number and kind of what was undone are told: one tab is not counted, any other
/// number is; what closes and what reopens is told apart.
pub proof fn law_toast_tells_what_was_undone(n: usize)
    ensures
        n != 1 ==> undo_text(UndoKind::CloseTabs(n)) == "closed "@ + decimal(n as nat) + " tabs"@,
        n == 1 ==> undo_text(UndoKind::CloseTabs(n)) == "closed "@ + "tab"@,
        n != 1 ==> undo_text(UndoKind::ReopenTabs(n)) == "reopened "@ + decimal(n as nat)
            + " tabs"@,
        n == 1 ==> undo_text(UndoKind::ReopenTabs(n)) == "reopened "@ + "tab"@,
        undo_text(UndoKind::CloseSplit) == "closed "@ + "split"@,
        undo_text(UndoKind::ReopenSplit) == "reopened "@ + "split"@,
        undo_text(UndoKind::CloseWindow) == "closed "@ + "window"@,
        undo_text(UndoKind::ReopenWindow) == "reopened "@ + "window"@,
{
    reveal_strlit("closed ");
    reveal_strlit("reopened ");
    reveal_strlit("split");
    reveal_strlit("window");
    reveal_strlit("closed split");
    reveal_strlit("reopened split");
    reveal_strlit("closed window");
    reveal_strlit("reopened window");
    assert(undo_text(UndoKind::CloseSplit) =~= "closed "@ + "split"@);
    assert(undo_text(UndoKind::ReopenSplit) =~= "reopened "@ + "split"@);
    assert(undo_text(UndoKind::CloseWindow) =~= "closed "@ + "window"@);
    assert(undo_text(UndoKind::ReopenWindow) =~= "reopened "@ + "window"@);
    assert("closed "@ + decimal(n as nat) + " tabs"@ =~= "closed "@ + (decimal(n as nat)
        + " tabs"@));
    assert("reopened "@ + decimal(n as nat) + " tabs"@ =~= "reopened "@ + (decimal(n as nat)
        + " tabs"@));
}

} // verus!
