//! Input-method composition: what is shown, what is typed, and typing it once.

use crate::text::same_str;
use vstd::prelude::*;

verus! {

/// An input-method event.
#[derive(Clone, Debug, PartialEq, Eq)]
pub enum ImeEvent {
    Enabled,
    /// The composition so far.
    Preedit(String),
    /// The composition is finished.
    Commit(String),
    Disabled,
}

/// The composition shown at the cursor.
#[derive(Clone, Debug, PartialEq, Eq)]
pub struct Preedit {
    text: String,
}

impl View for Preedit {
    type V = Seq<char>;

    closed spec fn view(&self) -> Seq<char> {
        self.text@
    }
}

/// The composition shown after an event.
pub open spec fn shown_after(shown: Seq<char>, ev: ImeEvent) -> Seq<char> {
    match ev {
        ImeEvent::Preedit(t) => t@,
        ImeEvent::Enabled => shown,
        _ => Seq::empty(),
    }
}

/// The text an event types; none for an empty commit.
pub open spec fn typed_by(ev: ImeEvent) -> Option<Seq<char>> {
    match ev {
        ImeEvent::Commit(t) if t@.len() > 0 => Some(t@),
        _ => None,
    }
}

impl Default for Preedit {
    /// No composition.
    fn default() -> (p: Self)
        ensures
            p@ == Seq::<char>::empty(),
    {
        proof {
            reveal_strlit("");
        }
        let p = Preedit { text: "".to_owned() };
        assert(p@ =~= Seq::<char>::empty());
        p
    }
}

impl Preedit {
    /// Apply one event. Returns the text to type into the shell, if any.
    pub fn apply(&mut self, ev: &ImeEvent) -> (typed: Option<String>)
        ensures
            final(self)@ == shown_after(old(self)@, *ev),
            match typed {
                Some(t) => typed_by(*ev) == Some(t@),
                None => typed_by(*ev) is None,
            },
    {
        match ev {
            ImeEvent::Preedit(t) => {
                self.text = t.as_str().to_owned();
                None
            },
            ImeEvent::Commit(t) => {
                self.clear();
                if t.as_str().is_empty() {
                    None
                } else {
                    Some(t.as_str().to_owned())
                }
            },
            ImeEvent::Enabled => None,
            ImeEvent::Disabled => {
                self.clear();
                None
            },
        }
    }

    /// Whether a composition is in progress; keys then belong to the input
    /// method.
    pub fn active(&self) -> (r: bool)
        ensures
            r == (self@.len() > 0),
    {
        !self.text.as_str().is_empty()
    }

    /// The composition shown.
    pub fn text(&self) -> (s: &str)
        ensures
            s@ == self@,
    {
        self.text.as_str()
    }

    /// Drop the composition.
    pub fn clear(&mut self)
        ensures
            final(self)@ == Seq::<char>::empty(),
    {
        proof {
            reveal_strlit("");
        }
        self.text = "".to_owned();
        assert(self@ =~= Seq::<char>::empty());
    }
}

/// Finishing a composition, or turning the input method off, leaves nothing
/// shown.
pub proof fn law_no_stale_composition(shown: Seq<char>, ev: ImeEvent)
    requires
        ev is Commit || ev is Disabled || (ev matches ImeEvent::Preedit(t) && t@.len() == 0),
    ensures
        shown_after(shown, ev).len() == 0,
{
}

/// One frame's memory of what was typed as text and what was committed, so that
/// the second half of a pair is dropped whichever comes first.
#[derive(Debug)]
pub struct FrameDedupe {
    typed: Vec<String>,
    committed: Vec<String>,
}

/// The memory of a frame: what was typed and what was committed.
pub type Memory = (Seq<Seq<char>>, Seq<Seq<char>>);

/// The texts of a list.
pub open spec fn texts(v: Seq<String>) -> Seq<Seq<char>> {
    v.map_values(|s: String| s@)
}

/// A list without the first `t` in it.
pub open spec fn without(v: Seq<Seq<char>>, t: Seq<char>) -> Seq<Seq<char>>
    decreases v.len(),
{
    if v.len() == 0 {
        v
    } else if v[0] == t {
        v.skip(1)
    } else {
        seq![v[0]] + without(v.skip(1), t)
    }
}

/// A commit: whether it is typed, and the memory after it.
pub open spec fn on_commit(m: Memory, t: Seq<char>) -> (bool, Memory) {
    if m.0.contains(t) {
        (false, (without(m.0, t), m.1))
    } else {
        (true, (m.0, m.1.push(t)))
    }
}

/// A text: whether it is typed, and the memory after it.
pub open spec fn on_text(m: Memory, t: Seq<char>) -> (bool, Memory) {
    if m.1.contains(t) {
        (false, (m.0, without(m.1, t)))
    } else {
        (true, (m.0.push(t), m.1))
    }
}

proof fn lemma_without_at(v: Seq<Seq<char>>, t: Seq<char>, i: int)
    requires
        0 <= i < v.len(),
        v[i] == t,
        forall|k: int| 0 <= k < i ==> v[k] != t,
    ensures
        without(v, t) == v.remove(i),
    decreases v.len(),
{
    if i == 0 {
        assert(v.skip(1) =~= v.remove(0));
    } else {
        lemma_without_at(v.skip(1), t, i - 1);
        assert(seq![v[0]] + v.skip(1).remove(i - 1) =~= v.remove(i));
    }
}

/// Remove one occurrence of `text`, telling whether there was one.
fn take(v: &mut Vec<String>, text: &str) -> (found: bool)
    ensures
        found == texts(old(v)@).contains(text@),
        texts(final(v)@) == if found {
            without(texts(old(v)@), text@)
        } else {
            texts(old(v)@)
        },
{
    let mut i: usize = 0;
    let ghost all = texts(v@);
    while i < v.len()
        invariant
            i <= v@.len(),
            v@ == old(v)@,
            all == texts(v@),
            forall|k: int| 0 <= k < i ==> all[k] != text@,
        decreases v@.len() - i,
    {
        assert(all[i as int] == v@[i as int]@);
        if same_str(v[i].as_str(), text) {
            proof {
                assert(all.contains(all[i as int]));
                lemma_without_at(all, text@, i as int);
            }
            v.remove(i);
            assert(texts(v@) =~= all.remove(i as int));
            return true;
        }
        i += 1;
    }
    proof {
        if all.contains(text@) {
            let k = all.index_of(text@);
            assert(all[k] != text@);
        }
    }
    false
}

impl View for FrameDedupe {
    type V = Memory;

    closed spec fn view(&self) -> Memory {
        (texts(self.typed@), texts(self.committed@))
    }
}

impl Default for FrameDedupe {
    /// Nothing remembered.
    fn default() -> (d: Self)
        ensures
            d@ == (Seq::<Seq<char>>::empty(), Seq::<Seq<char>>::empty()),
    {
        let d = FrameDedupe { typed: Vec::new(), committed: Vec::new() };
        assert(texts(d.typed@) =~= Seq::empty());
        assert(texts(d.committed@) =~= Seq::empty());
        d
    }
}

impl FrameDedupe {
    /// A commit came: `true` if it is to be typed.
    pub fn commit(&mut self, text: &str) -> (r: bool)
        ensures
            (r, final(self)@) == on_commit(old(self)@, text@),
    {
        if take(&mut self.typed, text) {
            return false;
        }
        self.committed.push(text.to_owned());
        assert(self@.1 =~= old(self)@.1.push(text@));
        true
    }

    /// A text came: `true` if it is to be typed.
    pub fn text(&mut self, text: &str) -> (r: bool)
        ensures
            (r, final(self)@) == on_text(old(self)@, text@),
    {
        if take(&mut self.committed, text) {
            return false;
        }
        self.typed.push(text.to_owned());
        assert(self@.0 =~= old(self)@.0.push(text@));
        true
    }
}

/// How often a list holds a text.
pub open spec fn times(v: Seq<Seq<char>>, t: Seq<char>) -> nat
    decreases v.len(),
{
    if v.len() == 0 {
        0
    } else {
        times(v.drop_last(), t) + if v.last() == t {
            1nat
        } else {
            0nat
        }
    }
}

proof fn lemma_times_first(v: Seq<Seq<char>>, t: Seq<char>)
    requires
        v.len() > 0,
    ensures
        times(v, t) == times(v.skip(1), t) + if v[0] == t {
            1nat
        } else {
            0nat
        },
    decreases v.len(),
{
    if v.len() == 1 {
        assert(v.skip(1) =~= Seq::empty());
        assert(v.drop_last() =~= Seq::empty());
    } else {
        lemma_times_first(v.drop_last(), t);
        assert(v.drop_last().skip(1) =~= v.skip(1).drop_last());
    }
}

proof fn lemma_times_zero(v: Seq<Seq<char>>, t: Seq<char>)
    ensures
        v.contains(t) <==> times(v, t) > 0,
    decreases v.len(),
{
    if v.len() > 0 {
        lemma_times_zero(v.drop_last(), t);
        if v.contains(t) && v.last() != t {
            let i = v.index_of(t);
            assert(v.drop_last()[i] == t);
        }
        if v.drop_last().contains(t) {
            let i = v.drop_last().index_of(t);
            assert(v[i] == t);
        }
        if v.last() == t {
            assert(v[v.len() - 1] == t);
        }
    }
}

proof fn lemma_times_without(v: Seq<Seq<char>>, t: Seq<char>, x: Seq<char>)
    requires
        v.contains(t),
    ensures
        times(without(v, t), x) + (if x == t {
            1nat
        } else {
            0nat
        }) == times(v, x),
    decreases v.len(),
{
    lemma_times_first(v, x);
    if v[0] != t {
        let i = v.index_of(t);
        assert(v.skip(1)[i - 1] == t);
        lemma_times_without(v.skip(1), t, x);
        let w = seq![v[0]] + without(v.skip(1), t);
        lemma_times_first(w, x);
        assert(w.skip(1) =~= without(v.skip(1), t));
    }
}

/// The two halves of a pair meet: a commit and the same text, in either order,
/// are typed exactly once and leave the memory as it was, each text in it as
/// often as before.
pub proof fn law_pair_is_typed_once(m: Memory, t: Seq<char>, x: Seq<char>)
    requires
        !m.0.contains(t),
        !m.1.contains(t),
    ensures
        on_commit(m, t).0,
        !on_text(on_commit(m, t).1, t).0,
        times(on_text(on_commit(m, t).1, t).1.0, x) == times(m.0, x),
        times(on_text(on_commit(m, t).1, t).1.1, x) == times(m.1, x),
        on_text(m, t).0,
        !on_commit(on_text(m, t).1, t).0,
        times(on_commit(on_text(m, t).1, t).1.0, x) == times(m.0, x),
        times(on_commit(on_text(m, t).1, t).1.1, x) == times(m.1, x),
{
    let c = m.1.push(t);
    assert(c[c.len() - 1] == t);
    lemma_times_without(c, t, x);
    assert(c.drop_last() =~= m.1);
    let d = m.0.push(t);
    assert(d[d.len() - 1] == t);
    lemma_times_without(d, t, x);
    assert(d.drop_last() =~= m.0);
}

/// What one frame brings: a text or a commit.
pub ghost enum FrameEvent {
    Text(Seq<char>),
    Commit(Seq<char>),
}

/// One event: whether it is typed, and the memory after it.
pub open spec fn on_event(m: Memory, ev: FrameEvent) -> (bool, Memory) {
    match ev {
        FrameEvent::Text(t) => on_text(m, t),
        FrameEvent::Commit(t) => on_commit(m, t),
    }
}

/// The memory after the events of a frame.
pub open spec fn memory_after(evs: Seq<FrameEvent>) -> Memory
    decreases evs.len(),
{
    if evs.len() == 0 {
        (Seq::empty(), Seq::empty())
    } else {
        on_event(memory_after(evs.drop_last()), evs.last()).1
    }
}

/// How many events of a frame are `ev`.
pub open spec fn occurrences(evs: Seq<FrameEvent>, ev: FrameEvent) -> nat
    decreases evs.len(),
{
    if evs.len() == 0 {
        0
    } else {
        occurrences(evs.drop_last(), ev) + if evs.last() == ev {
            1nat
        } else {
            0nat
        }
    }
}

/// How many events of a frame on the text `t` are typed.
pub open spec fn typed_count(evs: Seq<FrameEvent>, t: Seq<char>) -> nat
    decreases evs.len(),
{
    if evs.len() == 0 {
        0
    } else {
        let ev = evs.last();
        let on_t = ev == FrameEvent::Text(t) || ev == FrameEvent::Commit(t);
        typed_count(evs.drop_last(), t) + if on_t && on_event(
            memory_after(evs.drop_last()),
            ev,
        ).0 {
            1nat
        } else {
            0nat
        }
    }
}

proof fn lemma_times_push(v: Seq<Seq<char>>, t: Seq<char>, x: Seq<char>)
    ensures
        times(v.push(t), x) == times(v, x) + if t == x {
            1nat
        } else {
            0nat
        },
{
    assert(v.push(t).drop_last() =~= v);
}

/// Each event cancels at most one partner of the other kind, whichever comes
/// first: of `n` texts and `m` commits of one string, in any order and among any
/// others, the larger of the two numbers is typed, and the memory holds what
/// found no partner.
pub proof fn law_each_event_cancels_one(evs: Seq<FrameEvent>, t: Seq<char>)
    ensures
        ({
            let n = occurrences(evs, FrameEvent::Text(t));
            let m = occurrences(evs, FrameEvent::Commit(t));
            &&& typed_count(evs, t) == if n > m {
                n
            } else {
                m
            }
            &&& times(memory_after(evs).0, t) == if n > m {
                (n - m) as nat
            } else {
                0
            }
            &&& times(memory_after(evs).1, t) == if m > n {
                (m - n) as nat
            } else {
                0
            }
        }),
    decreases evs.len(),
{
    if evs.len() > 0 {
        law_each_event_cancels_one(evs.drop_last(), t);
        let m = memory_after(evs.drop_last());
        match evs.last() {
            FrameEvent::Text(x) => {
                lemma_times_zero(m.1, x);
                if m.1.contains(x) {
                    lemma_times_without(m.1, x, t);
                } else {
                    lemma_times_push(m.0, x, t);
                }
            },
            FrameEvent::Commit(x) => {
                lemma_times_zero(m.0, x);
                if m.0.contains(x) {
                    lemma_times_without(m.0, x, t);
                } else {
                    lemma_times_push(m.1, x, t);
                }
            },
        }
    }
}

/// Nothing is remembered as both typed and committed.
pub open spec fn apart(m: Memory) -> bool {
    forall|t: Seq<char>| !(#[trigger] m.0.contains(t) && m.1.contains(t))
}

/// Every event keeps what was typed apart from what was committed.
pub proof fn law_memory_stays_apart(m: Memory, t: Seq<char>)
    requires
        apart(m),
    ensures
        apart(on_commit(m, t).1),
        apart(on_text(m, t).1),
{
    let a = on_commit(m, t).1;
    assert forall|x: Seq<char>| !(#[trigger] a.0.contains(x) && a.1.contains(x)) by {
        lemma_kept_apart(m.0, m.1, t, x);
    }
    let b = on_text(m, t).1;
    assert forall|x: Seq<char>| !(#[trigger] b.0.contains(x) && b.1.contains(x)) by {
        lemma_kept_apart(m.1, m.0, t, x);
    }
}

/// One list loses `t`, or the other gains it.
proof fn lemma_kept_apart(v: Seq<Seq<char>>, w: Seq<Seq<char>>, t: Seq<char>, x: Seq<char>)
    requires
        !(v.contains(x) && w.contains(x)),
    ensures
        v.contains(t) ==> !(without(v, t).contains(x) && w.contains(x)),
        !v.contains(t) ==> !(v.contains(x) && w.push(t).contains(x)),
{
    lemma_times_zero(v, x);
    lemma_times_zero(w, x);
    if v.contains(t) {
        lemma_times_zero(without(v, t), x);
        lemma_times_without(v, t, x);
    } else {
        lemma_times_zero(w.push(t), x);
        assert(w.push(t).drop_last() =~= w);
    }
}

/// What is composed is shown as it is and not typed; what is committed is typed
/// as it is, unless it is empty; and turning the input method on or off types
/// nothing.
pub proof fn law_composition_is_shown_then_typed(shown: Seq<char>, text: String)
    ensures
        shown_after(shown, ImeEvent::Preedit(text)) == text@,
        typed_by(ImeEvent::Preedit(text)) is None,
        text@.len() > 0 ==> typed_by(ImeEvent::Commit(text)) == Some(text@),
        text@.len() == 0 ==> typed_by(ImeEvent::Commit(text)) is None,
        shown_after(shown, ImeEvent::Enabled) == shown,
        typed_by(ImeEvent::Enabled) is None,
        typed_by(ImeEvent::Disabled) is None,
{
}

} // verus!
