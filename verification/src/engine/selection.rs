//! The selection's two ends and what they mean for the next frame.

use vstd::prelude::*;

verus! {

/// What a selection gesture picks.
#[derive(Clone, Copy, Debug, PartialEq, Eq, Structural)]
pub enum SelectKind {
    Word,
    Line,
    /// The output of one command.
    Output,
}

/// How the moving end of a selection is moved.
#[derive(Clone, Copy, Debug, PartialEq, Eq, Structural)]
pub enum SelectionAdjust {
    Left,
    Right,
    Up,
    Down,
    PageUp,
    PageDown,
    Home,
    End,
    BeginningOfLine,
    EndOfLine,
}

/// The two ends of an installed selection. An end that could not be tracked is
/// `None`.
pub type Pins<P> = (Option<P>, Option<P>);

/// The selection as the engine keeps track of it. `P` pins one of its ends to a
/// cell.
pub struct SelectionState<P> {
    /// The end a drag started from.
    pub anchor: Option<P>,
    /// The end that moves.
    pub head: Option<P>,
    /// The selection is a block.
    pub rectangle: bool,
    /// The terminal has a selection.
    pub installed: bool,
    /// The selection changed since the last frame.
    pub dirty: bool,
    /// The viewport moved since the last frame.
    pub viewport_moved: bool,
}

impl<P> SelectionState<P> {
    /// Nothing is pinned unless a drag is under way or something is selected.
    pub open spec fn idle(&self) -> bool {
        self.anchor is None && self.head is None && !self.rectangle && !self.installed
    }

    /// Nothing selected, nothing to redraw.
    pub fn new() -> (s: Self)
        ensures
            s.idle(),
            !s.dirty,
            !s.viewport_moved,
    {
        SelectionState {
            anchor: None,
            head: None,
            rectangle: false,
            installed: false,
            dirty: false,
            viewport_moved: false,
        }
    }

    /// The state after an installed selection's ends were taken over.
    pub open spec fn adopted(self, pins: Pins<P>) -> Self {
        SelectionState {
            anchor: pins.0,
            head: pins.1,
            installed: true,
            dirty: true,
            ..self
        }
    }

    /// The state after the selection was dropped.
    pub open spec fn cleared(self) -> Self {
        SelectionState {
            anchor: None,
            head: None,
            rectangle: false,
            installed: false,
            dirty: self.dirty || self.installed,
            ..self
        }
    }

    /// Take over the ends of a selection that was installed. Tells whether one
    /// was; if none, nothing changes.
    pub fn adopt(&mut self, pins: Option<Pins<P>>) -> (r: bool)
        ensures
            r == pins is Some,
            *final(self) == (match pins {
                Some(p) => old(self).adopted(p),
                None => *old(self),
            }),
    {
        match pins {
            Some((anchor, head)) => {
                self.anchor = anchor;
                self.head = head;
                self.installed = true;
                self.dirty = true;
                true
            },
            None => false,
        }
    }

    /// Take over a word, a line, a command's output or everything: a run of
    /// text, never a block. A gesture that found nothing changes nothing.
    pub fn select_extent(&mut self, pins: Option<Pins<P>>) -> (r: bool)
        ensures
            r == pins is Some,
            *final(self) == (match pins {
                Some(p) => (SelectionState { rectangle: false, ..old(self).adopted(p) }),
                None => *old(self),
            }),
    {
        if pins.is_some() {
            self.rectangle = false;
        }
        self.adopt(pins)
    }

    /// Start a drag from `anchor`.
    pub fn begin(&mut self, anchor: Option<P>)
        ensures
            *final(self) == (SelectionState { anchor, ..*old(self) }),
    {
        self.anchor = anchor;
    }

    /// Drag the moving end; `pins` are the ends installed, `None` where the
    /// anchor lost its cell, and the selection is then dropped. Tells whether
    /// the terminal's selection is to be removed.
    pub fn drag(&mut self, pins: Option<Pins<P>>, rectangle: bool) -> (remove: bool)
        ensures
            *final(self) == (match pins {
                Some(p) => (SelectionState { rectangle, ..old(self).adopted(p) }),
                None => old(self).cleared(),
            }),
            remove == (pins is None && old(self).installed),
    {
        self.rectangle = rectangle;
        if !self.adopt(pins) {
            return self.clear();
        }
        false
    }

    /// Drop the selection. Tells whether the terminal's is to be removed.
    pub fn clear(&mut self) -> (remove: bool)
        ensures
            *final(self) == old(self).cleared(),
            remove == old(self).installed,
    {
        let remove = self.installed;
        self.anchor = None;
        self.head = None;
        self.rectangle = false;
        if remove {
            self.dirty = true;
        }
        self.installed = false;
        remove
    }

    /// The ends to move, where there is a selection with both its ends pinned.
    pub fn ends(&self) -> (r: Option<(&P, &P)>)
        ensures
            match r {
                Some((a, h)) => self.installed && self.anchor == Some(*a) && self.head == Some(*h),
                None => !self.installed || self.anchor is None || self.head is None,
            },
    {
        if !self.installed {
            return None;
        }
        match (&self.anchor, &self.head) {
            (Some(a), Some(h)) => Some((a, h)),
            _ => None,
        }
    }

    /// Take over a selection whose moving end was moved, with the row that end
    /// is on. A block stays a block.
    pub fn adjust(&mut self, moved: Option<(Pins<P>, Option<u32>)>) -> (row: Option<u32>)
        ensures
            *final(self) == (match moved {
                Some((p, _)) => old(self).adopted(p),
                None => *old(self),
            }),
            row == (match moved {
                Some((_, r)) => r,
                None => None,
            }),
    {
        match moved {
            Some((pins, row)) => {
                self.adopt(Some(pins));
                row
            },
            None => None,
        }
    }

    /// Note that the viewport moved.
    pub fn scrolled(&mut self)
        ensures
            *final(self) == (SelectionState { viewport_moved: true, ..*old(self) }),
    {
        self.viewport_moved = true;
    }

    /// Whether the next frame has to be drawn in full; asking settles it.
    pub fn take_moved(&mut self) -> (moved: bool)
        ensures
            moved == (old(self).viewport_moved || old(self).dirty),
            *final(self) == (SelectionState { viewport_moved: false, dirty: false, ..*old(self) }),
    {
        let moved = self.viewport_moved || self.dirty;
        self.viewport_moved = false;
        self.dirty = false;
        moved
    }
}

/// Dropping a selection leaves nothing selected, and dropping it twice is
/// dropping it once.
pub proof fn law_clear_is_final<P>(s: SelectionState<P>)
    ensures
        s.cleared().idle(),
        s.cleared().cleared() == s.cleared(),
{
}

/// A change of the selection is drawn: whatever installs one or takes one away
/// makes the next frame a full one.
pub proof fn law_selection_change_is_drawn<P>(s: SelectionState<P>, pins: Pins<P>)
    ensures
        s.adopted(pins).dirty,
        s.installed ==> s.cleared().dirty,
        !s.installed && !s.dirty ==> !s.cleared().dirty,
{
}

/// A selection taken over has the ends that were pinned, each in its place; a
/// block stays a block, and the viewport is where it was.
pub proof fn law_adopted_selection_has_its_ends<P>(s: SelectionState<P>, pins: Pins<P>)
    ensures
        s.adopted(pins).anchor == pins.0,
        s.adopted(pins).head == pins.1,
        s.adopted(pins).installed,
        s.adopted(pins).rectangle == s.rectangle,
        s.adopted(pins).viewport_moved == s.viewport_moved,
        s.cleared().viewport_moved == s.viewport_moved,
{
}

} // verus!
