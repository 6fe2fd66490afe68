//! Menu-selection state for the surrounding views.
//!
//! The views themselves (layout, drawing) live outside this crate; what is
//! here is the part with behaviour: which entry is selected, and how the
//! selection moves with wraparound.

use vstd::prelude::*;

verus! {

/// How keystrokes are currently interpreted.
#[derive(Clone, Copy, Debug, PartialEq, Eq, Structural)]
pub enum InputMode {
    Normal,
    Editing,
    Typing,
}

/// Which view the program is showing.
#[derive(Clone, Copy, Debug, PartialEq, Eq, Structural)]
pub enum State {
    TypingTest,
    MainMenu,
    Chart,
}

/// The selectable menu: a fixed number of entries and an optional selection.
pub struct Menu {
    entries: usize,
    selected: Option<usize>,
}

impl Menu {
    pub closed spec fn entry_count(&self) -> usize {
        self.entries
    }

    pub closed spec fn selection(&self) -> Option<usize> {
        self.selected
    }

    pub open spec fn wf(&self) -> bool {
        &&& self.entry_count() > 0
        &&& (self.selection() is Some ==> self.selection()->0 < self.entry_count())
    }

    /// A menu of `entries` items with nothing selected yet. Rejects an empty
    /// menu by construction.
    pub fn new(entries: usize) -> (r: Menu)
        requires
            entries > 0,
        ensures
            r.wf(),
            r.entry_count() == entries,
            r.selection() is None,
    {
        Menu { entries, selected: None }
    }

    pub fn selected(&self) -> (r: Option<usize>)
        ensures
            r == self.selection(),
    {
        self.selected
    }

    /// Moves the selection one entry up, wrapping from the first entry to the
    /// last; with no selection yet, selects the first entry.
    pub fn up(&mut self)
        requires
            old(self).wf(),
        ensures
            final(self).wf(),
            final(self).entry_count() == old(self).entry_count(),
            final(self).selection() == Some(
                match old(self).selection() {
                    Some(i) => if i == 0 {
                        (old(self).entry_count() - 1) as usize
                    } else {
                        (i - 1) as usize
                    },
                    None => 0usize,
                },
            ),
    {
        let i: usize = match self.selected {
            Some(i) => if i == 0 {
                self.entries - 1
            } else {
                i - 1
            },
            None => 0,
        };
        self.selected = Some(i);
    }

    /// Moves the selection one entry down, wrapping from the last entry to
    /// the first; with no selection yet, selects the first entry.
    pub fn down(&mut self)
        requires
            old(self).wf(),
        ensures
            final(self).wf(),
            final(self).entry_count() == old(self).entry_count(),
            final(self).selection() == Some(
                match old(self).selection() {
                    Some(i) => if i >= old(self).entry_count() - 1 {
                        0usize
                    } else {
                        (i + 1) as usize
                    },
                    None => 0usize,
                },
            ),
    {
        let i: usize = match self.selected {
            Some(i) => if i >= self.entries - 1 {
                0
            } else {
                i + 1
            },
            None => 0,
        };
        self.selected = Some(i);
    }
}

} // verus!
