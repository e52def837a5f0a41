//! The cursor of a list on screen: which of its items is selected.

use vstd::prelude::*;

verus! {

/// What a list on screen stands for: its items and its cursor.
pub struct ListView<T> {
    pub items: Seq<T>,
    pub state: ListState,
}

impl<T> ListView<T> {
    /// Whether the cursor fits the items.
    pub open spec fn wf(self) -> bool {
        self.state.fits(self.items.len())
    }

    /// The index of the selected item, if one is selected.
    pub open spec fn selected(self) -> Option<int> {
        self.state.index_in(self.items.len())
    }

    /// The list without items.
    pub open spec fn empty() -> ListView<T> {
        ListView { items: Seq::empty(), state: ListState { selected: None } }
    }

    /// The list of `items` with the cursor on the first of them.
    pub open spec fn fresh(items: Seq<T>) -> ListView<T> {
        ListView { items, state: ListState::at_first(items.len()) }
    }

    /// The list after a step down.
    pub open spec fn stepped_down(self) -> ListView<T> {
        ListView { items: self.items, state: self.state.stepped_down(self.items.len()) }
    }

    /// The list after a step up.
    pub open spec fn stepped_up(self) -> ListView<T> {
        ListView { items: self.items, state: self.state.stepped_up() }
    }

    /// The list without the selected item, the cursor brought back into it;
    /// the list itself where nothing is selected.
    pub open spec fn without_selected(self) -> ListView<T> {
        match self.selected() {
            Some(i) => ListView {
                items: self.items.remove(i),
                state: self.state.clamped((self.items.len() - 1) as nat),
            },
            None => self,
        }
    }
}

/// Which item of a list is selected, if any.
#[derive(Clone, Copy, Debug, PartialEq, Eq)]
pub struct ListState {
    pub selected: Option<usize>,
}

impl ListState {
    /// Whether the cursor fits a list of `len` items: it selects nothing, or
    /// one of the items.
    pub open spec fn fits(self, len: nat) -> bool {
        match self.selected {
            Some(i) => i < len,
            None => true,
        }
    }

    /// The cursor that `first` leaves for a list of `len` items.
    pub open spec fn at_first(len: nat) -> ListState {
        if len > 0 {
            ListState { selected: Some(0) }
        } else {
            ListState { selected: None }
        }
    }

    /// The cursor after a step down a list of `len` items: one further, but
    /// never past the last item and never from nothing to something.
    pub open spec fn stepped_down(self, len: nat) -> ListState {
        match self.selected {
            Some(i) if i + 1 < len => ListState { selected: Some((i + 1) as usize) },
            _ => self,
        }
    }

    /// The cursor after a step up a list: one back, but never before the
    /// first item and never from nothing to something.
    pub open spec fn stepped_up(self) -> ListState {
        match self.selected {
            Some(i) if i > 0 => ListState { selected: Some((i - 1) as usize) },
            _ => self,
        }
    }

    /// The cursor that fits a list of `len` items and is nearest to this one:
    /// nothing where the list is empty, the last item where the cursor lies
    /// past it, else the cursor itself.
    pub open spec fn clamped(self, len: nat) -> ListState {
        match self.selected {
            Some(i) if len == 0 => ListState { selected: None },
            Some(i) if i >= len => ListState { selected: Some((len - 1) as usize) },
            _ => self,
        }
    }

    /// The index that the cursor selects in a list of `len` items: none
    /// where it selects nothing or lies past the list.
    pub open spec fn index_in(self, len: nat) -> Option<int> {
        match self.selected {
            Some(i) if i < len => Some(i as int),
            _ => None,
        }
    }

    /// The index that the cursor selects in a list of `len` items.
    pub fn pick(&self, len: usize) -> (r: Option<usize>)
        ensures
            match r {
                Some(i) => self.index_in(len as nat) == Some(i as int) && i < len,
                None => self.index_in(len as nat) is None,
            },
    {
        match self.selected {
            Some(i) => if i < len {
                Some(i)
            } else {
                None
            },
            None => None,
        }
    }

    /// A cursor that selects nothing.
    pub fn new() -> (s: ListState)
        ensures
            s.selected is None,
    {
        ListState { selected: None }
    }

    /// The index of the selected item.
    pub fn selected(&self) -> (r: Option<usize>)
        ensures
            r == self.selected,
    {
        self.selected
    }

    /// Selects the first item of a list of `len` items, or nothing where the
    /// list is empty.
    pub fn first(&mut self, len: usize)
        ensures
            *final(self) == ListState::at_first(len as nat),
            final(self).fits(len as nat),
    {
        if len > 0 {
            self.selected = Some(0);
        } else {
            self.selected = None;
        }
    }

    /// Steps down a list of `len` items. Says whether the cursor moved.
    pub fn step_down(&mut self, len: usize) -> (moved: bool)
        ensures
            *final(self) == old(self).stepped_down(len as nat),
            moved == (final(self).selected != old(self).selected),
            old(self).fits(len as nat) ==> final(self).fits(len as nat),
    {
        match self.selected {
            Some(i) => {
                if i < len && i + 1 < len {
                    self.selected = Some(i + 1);
                    true
                } else {
                    false
                }
            },
            None => false,
        }
    }

    /// Steps up a list. Says whether the cursor moved.
    pub fn step_up(&mut self) -> (moved: bool)
        ensures
            *final(self) == old(self).stepped_up(),
            moved == (final(self).selected != old(self).selected),
            forall|len: nat| old(self).fits(len) ==> final(self).fits(len),
    {
        match self.selected {
            Some(i) => {
                if i > 0 {
                    self.selected = Some(i - 1);
                    true
                } else {
                    false
                }
            },
            None => false,
        }
    }

    /// Brings the cursor back into a list of `len` items.
    pub fn clamp(&mut self, len: usize)
        ensures
            *final(self) == old(self).clamped(len as nat),
            final(self).fits(len as nat),
    {
        match self.selected {
            Some(i) => {
                if len == 0 {
                    self.selected = None;
                } else if i >= len {
                    self.selected = Some(len - 1);
                }
            },
            None => {},
        }
    }
}

} // verus!
