use vstd::prelude::*;

verus! {

/// The title-screen menu: how many entries it has and which one is marked.
#[derive(Debug, Clone)]
pub struct MenuState {
    pub selected: usize,
    pub item_count: usize,
}

/// The menu offers two entries: play and quit.
pub const MENU_ITEM_COUNT: usize = 2;

impl MenuState {
    pub open spec fn wf(&self) -> bool {
        self.selected < self.item_count
    }

    /// The entry after the marked one; the first after the last.
    pub open spec fn after_next(&self) -> usize {
        if self.selected + 1 == self.item_count {
            0
        } else {
            (self.selected + 1) as usize
        }
    }

    /// The entry before the marked one; the last before the first.
    pub open spec fn after_previous(&self) -> usize {
        if self.selected == 0 {
            (self.item_count - 1) as usize
        } else {
            (self.selected - 1) as usize
        }
    }

    /// Marks the next entry, wrapping from the last to the first.
    pub fn next(&mut self)
        requires
            old(self).wf(),
        ensures
            final(self).wf(),
            final(self).item_count == old(self).item_count,
            final(self).selected == old(self).after_next(),
    {
        if self.selected + 1 == self.item_count {
            self.selected = 0;
        } else {
            self.selected += 1;
        }
    }

    /// Marks the previous entry, wrapping from the first to the last.
    pub fn previous(&mut self)
        requires
            old(self).wf(),
        ensures
            final(self).wf(),
            final(self).item_count == old(self).item_count,
            final(self).selected == old(self).after_previous(),
    {
        if self.selected == 0 {
            self.selected = self.item_count - 1;
        } else {
            self.selected -= 1;
        }
    }
}

impl Default for MenuState {
    fn default() -> (r: Self)
        ensures
            r.wf(),
            r.selected == 0,
            r.item_count == MENU_ITEM_COUNT,
    {
        MenuState { selected: 0, item_count: MENU_ITEM_COUNT }
    }
}

} // verus!
