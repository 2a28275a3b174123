//! An append-only table of shared values, such as the materials of a scene:
//! each surface holds a small handle into the table instead of its own copy,
//! so several surfaces can share one material.
use vstd::prelude::*;

verus! {

/// Names one entry of a `Registry`: its position in the table.
#[derive(Clone, Copy, Debug, PartialEq, Eq, Structural)]
pub struct Handle {
    pub index: usize,
}

/// An append-only table. Entries are never removed or replaced, so a handle
/// stays valid, and names the same entry, for the table's whole life.
pub struct Registry<T> {
    entries: Vec<T>,
}

impl<T> View for Registry<T> {
    type V = Seq<T>;

    closed spec fn view(&self) -> Seq<T> {
        self.entries@
    }
}

impl<T> Registry<T> {
    /// Whether `h` names an entry of this table.
    pub open spec fn names(&self, h: Handle) -> bool {
        h.index < self@.len()
    }

    /// An empty table.
    pub fn new() -> (r: Self)
        ensures
            r@ == Seq::<T>::empty(),
    {
        Registry { entries: Vec::new() }
    }

    /// The number of entries.
    pub fn len(&self) -> (r: usize)
        ensures
            r == self@.len(),
    {
        self.entries.len()
    }

    /// Appends `item` and returns the handle that names it.
    pub fn add(&mut self, item: T) -> (h: Handle)
        ensures
            final(self)@ == old(self)@.push(item),
            h.index == old(self)@.len(),
    {
        let h = Handle { index: self.entries.len() };
        self.entries.push(item);
        h
    }

    /// The entry that `h` names.
    pub fn get(&self, h: Handle) -> (r: &T)
        requires
            self.names(h),
        ensures
            *r == self@[h.index as int],
    {
        &self.entries[h.index]
    }
}

} // verus!
