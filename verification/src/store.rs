//! The account store: a mapping from account identifiers to cells, each cell
//! holding one account. The store neither looks into a cell nor guards it: a
//! server keeps each account behind a lock of its own as the cell, so that
//! work on one account never waits for work on another.

use std::collections::hash_map::Entry;
use std::collections::HashMap;
use vstd::prelude::*;

verus! {

broadcast use vstd::std_specs::hash::group_hash_axioms;

/// A mapping from account identifiers to cells.
pub struct AccountStore<C> {
    cells: HashMap<u8, C>,
}

impl<C> View for AccountStore<C> {
    type V = Map<u8, C>;

    closed spec fn view(&self) -> Map<u8, C> {
        self.cells@
    }
}

impl<C> AccountStore<C> {
    /// A store without accounts.
    pub fn new() -> (store: Self)
        ensures
            store@ == Map::<u8, C>::empty(),
    {
        AccountStore { cells: HashMap::new() }
    }

    /// Registers `cell` under `id` and hands back the cell that was there
    /// before, if there was one. This is for setting the store up.
    pub fn insert(&mut self, id: u8, cell: C) -> (previous: Option<C>)
        ensures
            final(self)@ == old(self)@.insert(id, cell),
            previous == (if old(self)@.contains_key(id) {
                Some(old(self)@[id])
            } else {
                None
            }),
    {
        self.cells.insert(id, cell)
    }

    /// The number of accounts.
    pub fn len(&self) -> (len: usize)
        ensures
            len == self@.dom().len(),
    {
        self.cells.len()
    }

    /// Whether `id` names an account.
    pub fn contains(&self, id: u8) -> (found: bool)
        ensures
            found == self@.contains_key(id),
    {
        self.cells.contains_key(&id)
    }

    /// The cell of account `id`, or nothing where `id` names no account.
    pub fn get(&self, id: u8) -> (cell: Option<&C>)
        ensures
            match cell {
                Some(cell) => self@.contains_key(id) && *cell == self@[id],
                None => !self@.contains_key(id),
            },
    {
        self.cells.get(&id)
    }

    /// The cell of account `id` for changing it, or nothing where `id` names
    /// no account. No account comes or goes, and no other cell changes.
    pub fn get_mut(&mut self, id: u8) -> (cell: Option<&mut C>)
        ensures
            match cell {
                Some(cell) => {
                    &&& old(self)@.contains_key(id)
                    &&& *cell == old(self)@[id]
                    &&& final(self)@ == old(self)@.insert(id, *final(cell))
                },
                None => !old(self)@.contains_key(id) && final(self)@ == old(self)@,
            },
    {
        match self.cells.entry(id) {
            Entry::Occupied(occupied) => Some(occupied.into_mut()),
            Entry::Vacant(_) => None,
        }
    }
}

} // verus!
