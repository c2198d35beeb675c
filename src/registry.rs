use vstd::prelude::*;
use std::collections::HashMap;

verus! {

broadcast use vstd::std_specs::hash::group_hash_axioms;

/// Callers awaiting a commit, keyed by the log index of their proposal. Each
/// slot holds the caller's identifier and the handle through which its answer
/// is delivered.
#[verifier::reject_recursive_types(H)]
pub struct Registry<H> {
    slots: HashMap<u64, (u64, H)>,
}

impl<H> View for Registry<H> {
    type V = Map<u64, (u64, H)>;

    closed spec fn view(&self) -> Map<u64, (u64, H)> {
        self.slots@
    }
}

impl<H> Registry<H> {
    /// A registry with no pending slot.
    pub fn new() -> (r: Self)
        ensures
            r@ == Map::<u64, (u64, H)>::empty(),
    {
        Registry { slots: HashMap::new() }
    }

    /// The number of pending slots.
    pub fn len(&self) -> (r: usize)
        ensures
            r == self@.len(),
    {
        self.slots.len()
    }

    /// Binds the slot of `index` to `id` and `handle`, superseding any slot
    /// that was there.
    pub fn register(&mut self, index: u64, id: u64, handle: H)
        ensures
            final(self)@ == old(self)@.insert(index, (id, handle)),
    {
        self.slots.insert(index, (id, handle));
    }

    /// Removes the slot of `index`, whatever it holds, and hands back its
    /// handle when the slot was bound to `id`; a slot bound to another
    /// identifier is dropped with its handle.
    pub fn complete(&mut self, index: u64, id: u64) -> (r: Option<H>)
        ensures
            final(self)@ == old(self)@.remove(index),
            r == (if old(self)@.contains_key(index) && old(self)@[index].0 == id {
                Some(old(self)@[index].1)
            } else {
                None::<H>
            }),
    {
        match self.slots.remove(&index) {
            Some((id0, handle)) => {
                if id0 == id {
                    Some(handle)
                } else {
                    None
                }
            },
            None => None,
        }
    }
}

} // verus!
