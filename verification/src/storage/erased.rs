//! The list of storages that the workers of one queue poll.

use std::sync::Arc;
use vstd::prelude::*;

verus! {

/// Collection of storages, in the order in which workers poll them.
pub struct StorageList<Item> {
    items: Vec<Item>,
}

impl<Item> View for StorageList<Item> {
    type V = Seq<Item>;

    closed spec fn view(&self) -> Seq<Item> {
        self.items@
    }
}

impl<Item> StorageList<Item> {
    /// Create an empty storage list.
    pub fn new() -> (l: Self)
        ensures
            l@ == Seq::<Item>::empty(),
    {
        StorageList { items: Vec::new() }
    }

    /// Add one storage to the end of the list.
    pub fn storage_push(&mut self, storage: Item)
        ensures
            final(self)@ == old(self)@.push(storage),
    {
        self.items.push(storage);
    }

    /// Add one storage at the head of the list, so that it is polled first.
    pub fn storage_push_front(&mut self, storage: Item)
        ensures
            final(self)@ == seq![storage] + old(self)@,
    {
        self.items.insert(0, storage);
        assert(final(self)@ =~= seq![storage] + old(self)@);
    }

    /// Returns true when there are no storage entries.
    pub fn is_empty(&self) -> (b: bool)
        ensures
            b == (self@.len() == 0),
    {
        self.items.len() == 0
    }

    /// The number of storage entries.
    pub fn len(&self) -> (n: usize)
        ensures
            n == self@.len(),
    {
        self.items.len()
    }

    /// Convert into an `Arc` slice for cheap worker sharing.
    pub fn arc_slice_into(self) -> (shared: Arc<[Item]>)
        ensures
            shared@ == self@,
    {
        arc_from_vec(self.items)
    }
}

impl<Item> Default for StorageList<Item> {
    fn default() -> (l: Self)
        ensures
            l@ == Seq::<Item>::empty(),
    {
        Self::new()
    }
}

/// Calls `Arc::<[T]>::from` on a vector: the shared slice holds the vector's
/// items in the same order.
#[verifier::external_body]
fn arc_from_vec<T>(v: Vec<T>) -> (shared: Arc<[T]>)
    ensures
        shared@ == v@,
{
    Arc::from(v)
}

} // verus!
