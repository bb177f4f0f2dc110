//! The snapshot cell: one shared slot that holds the current generation.
//!
//! A snapshot is a pair of a version and a collection behind one shared
//! reference. Publishing swaps the reference; reading copies it. Neither waits
//! for more than that, and a reader keeps the snapshot it got for as long as it
//! likes.
//!
//! What other threads do to the slot between two calls cannot be known here.
//! What can be known is the cell's rule, fixed when the cell is made: every
//! snapshot that is ever published meets it, so every snapshot that is ever read
//! does.

use std::sync::Arc;
use vstd::prelude::*;
use vstd::rwlock::*;

verus! {

/// A shared slot for the current snapshot, empty until the first one is published.
#[verifier::reject_recursive_types(T)]
pub struct Holder<T> {
    cell: Arc<RwLock<Arc<Option<(u128, T)>>, spec_fn(Arc<Option<(u128, T)>>) -> bool>>,
    rule: Ghost<spec_fn(Option<(u128, T)>) -> bool>,
}

impl<T> Holder<T> {
    /// The lock lets in exactly what the rule admits.
    #[verifier::type_invariant]
    spec fn lock_follows_rule(self) -> bool {
        forall|slot: Arc<Option<(u128, T)>>| #[trigger] self.cell.inv(slot) == (self.rule@)(*slot)
    }

    /// Whether the cell's rule lets the slot hold `slot`.
    pub closed spec fn admits(&self, slot: Option<(u128, T)>) -> bool {
        (self.rule@)(slot)
    }

    /// Whether the slot can never be found empty.
    pub open spec fn seeded(&self) -> bool {
        !self.admits(None)
    }

    /// A cell that starts with `initial` and admits what `rule` admits.
    pub fn with_rule(
        initial: Arc<Option<(u128, T)>>,
        Ghost(rule): Ghost<spec_fn(Option<(u128, T)>) -> bool>,
    ) -> (holder: Holder<T>)
        requires
            rule(*initial),
        ensures
            forall|slot: Option<(u128, T)>| #[trigger] holder.admits(slot) == rule(slot),
    {
        let ghost lock_rule = |slot: Arc<Option<(u128, T)>>| rule(*slot);
        Holder { cell: Arc::new(RwLock::new(initial, Ghost(lock_rule))), rule: Ghost(rule) }
    }

    /// An empty cell that admits every snapshot.
    pub fn empty() -> (holder: Holder<T>)
        ensures
            forall|slot: Option<(u128, T)>| #[trigger] holder.admits(slot),
    {
        Holder::with_rule(Arc::new(None), Ghost(|slot: Option<(u128, T)>| true))
    }

    /// A cell that starts with `collection` at version 0 and admits every snapshot,
    /// but not the empty slot.
    pub fn seeded_with(collection: T) -> (holder: Holder<T>)
        ensures
            forall|slot: Option<(u128, T)>| #[trigger] holder.admits(slot) == (slot is Some),
    {
        Holder::with_rule(
            Arc::new(Some((0, collection))),
            Ghost(|slot: Option<(u128, T)>| slot is Some),
        )
    }

    /// Replaces the slot's contents with a new snapshot and returns a handle to it.
    ///
    /// Readers that hold an earlier snapshot keep it unchanged.
    pub fn publish(&self, collection: T, version: u128) -> (stored: Arc<Option<(u128, T)>>)
        requires
            self.admits(Some((version, collection))),
        ensures
            *stored == Some((version, collection)),
    {
        proof {
            use_type_invariant(self);
        }
        let fresh = Arc::new(Some((version, collection)));
        let stored = fresh.clone();
        let (_superseded, handle) = self.cell.acquire_write();
        handle.release_write(fresh);
        stored
    }

    /// A handle to the snapshot that the slot holds now.
    pub fn read(&self) -> (current: Arc<Option<(u128, T)>>)
        ensures
            self.admits(*current),
    {
        proof {
            use_type_invariant(self);
        }
        let handle = self.cell.acquire_read();
        let current = handle.borrow().clone();
        handle.release_read();
        current
    }
}

impl<T> Clone for Holder<T> {
    /// A second handle to the same cell.
    fn clone(&self) -> (twin: Holder<T>)
        ensures
            twin == *self,
    {
        proof {
            use_type_invariant(self);
        }
        Holder { cell: self.cell.clone(), rule: self.rule }
    }
}

} // verus!
