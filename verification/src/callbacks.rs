//! Fallback and callbacks: what the engine starts from and whom it tells.
//!
//! Callbacks are told what happened. They return nothing, and nothing they do
//! changes what the engine does next.

use crate::error::Error;
use std::marker::PhantomData;
use vstd::prelude::*;

verus! {

/// The collection that readers see until the first fetch has succeeded.
pub struct Fallback<C> {
    value: C,
}

impl<C> Fallback<C> {
    /// The collection that the fallback supplies.
    pub closed spec fn value(&self) -> C {
        self.value
    }

    /// A fallback that supplies `value`.
    pub fn with_value(value: C) -> (fallback: Fallback<C>)
        ensures
            fallback.value() == value,
    {
        Fallback { value }
    }

    /// Hands out the collection.
    pub fn into_value(self) -> (value: C)
        ensures
            value == self.value(),
    {
        self.value
    }
}

/// Told after each publish: the version before, the version now, and the new
/// collection.
pub trait UpdateCallback<C> {
    /// A new snapshot was published.
    fn updated(&self, previous: &Option<u128>, version: &Option<u128>, collection: &C);
}

/// Told after each fetch or process error: the error and the version that stays
/// in place.
pub trait FailureCallback {
    /// A refresh failed.
    fn failed(&self, err: &Error, last_version: &Option<u128>);
}

/// The callback that does nothing.
#[derive(Clone, Copy, Debug)]
pub struct Quiet;

impl<C> UpdateCallback<C> for Quiet {
    fn updated(&self, previous: &Option<u128>, version: &Option<u128>, collection: &C) {
    }
}

impl FailureCallback for Quiet {
    fn failed(&self, err: &Error, last_version: &Option<u128>) {
    }
}

/// An update callback made of a function.
#[verifier::reject_recursive_types(C)]
pub struct OnUpdate<C, F: Fn(&Option<u128>, &Option<u128>, &C)> {
    call: F,
    told_of: PhantomData<C>,
}

impl<C, F: Fn(&Option<u128>, &Option<u128>, &C)> OnUpdate<C, F> {
    /// The function can be called with whatever there is to tell.
    #[verifier::type_invariant]
    spec fn takes_every_update(self) -> bool {
        forall|previous: &Option<u128>, version: &Option<u128>, collection: &C|
            call_requires(self.call, (previous, version, collection))
    }

    /// The function.
    pub closed spec fn function(&self) -> F {
        self.call
    }

    /// A callback that calls `call`.
    pub fn with_fn(call: F) -> (callback: OnUpdate<C, F>)
        requires
            forall|previous: &Option<u128>, version: &Option<u128>, collection: &C|
                call_requires(call, (previous, version, collection)),
        ensures
            callback.function() == call,
    {
        OnUpdate { call, told_of: PhantomData }
    }
}

impl<C, F: Fn(&Option<u128>, &Option<u128>, &C)> UpdateCallback<C> for OnUpdate<C, F> {
    fn updated(&self, previous: &Option<u128>, version: &Option<u128>, collection: &C) {
        proof {
            use_type_invariant(self);
        }
        (self.call)(previous, version, collection)
    }
}

/// A failure callback made of a function.
pub struct OnFailure<F: Fn(&Error, &Option<u128>)> {
    call: F,
}

impl<F: Fn(&Error, &Option<u128>)> OnFailure<F> {
    /// The function can be called with whatever there is to tell.
    #[verifier::type_invariant]
    spec fn takes_every_failure(self) -> bool {
        forall|err: &Error, last_version: &Option<u128>|
            call_requires(self.call, (err, last_version))
    }

    /// The function.
    pub closed spec fn function(&self) -> F {
        self.call
    }

    /// A callback that calls `call`.
    pub fn with_fn(call: F) -> (callback: OnFailure<F>)
        requires
            forall|err: &Error, last_version: &Option<u128>|
                call_requires(call, (err, last_version)),
        ensures
            callback.function() == call,
    {
        OnFailure { call }
    }
}

impl<F: Fn(&Error, &Option<u128>)> FailureCallback for OnFailure<F> {
    fn failed(&self, err: &Error, last_version: &Option<u128>) {
        proof {
            use_type_invariant(self);
        }
        (self.call)(err, last_version)
    }
}

} // verus!
