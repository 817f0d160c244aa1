//! Mark a type as immutable.
//!
//! Any type that is immutable can not be mutated, even with ownership

use vstd::prelude::*;
use core::cmp::Ordering;
use std::sync::Arc;
use vstd::std_specs::cmp::{PartialEqSpec, PartialOrdSpec};

verus! {

/// Calls `Arc::from` on a box: moves the boxed value into a new, reference counted
/// allocation, which holds the same value.
#[verifier::external_body]
fn arc_from_box<T: ?Sized>(value: Box<T>) -> (r: Arc<T>)
    ensures
        &*r == &*value,
{
    Arc::from(value)
}

#[derive(Debug, Ord, Eq, Hash, Default)]
pub struct Immutable<T: ?Sized> {
    value: Arc<T>,
}

impl<T: ?Sized> Immutable<T> {
    /// The value held.
    pub closed spec fn inner(&self) -> &T {
        &*self.value
    }

    /// Create a new immutable object from a value without a known size
    pub fn from_boxed(value: Box<T>) -> (r: Self)
        ensures
            r.inner() == &*value,
    {
        let arc: Arc<T> = arc_from_box(value);
        Self { value: arc }
    }

    /// Create a new immutable object from a value without a known size
    pub fn from_arc(value: Arc<T>) -> (r: Self)
        ensures
            r.inner() == &*value,
    {
        Self { value }
    }
}

impl<T> Immutable<T> {
    /// Create a new immutable object from a value with known size
    pub fn new(value: T) -> (r: Self)
        ensures
            *r.inner() == value,
    {
        Self { value: Arc::new(value) }
    }
}

impl<T: ?Sized> core::ops::Deref for Immutable<T> {
    type Target = T;

    fn deref(&self) -> (r: &T)
        ensures
            r == self.inner(),
    {
        &*self.value
    }
}

impl<T> AsRef<T> for Immutable<T> {
    fn as_ref(&self) -> (r: &T)
        ensures
            r == self.inner(),
    {
        &*self.value
    }
}

impl<T: ?Sized> Clone for Immutable<T> {
    fn clone(&self) -> (r: Self)
        ensures
            r.inner() == self.inner(),
    {
        Immutable::from_arc(self.value.clone())
    }
}

impl<T: ?Sized + PartialEq> PartialEq for Immutable<T> {
    /// Two immutable objects are equal when their values are.
    fn eq(&self, other: &Self) -> (r: bool) {
        (*self.value).eq(&*other.value)
    }
}

impl<T: ?Sized + PartialEq> vstd::std_specs::cmp::PartialEqSpecImpl for Immutable<T> {
    open spec fn obeys_eq_spec() -> bool {
        T::obeys_eq_spec()
    }

    open spec fn eq_spec(&self, other: &Immutable<T>) -> bool {
        self.inner().eq_spec(other.inner())
    }
}

impl<T: ?Sized + PartialOrd> PartialOrd for Immutable<T> {
    /// Immutable objects are ordered as their values are.
    fn partial_cmp(&self, other: &Self) -> (r: Option<Ordering>) {
        (*self.value).partial_cmp(&*other.value)
    }
}

impl<T: ?Sized + PartialOrd> vstd::std_specs::cmp::PartialOrdSpecImpl for Immutable<T> {
    open spec fn obeys_partial_cmp_spec() -> bool {
        T::obeys_partial_cmp_spec()
    }

    open spec fn partial_cmp_spec(&self, other: &Immutable<T>) -> Option<Ordering> {
        self.inner().partial_cmp_spec(other.inner())
    }
}

} // verus!
