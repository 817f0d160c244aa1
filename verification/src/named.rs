//! Values with a name.

use vstd::prelude::*;
use core::cmp::Ordering;
use vstd::std_specs::cmp::{PartialEqSpec, PartialOrdSpec};
use crate::text::{compare_text, text_order};

verus! {

/// A named value with a given type
#[derive(Debug, PartialEq, Eq, PartialOrd, Ord)]
pub struct Named<T> {
    value: T,
    name: String,
}

impl<T> Named<T> {
    /// The value.
    pub closed spec fn value_of(self) -> T {
        self.value
    }

    /// The name.
    pub closed spec fn name_of(self) -> Seq<char> {
        self.name@
    }

    /// Create a new named object
    pub fn new(name: &str, val: T) -> (r: Self)
        ensures
            r.value_of() == val,
            r.name_of() == name@,
    {
        Self { value: val, name: name.to_owned() }
    }

    /// Get the value of named object
    pub fn value(&self) -> (r: &T)
        ensures
            *r == self.value_of(),
    {
        &self.value
    }

    /// Get the name of the named object
    pub fn name(&self) -> (r: &str)
        ensures
            r@ == self.name_of(),
    {
        self.name.as_str()
    }
}

impl<T: Clone> Clone for Named<T> {
    fn clone(&self) -> (r: Self)
        ensures
            cloned(self.value_of(), r.value_of()),
            r.name_of() == self.name_of(),
    {
        Named { value: self.value.clone(), name: self.name.clone() }
    }
}

/// Whether two named values are equal: equal values and equal names.
pub open spec fn named_eq<T: PartialEq>(a: Named<T>, b: Named<T>) -> bool {
    a.value_of().eq_spec(&b.value_of()) && a.name_of() == b.name_of()
}

/// The order of two texts as an `Ordering`.
pub open spec fn ordering_of(order: int) -> Ordering {
    if order < 0 {
        Ordering::Less
    } else if order == 0 {
        Ordering::Equal
    } else {
        Ordering::Greater
    }
}

/// The order of two named values: by value, then by name.
pub open spec fn named_order<T: PartialOrd>(a: Named<T>, b: Named<T>) -> Option<Ordering> {
    match a.value_of().partial_cmp_spec(&b.value_of()) {
        Some(Ordering::Equal) => Some(ordering_of(text_order(a.name_of(), b.name_of()))),
        o => o,
    }
}

impl<T> Named<T> {
    /// Whether this and `other` are equal, as `==` on named values is: equal values and equal
    /// names.
    pub fn same_as(&self, other: &Named<T>) -> (r: bool)
        where
            T: PartialEq,
        ensures
            T::obeys_eq_spec() ==> r == named_eq(*self, *other),
    {
        let same_value = self.value == other.value;
        same_value && self.name == other.name
    }

    /// How this compares with `other`, as `partial_cmp` on named values does: by value, then
    /// by name.
    pub fn partial_compare(&self, other: &Named<T>) -> (r: Option<Ordering>)
        where
            T: PartialOrd,
        ensures
            T::obeys_partial_cmp_spec() ==> r == named_order(*self, *other),
    {
        match self.value.partial_cmp(&other.value) {
            Some(Ordering::Equal) => {
                let order = compare_text(self.name.as_str(), other.name.as_str());
                if order < 0 {
                    Some(Ordering::Less)
                } else if order == 0 {
                    Some(Ordering::Equal)
                } else {
                    Some(Ordering::Greater)
                }
            },
            o => o,
        }
    }
}

impl<T> core::ops::Deref for Named<T> {
    type Target = T;

    fn deref(&self) -> (r: &T)
        ensures
            *r == self.value_of(),
    {
        &self.value
    }
}

/// Turn a value into a named value
pub trait IntoNamed: Sized {
    /// Add a name to this object
    fn named(self, name: &str) -> (r: Named<Self>)
        ensures
            r.value_of() == self,
            r.name_of() == name@,
    {
        Named::new(name, self)
    }
}

impl<T> IntoNamed for T {
}

} // verus!
