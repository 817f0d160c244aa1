//! Typed and type-erased properties whose values live in a [`PropStore`].

use vstd::prelude::*;
use crate::identifier::Id;
use crate::lazy_evaluation::{PropCell, PropStore};
use crate::properties::Provides;

pub use crate::lazy_evaluation::Error;

verus! {

/// A typed prop
pub struct Prop<T> {
    inner: crate::lazy_evaluation::Prop<T>,
}

impl<T> Prop<T> {
    /// The cell of the store that this handle reads and writes.
    pub closed spec fn index(self) -> nat {
        self.inner.index()
    }

    /// The identifier of the property, as its parts.
    pub closed spec fn id_parts(self) -> Seq<Seq<char>> {
        self.inner.id_parts()
    }

    /// The property of the handle `p`.
    pub fn from_lazy(p: crate::lazy_evaluation::Prop<T>) -> (r: Self)
        ensures
            r.index() == p.index(),
            r.id_parts() == p.id_parts(),
    {
        Prop { inner: p }
    }

    /// Creates a new, unset property in `store`.
    pub fn new(id: Id, store: &mut PropStore<T>) -> (r: Self)
        requires
            old(store)@.len() < usize::MAX,
        ensures
            r.id_parts() == id@,
            r.index() == old(store)@.len(),
            final(store)@ == old(store)@.push(PropCell::Unset),
    {
        Prop { inner: crate::lazy_evaluation::Prop::new(id, store) }
    }

    /// Creates a new property in `store`, with the default identifier, holding `value`.
    pub fn with_value(value: T, store: &mut PropStore<T>) -> (r: Self)
        requires
            old(store)@.len() < usize::MAX,
        ensures
            r.id_parts() == seq![Seq::<char>::empty()],
            r.index() == old(store)@.len(),
            final(store)@ == old(store)@.push(PropCell::Value(value)),
    {
        Prop { inner: crate::lazy_evaluation::Prop::with_value(value, store) }
    }

    /// Sets the property from `val`: the property holds what `val` gives now, or nothing.
    pub fn set_with<P: Provides<T, ()>>(&mut self, val: P, store: &mut PropStore<T>) -> (r: Result<(), Error>)
        requires
            old(self).index() < old(store)@.len(),
        ensures
            r is Ok,
            final(self).index() == old(self).index(),
            final(self).id_parts() == old(self).id_parts(),
            final(store)@.len() == old(store)@.len(),
            forall|j: int| 0 <= j < old(store)@.len() && j != old(self).index()
                ==> #[trigger] final(store)@[j] == old(store)@[j],
            val.provides(&(), final(store).value_at(old(self).index() as int)),
    {
        let cell = match val.try_get(&()) {
            Some(v) => PropCell::Value(v),
            None => PropCell::Unset,
        };
        self.inner.set_cell(cell, store);
        Ok(())
    }

    /// Sets the property from another property of the same store: from then on it gives what
    /// `other` gives at the time it is read.
    pub fn set_with_prop(&mut self, other: &Prop<T>, store: &mut PropStore<T>) -> (r: Result<(), Error>)
        requires
            old(self).index() < old(store)@.len(),
        ensures
            r is Ok,
            final(self).index() == old(self).index(),
            final(self).id_parts() == old(self).id_parts(),
            final(store)@ == old(store)@.update(old(self).index() as int, PropCell::Linked(other.index() as usize)),
    {
        self.inner.set_with_prop(&other.inner, store)
    }

    /// Sets the property to `val`.
    pub fn set(&mut self, val: T, store: &mut PropStore<T>) -> (r: Result<(), Error>)
        requires
            old(self).index() < old(store)@.len(),
        ensures
            r is Ok,
            final(self).index() == old(self).index(),
            final(self).id_parts() == old(self).id_parts(),
            final(store)@ == old(store)@.update(old(self).index() as int, PropCell::Value(val)),
    {
        self.inner.set(val, store)
    }

    /// The value of the property, or `PropertyNotSet` when it has none.
    pub fn fallible_get(&self, store: &PropStore<T>) -> (r: Result<T, Error>)
        where
            T: Clone,
        ensures
            match r {
                Ok(v) => store.provides_at(self.index() as int, Some(v)),
                Err(e) => e is PropertyNotSet && store.provides_at(self.index() as int, None),
            },
    {
        self.inner.lookup(store)
    }
}

impl<T: Clone> Provides<T, PropStore<T>> for Prop<T> {
    open spec fn provides(&self, env: &PropStore<T>, r: Option<T>) -> bool {
        env.provides_at(self.index() as int, r)
    }

    fn try_get(&self, env: &PropStore<T>) -> (r: Option<T>) {
        match self.fallible_get(env) {
            Ok(v) => Some(v),
            Err(_) => None,
        }
    }
}

impl<T> Clone for Prop<T> {
    fn clone(&self) -> (r: Self)
        ensures
            r.index() == self.index(),
            r.id_parts() == self.id_parts(),
    {
        Prop { inner: self.inner.clone() }
    }
}

/// A property whose value type is only known when it is used.
pub struct AnyProp {
    inner: crate::lazy_evaluation::AnyProp,
}

impl AnyProp {
    /// The cell of the store that this handle reads and writes.
    pub closed spec fn index(self) -> nat {
        self.inner.index()
    }

    /// The identifier of the type of the values of the property's store.
    pub closed spec fn type_id(self) -> std::any::TypeId {
        self.inner.type_id()
    }

    /// The identifier of the property, as its parts.
    pub closed spec fn id_parts(self) -> Seq<Seq<char>> {
        self.inner.id_parts()
    }

    /// Creates a new, empty property in `store`.
    pub fn new<T: 'static>(id: Id, store: &mut PropStore<T>) -> (r: Self)
        requires
            old(store)@.len() < usize::MAX,
        ensures
            r.id_parts() == id@,
            r.index() == old(store)@.len(),
            final(store)@ == old(store)@.push(PropCell::Unset),
            crate::lazy_evaluation::AnyProp::is_type_id_of::<T>(r.type_id()),
    {
        AnyProp { inner: crate::lazy_evaluation::AnyProp::new(id, store) }
    }

    /// Creates a new property in `store` holding what `value` gives.
    pub fn with<P: Provides<R, ()>, R: 'static>(id: Id, value: P, store: &mut PropStore<R>) -> (r: Self)
        requires
            old(store)@.len() < usize::MAX,
        ensures
            r.id_parts() == id@,
            r.index() == old(store)@.len(),
            final(store)@.len() == old(store)@.len() + 1,
            final(store)@.take(old(store)@.len() as int) == old(store)@,
            value.provides(&(), final(store).value_at(r.index() as int)),
            crate::lazy_evaluation::AnyProp::is_type_id_of::<R>(r.type_id()),
    {
        let mut prop = Prop::<R>::new(id, store);
        let ghost pushed = store@;
        let _ = prop.set_with(value, store);
        assert(final(store)@.take(old(store)@.len() as int) =~= old(store)@) by {
            assert(pushed.take(old(store)@.len() as int) =~= old(store)@);
        }
        Self::from_prop(prop)
    }

    /// A type-erased handle to the cell of `prop`.
    pub fn from_prop<T: 'static>(prop: Prop<T>) -> (r: Self)
        ensures
            r.id_parts() == prop.id_parts(),
            r.index() == prop.index(),
            crate::lazy_evaluation::AnyProp::is_type_id_of::<T>(r.type_id()),
    {
        AnyProp { inner: crate::lazy_evaluation::AnyProp::from_prop(prop.inner) }
    }

    /// Sets the property from `value`, if the property's values are of type `R`.
    pub fn set<P: Provides<R, ()>, R: 'static>(&mut self, value: P, store: &mut PropStore<R>) -> (r: Result<(), Error>)
        requires
            old(self).index() < old(store)@.len(),
        ensures
            final(self).index() == old(self).index(),
            final(store)@.len() == old(store)@.len(),
            r is Ok ==> value.provides(&(), final(store).value_at(old(self).index() as int)),
            r is Err ==> (r matches Err(e) && e is TypeMismatch && final(store)@ == old(store)@),
            exists|found: std::any::TypeId| crate::lazy_evaluation::AnyProp::is_type_id_of::<R>(found) && (r is Ok
                <==> found == old(self).type_id()),
    {
        match self.as_ty::<R>() {
            Ok(mut with_ty) => with_ty.set_with(value, store),
            Err(e) => Err(e),
        }
    }

    /// The typed handle of this property, if its values are of type `T`.
    pub fn into_ty<T: 'static>(self) -> (r: Result<Prop<T>, Error>)
        ensures
            r matches Ok(p) ==> p.id_parts() == self.id_parts() && p.index() == self.index(),
            r matches Err(e) ==> e is TypeMismatch,
            exists|found: std::any::TypeId| crate::lazy_evaluation::AnyProp::is_type_id_of::<T>(found) && (r is Ok
                <==> found == self.type_id()) && (r matches Err(Error::TypeMismatch { expected, found: f })
                ==> expected == self.type_id() && f == found),
    {
        match self.inner.into_ty::<T>() {
            Ok(p) => Ok(Prop { inner: p }),
            Err(e) => Err(e),
        }
    }

    /// The typed handle of this property, if its values are of type `T`.
    pub fn as_ty<T: 'static>(&self) -> (r: Result<Prop<T>, Error>)
        ensures
            r matches Ok(p) ==> p.id_parts() == self.id_parts() && p.index() == self.index(),
            r matches Err(e) ==> e is TypeMismatch,
            exists|found: std::any::TypeId| crate::lazy_evaluation::AnyProp::is_type_id_of::<T>(found) && (r is Ok
                <==> found == self.type_id()) && (r matches Err(Error::TypeMismatch { expected, found: f })
                ==> expected == self.type_id() && f == found),
    {
        match self.inner.as_ty::<T>() {
            Ok(p) => Ok(Prop { inner: p }),
            Err(e) => Err(e),
        }
    }
}

} // verus!
