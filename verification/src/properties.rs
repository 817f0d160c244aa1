//! Properties whose providers are shared by reference: combinators borrow the provider and
//! keep a clone of it.

pub mod prop;
pub mod providers;
pub mod task_properties;

pub use prop::{AnyProp, Error, Prop};

use vstd::prelude::*;
use crate::properties::providers::{FlatMap, MapProvider, Zip};

verus! {

/// Something that may provide a value of type `T`, reading what it depends on from `S`.
pub trait Provides<T, S> {
    /// Whether `r` is a result this provider can give in the environment `env`.
    spec fn provides(&self, env: &S, r: Option<T>) -> bool;

    /// Get a value; only callable when the provider cannot be empty.
    fn get(&self, env: &S) -> (r: T)
        requires
            forall|o: Option<T>| self.provides(env, o) ==> o is Some,
        ensures
            self.provides(env, Some(r)),
    {
        match self.try_get(env) {
            Some(v) => v,
            None => vstd::pervasive::unreached(),
        }
    }

    /// Try to get a value.
    fn try_get(&self, env: &S) -> (r: Option<T>)
        ensures
            self.provides(env, r),
    ;
}

/// Combinators on providers that can be cloned: each keeps a clone of the provider.
pub trait ProvidesExt<T, S>: Provides<T, S> + Clone + Sized {
    fn map<R, F>(&self, transform: F) -> (r: MapProvider<T, R, F, Self, S>)
        where
            F: Fn(T) -> R,
        requires
            forall|t: T| call_requires(transform, (t,)),
        ensures
            cloned(*self, r.source()),
            r.transform() == transform,
    {
        MapProvider::new(self, transform)
    }

    fn flat_map<R, P, F>(&self, transform: F) -> (r: FlatMap<T, R, Self, P, F, S>)
        where
            P: Provides<R, S>,
            F: Fn(T) -> P,
        requires
            forall|t: T| call_requires(transform, (t,)),
        ensures
            cloned(*self, r.source()),
            r.transform() == transform,
    {
        FlatMap::new(self.clone(), transform)
    }

    fn zip<P, B, R, F>(&self, other: &P, func: F) -> (r: Zip<T, B, R, F, Self, P, S>)
        where
            P: Provides<B, S> + Clone,
            F: Fn(T, B) -> R,
        requires
            forall|t: T, b: B| call_requires(func, (t, b)),
        ensures
            cloned(*self, r.left()),
            cloned(*other, r.right()),
            r.transform() == func,
    {
        Zip::new(self, other, func)
    }
}

impl<T, S, P: Provides<T, S> + Clone> ProvidesExt<T, S> for P {
}

/// Represents that a type can be represented as a provider. All providers that can be cloned
/// implement this trait.
pub trait AsProvider<T, S> {
    type Provider: Provides<T, S>;

    fn as_provider(&self) -> Self::Provider;
}

impl<T, S, P: Provides<T, S> + Clone> AsProvider<T, S> for P {
    type Provider = Self;

    fn as_provider(&self) -> (r: Self::Provider)
        ensures
            cloned(*self, r),
    {
        self.clone()
    }
}

/// A provider of a fixed value: it gives a clone of the value.
pub struct Wrapper<T: Clone>(pub T);

impl<T: Clone, S> Provides<T, S> for Wrapper<T> {
    open spec fn provides(&self, env: &S, r: Option<T>) -> bool {
        r matches Some(c) && cloned(self.0, c)
    }

    fn try_get(&self, env: &S) -> (r: Option<T>) {
        Some(self.0.clone())
    }
}

impl<F: Fn() -> T, T, S> Provides<T, S> for crate::lazy_evaluation::providers::FnProvider<F, T> {
    open spec fn provides(&self, env: &S, r: Option<T>) -> bool {
        r matches Some(v) && call_ensures(self.func(), (), v)
    }

    fn try_get(&self, env: &S) -> (r: Option<T>) {
        Some(self.call())
    }
}

} // verus!
