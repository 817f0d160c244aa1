//! Lazy evaluation allows for a more simple approach to sharing data between tasks.
//!
//! The main driving trait that allows for this is [`Provider`](Provider). Objects that
//! implement this trait can try to provide a value of that type, reading whatever shared
//! state they depend on from an environment `S`.
//!
//! Properties (`Prop<T>`) are handles to cells of a [`PropStore`](PropStore): every clone of a
//! handle reads and writes the same cell, so a provider built from a property sees the value
//! that the property holds when the provider is asked, not when it was built.
//!
//! Because the result of a provider may come from a closure, `provides(env, r)` is a relation:
//! it holds of every result `r` that the provider can give in the environment `env`.

pub mod prop;
pub mod providers;

pub use prop::{AnyProp, Error, Prop, PropCell, PropStore, VecEntry, VecProp};

use vstd::prelude::*;
use crate::lazy_evaluation::providers::{FlatMap, Flatten, MapProvider, Zip};

verus! {

/// The provider trait represents an object that can continuously produce a value. Provider
/// values can be chained together using the [`ProviderExt`][0] trait.
///
/// [0]: ProviderExt
pub trait Provider<T, S> {
    /// Whether `r` is a result this provider can give in the environment `env`.
    spec fn provides(&self, env: &S, r: Option<T>) -> bool;

    /// The missing message for this provider
    fn missing_message(&self, env: &S) -> (r: String)
        default_ensures
            r@ == "Provider has no value set"@,
    {
        "Provider has no value set".to_owned()
    }

    /// Get a value from the provider. Only callable when the provider can not be empty.
    fn get(&self, env: &S) -> (r: T)
        requires
            forall|o: Option<T>| self.provides(env, o) ==> o is Some,
        ensures
            self.provides(env, Some(r)),
    {
        match self.try_get(env) {
            Some(v) => v,
            None => vstd::pervasive::unreached(),
        }
    }

    /// Try to get a value from the provider.
    ///
    /// Will return `Some(v)` if value `v` is available, otherwise `None` is returned.
    fn try_get(&self, env: &S) -> (r: Option<T>)
        ensures
            self.provides(env, r),
    ;

    /// Tries to get a value from this provider, returning an error if not available.
    ///
    /// The error's message is the `missing_message()` of the provider.
    fn fallible_get(&self, env: &S) -> (r: Result<T, ProviderError>)
        ensures
            match r {
                Ok(v) => self.provides(env, Some(v)),
                Err(_) => self.provides(env, None),
            },
    {
        match self.try_get(env) {
            Some(v) => Ok(v),
            None => Err(ProviderError::new(self.missing_message(env))),
        }
    }
}

/// Provides combinators on top of providers.
pub trait ProviderExt<T, S>: Provider<T, S> + Sized {
    /// Creates a provider that can map the output of one provider into some other value.
    fn map<R, F>(self, transform: F) -> (r: MapProvider<T, R, F, Self, S>)
        where
            F: Fn(T) -> R,
        requires
            forall|t: T| call_requires(transform, (t,)),
        ensures
            r.source() == self,
            r.transform() == transform,
    {
        MapProvider::new(self, transform)
    }

    /// Creates a provider that maps the output of this provider into another provider, and
    /// provides what that provider provides.
    fn flat_map<R, P, F>(self, transform: F) -> (r: FlatMap<T, R, Self, P, F, S>)
        where
            P: Provider<R, S>,
            F: Fn(T) -> P,
        requires
            forall|t: T| call_requires(transform, (t,)),
        ensures
            r.source() == self,
            r.transform() == transform,
    {
        FlatMap::new(self, transform)
    }

    /// Flattens a provider that provides another provider: the result provides what the
    /// provider given by this one provides.
    fn flatten<B>(self) -> (r: Flatten<T, B, Self, S>)
        where
            T: Provider<B, S>,
        ensures
            r.source() == self,
    {
        Flatten::new(self)
    }

    /// Creates a provider that combines the outputs of this provider and `other` with `func`.
    fn zip<P, B, R, F>(self, other: P, func: F) -> (r: Zip<T, B, R, F, Self, P, S>)
        where
            P: Provider<B, S>,
            F: Fn(T, B) -> R,
        requires
            forall|t: T, b: B| call_requires(func, (t, b)),
        ensures
            r.left() == self,
            r.right() == other,
            r.transform() == func,
    {
        Zip::new(self, other, func)
    }
}

impl<T, S, P: Provider<T, S>> ProviderExt<T, S> for P {
}

/// Represents that a type can be represented as a provider. All Providers implement this trait.
pub trait IntoProvider<T, S> {
    type Provider: Provider<T, S>;

    fn into_provider(self) -> Self::Provider;
}

impl<T, S, P: Provider<T, S>> IntoProvider<T, S> for P {
    type Provider = Self;

    fn into_provider(self) -> (r: Self::Provider)
        ensures
            r == self,
    {
        self
    }
}

/// A provider of a fixed value: it gives a clone of the value.
pub struct Wrapper<T: Clone>(pub T);

impl<T: Clone, S> Provider<T, S> for Wrapper<T> {
    open spec fn provides(&self, env: &S, r: Option<T>) -> bool {
        r matches Some(c) && cloned(self.0, c)
    }

    fn try_get(&self, env: &S) -> (r: Option<T>) {
        Some(self.0.clone())
    }
}

/// A value could not be provided
#[derive(Debug)]
pub struct ProviderError {
    message: String,
}

impl ProviderError {
    pub fn new(message: String) -> (r: Self)
        ensures
            r.message() == message@,
    {
        Self { message }
    }

    /// The message of the error.
    pub closed spec fn message(self) -> Seq<char> {
        self.message@
    }

    /// The message of the error.
    pub fn to_string(&self) -> (r: String)
        ensures
            r@ == self.message(),
    {
        self.message.clone()
    }
}

} // verus!
