//! Provides implementations of providers

use vstd::prelude::*;
use core::marker::PhantomData;
use crate::lazy_evaluation::providers::{mapped, zipped};
use crate::properties::Provides;

verus! {

/// A provider that maps the output of a provider to another value.
#[verifier::reject_recursive_types(T)]
#[verifier::reject_recursive_types(R)]
pub struct MapProvider<T, R, F, P, S> where F: Fn(T) -> R, P: Provides<T, S> {
    provider: P,
    transform: F,
    _data: PhantomData<(T, R, S)>,
}

impl<T, R, F, P, S> MapProvider<T, R, F, P, S> where F: Fn(T) -> R, P: Provides<T, S> {
    #[verifier::type_invariant]
    spec fn callable(self) -> bool {
        forall|t: T| call_requires(self.transform, (t,))
    }

    /// The provider whose output is mapped.
    pub closed spec fn source(self) -> P {
        self.provider
    }

    /// The mapping function.
    pub closed spec fn transform(self) -> F {
        self.transform
    }

    pub(crate) fn new(provider: &P, transform: F) -> (r: Self)
        where
            P: Clone,
        requires
            forall|t: T| call_requires(transform, (t,)),
        ensures
            cloned(*provider, r.source()),
            r.transform() == transform,
    {
        Self { provider: provider.clone(), transform, _data: PhantomData }
    }
}

impl<T, R, F, P, S> Provides<R, S> for MapProvider<T, R, F, P, S> where F: Fn(T) -> R, P: Provides<T, S> {
    open spec fn provides(&self, env: &S, r: Option<R>) -> bool {
        mapped(self.transform(), |o: Option<T>| self.source().provides(env, o), r)
    }

    fn try_get(&self, env: &S) -> (r: Option<R>) {
        proof {
            use_type_invariant(self);
        }
        match self.provider.try_get(env) {
            Some(v) => {
                let out = (self.transform)(v);
                assert((|o: Option<T>| self.source().provides(env, o))(Some(v)));
                Some(out)
            },
            None => None,
        }
    }
}

/// A provider that maps the output of a provider to another provider.
#[verifier::reject_recursive_types(T)]
#[verifier::reject_recursive_types(PR)]
pub struct FlatMap<T, R, PT, PR, F, S> where PT: Provides<T, S>, PR: Provides<R, S>, F: Fn(T) -> PR {
    provider: PT,
    transform: F,
    _data: PhantomData<(R, T, PR, S)>,
}

impl<T, R, PT, PR, F, S> FlatMap<T, R, PT, PR, F, S> where
    PT: Provides<T, S>,
    PR: Provides<R, S>,
    F: Fn(T) -> PR,
 {
    #[verifier::type_invariant]
    spec fn callable(self) -> bool {
        forall|t: T| call_requires(self.transform, (t,))
    }

    /// The provider whose output is mapped.
    pub closed spec fn source(self) -> PT {
        self.provider
    }

    /// The function from a value to the provider that gives the result.
    pub closed spec fn transform(self) -> F {
        self.transform
    }

    pub(crate) fn new(provider: PT, transform: F) -> (r: Self)
        requires
            forall|t: T| call_requires(transform, (t,)),
        ensures
            r.source() == provider,
            r.transform() == transform,
    {
        Self { provider, transform, _data: PhantomData }
    }
}

impl<T, R, PT, PR, F, S> Provides<R, S> for FlatMap<T, R, PT, PR, F, S> where
    PT: Provides<T, S>,
    PR: Provides<R, S>,
    F: Fn(T) -> PR,
 {
    open spec fn provides(&self, env: &S, r: Option<R>) -> bool {
        ||| r is None && self.source().provides(env, None)
        ||| exists|t: T, p: PR| #[trigger] self.source().provides(env, Some(t))
            && #[trigger] call_ensures(self.transform(), (t,), p) && p.provides(env, r)
    }

    fn try_get(&self, env: &S) -> (r: Option<R>) {
        proof {
            use_type_invariant(self);
        }
        match self.provider.try_get(env) {
            Some(v) => {
                let next = (self.transform)(v);
                let out = next.try_get(env);
                assert(self.source().provides(env, Some(v)) && call_ensures(self.transform(), (v,), next)
                    && next.provides(env, out));
                out
            },
            None => None,
        }
    }
}

/// Combines the values of two providers.
#[verifier::reject_recursive_types(T)]
#[verifier::reject_recursive_types(B)]
#[verifier::reject_recursive_types(R)]
pub struct Zip<T, B, R, F, PL, PR, S> where F: Fn(T, B) -> R, PL: Provides<T, S>, PR: Provides<B, S> {
    left: PL,
    right: PR,
    transform: F,
    _data: PhantomData<(T, B, R, S)>,
}

impl<T, B, R, F, PL, PR, S> Zip<T, B, R, F, PL, PR, S> where
    F: Fn(T, B) -> R,
    PL: Provides<T, S>,
    PR: Provides<B, S>,
 {
    #[verifier::type_invariant]
    spec fn callable(self) -> bool {
        forall|a: T, b: B| call_requires(self.transform, (a, b))
    }

    /// The left provider.
    pub closed spec fn left(self) -> PL {
        self.left
    }

    /// The right provider.
    pub closed spec fn right(self) -> PR {
        self.right
    }

    /// The combining function.
    pub closed spec fn transform(self) -> F {
        self.transform
    }

    /// Combines clones of `left` and `right` with `zip_func`.
    pub fn new(left: &PL, right: &PR, zip_func: F) -> (r: Self)
        where
            PL: Clone,
            PR: Clone,
        requires
            forall|a: T, b: B| call_requires(zip_func, (a, b)),
        ensures
            cloned(*left, r.left()),
            cloned(*right, r.right()),
            r.transform() == zip_func,
    {
        Self { left: left.clone(), right: right.clone(), transform: zip_func, _data: PhantomData }
    }
}

impl<T, B, R, F, PL, PR, S> Provides<R, S> for Zip<T, B, R, F, PL, PR, S> where
    F: Fn(T, B) -> R,
    PL: Provides<T, S>,
    PR: Provides<B, S>,
 {
    open spec fn provides(&self, env: &S, r: Option<R>) -> bool {
        zipped(
            self.transform(),
            |o: Option<T>| self.left().provides(env, o),
            |o: Option<B>| self.right().provides(env, o),
            r,
        )
    }

    fn try_get(&self, env: &S) -> (r: Option<R>) {
        proof {
            use_type_invariant(self);
        }
        let left = self.left.try_get(env);
        let right = self.right.try_get(env);
        let ghost lp = |o: Option<T>| self.left().provides(env, o);
        let ghost rp = |o: Option<B>| self.right().provides(env, o);
        assert(lp(left));
        assert(rp(right));
        match (left, right) {
            (Some(a), Some(b)) => Some((self.transform)(a, b)),
            _ => None,
        }
    }
}

} // verus!
