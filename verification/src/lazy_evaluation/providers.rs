//! Provides implementations of providers

use vstd::prelude::*;
use core::marker::PhantomData;
use crate::lazy_evaluation::Provider;

verus! {

/// A provider created from a function: it provides whatever the function returns.
#[verifier::reject_recursive_types(T)]
pub struct FnProvider<F, T> where F: Fn() -> T {
    func: F,
    _phantom: PhantomData<T>,
}

impl<F, T> FnProvider<F, T> where F: Fn() -> T {
    #[verifier::type_invariant]
    spec fn callable(self) -> bool {
        call_requires(self.func, ())
    }

    /// The function behind the provider.
    pub closed spec fn func(self) -> F {
        self.func
    }

    pub fn new(func: F) -> (r: Self)
        requires
            call_requires(func, ()),
        ensures
            r.func() == func,
    {
        Self { func, _phantom: PhantomData }
    }

    /// Calls the function.
    pub(crate) fn call(&self) -> (r: T)
        ensures
            call_ensures(self.func(), (), r),
    {
        proof {
            use_type_invariant(self);
        }
        (self.func)()
    }
}

impl<F, T, S> Provider<T, S> for FnProvider<F, T> where F: Fn() -> T {
    open spec fn provides(&self, env: &S, r: Option<T>) -> bool {
        r matches Some(v) && call_ensures(self.func(), (), v)
    }

    fn try_get(&self, env: &S) -> (r: Option<T>) {
        proof {
            use_type_invariant(self);
        }
        Some((self.func)())
    }
}

/// What a provider that maps `source` through `transform` gives.
pub open spec fn mapped<T, R, F: Fn(T) -> R>(
    transform: F,
    source: spec_fn(Option<T>) -> bool,
    r: Option<R>,
) -> bool {
    match r {
        None => source(None),
        Some(v) => exists|t: T| #[trigger] source(Some(t)) && call_ensures(transform, (t,), v),
    }
}

/// Provides methods to map the output of a map to another
#[verifier::reject_recursive_types(T)]
#[verifier::reject_recursive_types(R)]
pub struct MapProvider<T, R, F, P, S> where F: Fn(T) -> R, P: Provider<T, S> {
    provider: P,
    transform: F,
    _data: PhantomData<(T, R, S)>,
}

impl<T, R, F, P, S> MapProvider<T, R, F, P, S> where F: Fn(T) -> R, P: Provider<T, S> {
    #[verifier::type_invariant]
    spec fn callable(self) -> bool {
        forall|t: T| call_requires(self.transform, (t,))
    }

    /// The provider whose output is mapped.
    pub closed spec fn source(self) -> P {
        self.provider
    }

    /// The mapping function.
    pub closed spec fn transform(self) -> F {
        self.transform
    }

    pub(crate) fn new(provider: P, transform: F) -> (r: Self)
        requires
            forall|t: T| call_requires(transform, (t,)),
        ensures
            r.source() == provider,
            r.transform() == transform,
    {
        Self { provider, transform, _data: PhantomData }
    }
}

impl<T, R, F, P, S> Provider<R, S> for MapProvider<T, R, F, P, S> where F: Fn(T) -> R, P: Provider<T, S> {
    open spec fn provides(&self, env: &S, r: Option<R>) -> bool {
        mapped(self.transform(), |o: Option<T>| self.source().provides(env, o), r)
    }

    fn missing_message(&self, env: &S) -> (r: String)
        ensures
            call_ensures(P::missing_message, (&self.source(), env), r),
    {
        self.provider.missing_message(env)
    }

    fn try_get(&self, env: &S) -> (r: Option<R>) {
        proof {
            use_type_invariant(self);
        }
        match self.provider.try_get(env) {
            Some(v) => {
                let out = (self.transform)(v);
                assert((|o: Option<T>| self.source().provides(env, o))(Some(v)));
                Some(out)
            },
            None => None,
        }
    }
}

/// What a provider that maps `source` to providers through `transform` gives.
pub open spec fn flat_mapped<T, R, PR: Provider<R, S>, F: Fn(T) -> PR, S>(
    transform: F,
    source: spec_fn(Option<T>) -> bool,
    env: S,
    r: Option<R>,
) -> bool {
    ||| r is None && source(None)
    ||| exists|t: T, p: PR| #[trigger] source(Some(t)) && #[trigger] call_ensures(transform, (t,), p) && p.provides(&env, r)
}

/// Provides methods to map the output of a provider to another provider
#[verifier::reject_recursive_types(T)]
#[verifier::reject_recursive_types(PR)]
pub struct FlatMap<T, R, PT, PR, F, S> where PT: Provider<T, S>, PR: Provider<R, S>, F: Fn(T) -> PR {
    provider: PT,
    transform: F,
    _data: PhantomData<(R, T, PR, S)>,
}

impl<T, R, PT, PR, F, S> FlatMap<T, R, PT, PR, F, S> where
    PT: Provider<T, S>,
    PR: Provider<R, S>,
    F: Fn(T) -> PR,
 {
    #[verifier::type_invariant]
    spec fn callable(self) -> bool {
        forall|t: T| call_requires(self.transform, (t,))
    }

    /// The provider whose output is mapped.
    pub closed spec fn source(self) -> PT {
        self.provider
    }

    /// The function from a value to the provider that gives the result.
    pub closed spec fn transform(self) -> F {
        self.transform
    }

    pub(crate) fn new(provider: PT, transform: F) -> (r: Self)
        requires
            forall|t: T| call_requires(transform, (t,)),
        ensures
            r.source() == provider,
            r.transform() == transform,
    {
        Self { provider, transform, _data: PhantomData }
    }
}

impl<T, R, PT, PR, F, S> Provider<R, S> for FlatMap<T, R, PT, PR, F, S> where
    PT: Provider<T, S>,
    PR: Provider<R, S>,
    F: Fn(T) -> PR,
 {
    open spec fn provides(&self, env: &S, r: Option<R>) -> bool {
        flat_mapped(self.transform(), |o: Option<T>| self.source().provides(env, o), *env, r)
    }

    fn missing_message(&self, env: &S) -> (r: String)
        ensures
            call_ensures(PT::missing_message, (&self.source(), env), r),
    {
        self.provider.missing_message(env)
    }

    fn try_get(&self, env: &S) -> (r: Option<R>) {
        proof {
            use_type_invariant(self);
        }
        match self.provider.try_get(env) {
            Some(v) => {
                let next = (self.transform)(v);
                let out = next.try_get(env);
                assert((|o: Option<T>| self.source().provides(env, o))(Some(v)));
                out
            },
            None => {
                assert((|o: Option<T>| self.source().provides(env, o))(None));
                None
            },
        }
    }
}

/// What a provider that combines `left` and `right` with `transform` gives.
pub open spec fn zipped<T, B, R, F: Fn(T, B) -> R>(
    transform: F,
    left: spec_fn(Option<T>) -> bool,
    right: spec_fn(Option<B>) -> bool,
    r: Option<R>,
) -> bool {
    match r {
        None => left(None) || right(None),
        Some(v) => exists|a: T, b: B| #[trigger] left(Some(a)) && #[trigger] right(Some(b))
            && call_ensures(transform, (a, b), v),
    }
}

/// Combines the values of two providers.
#[verifier::reject_recursive_types(T)]
#[verifier::reject_recursive_types(B)]
#[verifier::reject_recursive_types(R)]
pub struct Zip<T, B, R, F, PL, PR, S> where F: Fn(T, B) -> R, PL: Provider<T, S>, PR: Provider<B, S> {
    left: PL,
    right: PR,
    transform: F,
    _data: PhantomData<(T, B, R, S)>,
}

impl<T, B, R, F, PL, PR, S> Zip<T, B, R, F, PL, PR, S> where
    F: Fn(T, B) -> R,
    PL: Provider<T, S>,
    PR: Provider<B, S>,
 {
    #[verifier::type_invariant]
    spec fn callable(self) -> bool {
        forall|a: T, b: B| call_requires(self.transform, (a, b))
    }

    /// The left provider.
    pub closed spec fn left(self) -> PL {
        self.left
    }

    /// The right provider.
    pub closed spec fn right(self) -> PR {
        self.right
    }

    /// The combining function.
    pub closed spec fn transform(self) -> F {
        self.transform
    }

    pub fn new(left: PL, right: PR, zip_func: F) -> (r: Self)
        requires
            forall|a: T, b: B| call_requires(zip_func, (a, b)),
        ensures
            r.left() == left,
            r.right() == right,
            r.transform() == zip_func,
    {
        Self { left, right, transform: zip_func, _data: PhantomData }
    }
}

impl<T, B, R, F, PL, PR, S> Provider<R, S> for Zip<T, B, R, F, PL, PR, S> where
    F: Fn(T, B) -> R,
    PL: Provider<T, S>,
    PR: Provider<B, S>,
 {
    open spec fn provides(&self, env: &S, r: Option<R>) -> bool {
        zipped(
            self.transform(),
            |o: Option<T>| self.left().provides(env, o),
            |o: Option<B>| self.right().provides(env, o),
            r,
        )
    }

    fn missing_message(&self, env: &S) -> (r: String)
        ensures
            exists|left: String, right: String|
                call_ensures(PL::missing_message, (&self.left(), env), left)
                && call_ensures(PR::missing_message, (&self.right(), env), right)
                && r@ == left@ + " or "@ + right@,
    {
        let left = self.left.missing_message(env);
        let mut out = left.clone();
        out.append(" or ");
        let right = self.right.missing_message(env);
        out.append(right.as_str());
        assert(out@ == left@ + " or "@ + right@);
        out
    }

    fn try_get(&self, env: &S) -> (r: Option<R>) {
        proof {
            use_type_invariant(self);
        }
        let left = self.left.try_get(env);
        let right = self.right.try_get(env);
        let ghost lp = |o: Option<T>| self.left().provides(env, o);
        let ghost rp = |o: Option<B>| self.right().provides(env, o);
        assert(lp(left));
        assert(rp(right));
        match (left, right) {
            (Some(a), Some(b)) => Some((self.transform)(a, b)),
            _ => None,
        }
    }
}

impl<T: Clone, S> Provider<T, S> for Option<T> {
    open spec fn provides(&self, env: &S, r: Option<T>) -> bool {
        match self {
            None => r is None,
            Some(v) => r matches Some(c) && cloned(*v, c),
        }
    }

    fn try_get(&self, env: &S) -> (r: Option<T>) {
        match self {
            Some(v) => Some(v.clone()),
            None => None,
        }
    }
}

/// What flattening a provider of providers gives: nothing when the outer provider gives
/// nothing, or what an inner provider that it gives provides.
pub open spec fn flattened<T: Provider<B, S>, B, S>(
    source: spec_fn(Option<T>) -> bool,
    env: S,
    r: Option<B>,
) -> bool {
    ||| r is None && source(None)
    ||| exists|t: T| #[trigger] source(Some(t)) && t.provides(&env, r)
}

/// A provider of what the providers given by another provider provide.
#[verifier::reject_recursive_types(T)]
#[verifier::reject_recursive_types(B)]
pub struct Flatten<T, B, P, S> where P: Provider<T, S>, T: Provider<B, S> {
    provider: P,
    _data: PhantomData<(T, B, S)>,
}

impl<T, B, P, S> Flatten<T, B, P, S> where P: Provider<T, S>, T: Provider<B, S> {
    /// The provider of providers.
    pub closed spec fn source(self) -> P {
        self.provider
    }

    pub(crate) fn new(provider: P) -> (r: Self)
        ensures
            r.source() == provider,
    {
        Self { provider, _data: PhantomData }
    }
}

impl<T, B, P, S> Provider<B, S> for Flatten<T, B, P, S> where P: Provider<T, S>, T: Provider<B, S> {
    open spec fn provides(&self, env: &S, r: Option<B>) -> bool {
        flattened(|o: Option<T>| self.source().provides(env, o), *env, r)
    }

    fn missing_message(&self, env: &S) -> (r: String)
        ensures
            call_ensures(P::missing_message, (&self.source(), env), r),
    {
        self.provider.missing_message(env)
    }

    fn try_get(&self, env: &S) -> (r: Option<B>) {
        match self.provider.try_get(env) {
            Some(inner) => {
                let out = inner.try_get(env);
                assert((|o: Option<T>| self.source().provides(env, o))(Some(inner)));
                out
            },
            None => {
                assert((|o: Option<T>| self.source().provides(env, o))(None));
                None
            },
        }
    }
}

} // verus!
