//! Extensions that plugins can add

use vstd::prelude::*;
use std::any::Any;
use crate::text::compare_text;

verus! {

/// A a helper trait that extends the needed traits to add a value as an extension
pub trait Extension: 'static + Send + Sync {
}

impl<E: 'static + Send + Sync> Extension for E {
}

/// An extension value whose type is only known when it is read back. Its contents are out of
/// Verus's sight: the type test and the downcasts below are trusted.
#[verifier::external_body]
pub struct AnyExtension {
    value: Box<dyn Any + Send + Sync>,
}

/// Whether `x` holds `value`: the type test for `E` answers `true` on it, and the downcast to
/// `E` gives `value`.
pub open spec fn holds<E: Extension>(x: AnyExtension, value: E) -> bool {
    &&& forall|b: bool| call_ensures(AnyExtension::is::<E>, (&x,), b) ==> b
    &&& forall|o: Option<&E>| #[trigger] call_ensures(AnyExtension::downcast_ref::<E>, (&x,), o)
        ==> (o matches Some(v) && *v == value)
}

impl AnyExtension {
    /// Boxes `value` as a `dyn Any`. As std's `Any` documents, the box is of the type `E`, so
    /// `is::<E>()` answers `true` on it and `downcast_ref::<E>()` gives the value.
    #[verifier::external_body]
    fn new<E: Extension>(value: E) -> (r: AnyExtension)
        ensures
            holds(r, value),
    {
        AnyExtension { value: Box::new(value) }
    }

    /// Calls `<dyn Any>::is::<E>()`: whether the value is of type `E`. Nothing is stated of the
    /// answer here; the downcasts below state that they agree with it.
    #[verifier::external_body]
    pub fn is<E: Extension>(&self) -> bool {
        self.value.is::<E>()
    }

    /// Calls `<dyn Any>::downcast_ref::<E>()`: the value, if it is of type `E`. As its
    /// documentation says, it gives `Some` exactly when the value is of type `E`, that is,
    /// when `is::<E>()` answers `true`.
    #[verifier::external_body]
    pub fn downcast_ref<E: Extension>(&self) -> (r: Option<&E>)
        ensures
            r is Some <==> call_ensures(AnyExtension::is::<E>, (self,), true),
            r is None <==> call_ensures(AnyExtension::is::<E>, (self,), false),
    {
        self.value.downcast_ref::<E>()
    }

    /// Calls `<dyn Any>::downcast_mut::<E>()`: the value, if it is of type `E`. As its
    /// documentation says, it gives `Some` exactly when the value is of type `E`, that is,
    /// when `is::<E>()` answers `true`; the reference points into the box, so the box holds
    /// what is left behind it.
    #[verifier::external_body]
    pub fn downcast_mut<E: Extension>(&mut self) -> (r: Option<&mut E>)
        ensures
            r is Some <==> call_ensures(AnyExtension::is::<E>, (&*old(self),), true),
            r is None <==> call_ensures(AnyExtension::is::<E>, (&*old(self),), false),
            r matches Some(m) ==> holds(*final(self), *final(m)),
    {
        self.value.downcast_mut::<E>()
    }
}

#[derive(Debug)]
pub enum ExtensionError {
    AlreadyRegistered(String),
}

impl ExtensionError {
    /// The message of the error: the name, as `Debug` shows it.
    pub fn to_string(&self) -> (r: String)
        ensures
            match self {
                ExtensionError::AlreadyRegistered(name) => r@ == "Extension with name "@
                    + crate::text::debug_text_of(name@) + " already registered"@,
            },
    {
        match self {
            ExtensionError::AlreadyRegistered(name) => {
                let mut out = "Extension with name ".to_owned();
                let shown = crate::text::debug_str(name.as_str());
                out.append(shown.as_str());
                out.append(" already registered");
                out
            },
        }
    }
}

/// The names of the entries, in the order they were added.
pub open spec fn names_of(entries: Seq<(String, AnyExtension)>) -> Seq<Seq<char>> {
    entries.map_values(|e: (String, AnyExtension)| e.0@)
}

/// Whether `k` is the only position of `flags` that holds `true`.
pub open spec fn only_true_at(flags: Seq<bool>, k: int) -> bool {
    &&& 0 <= k < flags.len()
    &&& flags[k]
    &&& forall|j: int| 0 <= j < flags.len() && j != k ==> !flags[j]
}

/// Contains extensions, each under a name of its own.
pub struct ExtensionContainer {
    ob_map: Vec<(String, AnyExtension)>,
}

impl ExtensionContainer {
    /// The names of the extensions, in the order they were added.
    pub closed spec fn names(self) -> Seq<Seq<char>> {
        names_of(self.ob_map@)
    }

    /// The extension registered under the name at position `i`.
    pub closed spec fn value_at(self, i: int) -> AnyExtension {
        self.ob_map@[i].1
    }

    /// `flags` are answers that `AnyExtension::is::<E>` can give on the extensions, in order.
    pub open spec fn type_answers<E: Extension>(self, flags: Seq<bool>) -> bool {
        &&& flags.len() == self.names().len()
        &&& forall|k: int| 0 <= k < flags.len()
            ==> call_ensures(AnyExtension::is::<E>, (&self.value_at(k),), #[trigger] flags[k])
    }

    /// No name is registered twice.
    pub open spec fn wf(self) -> bool {
        self.names().no_duplicates()
    }

    pub fn new() -> (r: Self)
        ensures
            r.wf(),
            r.names().len() == 0,
    {
        let r = ExtensionContainer { ob_map: Vec::new() };
        assert(r.names() =~= Seq::<Seq<char>>::empty());
        r
    }

    /// The position of the extension named `name`.
    fn find(&self, name: &str) -> (r: Option<usize>)
        ensures
            r matches Some(i) ==> i < self.names().len() && self.names()[i as int] == name@,
            r is None ==> !self.names().contains(name@),
    {
        let mut i: usize = 0;
        while i < self.ob_map.len()
            invariant
                i <= self.ob_map@.len(),
                forall|k: int| 0 <= k < i ==> #[trigger] self.names()[k] != name@,
            decreases self.ob_map@.len() - i,
        {
            if compare_text(self.ob_map[i].0.as_str(), name) == 0 {
                return Some(i);
            }
            i = i + 1;
        }
        None
    }

    /// Adds a new extension to this container
    ///
    /// # Error
    /// Will return an error if `name` is already registered to this container
    pub fn add<E: Extension>(&mut self, name: &str, value: E) -> (r: Result<(), ExtensionError>)
        requires
            old(self).wf(),
        ensures
            final(self).wf(),
            r is Err <==> old(self).names().contains(name@),
            r matches Err(ExtensionError::AlreadyRegistered(n)) ==> n@ == name@,
            r is Err ==> final(self).names() == old(self).names(),
            r is Ok ==> final(self).names() == old(self).names().push(name@),
            forall|i: int| 0 <= i < old(self).names().len() ==> #[trigger] final(self).value_at(i) == old(self).value_at(i),
            r is Ok ==> holds(final(self).value_at(old(self).names().len() as int), value),
    {
        if self.find(name).is_some() {
            return Err(ExtensionError::AlreadyRegistered(name.to_owned()));
        }
        let boxed = AnyExtension::new(value);
        let ghost before = self.ob_map@;
        self.ob_map.push((name.to_owned(), boxed));
        assert(self.names() =~= names_of(before).push(name@));
        Ok(())
    }

    /// Gets a reference to an extension, if it exists
    pub fn get(&self, name: &str) -> (r: Option<&AnyExtension>)
        requires
            self.wf(),
        ensures
            r is Some <==> self.names().contains(name@),
            r matches Some(v) ==> exists|i: int| 0 <= i < self.names().len() && self.names()[i] == name@
                && *v == #[trigger] self.value_at(i),
    {
        match self.find(name) {
            Some(i) => {
                let v = &self.ob_map[i].1;
                assert(*v == self.value_at(i as int));
                Some(v)
            },
            None => None,
        }
    }

    /// Gets a mutable reference to an extension, if it exists
    pub fn get_mut(&mut self, name: &str) -> (r: Option<&mut AnyExtension>)
        requires
            old(self).wf(),
        ensures
            r is Some <==> old(self).names().contains(name@),
            final(self).names() == old(self).names(),
    {
        match self.find(name) {
            Some(i) => Some(&mut self.ob_map[i].1),
            None => None,
        }
    }

    /// If a single extension is of the type `E`, it is returned as `Some(_)`.
    /// For the answers that the type tests give: `None` unless exactly one extension is of the
    /// type, and what `AnyExtension::downcast_ref` gives on that one when it is.
    pub fn get_by_type<E: Extension>(&self) -> (r: Option<&E>)
        ensures
            exists|flags: Seq<bool>| #[trigger] self.type_answers::<E>(flags)
                && ((forall|k: int| !only_true_at(flags, k)) ==> r is None)
                && (forall|k: int| only_true_at(flags, k)
                    ==> r is Some && call_ensures(AnyExtension::downcast_ref::<E>, (&self.value_at(k),), r)),
    {
        match self.single_of_type::<E>() {
            Some(k) => {
                let r = self.ob_map[k].1.downcast_ref::<E>();
                assert(self.value_at(k as int) == self.ob_map@[k as int].1);
                r
            },
            None => None,
        }
    }
}

impl ExtensionContainer {
    /// The position of the only extension of the type `E`, if exactly one is of that type: for
    /// the answers that `AnyExtension::is` gave on the extensions, in order, the position of the
    /// only `true`, if there is exactly one.
    fn single_of_type<E: Extension>(&self) -> (r: Option<usize>)
        ensures
            exists|flags: Seq<bool>| {
                &&& #[trigger] self.type_answers::<E>(flags)
                &&& match r {
                    Some(k) => only_true_at(flags, k as int),
                    None => forall|k: int| !only_true_at(flags, k),
                }
            },
    {
        let mut found: Option<usize> = None;
        let mut many = false;
        let ghost mut flags: Seq<bool> = Seq::empty();
        let ghost mut first: int = 0;
        let ghost mut second: int = 0;
        let mut i: usize = 0;
        while i < self.ob_map.len()
            invariant
                i <= self.ob_map@.len(),
                self.names().len() == self.ob_map@.len(),
                flags.len() == i,
                forall|k: int| 0 <= k < flags.len()
                    ==> call_ensures(AnyExtension::is::<E>, (&self.value_at(k),), #[trigger] flags[k]),
                found matches Some(k) ==> k < i && flags[k as int],
                found is None ==> forall|j: int| 0 <= j < i ==> !flags[j],
                !many ==> forall|j: int| 0 <= j < i && flags[j] ==> found == Some(j as usize),
                many ==> 0 <= first < i && 0 <= second < i && first != second && flags[first] && flags[second],
            decreases self.ob_map@.len() - i,
        {
            let b = self.ob_map[i].1.is::<E>();
            assert(call_ensures(AnyExtension::is::<E>, (&self.ob_map@[i as int].1,), b));
            assert(self.value_at(i as int) == self.ob_map@[i as int].1);
            proof {
                flags = flags.push(b);
            }
            if b {
                match found {
                    None => {
                        found = Some(i);
                    },
                    Some(k) => {
                        if !many {
                            proof {
                                first = k as int;
                                second = i as int;
                            }
                        }
                        many = true;
                    },
                }
            }
            i = i + 1;
        }
        assert(self.type_answers::<E>(flags));
        if many {
            assert forall|k: int| !only_true_at(flags, k) by {
                if only_true_at(flags, k) {
                    if k == first {
                        assert(!flags[second]);
                    } else {
                        assert(!flags[first]);
                    }
                }
            }
            None
        } else {
            match found {
                Some(k) => Some(k),
                None => None,
            }
        }
    }

    /// If a single extension is of the type `E`, a mutable reference to it is returned as
    /// `Some(_)`.
    pub fn get_by_type_mut<E: Extension>(&mut self) -> (r: Option<&mut E>)
        ensures
            final(self).names() == old(self).names(),
            exists|flags: Seq<bool>| #[trigger] old(self).type_answers::<E>(flags)
                && ((forall|k: int| !only_true_at(flags, k)) ==> r is None)
                && (forall|k: int| only_true_at(flags, k) ==> r is Some),
            exists|flags: Seq<bool>| #[trigger] old(self).type_answers::<E>(flags)
                && (forall|i: int| 0 <= i < old(self).names().len() && !only_true_at(flags, i)
                    ==> #[trigger] final(self).value_at(i) == old(self).value_at(i))
                && (forall|k: int| only_true_at(flags, k) && r is Some ==> holds(
                    #[trigger] final(self).value_at(k),
                    *final(r->Some_0),
                )),
    {
        match self.single_of_type::<E>() {
            Some(k) => self.ob_map[k].1.downcast_mut::<E>(),
            None => None,
        }
    }
}

impl Default for ExtensionContainer {
    fn default() -> (r: Self)
        ensures
            r.wf(),
            r.names().len() == 0,
    {
        ExtensionContainer::new()
    }
}

/// A type that contains extensions
pub trait ExtensionAware {
    /// Gets the extension container
    fn extensions(&self) -> &ExtensionContainer;

    /// Gets a mutable reference to the extension container
    fn extensions_mut(&mut self) -> &mut ExtensionContainer;

    /// If a single extension is registered with a given type, a reference to that value is returned
    /// as `Some(_)`
    fn extension<E: Extension>(&self) -> (r: Option<&E>)
        ensures
            exists|c: &ExtensionContainer| call_ensures(Self::extensions, (self,), c)
                && call_ensures(ExtensionContainer::get_by_type::<E>, (c,), r),
    {
        let c = self.extensions();
        let r = c.get_by_type();
        assert(call_ensures(Self::extensions, (self,), c));
        r
    }

    /// If a single extension is registered with a given type, a mutable reference to that value
    /// is returned as `Some(_)`
    fn extension_mut<E: Extension>(&mut self) -> Option<&mut E> {
        self.extensions_mut().get_by_type_mut()
    }
}

/// An extension reads back as the value added under its name: in a container where no name is
/// used twice, the extension found under that name downcasts to the value.
pub proof fn added_extension_reads_back<E: Extension>(
    container: ExtensionContainer,
    name: Seq<char>,
    n: int,
    value: E,
    found: AnyExtension,
    o: Option<&E>,
)
    requires
        container.wf(),
        0 <= n < container.names().len(),
        container.names()[n] == name,
        holds(container.value_at(n), value),
        exists|i: int| 0 <= i < container.names().len() && container.names()[i] == name
            && found == #[trigger] container.value_at(i),
        call_ensures(AnyExtension::downcast_ref::<E>, (&found,), o),
    ensures
        o matches Some(v) && *v == value,
{
    let i = choose|i: int| 0 <= i < container.names().len() && container.names()[i] == name
        && found == #[trigger] container.value_at(i);
    if i != n {
        assert(container.names()[i] == container.names()[n]);
    }
}

} // verus!
