//! Properties: named cells of a [`PropStore`] that can be set to a value or to a provider.

use vstd::prelude::*;
use core::marker::PhantomData;
use std::any::TypeId;
use crate::identifier::{display_parts, quoted, Id, ID_SEPARATOR};
use crate::text::push_char;
use crate::lazy_evaluation::Provider;

verus! {

/// `std::any::TypeId`, carried through as an opaque value.
#[verifier::external_type_specification]
#[verifier::external_body]
pub struct ExTypeId(TypeId);

/// Calls `TypeId::of::<T>()`. Nothing is stated of the identifier it gives.
#[verifier::external_body]
fn type_id_of<T: ?Sized + 'static>() -> TypeId {
    TypeId::of::<T>()
}

/// Formats a `TypeId` with its `Debug` implementation. Nothing is stated of the text.
#[verifier::external_body]
fn type_id_text(t: TypeId) -> String {
    format!("{:?}", t)
}

/// Formats `value` with its `Debug` implementation (`format!("{:?}", value)`). Nothing is
/// stated of the text.
#[verifier::external_body]
fn debug_value<T: std::fmt::Debug>(value: &T) -> String {
    format!("{:?}", value)
}

/// Formats `value` with its alternate `Debug` form (`format!("{:#?}", value)`). Nothing is
/// stated of the text.
#[verifier::external_body]
fn debug_value_alternate<T: std::fmt::Debug>(value: &T) -> String {
    format!("{:#?}", value)
}

/// Calls `==` on two `TypeId`s, which the std derives from the identifiers' contents: the
/// result is whether the two identifiers are the same value.
#[verifier::external_body]
fn same_type_id(a: TypeId, b: TypeId) -> (r: bool)
    ensures
        r == (a == b),
{
    a == b
}

/// The contents of one property: nothing yet, a value, the message of a provider that had
/// no value when the property was set from it, or the index of another property of the same
/// store that it takes its value from whenever it is read.
pub enum PropCell<T> {
    Unset,
    Value(T),
    Missing(String),
    Linked(usize),
}

/// The cell that the property at `index` takes its value from, following at most `fuel`
/// links; none when the index is outside the cells or the links go on longer.
pub open spec fn resolve<T>(cells: Seq<PropCell<T>>, index: int, fuel: nat) -> Option<int>
    decreases fuel,
{
    if 0 <= index < cells.len() {
        match cells[index] {
            PropCell::Linked(j) => if fuel == 0 {
                None
            } else {
                resolve(cells, j as int, (fuel - 1) as nat)
            },
            _ => Some(index),
        }
    } else {
        None
    }
}

/// Whether following the links from `index`, at most `fuel` of them, passes the cell `i`.
pub open spec fn passes<T>(cells: Seq<PropCell<T>>, index: int, i: int, fuel: nat) -> bool
    decreases fuel,
{
    if index == i {
        true
    } else if 0 <= index < cells.len() && fuel > 0 {
        match cells[index] {
            PropCell::Linked(j) => passes(cells, j as int, i, (fuel - 1) as nat),
            _ => false,
        }
    } else {
        false
    }
}

/// The shared state of all the properties of one value type. A [`Prop`] is a handle to one
/// cell of a store; every clone of the handle reads and writes the same cell.
pub struct PropStore<T> {
    cells: Vec<PropCell<T>>,
}

impl<T> View for PropStore<T> {
    type V = Seq<PropCell<T>>;

    closed spec fn view(&self) -> Seq<PropCell<T>> {
        self.cells@
    }
}

impl<T> PropStore<T> {
    /// The cell that the property at `index` takes its value from: itself, or the end of its
    /// links; none when it is outside the store, or its links lead outside it or run in a
    /// circle.
    pub open spec fn target(self, index: int) -> Option<int> {
        resolve(self@, index, self@.len())
    }

    /// The value held at `index`, where its links lead; a handle outside the store holds
    /// nothing.
    pub open spec fn value_at(self, index: int) -> Option<T> {
        match self.target(index) {
            Some(t) => match self@[t] {
                PropCell::Value(v) => Some(v),
                _ => None,
            },
            None => None,
        }
    }

    /// The message of the property at `index`, named by `id`, when it has no value: the
    /// message kept where its links lead, or its quoted name and ` has no value`.
    pub open spec fn missing_text(self, index: int, id: Seq<Seq<char>>) -> Seq<char> {
        match self.target(index) {
            Some(t) if self@[t] is Missing => self@[t]->Missing_0@,
            _ => quoted(display_parts(id)) + " has no value"@,
        }
    }

    /// What reading the property at `index` gives: a clone of its value, or nothing.
    pub open spec fn provides_at(self, index: int, r: Option<T>) -> bool where T: Clone {
        match self.value_at(index) {
            None => r is None,
            Some(v) => r matches Some(c) && cloned(v, c),
        }
    }

    /// An empty store.
    pub fn new() -> (r: Self)
        ensures
            r@.len() == 0,
    {
        PropStore { cells: Vec::new() }
    }

    /// The number of properties in the store.
    pub fn len(&self) -> (r: usize)
        ensures
            r == self@.len(),
    {
        self.cells.len()
    }

    fn add_unset(&mut self) -> (r: usize)
        requires
            old(self)@.len() < usize::MAX,
        ensures
            r == old(self)@.len(),
            final(self)@ == old(self)@.push(PropCell::Unset),
    {
        let n = self.cells.len();
        self.cells.push(PropCell::Unset);
        n
    }

    fn replace(&mut self, index: usize, cell: PropCell<T>)
        requires
            index < old(self)@.len(),
        ensures
            final(self)@ == old(self)@.update(index as int, cell),
    {
        self.cells.set(index, cell);
    }

    fn cell(&self, index: usize) -> (r: &PropCell<T>)
        requires
            index < self@.len(),
        ensures
            *r == self@[index as int],
    {
        &self.cells[index]
    }

    /// Whether the property at `index` has a value.
    fn has_value(&self, index: usize) -> (r: bool)
        ensures
            r == self.value_at(index as int) is Some,
    {
        match self.find(index) {
            Some(t) => match self.cell(t) {
                PropCell::Value(_) => true,
                _ => false,
            },
            None => false,
        }
    }

    /// A clone of the value of the property at `index`, or nothing.
    fn value_of(&self, index: usize) -> (r: Option<T>)
        where
            T: Clone,
        ensures
            self.provides_at(index as int, r),
    {
        match self.find(index) {
            Some(t) => match self.cell(t) {
                PropCell::Value(v) => Some(v.clone()),
                _ => None,
            },
            None => None,
        }
    }

    /// Follows the links from `index` to the cell that the property takes its value from.
    fn find(&self, index: usize) -> (r: Option<usize>)
        ensures
            r matches Some(t) ==> self.target(index as int) == Some(t as int) && t < self@.len(),
            r is None ==> self.target(index as int) is None,
    {
        let n = self.cells.len();
        if index >= n {
            return None;
        }
        let mut idx = index;
        let mut steps: usize = 0;
        loop
            invariant
                n == self@.len(),
                idx < n,
                steps <= n,
                resolve(self@, index as int, n as nat) == resolve(self@, idx as int, (n - steps) as nat),
            decreases n - steps,
        {
            match &self.cells[idx] {
                PropCell::Linked(j) => {
                    if steps == n || *j >= n {
                        proof {
                            if steps < n {
                                assert(resolve(self@, *j as int, (n - steps - 1) as nat) is None);
                            }
                        }
                        return None;
                    }
                    idx = *j;
                    steps = steps + 1;
                },
                _ => {
                    return Some(idx);
                },
            }
        }
    }
}

/// A typed prop
pub struct Prop<T> {
    id: Id,
    index: usize,
    _type: PhantomData<T>,
}

impl<T> Prop<T> {
    /// The cell of the store that this handle reads and writes.
    pub closed spec fn index(self) -> nat {
        self.index as nat
    }

    /// The identifier of the property, as its parts.
    pub closed spec fn id_parts(self) -> Seq<Seq<char>> {
        self.id@
    }

    /// Creates a new, unset property in `store`.
    pub fn new(id: Id, store: &mut PropStore<T>) -> (r: Self)
        requires
            old(store)@.len() < usize::MAX,
        ensures
            r.id_parts() == id@,
            r.index() == old(store)@.len(),
            final(store)@ == old(store)@.push(PropCell::Unset),
    {
        let index = store.add_unset();
        Prop { id, index, _type: PhantomData }
    }

    /// Creates a new, unset property in `store`, named by the identifier `id`.
    ///
    /// `id` must be a valid identifier.
    pub fn with_name(id: &str, store: &mut PropStore<T>) -> (r: Self)
        requires
            crate::identifier::all_valid(crate::text::split_on(id@, ID_SEPARATOR)),
            old(store)@.len() < usize::MAX,
        ensures
            r.id_parts() == crate::text::split_on(id@, ID_SEPARATOR),
            r.index() == old(store)@.len(),
            final(store)@ == old(store)@.push(PropCell::Unset),
    {
        let id = Id::new_uncheckable(id);
        Self::new(id, store)
    }

    /// Creates a new, unset property in `store`, named by the identifier `id`, if `id` is a
    /// valid identifier; otherwise gives the error of its first invalid part and leaves
    /// `store` as it was.
    pub fn try_with_name(id: &str, store: &mut PropStore<T>) -> (r: Result<Self, crate::identifier::InvalidId>)
        requires
            old(store)@.len() < usize::MAX,
        ensures
            r is Ok <==> crate::identifier::all_valid(crate::text::split_on(id@, ID_SEPARATOR)),
            r matches Ok(p) ==> p.id_parts() == crate::text::split_on(id@, ID_SEPARATOR)
                && p.index() == old(store)@.len()
                && final(store)@ == old(store)@.push(PropCell::Unset),
            r matches Err(e) ==> e.0@ == crate::text::split_on(id@, ID_SEPARATOR)[crate::identifier::first_invalid(
                crate::text::split_on(id@, ID_SEPARATOR),
            )] && final(store)@ == old(store)@,
    {
        match Id::new(id) {
            Ok(name) => Ok(Self::new(name, store)),
            Err(e) => Err(e),
        }
    }

    /// Creates a new property in `store`, with the default identifier, holding `value`.
    pub fn with_value(value: T, store: &mut PropStore<T>) -> (r: Self)
        requires
            old(store)@.len() < usize::MAX,
        ensures
            r.id_parts() == seq![Seq::<char>::empty()],
            r.index() == old(store)@.len(),
            final(store)@ == old(store)@.push(PropCell::Value(value)),
    {
        let mut output = Self::new(Id::default(), store);
        let _ = output.set(value, store);
        assert(store@ =~= old(store)@.push(PropCell::Value(value)));
        output
    }

    /// Sets the property from the provider `val`: the property holds what `val` gives now,
    /// or, when `val` has no value, remembers `val`'s missing message.
    pub fn set_with<P: Provider<T, ()>>(&mut self, val: P, store: &mut PropStore<T>) -> (r: Result<(), Error>)
        requires
            old(self).index() < old(store)@.len(),
        ensures
            r is Ok,
            *final(self) == *old(self),
            final(store)@.len() == old(store)@.len(),
            forall|j: int| 0 <= j < old(store)@.len() && j != old(self).index()
                ==> #[trigger] final(store)@[j] == old(store)@[j],
            val.provides(&(), final(store).value_at(old(self).index() as int)),
    {
        let cell = match val.try_get(&()) {
            Some(v) => PropCell::Value(v),
            None => PropCell::Missing(val.missing_message(&())),
        };
        store.replace(self.index, cell);
        Ok(())
    }

    /// Sets the property from another property of the same store: from then on it gives what
    /// `other` gives at the time it is read.
    pub fn set_with_prop(&mut self, other: &Prop<T>, store: &mut PropStore<T>) -> (r: Result<(), Error>)
        requires
            old(self).index() < old(store)@.len(),
        ensures
            r is Ok,
            *final(self) == *old(self),
            final(store)@ == old(store)@.update(old(self).index() as int, PropCell::Linked(other.index() as usize)),
    {
        store.replace(self.index, PropCell::Linked(other.index));
        Ok(())
    }

    /// Sets the property to `val`.
    pub fn set(&mut self, val: T, store: &mut PropStore<T>) -> (r: Result<(), Error>)
        requires
            old(self).index() < old(store)@.len(),
        ensures
            r is Ok,
            *final(self) == *old(self),
            final(store)@ == old(store)@.update(old(self).index() as int, PropCell::Value(val)),
            final(store).value_at(old(self).index() as int) == Some(val),
    {
        store.replace(self.index, PropCell::Value(val));
        Ok(())
    }

    /// Replaces the cell of the property.
    pub(crate) fn set_cell(&mut self, cell: PropCell<T>, store: &mut PropStore<T>)
        requires
            old(self).index() < old(store)@.len(),
        ensures
            *final(self) == *old(self),
            final(store)@ == old(store)@.update(old(self).index() as int, cell),
    {
        store.replace(self.index, cell);
    }

    /// The value of the property, or `PropertyNotSet` when it has none.
    pub(crate) fn lookup(&self, store: &PropStore<T>) -> (r: Result<T, Error>)
        where
            T: Clone,
        ensures
            match r {
                Ok(v) => store.provides_at(self.index() as int, Some(v)),
                Err(e) => e is PropertyNotSet && store.provides_at(self.index() as int, None),
            },
    {
        match store.find(self.index) {
            Some(t) => match store.cell(t) {
                PropCell::Value(v) => Ok(v.clone()),
                _ => Err(Error::PropertyNotSet),
            },
            None => Err(Error::PropertyNotSet),
        }
    }

    /// The identifier of the property
    pub fn id(&self) -> (r: &Id)
        ensures
            r@ == self.id_parts(),
    {
        &self.id
    }

    /// The property as `Debug` writes it. In the alternate form: the value's own alternate
    /// text, or `<no value>` when it has none. Otherwise, for a property never set:
    /// `Prop { id: "<id>" }>`; for one that holds a value: its identifier and the value's text.
    pub fn debug_text(&self, store: &PropStore<T>, alternate: bool) -> (r: String)
        where
            T: std::fmt::Debug,
        ensures
            alternate && store.value_at(self.index() as int) is None ==> r@ == "<no value>"@,
            !alternate && self.index() < store@.len() && store@[self.index() as int] is Unset ==> r@ == "Prop { id: "@
                + quoted(display_parts(self.id_parts())) + " }>"@,
    {
        let value: Option<&T> = match store.find(self.index) {
            Some(t) => match store.cell(t) {
                PropCell::Value(v) => Some(v),
                _ => None,
            },
            None => None,
        };
        if alternate {
            return match value {
                Some(v) => debug_value_alternate(v),
                None => "<no value>".to_owned(),
            };
        }
        let mut out = "Prop { id: ".to_owned();
        push_char(&mut out, '"');
        let name = self.id.to_string();
        out.append(name.as_str());
        push_char(&mut out, '"');
        if self.index < store.len() {
            if let PropCell::Unset = store.cell(self.index) {
                out.append(" }>");
                proof {
                    reveal_strlit("Prop { id: ");
                    reveal_strlit(" }>");
                }
                assert(out@ =~= "Prop { id: "@ + quoted(display_parts(self.id_parts())) + " }>"@);
                return out;
            }
        }
        match value {
            Some(v) => {
                out.append(", value: ");
                let text = debug_value(v);
                out.append(text.as_str());
                out.append(" }");
            },
            None => {
                out.append(" }");
            },
        }
        out
    }

    /// The property as text: its value as `Display` writes it, or `<unset>` when it has none.
    pub fn display_text(&self, store: &PropStore<T>) -> (r: String)
        where
            T: std::fmt::Display,
        ensures
            match store.value_at(self.index() as int) {
                Some(v) => vstd::string::to_string_from_display_ensures::<T>(&v, r),
                None => r@ == "<unset>"@,
            },
    {
        if let Some(t) = store.find(self.index) {
            if let PropCell::Value(v) = store.cell(t) {
                return v.to_string();
            }
        }
        "<unset>".to_owned()
    }
}

impl<T: Clone> Provider<T, PropStore<T>> for Prop<T> {
    open spec fn provides(&self, env: &PropStore<T>, r: Option<T>) -> bool {
        env.provides_at(self.index() as int, r)
    }

    fn missing_message(&self, env: &PropStore<T>) -> (r: String)
        ensures
            r@ == env.missing_text(self.index() as int, self.id_parts()),
    {
        if let Some(t) = env.find(self.index) {
            if let PropCell::Missing(message) = env.cell(t) {
                return message.clone();
            }
        }
        let mut out = String::new();
        push_char(&mut out, '"');
        let name = self.id.to_string();
        out.append(name.as_str());
        push_char(&mut out, '"');
        out.append(" has no value");
        out
    }

    fn try_get(&self, env: &PropStore<T>) -> (r: Option<T>) {
        match self.lookup(env) {
            Ok(v) => Some(v),
            Err(_) => None,
        }
    }
}

impl<T> Clone for Prop<T> {
    fn clone(&self) -> (r: Self)
        ensures
            r.id_parts() == self.id_parts(),
            r.index() == self.index(),
    {
        Prop { id: self.id.clone(), index: self.index, _type: PhantomData }
    }
}

/// A property whose value type is only known when it is used: a handle to a cell of a store,
/// with the identifier of the type of that store's values.
pub struct AnyProp {
    id: Id,
    index: usize,
    ty_id: TypeId,
}

impl AnyProp {
    /// The identifier of the property, as its parts.
    pub closed spec fn id_parts(self) -> Seq<Seq<char>> {
        self.id@
    }

    /// The cell of the store that this handle reads and writes.
    pub closed spec fn index(self) -> nat {
        self.index as nat
    }

    /// The identifier of the type of the values of the property's store.
    pub closed spec fn type_id(self) -> TypeId {
        self.ty_id
    }

    /// Whether `t` is an identifier that `TypeId::of::<T>()` gave.
    pub closed spec fn is_type_id_of<T: 'static>(t: TypeId) -> bool {
        call_ensures(type_id_of::<T>, (), t)
    }

    /// Creates a new, empty property in `store`.
    pub fn new<T: 'static>(id: Id, store: &mut PropStore<T>) -> (r: Self)
        requires
            old(store)@.len() < usize::MAX,
        ensures
            r.id_parts() == id@,
            r.index() == old(store)@.len(),
            final(store)@ == old(store)@.push(PropCell::Unset),
            AnyProp::is_type_id_of::<T>(r.type_id()),
    {
        let prop = Prop::<T>::new(id, store);
        Self::from_prop(prop)
    }

    /// Creates a new property in `store` that takes its value from `value`.
    pub fn with<P: Provider<R, ()>, R: 'static>(id: Id, value: P, store: &mut PropStore<R>) -> (r: Self)
        requires
            old(store)@.len() < usize::MAX,
        ensures
            r.id_parts() == id@,
            r.index() == old(store)@.len(),
            final(store)@.len() == old(store)@.len() + 1,
            final(store)@.take(old(store)@.len() as int) == old(store)@,
            value.provides(&(), final(store).value_at(r.index() as int)),
            AnyProp::is_type_id_of::<R>(r.type_id()),
    {
        let mut prop = Prop::<R>::new(id, store);
        let ghost pushed = store@;
        let _ = prop.set_with(value, store);
        assert(final(store)@.take(old(store)@.len() as int) =~= old(store)@) by {
            assert(pushed.take(old(store)@.len() as int) =~= old(store)@);
        }
        Self::from_prop(prop)
    }

    /// A type-erased handle to the cell of `prop`.
    pub fn from_prop<T: 'static>(prop: Prop<T>) -> (r: Self)
        ensures
            r.id_parts() == prop.id_parts(),
            r.index() == prop.index(),
            AnyProp::is_type_id_of::<T>(r.type_id()),
    {
        let ty_id = type_id_of::<T>();
        assert(AnyProp::is_type_id_of::<T>(ty_id));
        AnyProp { id: prop.id, index: prop.index, ty_id }
    }

    /// Sets the property to take its value from `value`, if the property's values are of
    /// type `R`.
    pub fn set<P: Provider<R, ()>, R: 'static>(&mut self, value: P, store: &mut PropStore<R>) -> (r: Result<(), Error>)
        requires
            old(self).index() < old(store)@.len(),
        ensures
            *final(self) == *old(self),
            final(store)@.len() == old(store)@.len(),
            r is Ok ==> value.provides(&(), final(store).value_at(old(self).index() as int)),
            r is Ok ==> forall|j: int| 0 <= j < old(store)@.len() && j != old(self).index()
                ==> #[trigger] final(store)@[j] == old(store)@[j],
            r is Err ==> (r matches Err(e) && e is TypeMismatch && final(store)@ == old(store)@),
            exists|found: TypeId| AnyProp::is_type_id_of::<R>(found) && (r is Ok <==> found == old(self).type_id()),
    {
        match self.as_ty::<R>() {
            Ok(mut with_ty) => with_ty.set_with(value, store),
            Err(e) => Err(e),
        }
    }

    /// The typed handle of this property, if its values are of type `T`.
    pub fn into_ty<T: 'static>(self) -> (r: Result<Prop<T>, Error>)
        ensures
            r matches Ok(p) ==> p.id_parts() == self.id_parts() && p.index() == self.index(),
            r matches Err(e) ==> e is TypeMismatch,
            exists|found: TypeId| AnyProp::is_type_id_of::<T>(found) && (r is Ok <==> found == self.type_id()) && (
            r matches Err(Error::TypeMismatch { expected, found: f }) ==> expected == self.type_id() && f == found),
    {
        let found = type_id_of::<T>();
        assert(AnyProp::is_type_id_of::<T>(found));
        if !same_type_id(self.ty_id, found) {
            Err(Error::TypeMismatch { expected: self.ty_id, found })
        } else {
            Ok(Prop { id: self.id, index: self.index, _type: PhantomData })
        }
    }

    /// The typed handle of this property, if its values are of type `T`.
    pub fn as_ty<T: 'static>(&self) -> (r: Result<Prop<T>, Error>)
        ensures
            r matches Ok(p) ==> p.id_parts() == self.id_parts() && p.index() == self.index(),
            r matches Err(e) ==> e is TypeMismatch,
            exists|found: TypeId| AnyProp::is_type_id_of::<T>(found) && (r is Ok <==> found == self.type_id()) && (
            r matches Err(Error::TypeMismatch { expected, found: f }) ==> expected == self.type_id() && f == found),
    {
        let found = type_id_of::<T>();
        assert(AnyProp::is_type_id_of::<T>(found));
        if !same_type_id(self.ty_id, found) {
            Err(Error::TypeMismatch { expected: self.ty_id, found })
        } else {
            Ok(Prop { id: self.id.clone(), index: self.index, _type: PhantomData })
        }
    }

    /// The identifier of the property
    pub fn id(&self) -> (r: &Id)
        ensures
            r@ == self.id_parts(),
    {
        &self.id
    }

    /// The debugging text of the property: `Property ` and its identifier.
    pub fn debug_text(&self) -> (r: String)
        ensures
            r@ == "Property "@ + crate::identifier::display_parts(self.id_parts()),
    {
        let mut out = "Property ".to_owned();
        let name = self.id.to_string();
        out.append(name.as_str());
        proof {
            reveal_strlit("Property ");
        }
        out
    }
}

impl Clone for AnyProp {
    fn clone(&self) -> (r: Self)
        ensures
            r.id_parts() == self.id_parts(),
            r.index() == self.index(),
    {
        AnyProp { id: self.id.clone(), index: self.index, ty_id: self.ty_id }
    }
}

/// One entry of a list property: values, the message of a provider that had no value when it
/// was pushed, or a property of the store, read whenever the list is read.
pub enum VecEntry<T> {
    Values(Vec<T>),
    Missing(String),
    FromProp(Prop<T>),
}

/// The list that `entries` give in `store`: their values one after the other, or nothing when
/// an entry has none.
pub open spec fn entries_value<T>(entries: Seq<VecEntry<T>>, store: PropStore<T>) -> Option<Seq<T>>
    decreases entries.len(),
{
    if entries.len() == 0 {
        Some(Seq::empty())
    } else {
        match entries_value(entries.drop_last(), store) {
            None => None,
            Some(before) => match entries.last() {
                VecEntry::Values(v) => Some(before + v@),
                VecEntry::Missing(_) => None,
                VecEntry::FromProp(p) => match store.value_at(p.index() as int) {
                    Some(x) => Some(before.push(x)),
                    None => None,
                },
            },
        }
    }
}

/// Whether the entry has a value in `store`.
pub open spec fn entry_has_value<T>(e: VecEntry<T>, store: PropStore<T>) -> bool {
    match e {
        VecEntry::Values(_) => true,
        VecEntry::Missing(_) => false,
        VecEntry::FromProp(p) => store.value_at(p.index() as int) is Some,
    }
}

/// The message of an entry without a value.
pub open spec fn entry_missing_text<T>(e: VecEntry<T>, store: PropStore<T>) -> Seq<char> {
    match e {
        VecEntry::Values(_) => Seq::empty(),
        VecEntry::Missing(m) => m@,
        VecEntry::FromProp(p) => store.missing_text(p.index() as int, p.id_parts()),
    }
}

proof fn lemma_entries_none_prefix<T>(entries: Seq<VecEntry<T>>, store: PropStore<T>, k: int)
    requires
        0 <= k <= entries.len(),
        entries_value(entries.take(k), store) is None,
    ensures
        entries_value(entries, store) is None,
    decreases entries.len() - k,
{
    if k < entries.len() {
        assert(entries.take(k + 1).drop_last() =~= entries.take(k));
        lemma_entries_none_prefix(entries, store, k + 1);
    } else {
        assert(entries.take(k) =~= entries);
    }
}

proof fn lemma_entries_all_have_values<T>(entries: Seq<VecEntry<T>>, store: PropStore<T>)
    requires
        forall|j: int| 0 <= j < entries.len() ==> entry_has_value(#[trigger] entries[j], store),
    ensures
        entries_value(entries, store) is Some,
    decreases entries.len(),
{
    if entries.len() > 0 {
        let d = entries.drop_last();
        assert forall|j: int| 0 <= j < d.len() implies entry_has_value(#[trigger] d[j], store) by {
            assert(d[j] == entries[j]);
        }
        lemma_entries_all_have_values(d, store);
        assert(entry_has_value(entries[entries.len() - 1], store));
    }
}

/// A vec prop is a special property that uses a list
pub struct VecProp<T> {
    id: Id,
    entries: Vec<VecEntry<T>>,
}

impl<T> VecProp<T> {
    /// The identifier of the property, as its parts.
    pub closed spec fn id_parts(self) -> Seq<Seq<char>> {
        self.id@
    }

    /// The entries of the list, in the order they were pushed.
    pub closed spec fn entries(self) -> Seq<VecEntry<T>> {
        self.entries@
    }

    /// create a new vec prop with a given id
    pub fn new(id: Id) -> (r: Self)
        ensures
            r.id_parts() == id@,
            r.entries().len() == 0,
    {
        VecProp { id, entries: Vec::new() }
    }

    /// Push a value to the vector
    pub fn push(&mut self, value: T)
        ensures
            final(self).id_parts() == old(self).id_parts(),
            final(self).entries().len() == old(self).entries().len() + 1,
            final(self).entries().drop_last() == old(self).entries(),
            final(self).entries().last() matches VecEntry::Values(v) && v@ == seq![value],
    {
        let mut v: Vec<T> = Vec::new();
        v.push(value);
        self.entries.push(VecEntry::Values(v));
        assert(self.entries@.drop_last() =~= old(self).entries@);
    }

    /// Push all the values to the vector, in order
    pub fn push_all(&mut self, values: Vec<T>)
        ensures
            final(self).id_parts() == old(self).id_parts(),
            final(self).entries().len() == old(self).entries().len() + 1,
            final(self).entries().drop_last() == old(self).entries(),
            final(self).entries().last() matches VecEntry::Values(v) && v@ == values@,
    {
        self.entries.push(VecEntry::Values(values));
        assert(self.entries@.drop_last() =~= old(self).entries@);
    }

    /// Push the property `prop` to the vector: the list holds what `prop` holds when the
    /// list is read.
    pub fn push_with_prop(&mut self, prop: &Prop<T>)
        ensures
            final(self).id_parts() == old(self).id_parts(),
            final(self).entries().len() == old(self).entries().len() + 1,
            final(self).entries().drop_last() == old(self).entries(),
            final(self).entries().last() matches VecEntry::FromProp(p) && p.index() == prop.index()
                && p.id_parts() == prop.id_parts(),
    {
        self.entries.push(VecEntry::FromProp(prop.clone()));
        assert(self.entries@.drop_last() =~= old(self).entries@);
    }

    /// Push what `value` gives now to the vector, or, when it has no value, its missing
    /// message.
    pub fn push_with<P: Provider<T, ()>>(&mut self, value: P)
        ensures
            final(self).id_parts() == old(self).id_parts(),
            final(self).entries().len() == old(self).entries().len() + 1,
            final(self).entries().drop_last() == old(self).entries(),
            exists|o: Option<T>| value.provides(&(), o) && match o {
                Some(x) => final(self).entries().last() matches VecEntry::Values(v) && v@ == seq![x],
                None => final(self).entries().last() is Missing,
            },
    {
        let entry = match value.try_get(&()) {
            Some(x) => {
                let mut v: Vec<T> = Vec::new();
                v.push(x);
                VecEntry::Values(v)
            },
            None => VecEntry::Missing(value.missing_message(&())),
        };
        self.entries.push(entry);
        assert(self.entries@.drop_last() =~= old(self).entries@);
    }

    /// Push all the values that `value` gives now to the vector, or, when it has none, its
    /// missing message.
    pub fn push_all_with<P: Provider<Vec<T>, ()>>(&mut self, value: P)
        ensures
            final(self).id_parts() == old(self).id_parts(),
            final(self).entries().len() == old(self).entries().len() + 1,
            final(self).entries().drop_last() == old(self).entries(),
            exists|o: Option<Vec<T>>| value.provides(&(), o) && match o {
                Some(xs) => final(self).entries().last() matches VecEntry::Values(v) && v@ == xs@,
                None => final(self).entries().last() is Missing,
            },
    {
        let entry = match value.try_get(&()) {
            Some(xs) => VecEntry::Values(xs),
            None => VecEntry::Missing(value.missing_message(&())),
        };
        self.entries.push(entry);
        assert(self.entries@.drop_last() =~= old(self).entries@);
    }

    /// Resets this property to contain only what `values` gives now.
    pub fn from<P: Provider<Vec<T>, ()>>(&mut self, values: P)
        ensures
            final(self).id_parts() == old(self).id_parts(),
            final(self).entries().len() == 1,
            exists|o: Option<Vec<T>>| values.provides(&(), o) && match o {
                Some(xs) => final(self).entries()[0] matches VecEntry::Values(v) && v@ == xs@,
                None => final(self).entries()[0] is Missing,
            },
    {
        self.clear();
        self.push_all_with(values);
    }

    /// Clears the contents of the vector
    pub fn clear(&mut self)
        ensures
            final(self).id_parts() == old(self).id_parts(),
            final(self).entries().len() == 0,
    {
        self.entries = Vec::new();
    }
}

/// The position of the first entry, from `i` on, that has no value in `store`.
pub open spec fn first_missing_from<T>(entries: Seq<VecEntry<T>>, store: PropStore<T>, i: int) -> Option<int>
    decreases entries.len() - i,
{
    if i < 0 || i >= entries.len() {
        None
    } else if !entry_has_value(entries[i], store) {
        Some(i)
    } else {
        first_missing_from(entries, store, i + 1)
    }
}

impl<T: Clone> Provider<Vec<T>, PropStore<T>> for VecProp<T> {
    open spec fn provides(&self, env: &PropStore<T>, r: Option<Vec<T>>) -> bool {
        match entries_value(self.entries(), *env) {
            None => r is None,
            Some(s) => r matches Some(out) && out@.len() == s.len() && forall|j: int|
                0 <= j < s.len() ==> cloned(s[j], #[trigger] out@[j]),
        }
    }

    fn missing_message(&self, env: &PropStore<T>) -> (r: String)
        ensures
            match first_missing_from(self.entries(), *env, 0) {
                Some(k) => r@ == display_parts(self.id_parts()) + " vector missing value > "@
                    + entry_missing_text(self.entries()[k], *env),
                None => r@ == display_parts(self.id_parts()) + " missing unknown value"@,
            },
    {
        let mut k: usize = 0;
        while k < self.entries.len()
            invariant
                k <= self.entries@.len(),
                first_missing_from(self.entries@, *env, 0) == first_missing_from(self.entries@, *env, k as int),
            decreases self.entries@.len() - k,
        {
            let message: Option<String> = match &self.entries[k] {
                VecEntry::Values(_) => None,
                VecEntry::Missing(m) => Some(m.clone()),
                VecEntry::FromProp(p) => {
                    if env.has_value(p.index) {
                        None
                    } else {
                        Some(p.missing_message(env))
                    }
                },
            };
            if let Some(m) = message {
                let mut out = self.id.to_string();
                out.append(" vector missing value > ");
                out.append(m.as_str());
                return out;
            }
            k = k + 1;
        }
        let mut out = self.id.to_string();
        out.append(" missing unknown value");
        out
    }

    fn try_get(&self, env: &PropStore<T>) -> (r: Option<Vec<T>>) {
        let mut out: Vec<T> = Vec::new();
        let mut k: usize = 0;
        let ghost entries = self.entries@;
        while k < self.entries.len()
            invariant
                entries == self.entries@,
                k <= entries.len(),
                entries_value(entries.take(k as int), *env) is Some,
                ({
                    let s = entries_value(entries.take(k as int), *env)->0;
                    out@.len() == s.len() && forall|j: int| 0 <= j < s.len() ==> cloned(s[j], #[trigger] out@[j])
                }),
            decreases entries.len() - k,
        {
            let ghost s0 = entries_value(entries.take(k as int), *env)->0;
            let ghost out0 = out@;
            assert(entries.take(k + 1).drop_last() =~= entries.take(k as int));
            assert(entries.take(k + 1).last() == entries[k as int]);
            match &self.entries[k] {
                VecEntry::Values(v) => {
                    let mut i: usize = 0;
                    while i < v.len()
                        invariant
                            i <= v@.len(),
                            out@.len() == s0.len() + i,
                            out0.len() == s0.len(),
                            forall|j: int| 0 <= j < s0.len() ==> cloned(s0[j], #[trigger] out0[j]),
                            forall|j: int| 0 <= j < s0.len() ==> out@[j] == out0[j],
                            forall|j: int| 0 <= j < i ==> cloned(v@[j], #[trigger] out@[s0.len() + j]),
                        decreases v@.len() - i,
                    {
                        let c = v[i].clone();
                        out.push(c);
                        i = i + 1;
                    }
                    assert(entries_value(entries.take(k + 1), *env) == Some(s0 + v@));
                    assert forall|j: int| 0 <= j < (s0 + v@).len() implies cloned((s0 + v@)[j], #[trigger] out@[j]) by {
                        if j < s0.len() {
                            assert(out@[j] == out0[j]);
                        } else {
                            assert(cloned(v@[j - s0.len()], out@[s0.len() + (j - s0.len())]));
                        }
                    }
                },
                VecEntry::Missing(_) => {
                    proof {
                        lemma_entries_none_prefix(entries, *env, k + 1);
                    }
                    return None;
                },
                VecEntry::FromProp(p) => {
                    match env.value_of(p.index) {
                        Some(x) => {
                            out.push(x);
                            assert(entries_value(entries.take(k + 1), *env) == Some(s0.push(
                                env.value_at(p.index() as int)->0,
                            )));
                            assert forall|j: int| 0 <= j < s0.len() + 1 implies cloned(
                                s0.push(env.value_at(p.index() as int)->0)[j],
                                #[trigger] out@[j],
                            ) by {
                                if j < s0.len() {
                                    assert(out@[j] == out0[j]);
                                }
                            }
                        },
                        None => {
                            proof {
                                lemma_entries_none_prefix(entries, *env, k + 1);
                            }
                            return None;
                        },
                    }
                },
            }
            k = k + 1;
        }
        assert(entries.take(k as int) =~= entries);
        Some(out)
    }
}

impl<T> Default for VecProp<T> {
    fn default() -> (r: Self)
        ensures
            r.id_parts() == seq![Seq::<char>::empty()],
            r.entries().len() == 0,
    {
        Self::new(Id::default())
    }
}

/// Why a property could not be used.
#[derive(Debug)]
pub enum Error {
    /// Kept for callers that match on it; a store has no lock, so it never occurs.
    LockPoisonError,
    TypeMismatch { expected: TypeId, found: TypeId },
    PropertyNotSet,
}

impl Error {
    /// The message of the error.
    pub fn to_string(&self) -> (r: String)
        ensures
            self is LockPoisonError ==> r@ == "Property's lock was poisoned"@,
            self is PropertyNotSet ==> r@ == "Property has no value set"@,
    {
        match self {
            Error::LockPoisonError => "Property's lock was poisoned".to_owned(),
            Error::TypeMismatch { expected, found } => {
                let mut out = "Type Mismatch (Expected = ".to_owned();
                let e = type_id_text(*expected);
                out.append(e.as_str());
                out.append(", Found = ");
                let f = type_id_text(*found);
                out.append(f.as_str());
                out.append(")");
                out
            },
            Error::PropertyNotSet => "Property has no value set".to_owned(),
        }
    }
}

/// Every clone of a handle reads the same cell: in any store, a clone gives exactly what the
/// handle it was cloned from gives.
pub proof fn clone_shares_cell<T: Clone>(a: Prop<T>, b: Prop<T>, store: PropStore<T>, o: Option<T>)
    requires
        b.index() == a.index(),
    ensures
        b.provides(&store, o) == a.provides(&store, o),
{
}

/// What is written to a property is what it gives back: after the cell of `p` is set to `v`,
/// reading `p` gives a clone of `v`, and only that.
pub proof fn read_after_write<T: Clone>(p: Prop<T>, before: PropStore<T>, after: PropStore<T>, v: T, o: Option<T>)
    requires
        p.index() < before@.len(),
        after@ == before@.update(p.index() as int, PropCell::Value(v)),
    ensures
        p.provides(&after, o) <==> (o matches Some(c) && cloned(v, c)),
{
}

/// A provider mapped from a property reads the property when it is asked: in every store it
/// gives the mapped value of what the property then holds.
pub proof fn map_reads_current_value<T: Clone, R, F: Fn(T) -> R>(
    m: crate::lazy_evaluation::providers::MapProvider<T, R, F, Prop<T>, PropStore<T>>,
    store: PropStore<T>,
    o: Option<R>,
)
    ensures
        m.provides(&store, o) == crate::lazy_evaluation::providers::mapped(
            m.transform(),
            |x: Option<T>| store.provides_at(m.source().index() as int, x),
            o,
        ),
{
    assert((|x: Option<T>| m.source().provides(&store, x)) =~= (|x: Option<T>| store.provides_at(
        m.source().index() as int,
        x,
    )));
}

proof fn lemma_resolve_unchanged<T>(before: Seq<PropCell<T>>, after: Seq<PropCell<T>>, j: int, i: int, fuel: nat)
    requires
        after.len() == before.len(),
        forall|k: int| 0 <= k < before.len() && k != i ==> #[trigger] after[k] == before[k],
        !passes(before, j, i, fuel),
    ensures
        resolve(after, j, fuel) == resolve(before, j, fuel),
        resolve(before, j, fuel) matches Some(t) ==> t != i && 0 <= t < before.len(),
    decreases fuel,
{
    if 0 <= j < before.len() {
        assert(after[j] == before[j]);
        if let PropCell::Linked(k) = before[j] {
            if fuel > 0 {
                lemma_resolve_unchanged(before, after, k as int, i, (fuel - 1) as nat);
            }
        }
    }
}

/// Setting one property leaves the value of every other property of the store unchanged,
/// unless the other property's links lead through the one that was set.
pub proof fn set_keeps_other_cells<T>(before: PropStore<T>, after: PropStore<T>, i: int, j: int)
    requires
        after@.len() == before@.len(),
        forall|k: int| 0 <= k < before@.len() && k != i ==> #[trigger] after@[k] == before@[k],
        !passes(before@, j, i, before@.len()),
    ensures
        after.value_at(j) == before.value_at(j),
{
    lemma_resolve_unchanged(before@, after@, j, i, before@.len());
    if let Some(t) = before.target(j) {
        assert(after@[t] == before@[t]);
    }
}

/// A property set from another reads the other when it is read, not when it was set: after
/// `p` is set from `q` and `q` is then set to `v`, reading `p` gives a clone of `v`.
pub proof fn linked_reads_source_when_read<T: Clone>(
    p: Prop<T>,
    q: Prop<T>,
    linked: PropStore<T>,
    written: PropStore<T>,
    v: T,
    o: Option<T>,
)
    requires
        p.index() < linked@.len(),
        q.index() < linked@.len(),
        p.index() != q.index(),
        linked@[p.index() as int] == PropCell::<T>::Linked(q.index() as usize),
        written@ == linked@.update(q.index() as int, PropCell::Value(v)),
    ensures
        p.provides(&written, o) <==> (o matches Some(c) && cloned(v, c)),
{
    let n = written@.len();
    assert(written@[p.index() as int] == PropCell::<T>::Linked(q.index() as usize));
    assert(resolve(written@, q.index() as int, (n - 1) as nat) == Some(q.index() as int));
    assert(written.target(p.index() as int) == Some(q.index() as int));
}

} // verus!
