//! The properties of a task, by name.

use vstd::prelude::*;
use crate::identifier::{all_valid, TaskId, ID_SEPARATOR};
use crate::lazy_evaluation::{PropCell, PropStore};
use crate::properties::{AnyProp, Error, Prop};
use crate::text::{compare_text, split_on};

verus! {

/// The names of the entries of a property map.
pub open spec fn property_names(m: Seq<(String, AnyProp)>) -> Seq<Seq<char>> {
    m.map_values(|e: (String, AnyProp)| e.0@)
}

/// Stores Task Properties
pub struct TaskProperties {
    owner_task_id: TaskId,
    property_map: Vec<(String, AnyProp)>,
}

impl TaskProperties {
    /// The task the properties belong to.
    pub closed spec fn owner(self) -> Seq<Seq<char>> {
        self.owner_task_id@
    }

    /// The names of the properties.
    pub closed spec fn names(self) -> Seq<Seq<char>> {
        property_names(self.property_map@)
    }

    /// The property named at position `i`.
    pub closed spec fn property_at(self, i: int) -> AnyProp {
        self.property_map@[i].1
    }

    /// No name is used twice.
    pub closed spec fn wf(self) -> bool {
        self.names().no_duplicates()
    }

    pub fn new(owner_task_id: TaskId) -> (r: Self)
        ensures
            r.wf(),
            r.owner() == owner_task_id@,
            r.names().len() == 0,
    {
        let r = Self { owner_task_id, property_map: Vec::new() };
        assert(r.names() =~= Seq::<Seq<char>>::empty());
        r
    }

    fn find(&self, name: &str) -> (r: Option<usize>)
        ensures
            r matches Some(i) ==> i < self.names().len() && self.names()[i as int] == name@,
            r is None ==> !self.names().contains(name@),
    {
        let mut i: usize = 0;
        while i < self.property_map.len()
            invariant
                i <= self.property_map@.len(),
                forall|k: int| 0 <= k < i ==> #[trigger] self.names()[k] != name@,
            decreases self.property_map@.len() - i,
        {
            if compare_text(self.property_map[i].0.as_str(), name) == 0 {
                return Some(i);
            }
            i = i + 1;
        }
        None
    }

    /// Adds the property `key` of the owner task, holding `value`, replacing a property of the
    /// same name. `key` must be a valid identifier.
    pub fn insert<T: 'static>(&mut self, key: &str, value: T, store: &mut PropStore<T>)
        requires
            old(self).wf(),
            all_valid(split_on(key@, ID_SEPARATOR)),
            old(store)@.len() < usize::MAX,
        ensures
            final(self).wf(),
            final(self).owner() == old(self).owner(),
            final(store)@ == old(store)@.push(PropCell::Value(value)),
            final(self).names() == (if old(self).names().contains(key@) {
                old(self).names()
            } else {
                old(self).names().push(key@)
            }),
            exists|i: int| 0 <= i < final(self).names().len() && final(self).names()[i] == key@
                && #[trigger] final(self).property_at(i).index() == old(store)@.len()
                && final(self).property_at(i).id_parts() == old(self).owner() + split_on(key@, ID_SEPARATOR)
                && crate::lazy_evaluation::AnyProp::is_type_id_of::<T>(final(self).property_at(i).type_id()),
    {
        let mut prop = match self.owner_task_id.prop::<T>(key, store) {
            Ok(p) => Prop::<T>::from_lazy(p),
            Err(_) => {
                assert(false);
                return;
            },
        };
        let _ = prop.set(value, store);
        assert(store@ =~= old(store)@.push(PropCell::Value(value)));
        let any = AnyProp::from_prop(prop);
        match self.find(key) {
            Some(i) => {
                let name = self.property_map[i].0.clone();
                let ghost before = self.property_map@;
                self.property_map.set(i, (name, any));
                assert(self.names() =~= property_names(before));
                assert(self.property_at(i as int).index() == old(store)@.len());
                assert(self.property_at(i as int) == any);
            },
            None => {
                let ghost before = self.property_map@;
                self.property_map.push((key.to_owned(), any));
                assert(self.names() =~= property_names(before).push(key@));
                assert(self.property_at(before.len() as int).index() == old(store)@.len());
                assert(self.names()[before.len() as int] == key@);
                assert(self.property_at(before.len() as int) == any);
            },
        }
    }

    /// Adds the property `key` of the owner task, holding `value`, replacing a property of the
    /// same name, when `key` is a valid identifier; refuses `key` otherwise.
    pub fn try_insert<T: 'static>(&mut self, key: &str, value: T, store: &mut PropStore<T>) -> (r: Result<
        (),
        crate::identifier::InvalidId,
    >)
        requires
            old(self).wf(),
            old(store)@.len() < usize::MAX,
        ensures
            final(self).wf(),
            final(self).owner() == old(self).owner(),
            r is Ok <==> all_valid(split_on(key@, ID_SEPARATOR)),
            r is Err ==> *final(self) == *old(self) && final(store)@ == old(store)@,
            r is Ok ==> final(store)@ == old(store)@.push(PropCell::Value(value)),
            r is Ok ==> final(self).names() == (if old(self).names().contains(key@) {
                old(self).names()
            } else {
                old(self).names().push(key@)
            }),
            r is Ok ==> exists|i: int| 0 <= i < final(self).names().len() && final(self).names()[i] == key@
                && #[trigger] final(self).property_at(i).index() == old(store)@.len()
                && final(self).property_at(i).id_parts() == old(self).owner() + split_on(key@, ID_SEPARATOR)
                && crate::lazy_evaluation::AnyProp::is_type_id_of::<T>(final(self).property_at(i).type_id()),
    {
        match crate::identifier::Id::new(key) {
            Ok(_) => {
                self.insert(key, value, store);
                Ok(())
            },
            Err(e) => Err(e),
        }
    }

    /// The property `name`, if there is one and its values are of type `T`.
    pub fn get<T: 'static>(&self, name: &str) -> (r: Option<Prop<T>>)
        requires
            self.wf(),
        ensures
            r matches Some(p) ==> exists|i: int| 0 <= i < self.names().len() && self.names()[i] == name@
                && #[trigger] self.property_at(i).index() == p.index(),
            !self.names().contains(name@) ==> r is None,
            forall|i: int| 0 <= i < self.names().len() && #[trigger] self.names()[i] == name@
                ==> exists|res: Result<Prop<T>, Error>| call_ensures(AnyProp::as_ty::<T>, (&self.property_at(i),), res)
                    && match res {
                        Ok(p) => r == Some(p),
                        Err(_) => r is None,
                    },
    {
        match self.find(name) {
            Some(i) => {
                let res = self.property_map[i].1.as_ty::<T>();
                assert(self.property_at(i as int) == self.property_map@[i as int].1);
                assert forall|j: int| 0 <= j < self.names().len() && #[trigger] self.names()[j] == name@
                    implies j == i as int by {
                    assert(self.names()[i as int] == name@);
                }
                assert(call_ensures(AnyProp::as_ty::<T>, (&self.property_at(i as int),), res));
                match res {
                    Ok(p) => {
                        assert(self.property_at(i as int).index() == p.index());
                        Some(p)
                    },
                    Err(_) => None,
                }
            },
            None => None,
        }
    }

    pub fn owner_task_id(&self) -> (r: &TaskId)
        ensures
            r@ == self.owner(),
    {
        &self.owner_task_id
    }
}

impl Default for TaskProperties {
    fn default() -> (r: Self)
        ensures
            r.wf(),
            r.owner() == seq![Seq::<char>::empty()],
            r.names().len() == 0,
    {
        TaskProperties::new(TaskId::default())
    }
}

} // verus!
