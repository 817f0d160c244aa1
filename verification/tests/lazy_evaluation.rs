use assemble_core::identifier::Id;
use assemble_core::lazy_evaluation::providers::FnProvider;
use assemble_core::lazy_evaluation::{AnyProp, Error, Prop, PropStore, Provider, ProviderExt, VecProp};

#[test]
fn lazy_evaluation_map() {
    let mut store = PropStore::new();
    let mut provider = Prop::with_value(5, &mut store);
    let mapped = provider.clone().map(|v| v * v);
    assert_eq!(mapped.get(&store), 25);
    provider.set(10, &mut store).unwrap();
    assert_eq!(mapped.get(&store), 100);
}

#[test]
fn lazy_evaluation_flat_map() {
    let mut store = PropStore::new();
    let mut provider = Prop::with_value(5u32, &mut store);
    let flap_map = provider.clone().flat_map(|v| FnProvider::new(move || v * v));
    assert_eq!(flap_map.get(&store), 25);
    provider.set(10u32, &mut store).unwrap();
    assert_eq!(flap_map.get(&store), 100);
}

#[test]
fn lazy_evaluation_zip() {
    let mut store = PropStore::new();
    let mut provider_l = Prop::with_value(5, &mut store);
    let mut provider_r = Prop::with_value(6, &mut store);
    let zipped = provider_l.clone().zip(provider_r.clone(), |l, r| l * r);
    assert_eq!(zipped.get(&store), 30);
    provider_l.set(10, &mut store).unwrap();
    assert_eq!(zipped.get(&store), 60);
    provider_r.set(15, &mut store).unwrap();
    assert_eq!(zipped.get(&store), 150);
}

#[test]
fn prop_create_property() {
    let mut store = PropStore::new();
    let prop = AnyProp::new::<i32>(Id::new("value").unwrap(), &mut store);
    let mut ty_prop = prop.into_ty::<i32>().unwrap();
    let cloned = ty_prop.clone();
    ty_prop.set_with(FnProvider::new(|| 15), &mut store).unwrap();
    let gotten = ty_prop.get(&store);
    assert_eq!(gotten, 15i32);

    let prop = ty_prop.map(|i| i * i);
    let get = prop.get(&store);
    assert_eq!(get, 15i32 * 15);
    assert_eq!(cloned.get(&store), 15i32);
}

#[test]
fn read_after_write_and_other_cells_unchanged() {
    let mut store = PropStore::new();
    let mut a = Prop::<String>::new(Id::new("a").unwrap(), &mut store);
    let b = Prop::<String>::with_value(String::from("kept"), &mut store);
    assert_eq!(a.try_get(&store), None);
    a.set(String::from("written"), &mut store).unwrap();
    assert_eq!(a.try_get(&store), Some(String::from("written")));
    assert_eq!(b.try_get(&store), Some(String::from("kept")));
}

#[test]
fn unset_property_reports_missing() {
    let mut store = PropStore::<i32>::new();
    let prop = Prop::<i32>::new(Id::new("test").unwrap(), &mut store);
    assert!(prop.fallible_get(&store).is_err());
    assert_eq!(prop.missing_message(&store), "\":test\" has no value");
    assert_eq!(prop.fallible_get(&store).unwrap_err().to_string(), "\":test\" has no value");
}

#[test]
fn any_prop_refuses_other_types() {
    let mut store = PropStore::<i32>::new();
    let prop = AnyProp::new::<i32>(Id::new("value").unwrap(), &mut store);
    assert!(matches!(prop.as_ty::<u64>(), Err(Error::TypeMismatch { .. })));
    assert!(prop.as_ty::<i32>().is_ok());
}

#[test]
fn set_with_a_provider_without_value_keeps_its_message() {
    let mut store = PropStore::<i32>::new();
    let mut prop = Prop::<i32>::new(Id::new("p").unwrap(), &mut store);
    let none: Option<i32> = None;
    prop.set_with(none, &mut store).unwrap();
    assert_eq!(prop.try_get(&store), None);
    assert_eq!(prop.missing_message(&store), "Provider has no value set");
}

#[test]
fn zip_message_joins_both() {
    let left: Option<i32> = None;
    let right: Option<i32> = Some(2);
    let zipped = ProviderExt::<i32, ()>::zip(left, right, |l: i32, r: i32| l + r);
    let env = ();
    assert_eq!(zipped.try_get(&env), None);
    assert_eq!(zipped.missing_message(&env), "Provider has no value set or Provider has no value set");
}

#[test]
fn flatten() {
    let prop1 = FnProvider::new(|| FnProvider::new(|| 5));
    let prop2 = FnProvider::new(|| FnProvider::new(|| 6));
    let value = prop1.flatten().zip(prop2.flatten(), |l, r| l * r);
    assert_eq!(value.get(&()), 30);
}

#[test]
fn flatten_reads_the_store_when_asked() {
    let mut store = PropStore::new();
    let mut inner = Prop::with_value(2, &mut store);
    let handle = inner.clone();
    let outer = FnProvider::new(move || handle.clone());
    let flat = outer.flatten();
    assert_eq!(flat.get(&store), 2);
    inner.set(9, &mut store).unwrap();
    assert_eq!(flat.try_get(&store), Some(9));
}

#[test]
fn missing_messages_follow_their_sources() {
    let mut store: PropStore<i32> = PropStore::new();
    let left: Prop<i32> = Prop::new(Id::new("left").unwrap(), &mut store);
    let right: Prop<i32> = Prop::new(Id::new("right").unwrap(), &mut store);
    assert_eq!(left.missing_message(&store), "\":left\" has no value");
    let mapped = left.clone().map(|v| v + 1);
    assert_eq!(mapped.missing_message(&store), "\":left\" has no value");
    let zipped = left.clone().zip(right.clone(), |a, b| a + b);
    assert_eq!(
        zipped.missing_message(&store),
        "\":left\" has no value or \":right\" has no value"
    );
    let plain = FnProvider::new(|| 1);
    assert_eq!(Provider::<i32, ()>::missing_message(&plain, &()), "Provider has no value set");
}

#[test]
fn try_with_name_checks_the_identifier() {
    let mut store: PropStore<i32> = PropStore::new();
    let prop = Prop::<i32>::try_with_name("value", &mut store);
    assert!(prop.is_ok());
    let refused = Prop::<i32>::try_with_name("9value", &mut store);
    assert!(refused.is_err());
}

#[test]
fn linked_property_follows_its_source() {
    let mut store: PropStore<i32> = PropStore::new();
    let mut source = Prop::with_value(1, &mut store);
    let mut linked = Prop::<i32>::new(Id::new("linked").unwrap(), &mut store);
    linked.set_with_prop(&source, &mut store).unwrap();
    assert_eq!(linked.get(&store), 1);
    source.set(2, &mut store).unwrap();
    assert_eq!(linked.get(&store), 2);
    let doubled = linked.clone().map(|v| v * 2);
    source.set(4, &mut store).unwrap();
    assert_eq!(doubled.get(&store), 8);
}

#[test]
fn list_properties_join() {
    let store: PropStore<i32> = PropStore::new();
    let mut prop = VecProp::<i32>::default();
    prop.from(FnProvider::new(|| vec![1, 2]).zip(FnProvider::new(|| vec![3, 4]), |left: Vec<i32>, right: Vec<i32>| {
        let mut out = left;
        out.extend(right);
        out
    }));
    assert_eq!(prop.get(&store), vec![1, 2, 3, 4]);
}

#[test]
fn vec_prop_missing() {
    let mut store: PropStore<i32> = PropStore::new();
    let mut vec_prop = VecProp::<i32>::new(Id::new("test").unwrap());
    let mut prop1 = Prop::<i32>::new(Id::new("prop1").unwrap(), &mut store);
    let mut prop2 = Prop::<i32>::new(Id::new("prop2").unwrap(), &mut store);
    vec_prop.push_with_prop(&prop1);
    vec_prop.push_with_prop(&prop2);
    vec_prop.push_all_with(FnProvider::new(|| vec![1, 2]));
    assert_eq!(
        vec_prop.missing_message(&store),
        format!(":test vector missing value > {}", prop1.missing_message(&store))
    );
    assert!(vec_prop.try_get(&store).is_none());
    prop1.set(0, &mut store).unwrap();
    assert_eq!(
        vec_prop.missing_message(&store),
        format!(":test vector missing value > {}", prop2.missing_message(&store))
    );
    assert!(vec_prop.try_get(&store).is_none());
    prop2.set(0, &mut store).unwrap();
    assert_eq!(vec_prop.get(&store), vec![0, 0, 1, 2]);
}

#[test]
fn vec_prop_push_and_clear() {
    let store: PropStore<String> = PropStore::new();
    let mut list = VecProp::<String>::new(Id::new("files").unwrap());
    list.push("a".to_string());
    list.push_all(vec!["b".to_string(), "c".to_string()]);
    assert_eq!(list.get(&store), vec!["a".to_string(), "b".to_string(), "c".to_string()]);
    list.clear();
    assert_eq!(list.get(&store), Vec::<String>::new());
    assert_eq!(list.missing_message(&store), ":files missing unknown value");
}

#[test]
fn prop_debug_text() {
    let mut store: PropStore<i32> = PropStore::new();
    let mut prop = Prop::<i32>::new(Id::new("value").unwrap(), &mut store);
    assert_eq!(prop.debug_text(&store, false), "Prop { id: \":value\" }>");
    assert_eq!(prop.debug_text(&store, true), "<no value>");
    prop.set(3, &mut store).unwrap();
    assert_eq!(prop.debug_text(&store, true), "3");
    assert_eq!(prop.debug_text(&store, false), "Prop { id: \":value\", value: 3 }");
}
