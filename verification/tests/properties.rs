use assemble_core::identifier::Id;
use assemble_core::identifier::TaskId;
use assemble_core::lazy_evaluation::providers::FnProvider;
use assemble_core::lazy_evaluation::PropStore;
use assemble_core::properties::task_properties::TaskProperties;
use assemble_core::properties::{AnyProp, Prop, Provides, ProvidesExt};

#[test]
fn properties_map() {
    let mut store = PropStore::new();
    let mut provider = Prop::with_value(5, &mut store);
    let mapped = provider.map(|v| v * v);
    assert_eq!(mapped.get(&store), 25);
    provider.set(10, &mut store).unwrap();
    assert_eq!(mapped.get(&store), 100);
}

#[test]
fn properties_flat_map() {
    let mut store = PropStore::new();
    let mut provider = Prop::with_value(5u32, &mut store);
    let flap_map = provider.flat_map(|v| FnProvider::new(move || v * v));
    assert_eq!(flap_map.get(&store), 25);
    provider.set(10u32, &mut store).unwrap();
    assert_eq!(flap_map.get(&store), 100);
}

#[test]
fn properties_zip() {
    let mut store = PropStore::new();
    let mut provider_l = Prop::with_value(5, &mut store);
    let mut provider_r = Prop::with_value(6, &mut store);
    let zipped = provider_l.zip(&provider_r, |l, r| l * r);
    assert_eq!(zipped.get(&store), 30);
    provider_l.set(10, &mut store).unwrap();
    assert_eq!(zipped.get(&store), 60);
    provider_r.set(15, &mut store).unwrap();
    assert_eq!(zipped.get(&store), 150);
}

#[test]
fn create_property() {
    let mut store = PropStore::new();
    let prop = AnyProp::new::<i32>(Id::new("value").unwrap(), &mut store);
    let mut ty_prop = prop.into_ty::<i32>().unwrap();
    let cloned = ty_prop.clone();
    ty_prop.set_with(FnProvider::new(|| 15), &mut store).unwrap();
    let gotten = ty_prop.get(&store);
    assert_eq!(gotten, 15i32);

    let prop = ty_prop.map(|i| i * i);
    let get = prop.get(&store);
    assert_eq!(get, 15i32 * 15);
    assert_eq!(cloned.get(&store), 15i32);
}

#[test]
fn task_properties_by_name() {
    let mut store = PropStore::<u32>::new();
    let mut properties = TaskProperties::new(TaskId::new("root:build").unwrap());
    properties.insert("count", 3u32, &mut store);
    let prop = properties.get::<u32>("count").unwrap();
    assert_eq!(prop.fallible_get(&store).unwrap(), 3);
    assert!(properties.get::<u32>("missing").is_none());
    assert!(properties.get::<String>("count").is_none());
    properties.insert("count", 4u32, &mut store);
    assert_eq!(properties.get::<u32>("count").unwrap().fallible_get(&store).unwrap(), 4);
    assert_eq!(properties.owner_task_id().to_string(), ":root:build");
}

#[test]
fn set_properties() {
    let mut store = PropStore::<i32>::new();
    let mut props = TaskProperties::default();
    props.insert::<i32>("input", 13, &mut store);

    let prop = props.get::<i32>("input").unwrap();
    let value = prop.get(&store);
    assert_eq!(value, 13);
}

#[test]
fn property_set_from_another_reads_it_when_asked() {
    let mut store = PropStore::<i32>::new();
    let mut source = Prop::new(Id::new("source").unwrap(), &mut store);
    let mut linked = Prop::new(Id::new("linked").unwrap(), &mut store);
    linked.set_with_prop(&source, &mut store).unwrap();
    assert!(linked.fallible_get(&store).is_err());
    source.set(5, &mut store).unwrap();
    assert_eq!(linked.fallible_get(&store).unwrap(), 5);
    source.set(7, &mut store).unwrap();
    assert_eq!(linked.fallible_get(&store).unwrap(), 7);
}

#[test]
fn properties_linked_in_a_circle_have_no_value() {
    let mut store = PropStore::<i32>::new();
    let mut a = Prop::new(Id::new("a").unwrap(), &mut store);
    let mut b = Prop::new(Id::new("b").unwrap(), &mut store);
    a.set_with_prop(&b, &mut store).unwrap();
    b.set_with_prop(&a, &mut store).unwrap();
    assert!(a.fallible_get(&store).is_err());
    assert!(b.fallible_get(&store).is_err());
}

#[test]
fn try_insert_checks_the_key() {
    let mut store = PropStore::<i32>::new();
    let mut props = TaskProperties::default();
    assert!(props.try_insert::<i32>("input", 13, &mut store).is_ok());
    assert_eq!(props.get::<i32>("input").unwrap().get(&store), 13);
    assert!(props.try_insert::<i32>("9input", 1, &mut store).is_err());
    assert!(props.get::<i32>("9input").is_none());
    assert!(props.get::<u8>("input").is_none());
}
