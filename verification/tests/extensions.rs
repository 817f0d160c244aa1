use assemble_core::plugins::extensions::{ExtensionContainer, ExtensionError};

#[test]
fn use_extensions() {
    let mut ext = ExtensionContainer::default();
    ext.add("test", String::from("Hello, World")).unwrap();

    let value = ext.get("test").unwrap().downcast_ref::<String>().unwrap();
    assert_eq!(value, "Hello, World")
}

#[test]
fn disallow_same_name_extensions() {
    let mut ext = ExtensionContainer::default();
    ext.add("test", String::from("Hello, World")).unwrap();
    assert!(matches!(
        ext.add("test", String::from("Hello, World")),
        Err(ExtensionError::AlreadyRegistered(_))
    ));
}

#[test]
fn get_by_type_needs_a_single_match() {
    let mut ext = ExtensionContainer::default();
    ext.add("a", 1u32).unwrap();
    ext.add("b", String::from("text")).unwrap();
    assert_eq!(ext.get_by_type::<u32>(), Some(&1u32));
    ext.add("c", 2u32).unwrap();
    assert_eq!(ext.get_by_type::<u32>(), None);
    assert_eq!(ext.get_by_type::<i64>(), None);
    assert!(ext.get("missing").is_none());
}

#[test]
fn write_through_get_by_type_mut_is_kept() {
    let mut ext = ExtensionContainer::default();
    ext.add("count", 1u32).unwrap();
    ext.add("name", String::from("app")).unwrap();
    *ext.get_by_type_mut::<u32>().unwrap() = 7;
    assert_eq!(ext.get_by_type::<u32>(), Some(&7));
    assert_eq!(ext.get("name").unwrap().downcast_ref::<String>().unwrap(), "app");
}
