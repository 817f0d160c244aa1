use assemble_core::immutable::Immutable;

#[test]
fn use_immutables() {
    let i1 = Immutable::new(1);
    let i2 = Immutable::new(2);

    assert!(i1 < i2);
}

#[test]
fn create_from_boxed() {
    let slice: Box<[i32]> = Box::new([1, 2, 3]);
    let immutable = Immutable::from_boxed(slice);
    assert_eq!(immutable[1], 2);
    assert_eq!(&immutable[..], &[1, 2, 3]);
}

#[test]
fn clones_share_the_value() {
    let a = Immutable::new(String::from("value"));
    let b = a.clone();
    assert_eq!(*a, *b);
    assert_eq!(b.as_ref(), "value");
}
