use resolver::types::Location;

#[test]
fn later_line_is_after() {
    let a = Location::new(2, 1);
    let b = Location::new(1, 9);
    assert!(a.is_after(&b));
    assert!(!b.is_after(&a));
}

#[test]
fn same_position_is_not_after() {
    let a = Location::new(3, 4);
    assert!(!a.is_after(&a));
}

#[test]
fn later_column_on_one_line_is_after() {
    let a = Location::new(3, 5);
    let b = Location::new(3, 4);
    assert!(a.is_after(&b));
    assert!(!b.is_after(&a));
}
