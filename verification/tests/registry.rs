use salve::ForgeRegistry;

#[test]
fn a_new_registry_has_every_number_left() {
    let registry = ForgeRegistry::new();
    assert_eq!(registry.remaining(), usize::MAX);
    assert!(!registry.is_exhausted());
}

#[test]
fn numbers_come_in_order_from_zero() {
    let mut registry = ForgeRegistry::new();
    assert_eq!(registry.next(), 0);
    assert_eq!(registry.next(), 1);
    assert_eq!(registry.next(), 2);
    assert_eq!(registry.remaining(), usize::MAX - 3);
}

#[test]
fn each_number_is_greater_than_all_before_it() {
    let mut registry = ForgeRegistry::new();
    let mut last = registry.next();
    for _ in 0..1000 {
        let number = registry.next();
        assert!(number > last);
        last = number;
    }
}

#[test]
fn a_registry_goes_on_from_where_it_is_started() {
    let mut registry = ForgeRegistry::starting_at(41);
    assert_eq!(registry.remaining(), usize::MAX - 41);
    assert_eq!(registry.next(), 41);
    assert_eq!(registry.next(), 42);
}

#[test]
fn the_last_number_exhausts_the_registry() {
    let mut registry = ForgeRegistry::starting_at(usize::MAX - 1);
    assert!(!registry.is_exhausted());
    assert_eq!(registry.remaining(), 1);
    assert_eq!(registry.next(), usize::MAX - 1);
    assert!(registry.is_exhausted());
    assert_eq!(registry.remaining(), 0);
}

#[test]
fn a_registry_started_at_the_end_is_exhausted() {
    let registry = ForgeRegistry::starting_at(usize::MAX);
    assert!(registry.is_exhausted());
    assert_eq!(registry.remaining(), 0);
}
