use proc_macro2::{Ident, Span};
use salve::name::fallback_name_of;
use std::collections::HashSet;

#[test]
fn the_first_name_ends_in_zero() {
    assert_eq!(fallback_name_of(0), "__fallback_ident_0");
}

#[test]
fn names_count_in_decimal() {
    assert_eq!(fallback_name_of(7), "__fallback_ident_7");
    assert_eq!(fallback_name_of(9), "__fallback_ident_9");
    assert_eq!(fallback_name_of(10), "__fallback_ident_10");
    assert_eq!(fallback_name_of(42), "__fallback_ident_42");
    assert_eq!(fallback_name_of(100), "__fallback_ident_100");
    assert_eq!(fallback_name_of(1234567890), "__fallback_ident_1234567890");
}

#[test]
fn the_greatest_number_is_written_in_full() {
    assert_eq!(
        fallback_name_of(usize::MAX),
        format!("__fallback_ident_{}", usize::MAX)
    );
}

#[test]
fn names_are_written_as_the_standard_library_writes_numbers() {
    for n in 0..2000usize {
        assert_eq!(fallback_name_of(n), format!("__fallback_ident_{}", n));
    }
}

#[test]
fn different_numbers_give_different_names() {
    let mut seen = HashSet::new();
    for n in 0..5000usize {
        assert!(seen.insert(fallback_name_of(n)));
    }
    assert!(seen.insert(fallback_name_of(usize::MAX)));
    assert!(seen.insert(fallback_name_of(usize::MAX - 1)));
}

#[test]
fn every_name_is_accepted_as_an_identifier() {
    for n in [0usize, 1, 9, 10, 99, 100, 65535, usize::MAX] {
        let name = fallback_name_of(n);
        let ident = Ident::new(&name, Span::call_site());
        assert_eq!(ident.to_string(), name);
    }
}
