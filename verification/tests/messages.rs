use user_store::store::UserStore;
use user_store::text::decimal;
use user_store::user::{Deleted, StoreError};

#[test]
fn not_found_message() {
    assert_eq!(StoreError::NotFound.message(), "User not found");
}

#[test]
fn deleted_message_names_the_id() {
    assert_eq!(Deleted { id: 1 }.message(), "Deleted user 1");
    assert_eq!(Deleted { id: 0 }.message(), "Deleted user 0");
    assert_eq!(Deleted { id: 42 }.message(), "Deleted user 42");
    assert_eq!(Deleted { id: 4294967295 }.message(), "Deleted user 4294967295");
}

#[test]
fn deleted_message_after_a_delete() {
    let mut store = UserStore::new();
    for _ in 0..12 {
        store.create("x".to_string());
    }
    let gone = store.delete(12).unwrap();
    assert_eq!(gone.message(), "Deleted user 12");
}

#[test]
fn decimal_of_digits_and_boundaries() {
    for d in 0..10u32 {
        assert_eq!(decimal(d), d.to_string());
    }
    assert_eq!(decimal(10), "10");
    assert_eq!(decimal(99), "99");
    assert_eq!(decimal(100), "100");
    assert_eq!(decimal(1009), "1009");
    assert_eq!(decimal(u32::MAX), "4294967295");
}

#[test]
fn decimal_agrees_with_std_on_many_values() {
    let mut n: u32 = 1;
    for _ in 0..200 {
        assert_eq!(decimal(n), format!("{:?}", n));
        n = n.wrapping_mul(2654435761).wrapping_add(12345);
    }
}
