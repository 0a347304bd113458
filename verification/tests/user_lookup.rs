use user_lookup::database::Database;
use user_lookup::database::RealDatabase;
use user_lookup::database::process_user;
use user_lookup::decimal::u32_to_decimal;
use user_lookup::stub::DatabaseStub;

#[test]
fn test_process_user_found() {
    let mut db_stub = DatabaseStub::new();

    db_stub.stub_get_user(vec![(1, "Alice".to_string())]);

    let result = process_user(&db_stub, 1);
    assert_eq!(result, "User found: Alice");
}

#[test]
fn test_process_user_not_found() {
    let mut db_stub = DatabaseStub::new();

    db_stub.stub_get_user(vec![]);

    let result = process_user(&db_stub, 2);
    assert_eq!(result, "User not found");
}

#[test]
fn unconfigured_stub_is_absent_everywhere() {
    let stub = DatabaseStub::new();
    assert_eq!(stub.get_user(0), None);
    assert_eq!(stub.get_user(1), None);
    assert_eq!(stub.get_user(u32::MAX), None);
    assert_eq!(process_user(&stub, 42), "User not found");
}

#[test]
fn configured_stub_answers_from_mapping() {
    let mut stub = DatabaseStub::new();
    stub.stub_get_user(vec![(1, "Alice".to_string()), (2, "Bob".to_string())]);
    assert_eq!(stub.get_user(1), Some("Alice".to_string()));
    assert_eq!(stub.get_user(2), Some("Bob".to_string()));
    assert_eq!(stub.get_user(3), None);
    // Evaluated fresh on every call: repeated lookups agree.
    assert_eq!(stub.get_user(1), Some("Alice".to_string()));
    assert_eq!(stub.get_user(3), None);
}

#[test]
fn first_matching_entry_decides() {
    let mut stub = DatabaseStub::new();
    stub.stub_get_user(vec![(5, "first".to_string()), (5, "second".to_string())]);
    assert_eq!(stub.get_user(5), Some("first".to_string()));
}

#[test]
fn reconfiguring_fully_overrides() {
    let mut stub = DatabaseStub::new();
    stub.stub_get_user(vec![(1, "X".to_string())]);
    assert_eq!(process_user(&stub, 1), "User found: X");
    stub.stub_get_user(vec![]);
    assert_eq!(process_user(&stub, 1), "User not found");
    assert_eq!(stub.get_user(1), None);
}

#[test]
fn reconfiguring_replaces_rather_than_merges() {
    let mut stub = DatabaseStub::new();
    stub.stub_get_user(vec![(1, "old".to_string()), (2, "kept".to_string())]);
    stub.stub_get_user(vec![(3, "new".to_string())]);
    assert_eq!(stub.get_user(1), None);
    assert_eq!(stub.get_user(2), None);
    assert_eq!(stub.get_user(3), Some("new".to_string()));
}

#[test]
fn real_implementation_is_present_for_every_identifier() {
    let real = RealDatabase;
    assert_eq!(real.get_user(0), Some("User 0".to_string()));
    assert_eq!(real.get_user(7), Some("User 7".to_string()));
    assert_eq!(real.get_user(1234), Some("User 1234".to_string()));
    assert_eq!(real.get_user(u32::MAX), Some("User 4294967295".to_string()));
}

#[test]
fn process_user_with_real_implementation() {
    let real = RealDatabase;
    assert_eq!(process_user(&real, 7), "User found: User 7");
}

#[test]
fn decimal_rendering_exact_values() {
    assert_eq!(u32_to_decimal(0), "0");
    assert_eq!(u32_to_decimal(9), "9");
    assert_eq!(u32_to_decimal(10), "10");
    assert_eq!(u32_to_decimal(42), "42");
    assert_eq!(u32_to_decimal(100), "100");
    assert_eq!(u32_to_decimal(4294967295), "4294967295");
}
