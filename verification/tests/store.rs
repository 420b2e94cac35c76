//! Tests for the record store and record equality.

use rbudget::data::DataStore;
use rbudget::errors::Error;
use rbudget::record::Expense;

#[test]
fn test_crud() {
    let mut ds: DataStore = DataStore::mock().unwrap();

    let test_uuid1 = [1u8; 16];
    let exp1 = Expense::new(
        test_uuid1,
        String::from("name1"),
        String::from("tag1"),
        "2022-06-15",
        100,
    );

    let test_uuid2 = [2u8; 16];
    let exp2 = Expense::new(
        test_uuid2,
        String::from("name2"),
        String::from("tag2"),
        "2022-06-15",
        200,
    );

    ds.append_one(&exp1).unwrap();
    ds.append_one(&exp2).unwrap();

    let expected_list1 = vec![exp1, exp2];
    let actual_list1 = ds.list_all().unwrap();
    assert_eq!(expected_list1[1], actual_list1[1]);
    assert_eq!(expected_list1[0], actual_list1[0]);
}

#[test]
fn test_round_trip_preserves_fields() {
    let mut ds = DataStore::mock().unwrap();
    let e = Expense::new([7u8; 16], String::from("lunch"), String::from("food"), "2021-03-05", -250);
    ds.append_one(&e).unwrap();

    let listed = ds.list_all().unwrap();
    let found = listed.iter().find(|r| **r == e).unwrap();
    assert_eq!(found.id(), [7u8; 16]);
    assert_eq!(found.name(), "lunch");
    assert_eq!(found.tag(), "food");
    assert_eq!(found.date(), "2021-03-05");
    assert_eq!(found.amount(), -250);
}

#[test]
fn test_duplicate_id_rejected() {
    let mut ds = DataStore::mock().unwrap();
    let first = Expense::new([9u8; 16], String::from("a"), String::from("b"), "2022-01-01", 1);
    let second = Expense::new([9u8; 16], String::from("c"), String::from("d"), "2022-02-02", 2);

    ds.append_one(&first).unwrap();
    let r = ds.append_one(&second);
    assert!(matches!(r, Err(Error::DBError(_))));

    // the failed append changed nothing
    let listed = ds.list_all().unwrap();
    assert_eq!(listed.len(), 1);
    assert_eq!(listed[0].name(), "a");
}

#[test]
fn test_remove_all_clears_the_store() {
    let mut ds = DataStore::mock().unwrap();
    let e = Expense::new([3u8; 16], String::from("x"), String::from("y"), "2022-01-01", 10);
    ds.append_one(&e).unwrap();
    assert_eq!(ds.list_all().unwrap().len(), 1);

    ds.remove_all().unwrap();
    assert_eq!(ds.list_all().unwrap().len(), 0);
}

#[test]
fn test_mock_stores_are_isolated() {
    let mut a = DataStore::mock().unwrap();
    let b = DataStore::mock().unwrap();
    let e = Expense::new([4u8; 16], String::from("x"), String::from("y"), "2022-01-01", 10);
    a.append_one(&e).unwrap();
    assert_eq!(a.list_all().unwrap().len(), 1);
    assert_eq!(b.list_all().unwrap().len(), 0);
}

#[test]
fn test_identity_equality() {
    // same id, different fields: equal
    let a = Expense::new([5u8; 16], String::from("one"), String::from("t1"), "2022-01-01", 1);
    let b = Expense::new([5u8; 16], String::from("two"), String::from("t2"), "2022-02-02", 2);
    assert_eq!(a, b);

    // distinct ids, identical fields: not equal
    let c = Expense::new([5u8; 16], String::from("same"), String::from("t"), "2022-01-01", 3);
    let d = Expense::new([6u8; 16], String::from("same"), String::from("t"), "2022-01-01", 3);
    assert_ne!(c, d);
}

#[test]
fn test_empty_buffer_is_blank_with_fresh_id() {
    let a = Expense::empty();
    let b = Expense::empty();
    assert_eq!(a.name(), "");
    assert_eq!(a.tag(), "");
    assert_eq!(a.date(), "");
    assert_eq!(a.amount(), 0);
    // freshly drawn ids differ
    assert_ne!(a.id(), b.id());
}

#[test]
fn test_setters_store_text_verbatim() {
    let mut e = Expense::empty();
    e.set_name("Groceries");
    e.set_tag("food");
    e.set_date("2022-06-15");
    assert_eq!(e.name(), "Groceries");
    assert_eq!(e.tag(), "food");
    assert_eq!(e.date(), "2022-06-15");

    e.set_amount("12").unwrap();
    assert_eq!(e.amount(), 12);

    // a failed amount parse keeps the previous value
    let r = e.set_amount("12x");
    assert!(matches!(r, Err(Error::ParseError)));
    assert_eq!(e.amount(), 12);

    let mut f = Expense::empty();
    f.set_id([8u8; 16]);
    assert_eq!(f.id(), [8u8; 16]);
}
