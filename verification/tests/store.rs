use user_lookup::store::UserStore;
use user_lookup::user::{Filters, User};

fn sample_store() -> UserStore {
    let mut store = UserStore::new();
    assert!(store.add(User {
        id: 1,
        name: String::from("John Doe"),
        age: 18,
        grade: 1,
        active: true,
    }));
    assert!(store.add(User {
        id: 2,
        name: String::from("Janet Doe"),
        age: 21,
        grade: 2,
        active: false,
    }));
    assert!(store.add(User {
        id: 3,
        name: String::from("Joe Doe"),
        age: 18,
        grade: 2,
        active: true,
    }));
    store
}

#[test]
fn lookup_finds_present_record() {
    let store = sample_store();
    let u = store.lookup(2).expect("record with id 2");
    assert_eq!(u.name, "Janet Doe");
    assert_eq!(u.age, 21);
    assert_eq!(u.grade, 2);
    assert!(!u.active);
}

#[test]
fn lookup_misses_absent_record() {
    let store = sample_store();
    assert!(store.lookup(7).is_none());
    assert!(UserStore::new().lookup(1).is_none());
}

#[test]
fn duplicate_identifier_is_refused() {
    let mut store = sample_store();
    let refused = store.add(User {
        id: 2,
        name: String::from("Impostor"),
        age: 99,
        grade: 9,
        active: true,
    });
    assert!(!refused);
    assert_eq!(store.lookup(2).unwrap().name, "Janet Doe");
}

#[test]
fn filters_by_name_and_grade() {
    let store = sample_store();
    let found = store.filter_users("Doe", 2, None);
    assert_eq!(found.len(), 2);
    assert_eq!(found[0].name, "Janet Doe");
    assert_eq!(found[1].name, "Joe Doe");

    let found = store.filter_users("Janet", 2, None);
    assert_eq!(found.len(), 1);
    assert_eq!(found[0].id, 2);

    let found = store.filter_users("John", 1, None);
    assert_eq!(found.len(), 1);
    assert_eq!(found[0].id, 1);
}

#[test]
fn name_must_be_substring_and_grade_exact() {
    let store = sample_store();
    assert_eq!(store.filter_users("Smith", 2, None).len(), 0);
    assert_eq!(store.filter_users("John", 2, None).len(), 0);
    assert_eq!(store.filter_users("Doe", 3, None).len(), 0);
}

#[test]
fn optional_criteria_narrow_results() {
    let store = sample_store();
    let wide = store.filter_users("Doe", 2, None);
    assert_eq!(wide.len(), 2);

    let narrowed = store.filter_users("Doe", 2, Some(Filters { age: 18, active: true }));
    assert_eq!(narrowed.len(), 1);
    assert_eq!(narrowed[0].name, "Joe Doe");
    for u in &narrowed {
        assert!(wide.iter().any(|w| w.id == u.id));
    }

    let none = store.filter_users("Doe", 2, Some(Filters { age: 18, active: false }));
    assert_eq!(none.len(), 0);
}

#[test]
fn empty_needle_matches_every_name() {
    let store = sample_store();
    let found = store.filter_users("", 2, None);
    assert_eq!(found.len(), 2);
}
