use user_lookup::response::HeaderName;
use user_lookup::routes::{
    first, forbidden, index, not_found, post, second, user_route, users_route, RouteError,
};
use user_lookup::store::UserStore;
use user_lookup::user::{Filters, User};

const ALICE: u128 = 0x550e8400_e29b_41d4_a716_446655440000;

fn sample_store() -> UserStore {
    let mut store = UserStore::new();
    assert!(store.add(User {
        id: ALICE,
        name: String::from("Alice"),
        age: 20,
        grade: 3,
        active: true,
    }));
    assert!(store.add(User {
        id: 7,
        name: String::from("Bobbie"),
        age: 20,
        grade: 3,
        active: false,
    }));
    assert!(store.add(User {
        id: 8,
        name: String::from("Carol"),
        age: 22,
        grade: 4,
        active: true,
    }));
    store
}

#[test]
fn user_route_finds_record_by_identifier() {
    let store = sample_store();
    let resp = user_route(&store, "550e8400-e29b-41d4-a716-446655440000").expect("record");
    assert_eq!(resp.status, 200);
    assert_eq!(
        resp.body,
        "Found user: 550e8400-e29b-41d4-a716-446655440000 Alice 20 3 true"
    );
    let user_header = resp
        .headers
        .iter()
        .find(|h| h.name == HeaderName::XUserId)
        .expect("user id header");
    assert_eq!(user_header.value, "550e8400-e29b-41d4-a716-446655440000");
    let custom = resp
        .headers
        .iter()
        .find(|h| h.name == HeaderName::XCustomId)
        .expect("custom header");
    assert_eq!(custom.value, "CUSTOM");
}

#[test]
fn user_route_accepts_undashed_identifier() {
    let store = sample_store();
    let resp = user_route(&store, "550e8400e29b41d4a716446655440000").expect("record");
    assert_eq!(resp.status, 200);
}

#[test]
fn user_route_rejects_malformed_identifier() {
    let store = sample_store();
    assert!(matches!(user_route(&store, "not-a-uuid"), Err(RouteError::BadRequest)));
    assert!(matches!(user_route(&store, ""), Err(RouteError::BadRequest)));
    assert!(matches!(
        user_route(&store, "550e8400-e29b-41d4-a716-44665544000"),
        Err(RouteError::BadRequest)
    ));
}

#[test]
fn user_route_misses_absent_identifier() {
    let store = sample_store();
    assert!(matches!(
        user_route(&store, "00000000-0000-0000-0000-000000000001"),
        Err(RouteError::NotFound)
    ));
}

#[test]
fn users_route_lists_matching_records() {
    let store = sample_store();
    let resp = users_route(&store, "e_3", None).expect("listing");
    assert_eq!(resp.status, 200);
    let custom = resp
        .headers
        .iter()
        .find(|h| h.name == HeaderName::XCustomId)
        .expect("custom header");
    assert_eq!(custom.value, "USERS");
    let body = resp.body;
    assert!(body.contains("Alice"));
    assert!(body.contains("Bobbie"));
    assert!(!body.contains("Carol"));
    assert_eq!(body.matches(',').count(), 1);
    assert!(!body.contains("Found user: "));
}

#[test]
fn users_route_narrows_with_filters() {
    let store = sample_store();
    let resp = users_route(&store, "e_3", Some(Filters { age: 20, active: false }))
        .expect("listing");
    assert!(resp.body.contains("Bobbie"));
    assert!(!resp.body.contains("Alice"));
}

#[test]
fn users_route_answers_not_found_on_empty_result() {
    let store = sample_store();
    assert!(matches!(users_route(&store, "Zo_3", None), Err(RouteError::NotFound)));
    assert!(matches!(
        users_route(&store, "e_3", Some(Filters { age: 99, active: true })),
        Err(RouteError::NotFound)
    ));
}

#[test]
fn users_route_answers_not_found_on_bad_segment() {
    let store = sample_store();
    assert!(matches!(users_route(&store, "plain", None), Err(RouteError::NotFound)));
    assert!(matches!(users_route(&store, "a_b_c", None), Err(RouteError::NotFound)));
    assert!(matches!(users_route(&store, "e_x", None), Err(RouteError::NotFound)));
}

#[test]
fn route_error_status_codes() {
    assert_eq!(RouteError::BadRequest.status_code(), 400);
    assert_eq!(RouteError::NotFound.status_code(), 404);
    assert_eq!(RouteError::InternalServerError.status_code(), 500);
}

#[test]
fn greeting_routes() {
    assert_eq!(first(0), "Your rank is, 10!");
    assert_eq!(first(245), "Your rank is, 255!");
    assert_eq!(second("world"), "Hello, world!");
    assert_eq!(index(), "Hello, Rocket!");
    assert_eq!(post(&Filters { age: 1, active: true }), "POST Request");
}

#[test]
fn error_pages_name_the_path() {
    assert_eq!(forbidden("/secret"), "Access forbidden /secret.");
    assert_eq!(not_found("/missing"), "We cannot find this page /missing.");
}
