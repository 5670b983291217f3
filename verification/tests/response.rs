use user_lookup::counter::VisitorCounter;
use user_lookup::response::{
    default_response, propagate_trace, request_trace_header, user_response, users_response,
    Header, HeaderName,
};
use user_lookup::user::{NameGrade, User};

#[test]
fn default_response_template() {
    let r = default_response();
    assert_eq!(r.status, 200);
    assert_eq!(r.body, "");
    assert_eq!(r.headers.len(), 2);
    assert_eq!(r.headers[0].name, HeaderName::ContentType);
    assert_eq!(r.headers[0].value, "text/plain");
    assert_eq!(r.headers[1].name, HeaderName::XCustomId);
    assert_eq!(r.headers[1].value, "CUSTOM");
}

#[test]
fn user_response_renders_record() {
    let u = User {
        id: 0xffffffff_ffff_ffff_ffff_ffffffffffff,
        name: String::from("Dana"),
        age: -1,
        grade: 12,
        active: false,
    };
    let r = user_response(&u);
    assert_eq!(
        r.body,
        "Found user: ffffffff-ffff-ffff-ffff-ffffffffffff Dana -1 12 false"
    );
    assert_eq!(r.headers[2].name, HeaderName::XUserId);
    assert_eq!(r.headers[2].value, "ffffffff-ffff-ffff-ffff-ffffffffffff");
    assert_eq!(
        r.headers[2].value,
        uuid::Uuid::from_u128(u.id).hyphenated().to_string()
    );
}

#[test]
fn users_response_joins_with_commas() {
    let users = vec![
        User { id: 1, name: String::from("A"), age: 1, grade: 1, active: true },
        User { id: 2, name: String::from("B"), age: 2, grade: 2, active: false },
    ];
    let r = users_response(&users);
    assert_eq!(
        r.body,
        "00000000-0000-0000-0000-000000000001 A 1 1 true,\
         00000000-0000-0000-0000-000000000002 B 2 2 false"
    );
    assert!(!r.body.contains("Found user: "));
    assert_eq!(r.headers.len(), 2);
    assert_eq!(r.headers[1].name, HeaderName::XCustomId);
    assert_eq!(r.headers[1].value, "USERS");
}

#[test]
fn users_response_of_nobody_is_empty() {
    let r = users_response(&Vec::new());
    assert_eq!(r.body, "");
}

#[test]
fn trace_header_is_set_once() {
    let mut r = default_response();
    r.headers.push(Header { name: HeaderName::XTraceId, value: String::from("stale") });
    propagate_trace(&mut r, "fresh-trace");
    let traces: Vec<&Header> = r
        .headers
        .iter()
        .filter(|h| h.name == HeaderName::XTraceId)
        .collect();
    assert_eq!(traces.len(), 1);
    assert_eq!(traces[0].value, "fresh-trace");
    assert_eq!(r.headers.last().unwrap().value, "fresh-trace");
    assert_eq!(r.headers[0].name, HeaderName::ContentType);
    assert_eq!(r.headers[1].name, HeaderName::XCustomId);
}

#[test]
fn fresh_trace_headers_are_well_formed() {
    let h = request_trace_header();
    assert_eq!(h.name, HeaderName::XTraceId);
    assert_eq!(h.value.len(), 36);
    for (i, c) in h.value.chars().enumerate() {
        if i == 8 || i == 13 || i == 18 || i == 23 {
            assert_eq!(c, '-');
        } else {
            assert!(c.is_ascii_hexdigit() && !c.is_ascii_uppercase());
        }
    }
    assert_eq!(h.value.as_bytes()[14], b'4');
    assert!(uuid::Uuid::parse_str(&h.value).is_ok());
}

#[test]
fn name_grade_parses_segment() {
    let ng = NameGrade::from_param("bob_5").expect("parses");
    assert_eq!(ng.name, "bob");
    assert_eq!(ng.grade, 5);

    let ng = NameGrade::from_param("_5").expect("parses");
    assert_eq!(ng.name, "");
    assert_eq!(ng.grade, 5);

    let ng = NameGrade::from_param("bob_-3").expect("parses");
    assert_eq!(ng.grade, -3);
}

#[test]
fn name_grade_rejects_bad_segments() {
    assert!(NameGrade::from_param("bob").is_none());
    assert!(NameGrade::from_param("a_b_c").is_none());
    assert!(NameGrade::from_param("bob_x").is_none());
    assert!(NameGrade::from_param("bob_").is_none());
    assert!(NameGrade::from_param("bob_99999").is_none());
    assert!(NameGrade::from_param("").is_none());
}

#[test]
fn counter_counts_and_reports() {
    let mut c = VisitorCounter::new();
    c.increment();
    c.increment();
    c.increment();
    assert_eq!(c.visitor, 3);
    assert_eq!(c.message(), "Number of visitors: 3");
}

#[test]
fn counter_wraps_at_the_top() {
    let mut c = VisitorCounter { visitor: u64::MAX };
    c.increment();
    assert_eq!(c.visitor, 0);
}
