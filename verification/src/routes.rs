//! The route handlers' decisions: looking a record up by its identifier,
//! the filtered listing, the greeting routes, and the error pages.

use vstd::prelude::*;
use crate::ids::{parse_user_id, user_id_of};
use crate::response::{user_response, user_response_view, users_response, users_response_view, Response};
use crate::store::{filtered, find_by_id, UserStore};
use crate::text::{append_dec_u64, dec_nat};
use crate::user::{name_grade_of, Filters, NameGrade};

verus! {

/// The error a route can answer with, by HTTP status.
#[derive(PartialEq, Eq, Structural, Clone, Copy, Debug)]
pub enum RouteError {
    BadRequest,
    NotFound,
    InternalServerError,
}

impl RouteError {
    /// The HTTP status code of the error.
    pub fn status_code(&self) -> (r: u16)
        ensures
            r == match *self {
                RouteError::BadRequest => 400u16,
                RouteError::NotFound => 404u16,
                RouteError::InternalServerError => 500u16,
            },
    {
        match *self {
            RouteError::BadRequest => 400,
            RouteError::NotFound => 404,
            RouteError::InternalServerError => 500,
        }
    }
}

/// The single-record route: a malformed identifier is rejected before any
/// lookup, an absent identifier answers not-found, and a present one
/// answers with that record's response.
pub fn user_route(store: &UserStore, id_str: &str) -> (r: Result<Response, RouteError>)
    ensures
        user_id_of(id_str@) is None ==> r == Err::<Response, RouteError>(RouteError::BadRequest),
        user_id_of(id_str@) matches Some(id) ==> match find_by_id(store@, id) {
            Some(uv) => r matches Ok(resp) && resp@ == user_response_view(uv),
            None => r == Err::<Response, RouteError>(RouteError::NotFound),
        },
{
    let parsed = parse_user_id(id_str);
    match parsed {
        None => Err(RouteError::BadRequest),
        Some(id) => match store.lookup(id) {
            None => Err(RouteError::NotFound),
            Some(u) => Ok(user_response(u)),
        },
    }
}

/// The listing route: a segment that does not parse as name-and-grade is a
/// route miss and answers not-found, an empty result set answers not-found,
/// and otherwise the matching records are listed in store order.
pub fn users_route(store: &UserStore, param: &str, f: Option<Filters>) -> (r: Result<
    Response,
    RouteError,
>)
    ensures
        name_grade_of(param@) is None ==> r == Err::<Response, RouteError>(RouteError::NotFound),
        name_grade_of(param@) matches Some((name, grade)) ==> {
            let fs = filtered(store@, name, grade, f);
            if fs.len() == 0 {
                r == Err::<Response, RouteError>(RouteError::NotFound)
            } else {
                r matches Ok(resp) && resp@ == users_response_view(fs)
            }
        },
{
    match NameGrade::from_param(param) {
        None => Err(RouteError::NotFound),
        Some(ng) => {
            let found = store.filter_users(ng.name.as_str(), ng.grade, f);
            if found.len() == 0 {
                proof {
                    let (name, grade) = name_grade_of(param@)->Some_0;
                    assert(found@.map_values(|u: crate::user::User| u@).len() == 0);
                }
                Err(RouteError::NotFound)
            } else {
                Ok(users_response(&found))
            }
        },
    }
}

/// The integer route's greeting, echoing the rank raised by ten.
pub fn first(rank: u8) -> (r: String)
    requires
        rank <= 245,
    ensures
        r@ == "Your rank is, "@ + dec_nat((rank + 10) as nat) + "!"@,
{
    let result: u8 = rank + 10;
    let mut s = String::from_str("Your rank is, ");
    append_dec_u64(&mut s, result as u64);
    s.append("!");
    proof {
        assert(s@ =~= "Your rank is, "@ + dec_nat((rank + 10) as nat) + "!"@);
    }
    s
}

/// The fallback route's greeting, with the name interpolated.
pub fn second(name: &str) -> (r: String)
    ensures
        r@ == "Hello, "@ + name@ + "!"@,
{
    let mut s = String::from_str("Hello, ");
    s.append(name);
    s.append("!");
    proof {
        assert(s@ =~= "Hello, "@ + name@ + "!"@);
    }
    s
}

/// The index route's static greeting.
pub fn index() -> (r: &'static str)
    ensures
        r@ == "Hello, Rocket!"@,
{
    "Hello, Rocket!"
}

/// The form route's static acknowledgement; the submitted criteria are
/// accepted and discarded.
pub fn post(data: &Filters) -> (r: &'static str)
    ensures
        r@ == "POST Request"@,
{
    let _ = data;
    "POST Request"
}

/// The forbidden page's text, naming the request path.
pub fn forbidden(path: &str) -> (r: String)
    ensures
        r@ == "Access forbidden "@ + path@ + "."@,
{
    let mut s = String::from_str("Access forbidden ");
    s.append(path);
    s.append(".");
    proof {
        assert(s@ =~= "Access forbidden "@ + path@ + "."@);
    }
    s
}

/// The not-found page's text, naming the request path.
pub fn not_found(path: &str) -> (r: String)
    ensures
        r@ == "We cannot find this page "@ + path@ + "."@,
{
    let mut s = String::from_str("We cannot find this page ");
    s.append(path);
    s.append(".");
    proof {
        assert(s@ =~= "We cannot find this page "@ + path@ + "."@);
    }
    s
}

} // verus!
