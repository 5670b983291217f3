//! The response model: a status, a list of named headers, and a plain-text
//! body, with the builders the routes use.

use vstd::prelude::*;
use crate::ids::{format_user_id, fresh_trace_id, is_version4_text, user_id_text};
use crate::text::{append_bool, append_dec_i16, bool_text, dec_int};
use crate::user::{User, UserView};

verus! {

/// The header names this service writes.
#[derive(PartialEq, Eq, Structural, Clone, Copy, Debug)]
pub enum HeaderName {
    ContentType,
    XCustomId,
    XTraceId,
    XUserId,
}

/// One response header.
pub struct Header {
    pub name: HeaderName,
    pub value: String,
}

impl View for Header {
    type V = (HeaderName, Seq<char>);

    open spec fn view(&self) -> (HeaderName, Seq<char>) {
        (self.name, self.value@)
    }
}

/// A response: status code, headers in order, and a plain-text body.
pub struct Response {
    pub status: u16,
    pub headers: Vec<Header>,
    pub body: String,
}

/// The mathematical model of a response.
#[verifier::ext_equal]
pub struct ResponseView {
    pub status: u16,
    pub headers: Seq<(HeaderName, Seq<char>)>,
    pub body: Seq<char>,
}

impl View for Response {
    type V = ResponseView;

    open spec fn view(&self) -> ResponseView {
        ResponseView {
            status: self.status,
            headers: self.headers@.map_values(|h: Header| h@),
            body: self.body@,
        }
    }
}

/// The headers every response starts from: a plain-text content type and the
/// custom marker header.
pub open spec fn default_headers() -> Seq<(HeaderName, Seq<char>)> {
    seq![
        (HeaderName::ContentType, "text/plain"@),
        (HeaderName::XCustomId, "CUSTOM"@),
    ]
}

/// The base template every route's response is built from.
pub fn default_response() -> (r: Response)
    ensures
        r@.status == 200,
        r@.headers == default_headers(),
        r@.body == Seq::<char>::empty(),
{
    let mut headers: Vec<Header> = Vec::new();
    headers.push(Header { name: HeaderName::ContentType, value: String::from_str("text/plain") });
    headers.push(Header { name: HeaderName::XCustomId, value: String::from_str("CUSTOM") });
    let r = Response { status: 200, headers, body: String::new() };
    proof {
        assert(r@.headers =~= default_headers());
        assert(r@.body =~= Seq::<char>::empty());
    }
    r
}

/// The text one record is rendered as, wherever it appears: identifier,
/// name, age, grade and active flag, separated by spaces.
pub open spec fn record_text(u: UserView) -> Seq<char> {
    user_id_text(u.id) + " "@ + u.name + " "@ + dec_int(u.age as int) + " "@ + dec_int(
        u.grade as int,
    ) + " "@ + bool_text(u.active)
}

/// The body of the single-record response: the rendering with its prefix.
pub open spec fn user_text(u: UserView) -> Seq<char> {
    "Found user: "@ + record_text(u)
}

/// Appends the rendering of one record to a string.
fn append_record_text(s: &mut String, u: &User)
    ensures
        final(s)@ == old(s)@ + record_text(u@),
{
    let id_text = format_user_id(u.id);
    s.append(id_text.as_str());
    s.append(" ");
    s.append(u.name.as_str());
    s.append(" ");
    append_dec_i16(s, u.age);
    s.append(" ");
    append_dec_i16(s, u.grade);
    s.append(" ");
    append_bool(s, u.active);
    proof {
        assert(final(s)@ =~= old(s)@ + record_text(u@));
    }
}

/// The model of the response for a single found record: the base template
/// with the record's identifier echoed in its own header and the record
/// rendered in the body.
pub open spec fn user_response_view(u: UserView) -> ResponseView {
    ResponseView {
        status: 200,
        headers: default_headers().push((HeaderName::XUserId, user_id_text(u.id))),
        body: user_text(u),
    }
}

/// Builds the response for a single found record.
pub fn user_response(u: &User) -> (r: Response)
    ensures
        r@ == user_response_view(u@),
{
    let mut r = default_response();
    let id_text = format_user_id(u.id);
    r.headers.push(Header { name: HeaderName::XUserId, value: id_text });
    let mut body = String::from_str("Found user: ");
    append_record_text(&mut body, u);
    r.body = body;
    proof {
        assert(r@.headers =~= user_response_view(u@).headers);
        assert(r@.body =~= user_response_view(u@).body);
        assert(r@ =~~= user_response_view(u@));
    }
    r
}

/// The listing body: the bare renderings of the records, without the
/// single-record prefix, joined with commas.
pub open spec fn joined_text(s: Seq<UserView>) -> Seq<char>
    decreases s.len(),
{
    if s.len() == 0 {
        Seq::<char>::empty()
    } else if s.len() == 1 {
        record_text(s[0])
    } else {
        joined_text(s.drop_last()) + ","@ + record_text(s.last())
    }
}

/// The model of the listing response: the base template, its marker header
/// naming the listing, and the joined renderings as the body.
pub open spec fn users_response_view(s: Seq<UserView>) -> ResponseView {
    ResponseView {
        status: 200,
        headers: seq![
            (HeaderName::ContentType, "text/plain"@),
            (HeaderName::XCustomId, "USERS"@),
        ],
        body: joined_text(s),
    }
}

/// Builds the listing response for the given records.
pub fn users_response(users: &Vec<User>) -> (r: Response)
    ensures
        r@ == users_response_view(users@.map_values(|u: User| u@)),
{
    let ghost s = users@.map_values(|u: User| u@);
    let mut headers: Vec<Header> = Vec::new();
    headers.push(Header { name: HeaderName::ContentType, value: String::from_str("text/plain") });
    headers.push(Header { name: HeaderName::XCustomId, value: String::from_str("USERS") });
    let mut body = String::new();
    let mut i: usize = 0;
    proof {
        assert(s.subrange(0, 0) =~= Seq::<UserView>::empty());
    }
    while i < users.len()
        invariant
            i <= users@.len(),
            s == users@.map_values(|u: User| u@),
            s.len() == users@.len(),
            body@ == joined_text(s.subrange(0, i as int)),
        decreases users@.len() - i,
    {
        if i > 0 {
            body.append(",");
        }
        append_record_text(&mut body, &users[i]);
        proof {
            let pre = s.subrange(0, i as int);
            let cur = s.subrange(0, i + 1);
            assert(cur.drop_last() =~= pre);
            assert(cur.last() == s[i as int]);
            if i == 0 {
                assert(cur.len() == 1);
                assert(body@ =~= joined_text(cur));
            } else {
                assert(body@ =~= joined_text(cur));
            }
        }
        i = i + 1;
    }
    proof {
        assert(s.subrange(0, s.len() as int) =~= s);
    }
    let r = Response { status: 200, headers, body };
    proof {
        assert(r@.headers =~= users_response_view(s).headers);
        assert(r@ =~~= users_response_view(s));
    }
    r
}

/// Sets the trace header on a response: any trace header already present is
/// removed and the given value appended, with status and body unchanged.
pub fn propagate_trace(r: &mut Response, trace: &str)
    ensures
        final(r)@.status == old(r)@.status,
        final(r)@.body == old(r)@.body,
        final(r)@.headers == old(r)@.headers.filter(
            |h: (HeaderName, Seq<char>)| h.0 != HeaderName::XTraceId,
        ).push((HeaderName::XTraceId, trace@)),
{
    let ghost keep = |h: (HeaderName, Seq<char>)| h.0 != HeaderName::XTraceId;
    let mut kept: Vec<Header> = Vec::new();
    let mut i: usize = 0;
    proof {
        reveal(Seq::filter);
        assert(old(r)@.headers.subrange(0, 0) =~= Seq::<(HeaderName, Seq<char>)>::empty());
        assert(kept@.map_values(|h: Header| h@) =~= old(r)@.headers.subrange(0, 0).filter(keep));
    }
    while i < r.headers.len()
        invariant
            i <= r.headers@.len(),
            r.status == old(r).status,
            r.body@ == old(r).body@,
            r@.headers == old(r)@.headers,
            r@.headers.len() == r.headers@.len(),
            keep == (|h: (HeaderName, Seq<char>)| h.0 != HeaderName::XTraceId),
            kept@.map_values(|h: Header| h@) == old(r)@.headers.subrange(0, i as int).filter(keep),
        decreases r.headers@.len() - i,
    {
        let ghost prev = kept@;
        let h = &r.headers[i];
        proof {
            assert(old(r)@.headers.subrange(0, i + 1).drop_last() =~= old(r)@.headers.subrange(
                0,
                i as int,
            ));
            assert(old(r)@.headers.subrange(0, i + 1).last() == old(r)@.headers[i as int]);
            reveal(Seq::filter);
        }
        let is_trace = match h.name {
            HeaderName::XTraceId => true,
            _ => false,
        };
        if !is_trace {
            let copy = Header { name: h.name, value: h.value.clone() };
            proof {
                assert(copy@ == old(r)@.headers[i as int]);
            }
            kept.push(copy);
            proof {
                assert(kept@.map_values(|h: Header| h@) =~= prev.map_values(|h: Header| h@).push(
                    old(r)@.headers[i as int],
                ));
            }
        }
        proof {
            assert(kept@.map_values(|h: Header| h@) =~= old(r)@.headers.subrange(0, i + 1).filter(
                keep,
            ));
        }
        i = i + 1;
    }
    proof {
        assert(old(r)@.headers.subrange(0, old(r)@.headers.len() as int) =~= old(r)@.headers);
    }
    kept.push(Header { name: HeaderName::XTraceId, value: trace.to_owned() });
    r.headers = kept;
    proof {
        assert(r@.headers =~= old(r)@.headers.filter(keep).push((
            HeaderName::XTraceId,
            trace@,
        )));
    }
}

/// A fresh trace header for an incoming request. Its value is drawn at
/// random, so only the shape every outcome has is promised: the hyphenated
/// 36-character text of a version-4 identifier.
pub fn request_trace_header() -> (h: Header)
    ensures
        h@.0 == HeaderName::XTraceId,
        is_version4_text(h@.1),
{
    Header { name: HeaderName::XTraceId, value: fresh_trace_id() }
}

} // verus!
