//! The user record, the optional query filters, and the combined
//! name-and-grade path parameter.

use vstd::prelude::*;
use crate::text::{parse_i16, parse_i16_spec};

verus! {

/// The single domain record: an identifier held as its 128-bit value, a
/// name, an age, a grade and an active flag.
pub struct User {
    pub id: u128,
    pub name: String,
    pub age: i16,
    pub grade: i16,
    pub active: bool,
}

/// The mathematical model of a user record.
#[verifier::ext_equal]
pub struct UserView {
    pub id: u128,
    pub name: Seq<char>,
    pub age: i16,
    pub grade: i16,
    pub active: bool,
}

impl View for User {
    type V = UserView;

    open spec fn view(&self) -> UserView {
        UserView {
            id: self.id,
            name: self.name@,
            age: self.age,
            grade: self.grade,
            active: self.active,
        }
    }
}

impl User {
    /// A deep copy whose model equals this record's.
    pub fn duplicate(&self) -> (r: User)
        ensures
            r@ == self@,
    {
        let r = User {
            id: self.id,
            name: self.name.clone(),
            age: self.age,
            grade: self.grade,
            active: self.active,
        };
        proof {
            assert(r@ =~= self@);
        }
        r
    }
}

/// The optional exact-match criteria a user listing can be narrowed by.
#[derive(PartialEq, Eq, Structural, Clone, Copy, Debug)]
pub struct Filters {
    pub age: i16,
    pub active: bool,
}

/// A name-substring and exact-grade pair parsed from one path segment.
pub struct NameGrade {
    pub name: String,
    pub grade: i16,
}

/// The segment has exactly one underscore, at position `i`.
pub open spec fn single_underscore_at(s: Seq<char>, i: int) -> bool {
    &&& 0 <= i < s.len()
    &&& s[i] == '_'
    &&& forall|j: int| 0 <= j < s.len() && j != i ==> s[j] != '_'
}

/// What parsing a name-and-grade segment yields: the segment must consist of
/// a name part and a grade part separated by exactly one underscore, and the
/// grade part must parse as a signed 16-bit decimal number.
pub open spec fn name_grade_of(s: Seq<char>) -> Option<(Seq<char>, i16)> {
    if exists|i: int| single_underscore_at(s, i) {
        let i = choose|i: int| single_underscore_at(s, i);
        match parse_i16_spec(s.subrange(i + 1, s.len() as int)) {
            Some(g) => Some((s.subrange(0, i), g)),
            None => None,
        }
    } else {
        None
    }
}

impl NameGrade {
    /// Parses a `name_grade` path segment.
    pub fn from_param(param: &str) -> (r: Option<NameGrade>)
        ensures
            match r {
                Some(ng) => name_grade_of(param@) == Some((ng.name@, ng.grade)),
                None => name_grade_of(param@) is None,
            },
    {
        let len = param.unicode_len();
        let mut sep: usize = 0;
        let mut count: usize = 0;
        let mut i: usize = 0;
        while i < len
            invariant
                i <= len,
                param@.len() == len,
                count <= i,
                count > 0 ==> sep < i && param@[sep as int] == '_',
                count == 1 ==> forall|j: int|
                    0 <= j < i && j != sep ==> param@[j] != '_',
                count == 0 ==> forall|j: int| 0 <= j < i ==> param@[j] != '_',
                count >= 2 ==> exists|a: int, b: int|
                    0 <= a < b < i && param@[a] == '_' && param@[b] == '_',
            decreases len - i,
        {
            let c = param.get_char(i);
            if c == '_' {
                if count == 0 {
                    sep = i;
                }
                count = count + 1;
            }
            i = i + 1;
        }
        if count != 1 {
            proof {
                if count == 0 {
                    assert(forall|k: int| !single_underscore_at(param@, k));
                } else {
                    let (a, b) = choose|a: int, b: int|
                        0 <= a < b < len && param@[a] == '_' && param@[b] == '_';
                    assert forall|k: int| !single_underscore_at(param@, k) by {
                        if single_underscore_at(param@, k) {
                            assert(param@[a] == '_' && param@[b] == '_' && a != b);
                        }
                    }
                }
            }
            return None;
        }
        proof {
            assert(single_underscore_at(param@, sep as int));
        }
        let grade_part = param.substring_char(sep + 1, len);
        let name_part = param.substring_char(0, sep);
        proof {
            let w = choose|k: int| single_underscore_at(param@, k);
            assert(param@[w] == '_');
            assert(w == sep as int);
        }
        match parse_i16(grade_part) {
            Some(g) => Some(NameGrade { name: name_part.to_owned(), grade: g }),
            None => None,
        }
    }
}

} // verus!
