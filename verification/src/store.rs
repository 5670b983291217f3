//! The in-memory user collection: lookup by identifier and the filtered
//! listing by name substring, grade, and optional exact criteria.

use vstd::prelude::*;
use crate::text::{contains_substr, contains_text};
use crate::user::{Filters, User, UserView};

verus! {

/// The record of the given identifier, if the sequence holds one: the first
/// record whose identifier matches.
pub open spec fn find_by_id(s: Seq<UserView>, id: u128) -> Option<UserView>
    decreases s.len(),
{
    if s.len() == 0 {
        None
    } else if s[0].id == id {
        Some(s[0])
    } else {
        find_by_id(s.drop_first(), id)
    }
}

/// A record satisfies the listing query: its name holds the requested text,
/// its grade matches exactly, and, where criteria are given, so do age and
/// active flag.
pub open spec fn matches_query(
    u: UserView,
    name: Seq<char>,
    grade: i16,
    f: Option<Filters>,
) -> bool {
    &&& contains_text(u.name, name)
    &&& u.grade == grade
    &&& match f {
        Some(ft) => u.age == ft.age && u.active == ft.active,
        None => true,
    }
}

/// The records of a sequence that satisfy the listing query, in order.
pub open spec fn filtered(
    s: Seq<UserView>,
    name: Seq<char>,
    grade: i16,
    f: Option<Filters>,
) -> Seq<UserView> {
    s.filter(|u: UserView| matches_query(u, name, grade, f))
}

/// A read-only collection of user records with pairwise distinct
/// identifiers.
pub struct UserStore {
    pub users: Vec<User>,
}

impl View for UserStore {
    type V = Seq<UserView>;

    open spec fn view(&self) -> Seq<UserView> {
        self.users@.map_values(|u: User| u@)
    }
}

impl UserStore {
    /// Identifiers are unique within the collection.
    pub open spec fn wf(&self) -> bool {
        forall|i: int, j: int|
            0 <= i < j < self@.len() ==> self@[i].id != self@[j].id
    }

    /// An empty store.
    pub fn new() -> (r: UserStore)
        ensures
            r@ =~= Seq::<UserView>::empty(),
            r.wf(),
    {
        UserStore { users: Vec::new() }
    }

    /// Whether the store holds a record with the given identifier.
    pub fn contains_id(&self, id: u128) -> (r: bool)
        ensures
            r == (find_by_id(self@, id) is Some),
    {
        let mut i: usize = 0;
        proof {
            assert(self@.subrange(0, self@.len() as int) =~= self@);
        }
        while i < self.users.len()
            invariant
                i <= self.users@.len(),
                self@.len() == self.users@.len(),
                find_by_id(self@, id) == find_by_id(self@.subrange(i as int, self@.len() as int), id),
            decreases self.users@.len() - i,
        {
            if self.users[i].id == id {
                proof {
                    let tail = self@.subrange(i as int, self@.len() as int);
                    assert(tail[0] == self@[i as int]);
                }
                return true;
            }
            proof {
                let tail = self@.subrange(i as int, self@.len() as int);
                assert(tail[0] == self@[i as int]);
                assert(tail.drop_first() =~= self@.subrange(i + 1, self@.len() as int));
            }
            i = i + 1;
        }
        proof {
            assert(self@.subrange(i as int, self@.len() as int) =~= Seq::<UserView>::empty());
        }
        false
    }

    /// Adds a record, provided its identifier is not yet present; a record
    /// with a duplicate identifier is refused and the store is unchanged.
    pub fn add(&mut self, u: User) -> (r: bool)
        requires
            old(self).wf(),
        ensures
            r == (find_by_id(old(self)@, u.id) is None),
            r ==> final(self)@ =~= old(self)@.push(u@),
            !r ==> final(self)@ =~= old(self)@,
            final(self).wf(),
    {
        if self.contains_id(u.id) {
            proof {
                assert(self@ =~= old(self)@);
            }
            false
        } else {
            proof {
                lemma_find_by_id_characterizes(self@, u.id);
            }
            self.users.push(u);
            proof {
                assert(self@ =~= old(self)@.push(u@));
            }
            true
        }
    }

    /// Looks a record up by its identifier.
    pub fn lookup<'a>(&'a self, id: u128) -> (r: Option<&'a User>)
        ensures
            match r {
                Some(u) => find_by_id(self@, id) == Some(u@),
                None => find_by_id(self@, id) is None,
            },
    {
        let mut i: usize = 0;
        proof {
            assert(self@.subrange(0, self@.len() as int) =~= self@);
        }
        while i < self.users.len()
            invariant
                i <= self.users@.len(),
                self@.len() == self.users@.len(),
                find_by_id(self@, id) == find_by_id(self@.subrange(i as int, self@.len() as int), id),
            decreases self.users@.len() - i,
        {
            if self.users[i].id == id {
                proof {
                    let tail = self@.subrange(i as int, self@.len() as int);
                    assert(tail[0] == self@[i as int]);
                }
                return Some(&self.users[i]);
            }
            proof {
                let tail = self@.subrange(i as int, self@.len() as int);
                assert(tail[0] == self@[i as int]);
                assert(tail.drop_first() =~= self@.subrange(i + 1, self@.len() as int));
            }
            i = i + 1;
        }
        proof {
            assert(self@.subrange(i as int, self@.len() as int) =~= Seq::<UserView>::empty());
        }
        None
    }

    /// The records whose name holds the requested text and whose grade
    /// matches, narrowed further by the optional exact criteria, in store
    /// order.
    pub fn filter_users(&self, name: &str, grade: i16, f: Option<Filters>) -> (r: Vec<User>)
        ensures
            r@.map_values(|u: User| u@) == filtered(self@, name@, grade, f),
    {
        let ghost pred = |u: UserView| matches_query(u, name@, grade, f);
        let mut out: Vec<User> = Vec::new();
        let mut i: usize = 0;
        proof {
            assert(self@.subrange(0, 0) =~= Seq::<UserView>::empty());
            reveal(Seq::filter);
            assert(out@.map_values(|u: User| u@) =~= self@.subrange(0, 0).filter(pred));
        }
        while i < self.users.len()
            invariant
                i <= self.users@.len(),
                self@.len() == self.users@.len(),
                pred == (|u: UserView| matches_query(u, name@, grade, f)),
                out@.map_values(|u: User| u@) == self@.subrange(0, i as int).filter(pred),
            decreases self.users@.len() - i,
        {
            let ghost prev = out@;
            let u = &self.users[i];
            let keep = if contains_substr(u.name.as_str(), name) {
                u.grade == grade && (match f {
                    Some(ft) => u.age == ft.age && u.active == ft.active,
                    None => true,
                })
            } else {
                false
            };
            proof {
                assert(keep == pred(self@[i as int]));
                assert(self@.subrange(0, i + 1).drop_last() =~= self@.subrange(0, i as int));
                assert(self@.subrange(0, i + 1).last() == self@[i as int]);
                reveal(Seq::filter);
            }
            if keep {
                out.push(u.duplicate());
                proof {
                    assert(out@.map_values(|u: User| u@) =~= prev.map_values(
                        |u: User| u@,
                    ).push(self@[i as int]));
                }
            }
            proof {
                assert(out@.map_values(|u: User| u@) =~= self@.subrange(0, i + 1).filter(pred));
            }
            i = i + 1;
        }
        proof {
            assert(self@.subrange(0, self@.len() as int) =~= self@);
        }
        out
    }
}

/// A record with a given identifier is found exactly when one is present,
/// and what is found carries that identifier and lies in the sequence.
pub proof fn lemma_find_by_id_characterizes(s: Seq<UserView>, id: u128)
    ensures
        (find_by_id(s, id) is Some) <==> (exists|i: int| 0 <= i < s.len() && s[i].id == id),
        match find_by_id(s, id) {
            Some(v) => v.id == id && s.contains(v),
            None => true,
        },
    decreases s.len(),
{
    if s.len() > 0 && s[0].id != id {
        lemma_find_by_id_characterizes(s.drop_first(), id);
        if exists|i: int| 0 <= i < s.len() && s[i].id == id {
            let i = choose|i: int| 0 <= i < s.len() && s[i].id == id;
            assert(s.drop_first()[i - 1].id == id);
        }
        if find_by_id(s, id) is Some {
            let v = find_by_id(s.drop_first(), id)->Some_0;
            let j = choose|j: int| 0 <= j < s.drop_first().len() && s.drop_first()[j] == v;
            assert(s[j + 1] == v);
        }
    }
}

/// When the store is well formed, what lookup finds for a present identifier
/// is the one record bearing it: any record of the sequence with that
/// identifier is the found one.
pub proof fn lemma_lookup_unique(s: Seq<UserView>, id: u128, i: int)
    requires
        forall|a: int, b: int| 0 <= a < b < s.len() ==> s[a].id != s[b].id,
        0 <= i < s.len(),
        s[i].id == id,
    ensures
        find_by_id(s, id) == Some(s[i]),
    decreases s.len(),
{
    lemma_find_by_id_characterizes(s, id);
    if s[0].id == id {
        assert(i == 0);
    } else {
        assert(s.drop_first()[i - 1] == s[i]);
        lemma_lookup_unique(s.drop_first(), id, i - 1);
    }
}

proof fn lemma_filter_subset<A>(s: Seq<A>, p: spec_fn(A) -> bool, x: A)
    requires
        s.filter(p).contains(x),
    ensures
        s.contains(x),
    decreases s.len(),
{
    reveal(Seq::filter);
    if s.len() > 0 {
        let dl = s.drop_last();
        let fs = s.filter(p);
        if p(s.last()) && x == s.last() {
            assert(s[s.len() - 1] == x);
        } else {
            let j = choose|j: int| 0 <= j < fs.len() && fs[j] == x;
            if p(s.last()) {
                assert(fs == dl.filter(p).push(s.last()));
                assert(j < fs.len() - 1);
                assert(dl.filter(p)[j] == x);
            }
            assert(dl.filter(p).contains(x));
            lemma_filter_subset(dl, p, x);
            let k = choose|k: int| 0 <= k < dl.len() && dl[k] == x;
            assert(s[k] == x);
        }
    }
}

/// Narrowing: a record that satisfies the query with the optional criteria
/// given also satisfies it with the criteria absent, so every record of the
/// narrowed listing appears in the wider one.
pub proof fn lemma_filters_narrow(
    s: Seq<UserView>,
    name: Seq<char>,
    grade: i16,
    ft: Filters,
)
    ensures
        forall|u: UserView|
            matches_query(u, name, grade, Some(ft)) ==> matches_query(u, name, grade, None),
        forall|u: UserView|
            filtered(s, name, grade, Some(ft)).contains(u) ==> filtered(
                s,
                name,
                grade,
                None,
            ).contains(u),
{
    let narrow = |u: UserView| matches_query(u, name, grade, Some(ft));
    let wide = |u: UserView| matches_query(u, name, grade, None);
    assert forall|u: UserView| filtered(s, name, grade, Some(ft)).contains(u) implies filtered(
        s,
        name,
        grade,
        None,
    ).contains(u) by {
        broadcast use vstd::seq_lib::group_filter_ensures;

        let fs = filtered(s, name, grade, Some(ft));
        let j = choose|j: int| 0 <= j < fs.len() && fs[j] == u;
        assert(narrow(fs[j]));
        lemma_filter_subset(s, narrow, u);
        assert(s.contains(u));
        let k = choose|k: int| 0 <= k < s.len() && s[k] == u;
        assert(s.filter(wide).contains(s[k]));
    }
}

} // verus!
