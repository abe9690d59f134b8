use vstd::prelude::*;

use crate::data::{Logs, UserLog, UserView};
use crate::day::Day;

verus! {

/// Which users to list.
#[derive(Clone, Copy, Debug, PartialEq, Eq, Structural)]
pub enum QueryRequest {
    /// Every user.
    All,
    /// The users that signed in on the day.
    SignIned(Day),
    /// The users that did not sign in on the day.
    UnSignIned(Day),
}

/// The names that a query lists.
pub struct Users {
    pub users: Vec<String>,
}

impl View for Users {
    type V = Seq<Seq<char>>;

    open spec fn view(&self) -> Seq<Seq<char>> {
        self.users@.map_values(|u: String| u@)
    }
}

/// Whether a query lists a user with the record `u`.
pub open spec fn selects(q: QueryRequest, u: UserView) -> bool {
    match q {
        QueryRequest::All => true,
        QueryRequest::SignIned(d) => u.logs.contains(d),
        QueryRequest::UnSignIned(d) => !u.logs.contains(d),
    }
}

/// The names that `q` lists from the store `s`, in the store's order.
pub open spec fn selected(s: Seq<(Seq<char>, UserView)>, q: QueryRequest) -> Seq<Seq<char>>
    decreases s.len(),
{
    if s.len() == 0 {
        Seq::empty()
    } else {
        let rest = selected(s.drop_last(), q);
        if selects(q, s.last().1) {
            rest.push(s.last().0)
        } else {
            rest
        }
    }
}

/// Whether the record signed in on `day`.
fn attended(log: &UserLog, day: Day) -> (r: bool)
    ensures
        r == log@.logs.contains(day),
{
    let mut i: usize = 0;
    while i < log.logs.len()
        invariant
            0 <= i <= log.logs.len(),
            forall|j: int| 0 <= j < i ==> log.logs@[j] != day,
        decreases log.logs.len() - i,
    {
        if log.logs[i] == day {
            assert(log@.logs[i as int] == day);
            return true;
        }
        i = i + 1;
    }
    false
}

/// Lists the users that `request` asks for, in the order they signed up.
pub fn query(logs: &Logs, request: QueryRequest) -> (r: Users)
    ensures
        r@ == selected(logs@, request),
{
    let mut users: Vec<String> = Vec::new();
    let mut i: usize = 0;
    let n = logs.len();
    while i < n
        invariant
            n == logs@.len(),
            0 <= i <= n,
            users@.map_values(|u: String| u@) == selected(logs@.take(i as int), request),
        decreases n - i,
    {
        let (name, log) = logs.entry(i);
        let keep = match request {
            QueryRequest::All => true,
            QueryRequest::SignIned(d) => attended(log, d),
            QueryRequest::UnSignIned(d) => !attended(log, d),
        };
        let ghost before = users@;
        if keep {
            users.push(name.clone());
        }
        proof {
            let t = logs@.take(i as int + 1);
            assert(t.drop_last() =~= logs@.take(i as int));
            assert(t.last() == logs@[i as int]);
            if keep {
                assert(users@.map_values(|u: String| u@) =~= before.map_values(|u: String| u@).push(
                    name@,
                ));
            }
        }
        i = i + 1;
    }
    assert(logs@.take(n as int) =~= logs@);
    Users { users }
}

/// A name is listed exactly when the store has a record under it that the
/// query selects.
pub proof fn lemma_query_members(s: Seq<(Seq<char>, UserView)>, q: QueryRequest, name: Seq<char>)
    ensures
        selected(s, q).contains(name) <==> exists|i: int|
            0 <= i < s.len() && s[i].0 == name && selects(q, #[trigger] s[i].1),
    decreases s.len(),
{
    if s.len() > 0 {
        let p = s.drop_last();
        lemma_query_members(p, q, name);
        let rest = selected(p, q);
        if selected(s, q).contains(name) {
            let k = choose|k: int| 0 <= k < selected(s, q).len() && selected(s, q)[k] == name;
            if k < rest.len() {
                assert(rest.contains(name));
                let i = choose|i: int| 0 <= i < p.len() && p[i].0 == name && selects(q, #[trigger] p[i].1);
                assert(s[i] == p[i]);
            } else {
                assert(s[s.len() - 1].0 == name);
            }
        }
        if exists|i: int| 0 <= i < s.len() && s[i].0 == name && selects(q, #[trigger] s[i].1) {
            let i = choose|i: int| 0 <= i < s.len() && s[i].0 == name && selects(q, #[trigger] s[i].1);
            if i < s.len() - 1 {
                assert(p[i] == s[i]);
                assert(rest.contains(name));
                let k = choose|k: int| 0 <= k < rest.len() && rest[k] == name;
                assert(selected(s, q)[k] == name);
            } else {
                assert(selected(s, q)[selected(s, q).len() - 1] == name);
            }
        }
    }
}

} // verus!
