use vstd::prelude::*;

use crate::data::{has_user, names_unique, Logs, UserView};
use crate::day::Day;

verus! {

/// A request to sign in `name` with `passwd`, which marks the day attended.
pub struct SignInRequest {
    pub name: String,
    pub passwd: String,
}

/// The outcome of a sign-in.
#[derive(Clone, Copy, Debug, PartialEq, Eq, Structural)]
pub enum SignInResult {
    IncorrectPassword,
    UserDoesNotExist,
    Success,
    /// The request could not be read.
    Unknown,
}

/// The record after signing in on `today`: the day is appended unless it is
/// the last day there already.
pub open spec fn signed(u: UserView, today: Day) -> UserView {
    if u.logs.len() > 0 && u.logs.last() == today {
        u
    } else {
        UserView { passwd: u.passwd, logs: u.logs.push(today) }
    }
}

/// Where the record of `name` stands in `s` (meaningful where it has one).
pub open spec fn index_of(s: Seq<(Seq<char>, UserView)>, name: Seq<char>) -> int {
    choose|i: int| 0 <= i < s.len() && s[i].0 == name
}

/// Sign-in on the store `s` on the day `today`.
pub open spec fn sign_in_spec(
    s: Seq<(Seq<char>, UserView)>,
    name: Seq<char>,
    passwd: Seq<char>,
    today: Day,
) -> (Seq<(Seq<char>, UserView)>, SignInResult) {
    if !has_user(s, name) {
        (s, SignInResult::UserDoesNotExist)
    } else {
        let i = index_of(s, name);
        if s[i].1.passwd != passwd {
            (s, SignInResult::IncorrectPassword)
        } else {
            (s.update(i, (name, signed(s[i].1, today))), SignInResult::Success)
        }
    }
}

/// Signs in `request.name` on the day `today`: checks the password and marks
/// the day attended once.
pub fn sign_in_on(logs: &mut Logs, request: SignInRequest, today: Day) -> (r: SignInResult)
    requires
        old(logs).wf(),
    ensures
        final(logs).wf(),
        (final(logs)@, r) == sign_in_spec(old(logs)@, request.name@, request.passwd@, today),
{
    match logs.position(&request.name) {
        None => SignInResult::UserDoesNotExist,
        Some(i) => {
            proof {
                let s = old(logs)@;
                assert(has_user(s, request.name@));
                let k = index_of(s, request.name@);
                assert(s[k].0 == request.name@);
                assert(k == i as int);
            }
            let (_, log) = logs.entry(i);
            if !(log.passwd == request.passwd) {
                return SignInResult::IncorrectPassword;
            }
            let n = log.logs.len();
            let already = n > 0 && log.logs[n - 1] == today;
            if !already {
                logs.push_day(i, today);
            }
            SignInResult::Success
        },
    }
}

/// Why a sign-in is refused whatever the day: no record under `name`, or
/// a record with another password; `None` where the password matches.
pub open spec fn refusal_spec(
    s: Seq<(Seq<char>, UserView)>,
    name: Seq<char>,
    passwd: Seq<char>,
) -> Option<SignInResult> {
    if !has_user(s, name) {
        Some(SignInResult::UserDoesNotExist)
    } else if s[index_of(s, name)].1.passwd != passwd {
        Some(SignInResult::IncorrectPassword)
    } else {
        None
    }
}

/// Sign-in where the day may be unknown: a refusal stands as it is; a
/// matching password without a day changes nothing and gives `Unknown`.
pub open spec fn sign_in_at_spec(
    s: Seq<(Seq<char>, UserView)>,
    name: Seq<char>,
    passwd: Seq<char>,
    today: Option<Day>,
) -> (Seq<(Seq<char>, UserView)>, SignInResult) {
    match today {
        Some(d) => sign_in_spec(s, name, passwd, d),
        None => match refusal_spec(s, name, passwd) {
            Some(x) => (s, x),
            None => (s, SignInResult::Unknown),
        },
    }
}

/// Looks `request.name` up and checks the password, changing nothing.
fn refusal(logs: &Logs, request: &SignInRequest) -> (r: Option<SignInResult>)
    requires
        logs.wf(),
    ensures
        r == refusal_spec(logs@, request.name@, request.passwd@),
{
    match logs.position(&request.name) {
        None => Some(SignInResult::UserDoesNotExist),
        Some(i) => {
            proof {
                let s = logs@;
                assert(has_user(s, request.name@));
                let k = index_of(s, request.name@);
                assert(s[k].0 == request.name@);
                assert(k == i as int);
            }
            let (_, log) = logs.entry(i);
            if log.passwd == request.passwd {
                None
            } else {
                Some(SignInResult::IncorrectPassword)
            }
        },
    }
}

/// Signs in `request.name` on `today`, where the day is known.
pub fn sign_in_at(logs: &mut Logs, request: SignInRequest, today: Option<Day>) -> (r: SignInResult)
    requires
        old(logs).wf(),
    ensures
        final(logs).wf(),
        (final(logs)@, r) == sign_in_at_spec(old(logs)@, request.name@, request.passwd@, today),
{
    match today {
        Some(d) => sign_in_on(logs, request, d),
        None => match refusal(logs, &request) {
            Some(x) => x,
            None => SignInResult::Unknown,
        },
    }
}

/// Signs in `request.name` on the day that the clock shows. The name and the
/// password are checked first, from the store alone; the clock is read only
/// where the password matches, and where it cannot be read nothing changes
/// and the outcome is `Unknown`.
pub fn sign_in(logs: &mut Logs, request: SignInRequest) -> (r: SignInResult)
    requires
        old(logs).wf(),
    ensures
        final(logs).wf(),
        !has_user(old(logs)@, request.name@) ==> r == SignInResult::UserDoesNotExist
            && final(logs)@ == old(logs)@,
        has_user(old(logs)@, request.name@) && old(logs)@[index_of(
            old(logs)@,
            request.name@,
        )].1.passwd != request.passwd@ ==> r == SignInResult::IncorrectPassword && final(logs)@
            == old(logs)@,
        exists|today: Option<Day>|
            (final(logs)@, r) == #[trigger] sign_in_at_spec(
                old(logs)@,
                request.name@,
                request.passwd@,
                today,
            ),
{
    if let Some(x) = refusal(logs, &request) {
        assert(sign_in_at_spec(old(logs)@, request.name@, request.passwd@, None) == (
            logs@,
            x,
        ));
        return x;
    }
    let today = Day::today();
    sign_in_at(logs, request, today)
}

/// Signs in `k` times on one day.
pub open spec fn sign_in_times(
    s: Seq<(Seq<char>, UserView)>,
    name: Seq<char>,
    passwd: Seq<char>,
    today: Day,
    k: nat,
) -> Seq<(Seq<char>, UserView)>
    decreases k,
{
    if k == 0 {
        s
    } else {
        sign_in_spec(sign_in_times(s, name, passwd, today, (k - 1) as nat), name, passwd, today).0
    }
}

/// A second sign-in on the same day changes nothing and gives the same answer.
pub proof fn lemma_sign_in_twice(
    s: Seq<(Seq<char>, UserView)>,
    name: Seq<char>,
    passwd: Seq<char>,
    today: Day,
)
    requires
        names_unique(s),
    ensures
        sign_in_spec(sign_in_spec(s, name, passwd, today).0, name, passwd, today) == sign_in_spec(
            s,
            name,
            passwd,
            today,
        ),
{
    let s1 = sign_in_spec(s, name, passwd, today).0;
    if has_user(s, name) {
        let i = index_of(s, name);
        assert(s[i].0 == name);
        if s[i].1.passwd == passwd {
            assert(s1[i].0 == name);
            assert(has_user(s1, name));
            let j = index_of(s1, name);
            assert(s1[j].0 == name);
            if j != i {
                assert(s[j].0 == name);
                if i < j {
                    assert(s[i].0 != s[j].0);
                } else {
                    assert(s[j].0 != s[i].0);
                }
            }
            assert(j == i);
            assert(s1.update(i, (name, signed(s1[i].1, today))) =~= s1);
        }
    }
}

/// Any number of sign-ins on one day, one at least, leave the store as one does:
/// the day is recorded once.
pub proof fn lemma_sign_in_idempotent(
    s: Seq<(Seq<char>, UserView)>,
    name: Seq<char>,
    passwd: Seq<char>,
    today: Day,
    k: nat,
)
    requires
        names_unique(s),
        k >= 1,
    ensures
        sign_in_times(s, name, passwd, today, k) == sign_in_times(s, name, passwd, today, 1),
    decreases k,
{
    if k > 1 {
        lemma_sign_in_idempotent(s, name, passwd, today, (k - 1) as nat);
        assert(sign_in_times(s, name, passwd, today, 0) == s);
        lemma_sign_in_twice(s, name, passwd, today);
    }
}

/// Signing in `k` times (one at least) on one day with the right password
/// adds that day to the record once, or not at all where it is already the
/// last day there.
pub proof fn lemma_sign_in_len(
    s: Seq<(Seq<char>, UserView)>,
    name: Seq<char>,
    passwd: Seq<char>,
    today: Day,
    k: nat,
)
    requires
        names_unique(s),
        has_user(s, name),
        s[index_of(s, name)].1.passwd == passwd,
        k >= 1,
    ensures
        ({
            let i = index_of(s, name);
            let t = sign_in_times(s, name, passwd, today, k);
            &&& t.len() == s.len()
            &&& t[i].0 == name
            &&& t[i].1.logs.last() == today
            &&& t[i].1.logs.len() == s[i].1.logs.len() + if s[i].1.logs.len() > 0
                && s[i].1.logs.last() == today {
                0int
            } else {
                1int
            }
        }),
{
    lemma_sign_in_idempotent(s, name, passwd, today, k);
    assert(sign_in_times(s, name, passwd, today, 0) == s);
    let i = index_of(s, name);
    assert(s[i].0 == name);
}

} // verus!
