use vstd::prelude::*;

use crate::data::{fresh_user, has_user, Logs, UserLog, UserView};

verus! {

/// A request to sign up `name` with `passwd`.
pub struct RegisterRequest {
    pub name: String,
    pub passwd: String,
}

/// The outcome of a sign-up.
#[derive(Clone, Copy, Debug, PartialEq, Eq, Structural)]
pub enum RegisterResult {
    /// The name is taken already.
    Exist,
    Success,
    /// The request could not be read.
    Unknown,
}

/// Sign-up on the store `s`: a taken name leaves the store as it is;
/// a new one gets a record with `passwd` and no days, after all others.
pub open spec fn register_spec(
    s: Seq<(Seq<char>, UserView)>,
    name: Seq<char>,
    passwd: Seq<char>,
) -> (Seq<(Seq<char>, UserView)>, RegisterResult) {
    if has_user(s, name) {
        (s, RegisterResult::Exist)
    } else {
        (s.push((name, fresh_user(passwd))), RegisterResult::Success)
    }
}

/// Signs up `request.name` with `request.passwd`, unless the name is taken.
pub fn register(logs: &mut Logs, request: RegisterRequest) -> (r: RegisterResult)
    requires
        old(logs).wf(),
    ensures
        final(logs).wf(),
        (final(logs)@, r) == register_spec(old(logs)@, request.name@, request.passwd@),
{
    if logs.position(&request.name).is_some() {
        return RegisterResult::Exist;
    }
    let log = UserLog::new(request.passwd);
    logs.insert_new(request.name, log);
    RegisterResult::Success
}

/// Signing up a name a second time is refused, whatever the password, and
/// leaves the store as the first sign-up made it.
pub proof fn lemma_register_unique(
    s: Seq<(Seq<char>, UserView)>,
    name: Seq<char>,
    first: Seq<char>,
    second: Seq<char>,
)
    ensures
        register_spec(register_spec(s, name, first).0, name, second).1 == RegisterResult::Exist,
        register_spec(register_spec(s, name, first).0, name, second).0 == register_spec(
            s,
            name,
            first,
        ).0,
{
    let s1 = register_spec(s, name, first).0;
    if !has_user(s, name) {
        assert(s1[s.len() as int].0 == name);
    }
    assert(has_user(s1, name));
}

} // verus!
