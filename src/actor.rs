use vstd::prelude::*;

use crate::data::{entries_view, names_unique, Logs, UserLog, UserView};
use crate::day::Day;
use crate::query::{query, selected, QueryRequest, Users};
use crate::register::{register, register_spec, RegisterRequest, RegisterResult};
use crate::sign::{sign_in_at, sign_in_at_spec, SignInRequest, SignInResult};

verus! {

/// One unit of work against the store.
pub enum Operation {
    Register(RegisterRequest),
    SignIn(SignInRequest),
    Query(QueryRequest),
}

/// What a unit of work hands back.
pub enum OpResult {
    Register(RegisterResult),
    SignIn(SignInResult),
    Query(Users),
}

/// The mathematical value of an [`OpResult`].
pub enum Outcome {
    Register(RegisterResult),
    SignIn(SignInResult),
    Query(Seq<Seq<char>>),
}

impl View for OpResult {
    type V = Outcome;

    open spec fn view(&self) -> Outcome {
        match self {
            OpResult::Register(r) => Outcome::Register(*r),
            OpResult::SignIn(r) => Outcome::SignIn(*r),
            OpResult::Query(u) => Outcome::Query(u@),
        }
    }
}

/// The store after `op` on the day `today` (`None` where the clock could not
/// be read), and what `op` hands back.
pub open spec fn apply_spec(s: Seq<(Seq<char>, UserView)>, op: Operation, today: Option<Day>) -> (
    Seq<(Seq<char>, UserView)>,
    Outcome,
) {
    match op {
        Operation::Register(r) => {
            let (t, x) = register_spec(s, r.name@, r.passwd@);
            (t, Outcome::Register(x))
        },
        Operation::SignIn(r) => {
            let (t, x) = sign_in_at_spec(s, r.name@, r.passwd@, today);
            (t, Outcome::SignIn(x))
        },
        Operation::Query(q) => (s, Outcome::Query(selected(s, q))),
    }
}

/// The operations applied one after another, in order: the final store and
/// each one's outcome.
pub open spec fn run_spec(s: Seq<(Seq<char>, UserView)>, ops: Seq<Operation>, today: Option<Day>) -> (
    Seq<(Seq<char>, UserView)>,
    Seq<Outcome>,
)
    decreases ops.len(),
{
    if ops.len() == 0 {
        (s, Seq::empty())
    } else {
        let (t, outs) = run_spec(s, ops.drop_last(), today);
        let (u, o) = apply_spec(t, ops.last(), today);
        (u, outs.push(o))
    }
}

/// Work applied in two runs, one after the other, has the effect and the
/// outcomes of one run of all of it in the same order.
pub proof fn lemma_run_concat(
    s: Seq<(Seq<char>, UserView)>,
    a: Seq<Operation>,
    b: Seq<Operation>,
    today: Option<Day>,
)
    ensures
        run_spec(s, a + b, today) == (
            run_spec(run_spec(s, a, today).0, b, today).0,
            run_spec(s, a, today).1 + run_spec(run_spec(s, a, today).0, b, today).1,
        ),
    decreases b.len(),
{
    let first = run_spec(s, a, today);
    if b.len() == 0 {
        assert(a + b =~= a);
        assert(first.1 + Seq::<Outcome>::empty() =~= first.1);
    } else {
        lemma_run_concat(s, a, b.drop_last(), today);
        assert((a + b).drop_last() =~= a + b.drop_last());
        assert((a + b).last() == b.last());
        let mid = run_spec(first.0, b.drop_last(), today);
        let o = apply_spec(mid.0, b.last(), today).1;
        assert((first.1 + mid.1).push(o) =~= first.1 + mid.1.push(o));
    }
}

/// Applies one operation to the store.
pub fn apply(logs: &mut Logs, op: Operation, today: Option<Day>) -> (r: OpResult)
    requires
        old(logs).wf(),
    ensures
        final(logs).wf(),
        (final(logs)@, r@) == apply_spec(old(logs)@, op, today),
{
    match op {
        Operation::Register(req) => OpResult::Register(register(logs, req)),
        Operation::SignIn(req) => OpResult::SignIn(sign_in_at(logs, req, today)),
        Operation::Query(q) => OpResult::Query(query(logs, q)),
    }
}

/// Applies the operations one at a time, in the order given, each to the
/// store that the ones before it left; the results come in the same order.
pub fn apply_all(logs: &mut Logs, ops: Vec<Operation>, today: Option<Day>) -> (r: Vec<OpResult>)
    requires
        old(logs).wf(),
    ensures
        final(logs).wf(),
        (final(logs)@, r@.map_values(|x: OpResult| x@)) == run_spec(old(logs)@, ops@, today),
{
    let ghost all = ops@;
    let ghost start = logs@;
    let mut rest = ops;
    assert(all.len() == rest.len());
    let mut results: Vec<OpResult> = Vec::new();
    let mut done: usize = 0;
    assert(all.take(0) =~= Seq::<Operation>::empty());
    assert(results@.map_values(|x: OpResult| x@) =~= Seq::<Outcome>::empty());
    while rest.len() > 0
        invariant
            logs.wf(),
            done <= all.len(),
            all.len() <= usize::MAX,
            rest@ == all.subrange(done as int, all.len() as int),
            (logs@, results@.map_values(|x: OpResult| x@)) == run_spec(
                start,
                all.take(done as int),
                today,
            ),
        decreases rest.len(),
    {
        assert(done < all.len());
        let op = rest.remove(0);
        let ghost before = results@;
        let ghost mid = logs@;
        proof {
            assert(op == all[done as int]);
            assert(all.take(done as int + 1).drop_last() =~= all.take(done as int));
            assert(all.take(done as int + 1).last() == op);
        }
        let x = apply(logs, op, today);
        results.push(x);
        proof {
            assert(results@.map_values(|x: OpResult| x@) =~= before.map_values(
                |x: OpResult| x@,
            ).push(x@));
            assert(rest@ =~= all.subrange(done as int + 1, all.len() as int));
        }
        done = done + 1;
    }
    assert(all.take(done as int) =~= all);
    results
}

/// What reaches the owner of the store: work, or the order to stop.
pub enum LogEditEvent {
    Edit(Operation),
    Stop,
}

impl LogEditEvent {
    /// Whether this is the order to stop.
    pub open spec fn spec_is_stop(&self) -> bool {
        self is Stop
    }

    /// Whether this is the order to stop.
    #[verifier::when_used_as_spec(spec_is_stop)]
    pub fn is_stop(&self) -> (r: bool)
        ensures
            r == self.spec_is_stop(),
    {
        match self {
            LogEditEvent::Stop => true,
            LogEditEvent::Edit(_) => false,
        }
    }

    /// The work this event carries, or the event itself where it is the
    /// order to stop.
    pub fn try_into_edit(self) -> (r: Result<Operation, LogEditEvent>)
        ensures
            match self {
                LogEditEvent::Edit(op) => r == Ok::<Operation, LogEditEvent>(op),
                LogEditEvent::Stop => r == Err::<Operation, LogEditEvent>(LogEditEvent::Stop),
            },
    {
        match self {
            LogEditEvent::Edit(op) => Ok(op),
            LogEditEvent::Stop => Err(LogEditEvent::Stop),
        }
    }
}

/// What the handle to the store's owner does with an event.
#[derive(Clone, Copy, Debug, PartialEq, Eq, Structural)]
pub enum BridgeAction {
    /// Load the store afresh, start a new owner for it, then hand it the work.
    Start,
    /// Hand the work to the owner that runs.
    Send,
    /// Let go of the running owner: it saves the store and ends.
    Shutdown,
    /// Nothing runs and nothing is to be done.
    Idle,
}

/// The handle's state after an event, and what it does: `live` tells
/// whether an owner runs, `stop` whether the event is the order to stop.
pub open spec fn bridge_spec(live: bool, stop: bool) -> (bool, BridgeAction) {
    if stop {
        (false, if live { BridgeAction::Shutdown } else { BridgeAction::Idle })
    } else if live {
        (true, BridgeAction::Send)
    } else {
        (true, BridgeAction::Start)
    }
}

/// The handle through which all work reaches the one owner of the store.
pub struct Bridge {
    pub live: bool,
}

impl Bridge {
    /// A handle with no owner running yet: the first work starts one.
    pub fn new() -> (r: Bridge)
        ensures
            !r.live,
    {
        Bridge { live: false }
    }

    /// Decides what to do with `event`.
    pub fn on_event(&mut self, event: &LogEditEvent) -> (r: BridgeAction)
        ensures
            (final(self).live, r) == bridge_spec(old(self).live, event.is_stop()),
    {
        let stop = event.is_stop();
        if stop {
            let was = self.live;
            self.live = false;
            if was {
                BridgeAction::Shutdown
            } else {
                BridgeAction::Idle
            }
        } else if self.live {
            BridgeAction::Send
        } else {
            self.live = true;
            BridgeAction::Start
        }
    }
}

/// One lifetime of an owner of the store, shared with its saving task.
pub struct Generation {
    pub running: bool,
}

impl Generation {
    /// A generation that has just started.
    pub fn new() -> (r: Generation)
        ensures
            r.running,
    {
        Generation { running: true }
    }

    /// Whether the periodic save is to write the store; where not, the
    /// saving task ends.
    pub fn save_due(&self) -> (r: bool)
        ensures
            r == self.running,
    {
        self.running
    }

    /// Ends the generation once no more work can come: its saving task
    /// writes nothing from now on.
    pub fn retire(&mut self)
        ensures
            !final(self).running,
    {
        self.running = false;
    }
}

/// After the order to stop, the next work starts a new owner, which loads
/// the store from what was saved; a generation once retired never saves.
pub proof fn lemma_restart_after_stop(live: bool)
    ensures
        !bridge_spec(live, true).0,
        bridge_spec(bridge_spec(live, true).0, false) == (true, BridgeAction::Start),
        live ==> bridge_spec(live, true).1 == BridgeAction::Shutdown,
{
}

/// The store to begin with, from what was read: the saved entries where they
/// could be read and name no user twice; else an empty store, which is then
/// to be saved at once (the second part of the result).
pub fn open_store(saved: Option<Vec<(String, UserLog)>>) -> (r: (Logs, bool))
    ensures
        r.0.wf(),
        match saved {
            Some(v) => if names_unique(entries_view(v@)) {
                r.0@ == entries_view(v@) && !r.1
            } else {
                r.0@ == Seq::<(Seq<char>, UserView)>::empty() && r.1
            },
            None => r.0@ == Seq::<(Seq<char>, UserView)>::empty() && r.1,
        },
{
    match saved {
        Some(v) => match Logs::from_entries(v) {
            Some(l) => (l, false),
            None => (Logs::new(), true),
        },
        None => (Logs::new(), true),
    }
}

} // verus!
