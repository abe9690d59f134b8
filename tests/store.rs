use attendance::actor::{
    apply, apply_all, open_store, Bridge, BridgeAction, Generation, LogEditEvent, OpResult,
    Operation,
};
use attendance::data::{Logs, UserLog};
use attendance::day::Day;
use attendance::query::{query, QueryRequest};
use attendance::register::{register, RegisterRequest, RegisterResult};
use attendance::sign::{sign_in, sign_in_at, sign_in_on, SignInRequest, SignInResult};

fn reg(name: &str, passwd: &str) -> RegisterRequest {
    RegisterRequest { name: name.to_string(), passwd: passwd.to_string() }
}

fn sign(name: &str, passwd: &str) -> SignInRequest {
    SignInRequest { name: name.to_string(), passwd: passwd.to_string() }
}

fn names(logs: &Logs, q: QueryRequest) -> Vec<String> {
    query(logs, q).users
}

fn days_of(logs: &Logs, name: &str) -> Vec<u64> {
    logs.get(&name.to_string()).unwrap().logs.iter().map(|d| d.day).collect()
}

#[test]
fn day_from_seconds() {
    assert_eq!(Day::from_unix_secs(0).day, 0);
    assert_eq!(Day::from_unix_secs(86399).day, 0);
    assert_eq!(Day::from_unix_secs(86400).day, 1);
    assert_eq!(Day::from_unix_secs(3 * 86400 + 5).day, 3);
    assert_eq!(Day::from_unix_secs(1_700_000_000).day, 19675);
}

#[test]
fn today_reads_the_clock() {
    // 2024-01-01 is day 19723 since the epoch.
    assert!(Day::today().unwrap().day >= 19723);
}

#[test]
fn sign_in_without_a_day() {
    let mut logs = Logs::new();
    register(&mut logs, reg("alice", "p1"));
    assert_eq!(sign_in_at(&mut logs, sign("alice", "p1"), None), SignInResult::Unknown);
    assert_eq!(sign_in_at(&mut logs, sign("bob", "x"), None), SignInResult::UserDoesNotExist);
    assert_eq!(sign_in_at(&mut logs, sign("alice", "no"), None), SignInResult::IncorrectPassword);
    assert!(days_of(&logs, "alice").is_empty());
    assert_eq!(sign_in_at(&mut logs, sign("alice", "p1"), Some(Day { day: 4 })), SignInResult::Success);
    assert_eq!(days_of(&logs, "alice"), vec![4]);
}

#[test]
fn new_user_log_is_empty() {
    let u = UserLog::new("pw".to_string());
    assert!(u.logs.is_empty());
    assert_eq!(u.passwd, "pw");
}

#[test]
fn register_twice_is_refused() {
    let mut logs = Logs::new();
    assert_eq!(register(&mut logs, reg("alice", "p1")), RegisterResult::Success);
    assert_eq!(register(&mut logs, reg("alice", "p2")), RegisterResult::Exist);
    assert_eq!(logs.len(), 1);
    assert_eq!(logs.get(&"alice".to_string()).unwrap().passwd, "p1");
    assert!(logs.get(&"alice".to_string()).unwrap().logs.is_empty());
}

#[test]
fn sign_in_outcomes() {
    let mut logs = Logs::new();
    register(&mut logs, reg("alice", "p1"));
    let d = Day { day: 500 };
    assert_eq!(sign_in_on(&mut logs, sign("bob", "x"), d), SignInResult::UserDoesNotExist);
    assert_eq!(sign_in_on(&mut logs, sign("alice", "wrong"), d), SignInResult::IncorrectPassword);
    assert!(days_of(&logs, "alice").is_empty());
    assert_eq!(sign_in_on(&mut logs, sign("alice", "p1"), d), SignInResult::Success);
    assert_eq!(days_of(&logs, "alice"), vec![500]);
}

#[test]
fn sign_in_same_day_counts_once() {
    let mut logs = Logs::new();
    register(&mut logs, reg("alice", "p1"));
    let d = Day { day: 7 };
    for _ in 0..5 {
        assert_eq!(sign_in_on(&mut logs, sign("alice", "p1"), d), SignInResult::Success);
    }
    assert_eq!(days_of(&logs, "alice"), vec![7]);
    sign_in_on(&mut logs, sign("alice", "p1"), Day { day: 8 });
    sign_in_on(&mut logs, sign("alice", "p1"), Day { day: 8 });
    assert_eq!(days_of(&logs, "alice"), vec![7, 8]);
}

#[test]
fn query_by_day() {
    let mut logs = Logs::new();
    register(&mut logs, reg("a", "1"));
    register(&mut logs, reg("b", "2"));
    let d = Day { day: 42 };
    sign_in_on(&mut logs, sign("a", "1"), d);
    sign_in_on(&mut logs, sign("b", "2"), Day { day: 41 });
    assert_eq!(names(&logs, QueryRequest::SignIned(d)), vec!["a".to_string()]);
    assert_eq!(names(&logs, QueryRequest::UnSignIned(d)), vec!["b".to_string()]);
    assert_eq!(names(&logs, QueryRequest::All), vec!["a".to_string(), "b".to_string()]);
    assert!(names(&logs, QueryRequest::SignIned(Day { day: 1 })).is_empty());
}

#[test]
fn query_on_empty_store() {
    let logs = Logs::new();
    assert!(names(&logs, QueryRequest::All).is_empty());
    assert!(names(&logs, QueryRequest::UnSignIned(Day { day: 3 })).is_empty());
}

#[test]
fn sign_in_refusals_leave_the_store() {
    let mut logs = Logs::new();
    register(&mut logs, reg("alice", "p1"));
    assert_eq!(sign_in(&mut logs, sign("bob", "x")), SignInResult::UserDoesNotExist);
    assert_eq!(sign_in(&mut logs, sign("alice", "bad")), SignInResult::IncorrectPassword);
    assert_eq!(logs.len(), 1);
    assert!(days_of(&logs, "alice").is_empty());
}

#[test]
fn end_to_end() {
    let mut logs = Logs::new();
    assert_eq!(register(&mut logs, reg("alice", "p1")), RegisterResult::Success);
    assert_eq!(register(&mut logs, reg("alice", "p2")), RegisterResult::Exist);
    assert_eq!(sign_in(&mut logs, sign("alice", "wrong")), SignInResult::IncorrectPassword);
    assert_eq!(sign_in(&mut logs, sign("alice", "p1")), SignInResult::Success);
    assert_eq!(sign_in(&mut logs, sign("bob", "x")), SignInResult::UserDoesNotExist);
    let today = Day::today().unwrap();
    assert_eq!(names(&logs, QueryRequest::SignIned(today)), vec!["alice".to_string()]);
}

#[test]
fn entries_round_trip() {
    let mut logs = Logs::new();
    register(&mut logs, reg("x", "px"));
    register(&mut logs, reg("y", "py"));
    sign_in_on(&mut logs, sign("y", "py"), Day { day: 3 });
    sign_in_on(&mut logs, sign("y", "py"), Day { day: 9 });
    let back = Logs::from_entries(logs.to_entries()).unwrap();
    assert_eq!(names(&back, QueryRequest::All), vec!["x".to_string(), "y".to_string()]);
    assert_eq!(back.get(&"y".to_string()).unwrap().passwd, "py");
    assert_eq!(days_of(&back, "y"), vec![3, 9]);
    assert!(days_of(&back, "x").is_empty());
}

#[test]
fn duplicate_entries_are_refused() {
    let entries = vec![
        ("a".to_string(), UserLog::new("1".to_string())),
        ("a".to_string(), UserLog::new("2".to_string())),
    ];
    assert!(Logs::from_entries(entries).is_none());
}

#[test]
fn open_store_cases() {
    let (logs, save) = open_store(None);
    assert!(save);
    assert_eq!(logs.len(), 0);
    let entries = vec![("a".to_string(), UserLog::new("1".to_string()))];
    let (logs, save) = open_store(Some(entries));
    assert!(!save);
    assert_eq!(logs.len(), 1);
    let dup = vec![
        ("a".to_string(), UserLog::new("1".to_string())),
        ("a".to_string(), UserLog::new("1".to_string())),
    ];
    let (logs, save) = open_store(Some(dup));
    assert!(save);
    assert_eq!(logs.len(), 0);
}

#[test]
fn operations_apply_in_order() {
    let mut logs = Logs::new();
    let d = Day { day: 10 };
    let ops = vec![
        Operation::Register(reg("alice", "p1")),
        Operation::Register(reg("alice", "p2")),
        Operation::SignIn(sign("alice", "p2")),
        Operation::SignIn(sign("alice", "p1")),
        Operation::Query(QueryRequest::SignIned(d)),
    ];
    let results = apply_all(&mut logs, ops, Some(d));
    assert_eq!(results.len(), 5);
    assert!(matches!(results[0], OpResult::Register(RegisterResult::Success)));
    assert!(matches!(results[1], OpResult::Register(RegisterResult::Exist)));
    assert!(matches!(results[2], OpResult::SignIn(SignInResult::IncorrectPassword)));
    assert!(matches!(results[3], OpResult::SignIn(SignInResult::Success)));
    assert_eq!(days_of(&logs, "alice"), vec![10]);
    match &results[4] {
        OpResult::Query(u) => assert_eq!(u.users, vec!["alice".to_string()]),
        _ => panic!("expected a query result"),
    }
    match apply(&mut logs, Operation::Query(QueryRequest::UnSignIned(d)), Some(d)) {
        OpResult::Query(u) => assert!(u.users.is_empty()),
        _ => panic!("expected a query result"),
    }
}

#[test]
fn events() {
    assert!(LogEditEvent::Stop.is_stop());
    let e = LogEditEvent::Edit(Operation::Query(QueryRequest::All));
    assert!(!e.is_stop());
    assert!(matches!(e.try_into_edit(), Ok(Operation::Query(QueryRequest::All))));
    assert!(matches!(LogEditEvent::Stop.try_into_edit(), Err(LogEditEvent::Stop)));
}

#[test]
fn bridge_restarts_after_stop() {
    let work = LogEditEvent::Edit(Operation::Query(QueryRequest::All));
    let mut b = Bridge::new();
    assert_eq!(b.on_event(&LogEditEvent::Stop), BridgeAction::Idle);
    assert_eq!(b.on_event(&work), BridgeAction::Start);
    assert_eq!(b.on_event(&work), BridgeAction::Send);
    assert_eq!(b.on_event(&LogEditEvent::Stop), BridgeAction::Shutdown);
    assert!(!b.live);
    assert_eq!(b.on_event(&work), BridgeAction::Start);
    let mut g = Generation::new();
    assert!(g.save_due());
    g.retire();
    assert!(!g.save_due());
}
