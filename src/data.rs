use vstd::prelude::*;

use crate::day::Day;

verus! {

/// What is kept of one user: the days signed in, oldest first, and the password.
pub struct UserLog {
    pub logs: Vec<Day>,
    pub passwd: String,
}

/// The mathematical value of a [`UserLog`].
pub struct UserView {
    pub passwd: Seq<char>,
    pub logs: Seq<Day>,
}

impl View for UserLog {
    type V = UserView;

    open spec fn view(&self) -> UserView {
        UserView { passwd: self.passwd@, logs: self.logs@ }
    }
}

/// A user record as it is made at sign-up: the password and no days.
pub open spec fn fresh_user(passwd: Seq<char>) -> UserView {
    UserView { passwd, logs: Seq::empty() }
}

impl UserLog {
    /// A record with the given password that has not signed in yet.
    pub fn new(passwd: String) -> (r: UserLog)
        ensures
            r@ == fresh_user(passwd@),
    {
        UserLog { logs: Vec::new(), passwd }
    }
}

/// The store: each user's name with its record, in the order in which they
/// were added (by sign-up, or by reading the saved entries back). No name
/// occurs twice (see [`Logs::wf`]).
///
/// The store is a sequence of (name, record) entries whose names are
/// unique: a map from names to records that also keeps an order, so that
/// listings come out the same way each time.
pub struct Logs {
    entries: Vec<(String, UserLog)>,
}

/// Whether `name` has a record in the store `s`.
pub open spec fn has_user(s: Seq<(Seq<char>, UserView)>, name: Seq<char>) -> bool {
    exists|i: int| 0 <= i < s.len() && s[i].0 == name
}

/// No name has two records.
pub open spec fn names_unique(s: Seq<(Seq<char>, UserView)>) -> bool {
    forall|i: int, j: int| 0 <= i < j < s.len() ==> s[i].0 != s[j].0
}

/// The value of a list of names with their records.
pub open spec fn entries_view(v: Seq<(String, UserLog)>) -> Seq<(Seq<char>, UserView)> {
    v.map_values(|e: (String, UserLog)| (e.0@, e.1@))
}

impl View for Logs {
    type V = Seq<(Seq<char>, UserView)>;

    closed spec fn view(&self) -> Seq<(Seq<char>, UserView)> {
        entries_view(self.entries@)
    }
}

impl Logs {
    /// Where the store is kept, relative to the working directory.
    pub const LOG_FILE: &'static str = "./logs.json";

    /// Seconds between two periodic saves.
    pub const AUTO_SAVE_TIME: u64 = 600;

    /// Every name has one record at most.
    pub open spec fn wf(&self) -> bool {
        names_unique(self@)
    }

    /// An empty store.
    pub fn new() -> (r: Logs)
        ensures
            r.wf(),
            r@ == Seq::<(Seq<char>, UserView)>::empty(),
    {
        let r = Logs { entries: Vec::new() };
        assert(r@ =~= Seq::<(Seq<char>, UserView)>::empty());
        r
    }

    /// The number of users.
    pub fn len(&self) -> (r: usize)
        ensures
            r == self@.len(),
    {
        self.entries.len()
    }

    /// Where `name` stands in the store, if it has a record.
    pub fn position(&self, name: &String) -> (r: Option<usize>)
        ensures
            match r {
                Some(i) => i < self@.len() && self@[i as int].0 == name@,
                None => !has_user(self@, name@),
            },
    {
        let mut i: usize = 0;
        while i < self.entries.len()
            invariant
                0 <= i <= self.entries.len(),
                forall|j: int| 0 <= j < i ==> self@[j].0 != name@,
            decreases self.entries.len() - i,
        {
            if self.entries[i].0 == *name {
                return Some(i);
            }
            i = i + 1;
        }
        None
    }

    /// The record of `name`, if there is one.
    pub fn get(&self, name: &String) -> (r: Option<&UserLog>)
        ensures
            match r {
                Some(u) => exists|i: int|
                    0 <= i < self@.len() && self@[i].0 == name@ && self@[i].1 == u@,
                None => !has_user(self@, name@),
            },
    {
        match self.position(name) {
            Some(i) => Some(&self.entries[i].1),
            None => None,
        }
    }
}

impl Logs {
    /// The name and the record at position `i`.
    pub fn entry(&self, i: usize) -> (r: (&String, &UserLog))
        requires
            i < self@.len(),
        ensures
            r.0@ == self@[i as int].0,
            r.1@ == self@[i as int].1,
    {
        let e = &self.entries[i];
        (&e.0, &e.1)
    }

    /// Adds a record for a name that has none, after all others.
    pub fn insert_new(&mut self, name: String, log: UserLog)
        requires
            old(self).wf(),
            !has_user(old(self)@, name@),
        ensures
            final(self).wf(),
            final(self)@ == old(self)@.push((name@, log@)),
    {
        self.entries.push((name, log));
        assert(self@ =~= old(self)@.push((name@, log@)));
    }

    /// Appends `day` to the days of the record at position `i`.
    pub fn push_day(&mut self, i: usize, day: Day)
        requires
            old(self).wf(),
            i < old(self)@.len(),
        ensures
            final(self).wf(),
            final(self)@ == old(self)@.update(
                i as int,
                (
                    old(self)@[i as int].0,
                    UserView {
                        passwd: old(self)@[i as int].1.passwd,
                        logs: old(self)@[i as int].1.logs.push(day),
                    },
                ),
            ),
    {
        let (name, mut log) = self.entries.remove(i);
        log.logs.push(day);
        self.entries.insert(i, (name, log));
        assert(self@ =~= old(self)@.update(
            i as int,
            (
                old(self)@[i as int].0,
                UserView {
                    passwd: old(self)@[i as int].1.passwd,
                    logs: old(self)@[i as int].1.logs.push(day),
                },
            ),
        ));
    }
}

/// A copy of a list of days.
fn copy_days(days: &Vec<Day>) -> (r: Vec<Day>)
    ensures
        r@ == days@,
{
    let mut r: Vec<Day> = Vec::new();
    let mut i: usize = 0;
    while i < days.len()
        invariant
            0 <= i <= days.len(),
            r@ == days@.take(i as int),
        decreases days.len() - i,
    {
        r.push(days[i]);
        assert(r@ =~= days@.take(i as int + 1));
        i = i + 1;
    }
    assert(days@.take(days.len() as int) =~= days@);
    r
}

impl Logs {
    /// The names with copies of their records, in the store's order: the form
    /// in which the store is written out.
    pub fn to_entries(&self) -> (r: Vec<(String, UserLog)>)
        ensures
            entries_view(r@) == self@,
    {
        let mut r: Vec<(String, UserLog)> = Vec::new();
        let mut i: usize = 0;
        while i < self.entries.len()
            invariant
                0 <= i <= self.entries.len(),
                entries_view(r@) == self@.take(i as int),
                r@.len() == i,
                self@.len() == self.entries.len(),
            decreases self.entries.len() - i,
        {
            let e = &self.entries[i];
            let log = UserLog { logs: copy_days(&e.1.logs), passwd: e.1.passwd.clone() };
            let name = e.0.clone();
            r.push((name, log));
            assert(self@[i as int] == (e.0@, e.1@));
            assert(entries_view(r@)[i as int] == (name@, log@));
            assert(entries_view(r@) =~= self@.take(i as int + 1));
            i = i + 1;
        }
        assert(self@.take(self.entries.len() as int) =~= self@);
        r
    }

    /// The store that a list of names with records stands for; `None` where
    /// a name occurs twice.
    pub fn from_entries(entries: Vec<(String, UserLog)>) -> (r: Option<Logs>)
        ensures
            match r {
                Some(l) => l.wf() && l@ == entries_view(entries@),
                None => !names_unique(entries_view(entries@)),
            },
    {
        let ghost s = entries_view(entries@);
        let mut i: usize = 0;
        while i < entries.len()
            invariant
                0 <= i <= entries.len(),
                s == entries_view(entries@),
                forall|a: int, b: int| 0 <= a < b < i ==> s[a].0 != s[b].0,
            decreases entries.len() - i,
        {
            let mut j: usize = 0;
            while j < i
                invariant
                    0 <= j <= i < entries.len(),
                    s == entries_view(entries@),
                    forall|a: int| 0 <= a < j ==> s[a].0 != s[i as int].0,
                decreases i - j,
            {
                if entries[j].0 == entries[i].0 {
                    assert(s[j as int].0 == s[i as int].0);
                    return None;
                }
                j = j + 1;
            }
            i = i + 1;
        }
        Some(Logs { entries })
    }
}

} // verus!
