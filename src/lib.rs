//! An attendance register: users sign up with a name and a password, sign in
//! once a day, and queries list who did or did not sign in on a given day.
//!
//! `data` holds the store of users, `register`, `sign` and `query` the rules
//! that read and change it, and `actor` the work that reaches the store's one
//! owner, applied in order, with the state machine of the handle that starts,
//! stops and restarts that owner.
pub mod actor;
pub mod data;
pub mod day;
pub mod query;
pub mod register;
pub mod sign;

pub use day::Day;
pub use data::{Logs, UserLog, UserView};
