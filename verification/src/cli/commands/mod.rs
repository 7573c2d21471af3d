//! What each command computes.

pub mod check;
pub mod id;
pub mod init;
pub mod watch;
pub mod list;
pub mod set;
pub mod agenda;
pub mod inspect;
pub mod deps;
pub mod search;
