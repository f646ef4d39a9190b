//! Configuration record of the alert mailer.
//!
//! The mailer itself delivers over the network and lives with the rest of
//! the process plumbing; this record is what it is configured from.

use vstd::prelude::*;

verus! {

/// Settings of the alert mailer: `user` and `pass` open the connection to
/// the relay named by `relay`, `from` is the sender address, `to` may name
/// several recipients, and `machine_id` optionally identifies this machine
/// in alert subjects (the hostname is used when absent).
pub struct MailerSettings {
    pub user: String,
    pub pass: String,
    pub relay: String,
    pub from: String,
    pub to: Vec<String>,
    pub machine_id: Option<String>,
}

} // verus!
