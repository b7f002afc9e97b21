//! Dispatcher for a persisted outbound-mail queue.
//!
//! The crate holds the decisions of the worker: which queue entries are
//! claimed, how a recipient is resolved and checked, how a delivery is
//! retried, which status an entry ends with, and what the heartbeat of a
//! cycle says. Reading the environment, talking to the database and to the
//! SMTP relay, and sleeping are left to the program around it, which performs
//! the actions that the state machines here hand out and reports back what
//! happened.
//!
//! - [`config`]: the worker's settings and how the environment gives them.
//! - [`models`]: the rows of the tables and the SMTP parameters.
//! - [`database`]: what the gateway's queries and writes mean, on tables
//!   held in memory.
//! - [`letter`]: reading a mailbox and building a message with `lettre`.
//! - [`mailer`]: the checks before a delivery, the draft of the message, the
//!   transport and the retry controller.
//! - [`worker`]: the cycle as a state machine.
//! - [`model`]: what a whole cycle does to the tables, and the proofs of it.
//! - [`text`]: helpers on strings.

pub mod config;
pub mod database;
pub mod letter;
pub mod mailer;
pub mod model;
pub mod models;
pub mod text;
pub mod worker;
