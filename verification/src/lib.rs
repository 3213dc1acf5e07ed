//! A small account ledger.
//!
//! Every account has a balance, a credit limit, and a ring of its ten most
//! recent transactions. A transaction is a credit or a debit of a positive
//! amount with a short description; a debit that would take the balance
//! below the negated limit is rejected, and a rejected transaction changes
//! nothing.
//!
//! - [`user`] holds the account record and its rules: the decision on a
//!   transaction, the history ring, and what is proved of both.
//! - [`transaction`] holds the transaction itself, the encoding of a
//!   history for storage, and the reading of a submitted request.
//! - [`db`] holds what is decided around storage. An update is a small
//!   state machine: the caller carries out each storage operation and
//!   reports the answer; the ledger says what to do next.
//! - [`bank_statement`] and [`extract`] put a statement together.
//! - [`responses`] and [`logging`] hold the text that goes on the wire and
//!   into the log.
//!
//! The library performs no input or output of its own. It calls `bincode`
//! to encode and decode histories and `chrono` to read the clock; what is
//! assumed of those calls is said where they are made.

mod clock;
pub mod transaction;
pub mod user;
pub mod db;
pub mod responses;
pub mod bank_statement;
pub mod logging;
pub mod extract;
