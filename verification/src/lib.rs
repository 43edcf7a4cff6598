//! Arbiter for a turn-based fleet duel.
//!
//! Players commit to a private board, prove each move about it without
//! showing it, and sign what they send. The arbiter keeps, for every game in
//! progress, who is in it, whose turn it is, who owes a report, and whether a
//! victory claim is being contested.
//!
//! - [`store`] holds the sessions and the handlers for the five kinds of
//!   command; [`session`] is one game, [`rules`] says what each command
//!   decides and does, [`laws`] what follows from the rules.
//! - [`dispatch`] binds a command to the program that must have attested it
//!   and routes it; [`receipt`] is the attestation, [`signature`] the
//!   signature check.
//! - [`messages`] and [`text`] word the answers.
//! - [`form`], [`parse`] and [`host`] are the player's side; [`guest`],
//!   [`fleet`] and [`hashing`] are what the proof programs compute, and
//!   [`fleet_laws`] shows that the verdict on a placement is well defined.

pub mod command;
pub mod commitment;
pub mod dispatch;
pub mod fleet;
pub mod fleet_laws;
pub mod form;
pub mod guest;
pub mod hashing;
pub mod host;
pub mod laws;
pub mod messages;
pub mod outcome;
pub mod parse;
pub mod receipt;
pub mod rules;
pub mod session;
pub mod signature;
pub mod store;
pub mod text;
