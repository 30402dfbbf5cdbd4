//! A single-process ledger: a directory of users, role-gated operations on
//! their balances, and an append-only log of everything that happened.
//!
//! - [`primitives`] holds the shared types: roles, users, errors, events.
//! - [`rates`] holds the arithmetic on balances and rates.
//! - [`ledger`] describes the ledger as a mathematical state with one
//!   function for each operation.
//! - [`bank`] holds the executable ledger, [`Bank`], whose operations are
//!   proved to do what [`ledger`] says.
//! - [`laws`] proves what holds of every state and every operation.
//!
//! Amounts are whole numbers of the smallest currency unit, and rates are
//! counted in parts per [`RATE_SCALE`]; a product of the two is rounded down.
pub mod bank;
pub mod laws;
pub mod ledger;
pub mod primitives;
pub mod rates;

pub use bank::Bank;
pub use ledger::Ledger;
pub use primitives::{
    Balance, BankResult, BankingError, Event, HashResult, Rate, ReportEntry, ReportEntryView, Role,
    User, UserId, UserView, ED, INTEREST_RATE, RATE_SCALE, TAX_RATE,
};
