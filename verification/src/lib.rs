//! Replays an ordered log of client operations (deposits, withdrawals, disputes,
//! resolves and chargebacks) against per-client accounts.
//!
//! The account store and the transaction ledger are two owned containers that
//! the engine is handed by reference; nothing here is global.
//!
//! The policies of the engine, each stated in the contracts:
//!
//! - Amounts and balances are whole counts of the ledger's smallest unit
//!   ([`models::UNITS_PER_WHOLE`] of them make one whole). Every comparison of
//!   two amounts is therefore exact: a withdrawal of precisely what is
//!   available succeeds, and the tolerance is less than one unit.
//! - An account is opened the first time its client is named, and accounts
//!   are kept in the order in which their clients first appeared.
//! - On a locked account every operation is accepted and ignored.
//! - A deposit or withdrawal without an amount, and a deposit of a negative
//!   amount, are refused as invalid. A deposit or withdrawal under an
//!   identifier that the ledger holds already is refused as a duplicate.
//! - A dispute, resolve or chargeback is settled on the account of the client
//!   that the operation names; the ledger does not record whose a transaction
//!   was, and the two are not held against each other.
//! - An operation that would take a balance out of the range of its field is
//!   refused and changes nothing.
//! - A refused operation does not end a run. A record whose kind is none of
//!   the five ends the run at once.

pub mod accounting;
pub mod engine;
pub mod laws;
pub mod models;
pub mod text;
pub mod transactions;

pub use accounting::{AccountingError, AccountingResponse, AccountingStorage};
pub use models::{
    Account, AccountView, Operation, OperationView, Transaction, TransactionType, TransactionView,
};
pub use transactions::{TransactionError, TransactionResponse, TransactionStorage};
