//! The records the engine works on, and their mathematical views.

use std::str::FromStr;
use vstd::prelude::*;
use crate::text::{lowercase_of, same_text, to_lowercase};

verus! {

/// The five kinds of operation.
#[derive(Clone, Copy, Debug, PartialEq, Eq)]
pub enum TransactionType {
    Chargeback,
    Deposit,
    Dispute,
    Resolve,
    Withdrawal,
}

impl TransactionType {
    /// The kind that a lowercase name stands for, if it stands for one.
    pub open spec fn of_lowercase(name: Seq<char>) -> Option<TransactionType> {
        if name == "chargeback"@ {
            Some(TransactionType::Chargeback)
        } else if name == "deposit"@ {
            Some(TransactionType::Deposit)
        } else if name == "dispute"@ {
            Some(TransactionType::Dispute)
        } else if name == "resolve"@ {
            Some(TransactionType::Resolve)
        } else if name == "withdrawal"@ {
            Some(TransactionType::Withdrawal)
        } else {
            None
        }
    }

    /// The kind that a name stands for, whatever the case of its letters.
    pub open spec fn of_name(input: Seq<char>) -> Option<TransactionType> {
        Self::of_lowercase(lowercase_of(input))
    }

    /// Reads a kind from its lowercase name.
    pub fn from_lowercase(name: &str) -> (kind: Option<TransactionType>)
        ensures
            kind == Self::of_lowercase(name@),
    {
        if same_text(name, "chargeback") {
            Some(TransactionType::Chargeback)
        } else if same_text(name, "deposit") {
            Some(TransactionType::Deposit)
        } else if same_text(name, "dispute") {
            Some(TransactionType::Dispute)
        } else if same_text(name, "resolve") {
            Some(TransactionType::Resolve)
        } else if same_text(name, "withdrawal") {
            Some(TransactionType::Withdrawal)
        } else {
            None
        }
    }

    /// Reads a kind from its name, whatever the case of its letters.
    pub fn from_name(input: &str) -> (kind: Option<TransactionType>)
        ensures
            kind == Self::of_name(input@),
    {
        let lower = to_lowercase(input);
        Self::from_lowercase(lower.as_str())
    }
}

impl FromStr for TransactionType {
    type Err = ();

    fn from_str(input: &str) -> (kind: Result<TransactionType, ()>)
        ensures
            kind == match TransactionType::of_name(input@) {
                Some(k) => Ok::<TransactionType, ()>(k),
                None => Err::<TransactionType, ()>(()),
            },
    {
        match TransactionType::from_name(input) {
            Some(kind) => Ok(kind),
            None => Err(()),
        }
    }
}

/// Number of smallest ledger units that make one whole currency unit. Amounts
/// are held as counts of that smallest unit: two amounts are equal exactly when
/// their counts are, and "enough funds" is a comparison of two integers.
pub const UNITS_PER_WHOLE: i64 = 10_000;

/// One record of the input: an operation as it arrives, its kind still a name.
#[derive(Debug)]
pub struct Operation {
    /// Name of the operation's kind, in any case.
    pub kind: String,
    pub client: u16,
    pub tx: u32,
    /// Present on deposits and withdrawals.
    pub amount: Option<i64>,
}

/// An operation with its kind read, or `None` where the name is of no kind,
/// and with an unbounded amount.
pub struct OperationView {
    pub kind: Option<TransactionType>,
    pub client: u16,
    pub tx: u32,
    pub amount: Option<int>,
}

/// An optional amount as an optional integer.
pub open spec fn amount_view(amount: Option<i64>) -> Option<int> {
    match amount {
        Some(a) => Some(a as int),
        None => None,
    }
}

impl View for Operation {
    type V = OperationView;

    open spec fn view(&self) -> OperationView {
        OperationView {
            kind: TransactionType::of_name(self.kind@),
            client: self.client,
            tx: self.tx,
            amount: amount_view(self.amount),
        }
    }
}

/// Balance record of one client.
#[derive(Clone, Copy, Debug, PartialEq, Eq)]
pub struct Account {
    pub client: u16,
    /// Funds the client may withdraw or have disputed.
    pub available: i64,
    /// Funds frozen by open disputes.
    pub held: i64,
    pub total: i64,
    /// Set by a chargeback, never cleared.
    pub locked: bool,
}

/// An account with unbounded balances.
pub struct AccountView {
    pub client: u16,
    pub available: int,
    pub held: int,
    pub total: int,
    pub locked: bool,
}

impl View for Account {
    type V = AccountView;

    open spec fn view(&self) -> AccountView {
        AccountView {
            client: self.client,
            available: self.available as int,
            held: self.held as int,
            total: self.total as int,
            locked: self.locked,
        }
    }
}

/// Whether `x` can be held in a balance field.
pub open spec fn fits(x: int) -> bool {
    i64::MIN <= x <= i64::MAX
}

impl AccountView {
    /// A fresh account: nothing available, nothing held, not locked.
    pub open spec fn opened(client: u16) -> AccountView {
        AccountView { client, available: 0, held: 0, total: 0, locked: false }
    }

    /// The total is what is available plus what is held.
    pub open spec fn balanced(self) -> bool {
        self.total == self.available + self.held
    }

    /// Every balance can be held in a balance field.
    pub open spec fn representable(self) -> bool {
        fits(self.available) && fits(self.held) && fits(self.total)
    }

    pub open spec fn deposited(self, amount: int) -> AccountView {
        AccountView { available: self.available + amount, total: self.total + amount, ..self }
    }

    pub open spec fn withdrawn(self, amount: int) -> AccountView {
        AccountView { available: self.available - amount, total: self.total - amount, ..self }
    }

    /// Moves `amount` from available to held.
    pub open spec fn disputed(self, amount: int) -> AccountView {
        AccountView { available: self.available - amount, held: self.held + amount, ..self }
    }

    /// Moves `amount` back from held to available.
    pub open spec fn resolved(self, amount: int) -> AccountView {
        AccountView { available: self.available + amount, held: self.held - amount, ..self }
    }

    /// Removes `amount` from held for good, and locks the account.
    pub open spec fn charged_back(self, amount: int) -> AccountView {
        AccountView { held: self.held - amount, total: self.total - amount, locked: true, ..self }
    }
}

impl Account {
    /// A fresh account for `client`.
    pub fn new(client: u16) -> (account: Account)
        ensures
            account@ == AccountView::opened(client),
    {
        Account { client, available: 0, held: 0, total: 0, locked: false }
    }
}

/// Ledger entry of one accepted deposit or withdrawal.
#[derive(Clone, Copy, Debug, PartialEq, Eq)]
pub struct Transaction {
    pub tx: u32,
    /// Signed: positive for a deposit, negative for a withdrawal.
    pub amount: i64,
    /// True while a dispute on this entry is open.
    pub disputed: bool,
}

/// A ledger entry with an unbounded amount.
pub struct TransactionView {
    pub tx: u32,
    pub amount: int,
    pub disputed: bool,
}

impl View for Transaction {
    type V = TransactionView;

    open spec fn view(&self) -> TransactionView {
        TransactionView { tx: self.tx, amount: self.amount as int, disputed: self.disputed }
    }
}

} // verus!
