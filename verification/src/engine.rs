//! The settlement engine: what each operation does to the account store and to
//! the transaction ledger.
//!
//! An operation names its client itself, also when it refers to an earlier
//! transaction: the ledger does not record whose a transaction was, and the
//! engine settles a dispute, resolve or chargeback on the account of the client
//! that the operation names.

use vstd::prelude::*;
use crate::accounting::{
    account_position, accounts_wf, refusal, with_account, AccountingError, AccountingResponse,
    AccountingStorage,
};
use crate::laws::{
    lemma_applied_kind_known, lemma_applied_wf, lemma_replayed_result, lemma_replayed_wf,
};
use crate::models::{
    amount_view, fits, AccountView, Operation, OperationView, Transaction, TransactionType,
    TransactionView,
};
use crate::transactions::{ledger_wf, transaction_position, TransactionStorage};

verus! {

/// The account store and the transaction ledger, side by side.
pub struct Books {
    pub accounts: Seq<AccountView>,
    pub transactions: Seq<TransactionView>,
}

impl Books {
    /// No client has two accounts, every account is balanced, and no
    /// transaction identifier is recorded twice.
    pub open spec fn wf(self) -> bool {
        accounts_wf(self.accounts) && ledger_wf(self.transactions)
    }
}

/// A deposit on the unlocked account in place `i`. It needs an amount that is
/// not negative and an identifier that is not recorded yet; the ledger gains
/// an entry with the amount.
pub open spec fn deposit_applied(books: Books, i: int, tx: u32, amount: Option<int>) -> (
    Books,
    Result<(), AccountingError>,
) {
    let account = books.accounts[i];
    match amount {
        None => (books, Err(AccountingError::InvalidAmount)),
        Some(a) => if a < 0 {
            (books, Err(AccountingError::InvalidAmount))
        } else if transaction_position(books.transactions, tx) is Some {
            (books, Err(AccountingError::DuplicateTransaction))
        } else if refusal(account, TransactionType::Deposit, a) is Some {
            (books, Err(refusal(account, TransactionType::Deposit, a).unwrap()))
        } else {
            (
                Books {
                    accounts: books.accounts.update(i, account.deposited(a)),
                    transactions: books.transactions.push(
                        TransactionView { tx, amount: a, disputed: false },
                    ),
                },
                Ok(()),
            )
        },
    }
}

/// A withdrawal on the unlocked account in place `i`. It needs an amount, an
/// identifier that is not recorded yet, and that much available; the ledger
/// gains an entry with the amount negated.
pub open spec fn withdrawal_applied(books: Books, i: int, tx: u32, amount: Option<int>) -> (
    Books,
    Result<(), AccountingError>,
) {
    let account = books.accounts[i];
    match amount {
        None => (books, Err(AccountingError::InvalidAmount)),
        Some(a) => if transaction_position(books.transactions, tx) is Some {
            (books, Err(AccountingError::DuplicateTransaction))
        } else if refusal(account, TransactionType::Withdrawal, a) is Some {
            (books, Err(refusal(account, TransactionType::Withdrawal, a).unwrap()))
        } else if !fits(-a) {
            (books, Err(AccountingError::OutOfRange))
        } else {
            (
                Books {
                    accounts: books.accounts.update(i, account.withdrawn(a)),
                    transactions: books.transactions.push(
                        TransactionView { tx, amount: -a, disputed: false },
                    ),
                },
                Ok(()),
            )
        },
    }
}

/// A dispute on the unlocked account in place `i`. Where `tx` is recorded, its
/// amount moves from available to held and the entry is marked; where it is
/// not, nothing happens.
pub open spec fn dispute_applied(books: Books, i: int, tx: u32) -> (
    Books,
    Result<(), AccountingError>,
) {
    let account = books.accounts[i];
    match transaction_position(books.transactions, tx) {
        None => (books, Ok(())),
        Some(j) => {
            let entry = books.transactions[j];
            if refusal(account, TransactionType::Dispute, entry.amount) is Some {
                (books, Err(refusal(account, TransactionType::Dispute, entry.amount).unwrap()))
            } else {
                (
                    Books {
                        accounts: books.accounts.update(i, account.disputed(entry.amount)),
                        transactions: books.transactions.update(
                            j,
                            TransactionView { disputed: true, ..entry },
                        ),
                    },
                    Ok(()),
                )
            }
        },
    }
}

/// A resolve on the unlocked account in place `i`. Where `tx` is recorded and
/// marked, its amount moves back from held to available and the mark is taken
/// off; otherwise nothing happens.
pub open spec fn resolve_applied(books: Books, i: int, tx: u32) -> (
    Books,
    Result<(), AccountingError>,
) {
    let account = books.accounts[i];
    match transaction_position(books.transactions, tx) {
        None => (books, Ok(())),
        Some(j) => {
            let entry = books.transactions[j];
            if !entry.disputed {
                (books, Ok(()))
            } else if refusal(account, TransactionType::Resolve, entry.amount) is Some {
                (books, Err(refusal(account, TransactionType::Resolve, entry.amount).unwrap()))
            } else {
                (
                    Books {
                        accounts: books.accounts.update(i, account.resolved(entry.amount)),
                        transactions: books.transactions.update(
                            j,
                            TransactionView { disputed: false, ..entry },
                        ),
                    },
                    Ok(()),
                )
            }
        },
    }
}

/// A chargeback on the unlocked account in place `i`. Where `tx` is recorded
/// and marked, its amount leaves held and total and the account is locked;
/// otherwise nothing happens. The ledger stays as it is.
pub open spec fn chargeback_applied(books: Books, i: int, tx: u32) -> (
    Books,
    Result<(), AccountingError>,
) {
    let account = books.accounts[i];
    match transaction_position(books.transactions, tx) {
        None => (books, Ok(())),
        Some(j) => {
            let entry = books.transactions[j];
            if !entry.disputed {
                (books, Ok(()))
            } else if refusal(account, TransactionType::Chargeback, entry.amount) is Some {
                (books, Err(refusal(account, TransactionType::Chargeback, entry.amount).unwrap()))
            } else {
                (
                    Books {
                        accounts: books.accounts.update(i, account.charged_back(entry.amount)),
                        ..books
                    },
                    Ok(()),
                )
            }
        },
    }
}

/// The books after one operation, and what the operation reports.
///
/// The client's account is opened first where the store holds none. On a
/// locked account every operation is accepted and changes nothing. A refused
/// operation leaves the books as they were, but for that fresh account.
pub open spec fn applied(
    books: Books,
    kind: TransactionType,
    client: u16,
    tx: u32,
    amount: Option<int>,
) -> (Books, Result<(), AccountingError>) {
    let opened = Books { accounts: with_account(books.accounts, client), ..books };
    let i = account_position(opened.accounts, client).unwrap();
    if opened.accounts[i].locked {
        (opened, Ok(()))
    } else {
        match kind {
            TransactionType::Chargeback => chargeback_applied(opened, i, tx),
            TransactionType::Deposit => deposit_applied(opened, i, tx, amount),
            TransactionType::Dispute => dispute_applied(opened, i, tx),
            TransactionType::Resolve => resolve_applied(opened, i, tx),
            TransactionType::Withdrawal => withdrawal_applied(opened, i, tx, amount),
        }
    }
}

/// The books after one record of the input, and what the record reports. A
/// record whose kind is unknown changes nothing.
pub open spec fn processed(books: Books, op: OperationView) -> (Books, Result<(), AccountingError>) {
    match op.kind {
        Some(kind) => applied(books, kind, op.client, op.tx, op.amount),
        None => (books, Err(AccountingError::UnknownOperationType)),
    }
}

/// The books after a run over `ops`, in order, and what the run reports.
///
/// An operation that is refused does not stop the run: the operations after it
/// are carried out as if it had not been there. A record whose kind is unknown
/// ends the run at once, with the books as the records before it left them.
pub open spec fn replayed(books: Books, ops: Seq<OperationView>) -> (
    Books,
    Result<(), AccountingError>,
)
    decreases ops.len(),
{
    if ops.len() == 0 {
        (books, Ok(()))
    } else if ops[0].kind is None {
        (books, Err(AccountingError::UnknownOperationType))
    } else {
        replayed(processed(books, ops[0]).0, ops.drop_first())
    }
}

/// The books that the two containers hold.
pub open spec fn books_of(accounts: &AccountingStorage, ledger: &TransactionStorage) -> Books {
    Books { accounts: accounts@, transactions: ledger@ }
}

/// Carries out one operation of a known kind: opens the client's account
/// where there is none, then settles the operation on it and on the ledger, or
/// refuses it and leaves both as they were.
pub fn apply_operation(
    kind: TransactionType,
    client: u16,
    tx: u32,
    amount: Option<i64>,
    accounts: &mut AccountingStorage,
    ledger: &mut TransactionStorage,
) -> (done: AccountingResponse<()>)
    ensures
        ({
            let after = applied(
                books_of(old(accounts), old(ledger)),
                kind,
                client,
                tx,
                amount_view(amount),
            );
            &&& final(accounts)@ == after.0.accounts
            &&& final(ledger)@ == after.0.transactions
            &&& done == after.1
        }),
        books_of(old(accounts), old(ledger)).wf() ==> books_of(final(accounts), final(ledger)).wf(),
{
    let ghost after = applied(books_of(accounts, ledger), kind, client, tx, amount_view(amount));
    proof {
        if books_of(accounts, ledger).wf() {
            lemma_applied_wf(books_of(accounts, ledger), kind, client, tx, amount_view(amount));
        }
    }
    let ghost opened = with_account(accounts@, client);
    let locked = accounts.get_or_create(client).locked;
    assert(accounts@ =~= opened);
    if locked {
        return Ok(());
    }
    let done = match kind {
        TransactionType::Chargeback => {
            match ledger.get_transaction(tx) {
                Some(entry) => {
                    if entry.disputed {
                        accounts.chargeback(client, entry.amount)
                    } else {
                        Ok(())
                    }
                },
                None => Ok(()),
            }
        },
        TransactionType::Deposit => {
            match amount {
                Some(a) => {
                    if a < 0 {
                        Err(AccountingError::InvalidAmount)
                    } else if ledger.exists_transaction(tx) {
                        Err(AccountingError::DuplicateTransaction)
                    } else {
                        match accounts.deposit(client, a) {
                            Ok(()) => {
                                let entry = Transaction { tx, amount: a, disputed: false };
                                match ledger.add_transaction(entry) {
                                    Ok(()) => Ok(()),
                                    Err(_) => Err(AccountingError::DuplicateTransaction),
                                }
                            },
                            Err(error) => Err(error),
                        }
                    }
                },
                None => Err(AccountingError::InvalidAmount),
            }
        },
        TransactionType::Dispute => {
            match ledger.get_transaction(tx) {
                Some(entry) => {
                    match accounts.dispute(client, entry.amount) {
                        Ok(()) => {
                            entry.disputed = true;
                            Ok(())
                        },
                        Err(error) => Err(error),
                    }
                },
                None => Ok(()),
            }
        },
        TransactionType::Resolve => {
            match ledger.get_transaction(tx) {
                Some(entry) => {
                    if entry.disputed {
                        match accounts.resolve(client, entry.amount) {
                            Ok(()) => {
                                entry.disputed = false;
                                Ok(())
                            },
                            Err(error) => Err(error),
                        }
                    } else {
                        Ok(())
                    }
                },
                None => Ok(()),
            }
        },
        TransactionType::Withdrawal => {
            match amount {
                Some(a) => {
                    if ledger.exists_transaction(tx) {
                        Err(AccountingError::DuplicateTransaction)
                    } else if a == i64::MIN {
                        Err(AccountingError::OutOfRange)
                    } else {
                        match accounts.withdraw(client, a) {
                            Ok(()) => {
                                let entry = Transaction { tx, amount: -a, disputed: false };
                                match ledger.add_transaction(entry) {
                                    Ok(()) => Ok(()),
                                    Err(_) => Err(AccountingError::DuplicateTransaction),
                                }
                            },
                            Err(error) => Err(error),
                        }
                    }
                },
                None => Err(AccountingError::InvalidAmount),
            }
        },
    };
    proof {
        assert(accounts@ =~= after.0.accounts);
        assert(ledger@ =~= after.0.transactions);
    }
    done
}

/// Carries out one record of the input: reads its kind, whatever the case of
/// its letters, then carries out the operation. A record of unknown kind is
/// refused with `UnknownOperationType` and changes nothing.
pub fn process_operation(
    op: &Operation,
    accounts: &mut AccountingStorage,
    ledger: &mut TransactionStorage,
) -> (done: AccountingResponse<()>)
    ensures
        ({
            let after = processed(books_of(old(accounts), old(ledger)), op@);
            &&& final(accounts)@ == after.0.accounts
            &&& final(ledger)@ == after.0.transactions
            &&& done == after.1
        }),
        op@.kind is None <==> done == Err::<(), AccountingError>(
            AccountingError::UnknownOperationType,
        ),
        books_of(old(accounts), old(ledger)).wf() ==> books_of(final(accounts), final(ledger)).wf(),
{
    proof {
        if op@.kind is Some {
            lemma_applied_kind_known(
                books_of(accounts, ledger),
                op@.kind.unwrap(),
                op.client,
                op.tx,
                amount_view(op.amount),
            );
        }
    }
    match TransactionType::from_name(op.kind.as_str()) {
        Some(kind) => apply_operation(kind, op.client, op.tx, op.amount, accounts, ledger),
        None => Err(AccountingError::UnknownOperationType),
    }
}

/// The views of a run of records.
pub open spec fn operations_view(ops: Seq<Operation>) -> Seq<OperationView> {
    ops.map_values(|op: Operation| op@)
}

/// Carries out a run of records, in order. Refused operations are passed over
/// in silence; a record of unknown kind ends the run with
/// `UnknownOperationType`, the records before it carried out and those after
/// it not looked at.
pub fn process_operations(
    ops: &[Operation],
    accounts: &mut AccountingStorage,
    ledger: &mut TransactionStorage,
) -> (done: AccountingResponse<()>)
    ensures
        ({
            let after = replayed(books_of(old(accounts), old(ledger)), operations_view(ops@));
            &&& final(accounts)@ == after.0.accounts
            &&& final(ledger)@ == after.0.transactions
            &&& done == after.1
        }),
        done is Ok <==> forall|i: int| 0 <= i < ops@.len() ==> (#[trigger] ops@[i])@.kind is Some,
        done is Err ==> done == Err::<(), AccountingError>(AccountingError::UnknownOperationType),
        books_of(old(accounts), old(ledger)).wf() ==> books_of(final(accounts), final(ledger)).wf(),
{
    let ghost all = operations_view(ops@);
    proof {
        if books_of(accounts, ledger).wf() {
            lemma_replayed_wf(books_of(accounts, ledger), all);
        }
        lemma_replayed_result(books_of(accounts, ledger), all);
        assert(forall|i: int| 0 <= i < ops@.len() ==> all[i] == (#[trigger] ops@[i])@);
    }
    let ghost goal = replayed(books_of(accounts, ledger), all);
    assert(all.skip(0) =~= all);
    let mut i: usize = 0;
    while i < ops.len()
        invariant
            i <= ops.len(),
            all == operations_view(ops@),
            goal == replayed(books_of(old(accounts), old(ledger)), all),
            goal.1 is Ok <==> forall|k: int|
                0 <= k < ops@.len() ==> (#[trigger] ops@[k])@.kind is Some,
            goal.1 is Err ==> goal.1 == Err::<(), AccountingError>(
                AccountingError::UnknownOperationType,
            ),
            books_of(old(accounts), old(ledger)).wf() ==> goal.0.wf(),
            replayed(books_of(accounts, ledger), all.skip(i as int)) == goal,
        decreases ops.len() - i,
    {
        let ghost rest = all.skip(i as int);
        proof {
            assert(rest.drop_first() =~= all.skip(i as int + 1));
            assert(rest[0] == ops@[i as int]@);
        }
        match process_operation(&ops[i], accounts, ledger) {
            Err(AccountingError::UnknownOperationType) => {
                return Err(AccountingError::UnknownOperationType);
            },
            _ => {},
        }
        i = i + 1;
    }
    Ok(())
}

} // verus!
