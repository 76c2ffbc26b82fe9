//! What holds of the books whatever operations are run on them.

use vstd::prelude::*;
use crate::accounting::{
    account_position, all_balanced, is_account_position, lemma_account_held,
    lemma_account_position_is, lemma_with_account_wf, with_account, AccountingError,
};
use crate::engine::{applied, processed, replayed, Books};
use crate::models::{AccountView, OperationView, TransactionType, TransactionView};
use crate::transactions::{
    is_transaction_position, lemma_recorded_wf, lemma_transaction_position_is, transaction_position,
};

verus! {

/// Once an account has been asked for, the client has a place in the store,
/// and the account in that place is the client's.
pub proof fn lemma_with_account_position(accounts: Seq<AccountView>, client: u16)
    ensures
        account_position(with_account(accounts, client), client) matches Some(i) && {
            &&& 0 <= i < with_account(accounts, client).len()
            &&& with_account(accounts, client)[i].client == client
            &&& account_position(accounts, client) is None ==> i == accounts.len()
        },
{
    if account_position(accounts, client) is None {
        let after = accounts.push(AccountView::opened(client));
        assert forall|j: int| 0 <= j < accounts.len() implies (#[trigger] after[j]).client
            != client by {
            if accounts[j].client == client {
                lemma_account_held(accounts, client, j);
            }
        }
        assert(is_account_position(after, client, accounts.len() as int));
        lemma_account_position_is(after, client, accounts.len() as int);
    }
}

/// An operation does the same whether or not the client's account was opened
/// beforehand.
pub proof fn lemma_applied_after_opening(
    books: Books,
    kind: TransactionType,
    client: u16,
    tx: u32,
    amount: Option<int>,
)
    ensures
        applied(
            Books { accounts: with_account(books.accounts, client), ..books },
            kind,
            client,
            tx,
            amount,
        ) == applied(books, kind, client, tx, amount),
{
    lemma_with_account_position(books.accounts, client);
}

/// An operation of a known kind never reports an unknown kind.
pub proof fn lemma_applied_kind_known(
    books: Books,
    kind: TransactionType,
    client: u16,
    tx: u32,
    amount: Option<int>,
)
    ensures
        applied(books, kind, client, tx, amount).1 != Err::<(), AccountingError>(
            AccountingError::UnknownOperationType,
        ),
{
}

/// Totals stay balanced under every operation: where every account's total
/// was what it had available plus what was held, it still is afterwards.
pub proof fn lemma_applied_keeps_balance(
    books: Books,
    kind: TransactionType,
    client: u16,
    tx: u32,
    amount: Option<int>,
)
    requires
        all_balanced(books.accounts),
    ensures
        all_balanced(applied(books, kind, client, tx, amount).0.accounts),
{
    lemma_with_account_position(books.accounts, client);
}

/// Totals stay balanced over a whole run, refused operations and an early end
/// included.
pub proof fn lemma_replayed_keeps_balance(books: Books, ops: Seq<OperationView>)
    requires
        all_balanced(books.accounts),
    ensures
        all_balanced(replayed(books, ops).0.accounts),
    decreases ops.len(),
{
    if ops.len() > 0 && ops[0].kind is Some {
        lemma_applied_keeps_balance(
            books,
            ops[0].kind.unwrap(),
            ops[0].client,
            ops[0].tx,
            ops[0].amount,
        );
        lemma_replayed_keeps_balance(processed(books, ops[0]).0, ops.drop_first());
    }
}

/// Well-formed books stay well formed under every operation: no client gets
/// a second account, no identifier a second entry, and totals stay balanced.
pub proof fn lemma_applied_wf(
    books: Books,
    kind: TransactionType,
    client: u16,
    tx: u32,
    amount: Option<int>,
)
    requires
        books.wf(),
    ensures
        applied(books, kind, client, tx, amount).0.wf(),
{
    lemma_with_account_wf(books.accounts, client);
    lemma_with_account_position(books.accounts, client);
    let entry_amount = match kind {
        TransactionType::Deposit => amount.unwrap_or(0),
        _ => -amount.unwrap_or(0),
    };
    lemma_recorded_wf(
        books.transactions,
        TransactionView { tx, amount: entry_amount, disputed: false },
    );
}

/// Well-formed books stay well formed under every record of the input.
pub proof fn lemma_processed_wf(books: Books, op: OperationView)
    requires
        books.wf(),
    ensures
        processed(books, op).0.wf(),
{
    if op.kind is Some {
        lemma_applied_wf(books, op.kind.unwrap(), op.client, op.tx, op.amount);
    }
}

/// Well-formed books stay well formed over a whole run.
pub proof fn lemma_replayed_wf(books: Books, ops: Seq<OperationView>)
    requires
        books.wf(),
    ensures
        replayed(books, ops).0.wf(),
    decreases ops.len(),
{
    if ops.len() > 0 && ops[0].kind is Some {
        lemma_processed_wf(books, ops[0]);
        lemma_replayed_wf(processed(books, ops[0]).0, ops.drop_first());
    }
}

/// Books that a run builds from nothing are well formed.
pub proof fn lemma_replayed_from_nothing_wf(ops: Seq<OperationView>)
    ensures
        replayed(Books { accounts: Seq::empty(), transactions: Seq::empty() }, ops).0.wf(),
{
    lemma_replayed_wf(Books { accounts: Seq::empty(), transactions: Seq::empty() }, ops);
}

/// A locked account is frozen: no operation, on whatever client, changes what
/// it has available, what is held, or its total, and it stays locked.
pub proof fn lemma_applied_keeps_locked(
    books: Books,
    kind: TransactionType,
    client: u16,
    tx: u32,
    amount: Option<int>,
    k: int,
)
    requires
        0 <= k < books.accounts.len(),
        books.accounts[k].locked,
    ensures
        k < applied(books, kind, client, tx, amount).0.accounts.len(),
        applied(books, kind, client, tx, amount).0.accounts[k] == books.accounts[k],
{
    lemma_with_account_position(books.accounts, client);
}

/// A locked account is frozen over a whole run.
pub proof fn lemma_replayed_keeps_locked(books: Books, ops: Seq<OperationView>, k: int)
    requires
        0 <= k < books.accounts.len(),
        books.accounts[k].locked,
    ensures
        k < replayed(books, ops).0.accounts.len(),
        replayed(books, ops).0.accounts[k] == books.accounts[k],
    decreases ops.len(),
{
    if ops.len() > 0 && ops[0].kind is Some {
        lemma_applied_keeps_locked(
            books,
            ops[0].kind.unwrap(),
            ops[0].client,
            ops[0].tx,
            ops[0].amount,
            k,
        );
        lemma_replayed_keeps_locked(processed(books, ops[0]).0, ops.drop_first(), k);
    }
}

/// What is held on `client`'s account; nothing, where the store has no account
/// of `client`.
pub open spec fn held_of(accounts: Seq<AccountView>, client: u16) -> int {
    match account_position(accounts, client) {
        Some(i) => accounts[i].held,
        None => 0,
    }
}

/// A dispute and the resolve or chargeback that closes it never leave a
/// negative amount held. The pair is a dispute by `client` of a recorded
/// transaction that has a non-negative amount and is not under dispute yet,
/// followed by `closing`, a resolve or a chargeback by the same client of the
/// same transaction, on an account that holds nothing negative to begin with.
pub proof fn lemma_dispute_pair_keeps_held(
    books: Books,
    client: u16,
    tx: u32,
    closing: TransactionType,
)
    requires
        closing == TransactionType::Resolve || closing == TransactionType::Chargeback,
        transaction_position(books.transactions, tx) matches Some(j) && {
            &&& books.transactions[j].amount >= 0
            &&& !books.transactions[j].disputed
        },
        held_of(books.accounts, client) >= 0,
    ensures
        ({
            let opened = applied(books, TransactionType::Dispute, client, tx, None).0;
            let closed = applied(opened, closing, client, tx, None).0;
            &&& held_of(opened.accounts, client) >= 0
            &&& held_of(closed.accounts, client) >= 0
        }),
{
    let start = Books { accounts: with_account(books.accounts, client), ..books };
    let opened = applied(books, TransactionType::Dispute, client, tx, None).0;
    lemma_with_account_position(books.accounts, client);
    lemma_applied_after_opening(books, TransactionType::Dispute, client, tx, None);
    lemma_applied_keeps_places(start, TransactionType::Dispute, client, tx, None);
    let i = account_position(start.accounts, client).unwrap();
    assert(start.accounts[i].held >= 0);
    assert(account_position(opened.accounts, client) == Some(i));
    assert(opened.accounts[i].held >= 0);
    assert(with_account(opened.accounts, client) == opened.accounts);
    let closed = applied(opened, closing, client, tx, None).0;
    lemma_applied_keeps_places(opened, closing, client, tx, None);
    assert(account_position(closed.accounts, client) == Some(i));
    let j = transaction_position(books.transactions, tx).unwrap();
    assert(transaction_position(opened.transactions, tx) == Some(j));
    assert(opened.transactions[j].amount == books.transactions[j].amount);
    assert(opened.transactions[j].disputed ==> opened.accounts[i].held
        == start.accounts[i].held + books.transactions[j].amount);
    assert(closed.accounts[i].held >= 0);
}

/// A dispute followed by its resolve leaves the books as they were, but for
/// the account that the dispute may have opened. The transaction is one that
/// is not under dispute, and the client's balances are in range.
pub proof fn lemma_dispute_then_resolve_restores(books: Books, client: u16, tx: u32)
    requires
        transaction_position(books.transactions, tx) matches Some(j)
            ==> !books.transactions[j].disputed,
        account_position(books.accounts, client) matches Some(i)
            ==> books.accounts[i].representable(),
    ensures
        ({
            let opened = applied(books, TransactionType::Dispute, client, tx, None).0;
            let closed = applied(opened, TransactionType::Resolve, client, tx, None).0;
            &&& closed.accounts == with_account(books.accounts, client)
            &&& closed.transactions == books.transactions
        }),
{
    let start = Books { accounts: with_account(books.accounts, client), ..books };
    let opened = applied(books, TransactionType::Dispute, client, tx, None).0;
    let closed = applied(opened, TransactionType::Resolve, client, tx, None).0;
    lemma_with_account_position(books.accounts, client);
    lemma_applied_after_opening(books, TransactionType::Dispute, client, tx, None);
    lemma_applied_keeps_places(start, TransactionType::Dispute, client, tx, None);
    let i = account_position(start.accounts, client).unwrap();
    assert(start.accounts[i].representable());
    assert(account_position(opened.accounts, client) == Some(i));
    assert(with_account(opened.accounts, client) == opened.accounts);
    assert(closed.accounts =~= with_account(books.accounts, client));
    assert(closed.transactions =~= books.transactions);
}

/// Nothing is ever removed or moved. An operation leaves every account in its
/// place and under its client, and every ledger entry in its place with its
/// identifier and amount; it adds at most one account and at most one entry, at
/// the end; and a client or an identifier that had a place keeps that place.
pub proof fn lemma_applied_keeps_places(
    books: Books,
    kind: TransactionType,
    client: u16,
    tx: u32,
    amount: Option<int>,
)
    ensures
        ({
            let after = applied(books, kind, client, tx, amount).0;
            &&& books.accounts.len() <= after.accounts.len() <= books.accounts.len() + 1
            &&& forall|k: int|
                0 <= k < books.accounts.len() ==> (#[trigger] after.accounts[k]).client
                    == books.accounts[k].client
            &&& books.transactions.len() <= after.transactions.len() <= books.transactions.len() + 1
            &&& forall|j: int|
                0 <= j < books.transactions.len() ==> {
                    &&& (#[trigger] after.transactions[j]).tx == books.transactions[j].tx
                    &&& after.transactions[j].amount == books.transactions[j].amount
                }
            &&& forall|c: u16|
                account_position(books.accounts, c) is Some ==> #[trigger] account_position(
                    after.accounts,
                    c,
                ) == account_position(books.accounts, c)
            &&& forall|t: u32|
                transaction_position(books.transactions, t) is Some
                    ==> #[trigger] transaction_position(after.transactions, t)
                    == transaction_position(books.transactions, t)
        }),
{
    let after = applied(books, kind, client, tx, amount).0;
    lemma_with_account_position(books.accounts, client);
    assert forall|c: u16| account_position(books.accounts, c) is Some implies #[trigger]
        account_position(after.accounts, c) == account_position(books.accounts, c) by {
        let i = account_position(books.accounts, c).unwrap();
        assert(is_account_position(books.accounts, c, i));
        assert(is_account_position(after.accounts, c, i));
        lemma_account_position_is(after.accounts, c, i);
    }
    assert forall|t: u32| transaction_position(books.transactions, t) is Some implies #[trigger]
        transaction_position(after.transactions, t) == transaction_position(
        books.transactions,
        t,
    ) by {
        let j = transaction_position(books.transactions, t).unwrap();
        assert(is_transaction_position(books.transactions, t, j));
        assert(is_transaction_position(after.transactions, t, j));
        lemma_transaction_position_is(after.transactions, t, j);
    }
}

/// After an operation the store holds an account for the operation's client,
/// whether the operation was carried out or refused.
pub proof fn lemma_applied_opens_account(
    books: Books,
    kind: TransactionType,
    client: u16,
    tx: u32,
    amount: Option<int>,
)
    ensures
        account_position(applied(books, kind, client, tx, amount).0.accounts, client) is Some,
{
    let start = Books { accounts: with_account(books.accounts, client), ..books };
    lemma_with_account_position(books.accounts, client);
    lemma_applied_after_opening(books, kind, client, tx, amount);
    lemma_applied_keeps_places(start, kind, client, tx, amount);
}

/// A run succeeds exactly when the kind of every record is known; when it
/// fails, it fails with `UnknownOperationType`. No refused operation makes a
/// run fail.
pub proof fn lemma_replayed_result(books: Books, ops: Seq<OperationView>)
    ensures
        replayed(books, ops).1 is Ok <==> forall|i: int|
            0 <= i < ops.len() ==> (#[trigger] ops[i]).kind is Some,
        replayed(books, ops).1 is Err ==> replayed(books, ops).1 == Err::<(), AccountingError>(
            AccountingError::UnknownOperationType,
        ),
    decreases ops.len(),
{
    if ops.len() > 0 && ops[0].kind is Some {
        let rest = ops.drop_first();
        lemma_replayed_result(processed(books, ops[0]).0, rest);
        if forall|i: int| 0 <= i < rest.len() ==> (#[trigger] rest[i]).kind is Some {
            assert forall|i: int| 0 <= i < ops.len() implies (#[trigger] ops[i]).kind is Some by {
                if i > 0 {
                    assert(rest[i - 1] == ops[i]);
                }
            }
        } else {
            let i = choose|i: int| 0 <= i < rest.len() && !((#[trigger] rest[i]).kind is Some);
            assert(ops[i + 1] == rest[i]);
        }
    }
}

} // verus!
