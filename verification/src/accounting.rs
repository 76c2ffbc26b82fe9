//! The account store: one account per client, in order of first appearance.

use vstd::prelude::*;
use crate::models::{Account, AccountView, TransactionType};

verus! {

/// Why an operation was not carried out.
#[derive(Clone, Copy, Debug, PartialEq, Eq)]
pub enum AccountingError {
    /// No account is held for the client.
    AccountNotFound,
    /// A withdrawal asks for more than is available.
    InsufficientFunds,
    /// A deposit or withdrawal carries no amount, or a deposit a negative one.
    InvalidAmount,
    /// A deposit or withdrawal reuses the identifier of a recorded transaction.
    DuplicateTransaction,
    /// The operation's kind is none of the five known ones.
    UnknownOperationType,
    /// A balance, or a recorded amount, would leave the range of a balance field.
    OutOfRange,
}

/// What the account store's operations report.
pub type AccountingResponse<T> = Result<T, AccountingError>;

/// `i` is the first place in `accounts` that holds an account of `client`.
pub open spec fn is_account_position(accounts: Seq<AccountView>, client: u16, i: int) -> bool {
    &&& 0 <= i < accounts.len()
    &&& accounts[i].client == client
    &&& forall|j: int| 0 <= j < i ==> (#[trigger] accounts[j]).client != client
}

/// The place of `client`'s account in `accounts`, if it has one.
pub open spec fn account_position(accounts: Seq<AccountView>, client: u16) -> Option<int> {
    if exists|i: int| is_account_position(accounts, client, i) {
        Some(choose|i: int| is_account_position(accounts, client, i))
    } else {
        None
    }
}

/// No client has two accounts.
pub open spec fn one_account_per_client(accounts: Seq<AccountView>) -> bool {
    forall|i: int, j: int|
        0 <= i < j < accounts.len() ==> (#[trigger] accounts[i]).client != (
        #[trigger] accounts[j]).client
}

/// Every account's total is what it has available plus what is held.
pub open spec fn all_balanced(accounts: Seq<AccountView>) -> bool {
    forall|i: int| 0 <= i < accounts.len() ==> (#[trigger] accounts[i]).balanced()
}

/// No client has two accounts, and every account is balanced.
pub open spec fn accounts_wf(accounts: Seq<AccountView>) -> bool {
    one_account_per_client(accounts) && all_balanced(accounts)
}

/// A first place is the only first place.
pub proof fn lemma_account_position_is(accounts: Seq<AccountView>, client: u16, i: int)
    requires
        is_account_position(accounts, client, i),
    ensures
        account_position(accounts, client) == Some(i),
{
    let k = choose|k: int| is_account_position(accounts, client, k);
    assert(is_account_position(accounts, client, k));
    if k < i {
        assert(accounts[k].client != client);
    }
    if i < k {
        assert(accounts[i].client != client);
    }
}

/// Where no account is of `client`, it has no place.
pub proof fn lemma_account_position_none(accounts: Seq<AccountView>, client: u16)
    requires
        forall|j: int| 0 <= j < accounts.len() ==> (#[trigger] accounts[j]).client != client,
    ensures
        account_position(accounts, client) is None,
{
}

/// `accounts` with an account for `client`: a fresh one at the end, where it
/// had none.
pub open spec fn with_account(accounts: Seq<AccountView>, client: u16) -> Seq<AccountView> {
    if account_position(accounts, client) is Some {
        accounts
    } else {
        accounts.push(AccountView::opened(client))
    }
}

/// What an operation of `kind` over `amount` makes of an account.
pub open spec fn settled(account: AccountView, kind: TransactionType, amount: int) -> AccountView {
    match kind {
        TransactionType::Chargeback => account.charged_back(amount),
        TransactionType::Deposit => account.deposited(amount),
        TransactionType::Dispute => account.disputed(amount),
        TransactionType::Resolve => account.resolved(amount),
        TransactionType::Withdrawal => account.withdrawn(amount),
    }
}

/// Why an operation of `kind` over `amount` is refused on an unlocked account,
/// if it is: a negative deposit, a withdrawal of more than is available, or a
/// balance that would leave its range.
pub open spec fn refusal(account: AccountView, kind: TransactionType, amount: int) -> Option<
    AccountingError,
> {
    if kind == TransactionType::Deposit && amount < 0 {
        Some(AccountingError::InvalidAmount)
    } else if kind == TransactionType::Withdrawal && account.available < amount {
        Some(AccountingError::InsufficientFunds)
    } else if !settled(account, kind, amount).representable() {
        Some(AccountingError::OutOfRange)
    } else {
        None
    }
}

/// The store after an operation of `kind` over `amount` on `client`'s account,
/// and what the operation reports. A locked account accepts the operation and
/// stays as it is; a refused operation changes nothing.
pub open spec fn settle(accounts: Seq<AccountView>, client: u16, kind: TransactionType, amount: int) -> (
    Seq<AccountView>,
    Result<(), AccountingError>,
) {
    match account_position(accounts, client) {
        None => (accounts, Err(AccountingError::AccountNotFound)),
        Some(i) => if accounts[i].locked {
            (accounts, Ok(()))
        } else {
            match refusal(accounts[i], kind, amount) {
                Some(error) => (accounts, Err(error)),
                None => (accounts.update(i, settled(accounts[i], kind, amount)), Ok(())),
            }
        },
    }
}

/// The accounts, one per client, in the order in which the clients first
/// appeared.
#[derive(Debug)]
pub struct AccountingStorage {
    pub accounts: Vec<Account>,
}

impl View for AccountingStorage {
    type V = Seq<AccountView>;

    open spec fn view(&self) -> Seq<AccountView> {
        self.accounts@.map_values(|a: Account| a@)
    }
}

impl AccountingStorage {
    /// No client has two accounts, and every account is balanced.
    pub open spec fn wf(&self) -> bool {
        accounts_wf(self@)
    }

    /// A store that holds no account.
    pub fn new() -> (storage: AccountingStorage)
        ensures
            storage@ == Seq::<AccountView>::empty(),
            storage.wf(),
    {
        AccountingStorage { accounts: Vec::new() }
    }

    /// Whether an account is held for `client`.
    pub fn exists_account(&self, client: u16) -> (found: bool)
        ensures
            found == account_position(self@, client).is_some(),
    {
        let mut i: usize = 0;
        while i < self.accounts.len()
            invariant
                i <= self.accounts.len(),
                forall|j: int| 0 <= j < i ==> (#[trigger] self@[j]).client != client,
            decreases self.accounts.len() - i,
        {
            if self.accounts[i].client == client {
                proof {
                    lemma_account_position_is(self@, client, i as int);
                }
                return true;
            }
            i = i + 1;
        }
        proof {
            lemma_account_position_none(self@, client);
        }
        false
    }

    /// Hands out `client`'s account, if one is held. The lookup writes nothing:
    /// the store afterwards is the store before, with that one account as the
    /// caller left it.
    pub fn get_account(&mut self, client: u16) -> (found: Option<&mut Account>)
        ensures
            match found {
                Some(account) => {
                    &&& account_position(old(self)@, client) matches Some(i)
                    &&& account@ == old(self)@[i]
                    &&& final(self)@ == old(self)@.update(i, final(account)@)
                    &&& final(account)@ == account@ ==> final(self)@ == old(self)@
                },
                None => account_position(old(self)@, client) is None && final(self)@ == old(self)@,
            },
    {
        let mut i: usize = 0;
        while i < self.accounts.len()
            invariant
                i <= self.accounts.len(),
                self.accounts@ == old(self).accounts@,
                forall|j: int| 0 <= j < i ==> (#[trigger] self@[j]).client != client,
            decreases self.accounts.len() - i,
        {
            if self.accounts[i].client == client {
                proof {
                    lemma_account_position_is(self@, client, i as int);
                }
                return Some(&mut self.accounts[i]);
            }
            i = i + 1;
        }
        proof {
            lemma_account_position_none(self@, client);
        }
        None
    }

    /// Opens an account for `client` unless one is held already.
    pub fn create_account(&mut self, client: u16) -> (done: AccountingResponse<()>)
        ensures
            done == Ok::<(), AccountingError>(()),
            final(self)@ == with_account(old(self)@, client),
            old(self).wf() ==> final(self).wf(),
    {
        if !self.exists_account(client) {
            self.accounts.push(Account::new(client));
            proof {
                assert(self@ =~= old(self)@.push(AccountView::opened(client)));
                if old(self).wf() {
                    lemma_with_account_wf(old(self)@, client);
                }
            }
        }
        Ok(())
    }

    /// Adds `amount` to what `client` has available, and to the total. A
    /// negative amount is refused, and so is one that would take a balance out
    /// of range; a locked account accepts the deposit and ignores it.
    pub fn deposit(&mut self, client: u16, amount: i64) -> (done: AccountingResponse<()>)
        ensures
            (final(self)@, done) == settle(old(self)@, client, TransactionType::Deposit, amount as int),
            old(self).wf() ==> final(self).wf(),
    {
        match self.get_account(client) {
            Some(account) => {
                if !account.locked {
                    if amount < 0 {
                        return Err(AccountingError::InvalidAmount);
                    }
                    match account.available.checked_add(amount) {
                        Some(available) => match account.total.checked_add(amount) {
                            Some(total) => {
                                account.available = available;
                                account.total = total;
                            },
                            None => {
                                return Err(AccountingError::OutOfRange);
                            },
                        },
                        None => {
                            return Err(AccountingError::OutOfRange);
                        },
                    }
                }
            },
            None => {
                return Err(AccountingError::AccountNotFound);
            },
        }
        proof {
            if old(self).wf() {
                lemma_settle_wf(old(self)@, client, TransactionType::Deposit, amount as int);
            }
        }
        Ok(())
    }

    /// Takes `amount` from what `client` has available, and from the total.
    /// Having exactly `amount` available is enough; having less is not. The
    /// amount's sign is not looked at: a negative one is always covered, and
    /// adds to the balance. A locked account accepts the withdrawal and ignores
    /// it.
    pub fn withdraw(&mut self, client: u16, amount: i64) -> (done: AccountingResponse<()>)
        ensures
            (final(self)@, done) == settle(
                old(self)@,
                client,
                TransactionType::Withdrawal,
                amount as int,
            ),
            old(self).wf() ==> final(self).wf(),
    {
        match self.get_account(client) {
            Some(account) => {
                if !account.locked {
                    if account.available < amount {
                        return Err(AccountingError::InsufficientFunds);
                    }
                    match account.available.checked_sub(amount) {
                        Some(available) => match account.total.checked_sub(amount) {
                            Some(total) => {
                                account.available = available;
                                account.total = total;
                            },
                            None => {
                                return Err(AccountingError::OutOfRange);
                            },
                        },
                        None => {
                            return Err(AccountingError::OutOfRange);
                        },
                    }
                }
            },
            None => {
                return Err(AccountingError::AccountNotFound);
            },
        }
        proof {
            if old(self).wf() {
                lemma_settle_wf(old(self)@, client, TransactionType::Withdrawal, amount as int);
            }
        }
        Ok(())
    }

    /// Freezes `amount` of `client`'s funds: it moves from available to held,
    /// also where that leaves less than nothing available. A locked account
    /// accepts the dispute and ignores it.
    pub fn dispute(&mut self, client: u16, amount: i64) -> (done: AccountingResponse<()>)
        ensures
            (final(self)@, done) == settle(old(self)@, client, TransactionType::Dispute, amount as int),
            old(self).wf() ==> final(self).wf(),
    {
        match self.get_account(client) {
            Some(account) => {
                if !account.locked {
                    match account.available.checked_sub(amount) {
                        Some(available) => match account.held.checked_add(amount) {
                            Some(held) => {
                                account.available = available;
                                account.held = held;
                            },
                            None => {
                                return Err(AccountingError::OutOfRange);
                            },
                        },
                        None => {
                            return Err(AccountingError::OutOfRange);
                        },
                    }
                }
            },
            None => {
                return Err(AccountingError::AccountNotFound);
            },
        }
        proof {
            if old(self).wf() {
                lemma_settle_wf(old(self)@, client, TransactionType::Dispute, amount as int);
            }
        }
        Ok(())
    }

    /// Releases `amount` of `client`'s frozen funds: it moves back from held to
    /// available. A locked account accepts the resolve and ignores it.
    pub fn resolve(&mut self, client: u16, amount: i64) -> (done: AccountingResponse<()>)
        ensures
            (final(self)@, done) == settle(old(self)@, client, TransactionType::Resolve, amount as int),
            old(self).wf() ==> final(self).wf(),
    {
        match self.get_account(client) {
            Some(account) => {
                if !account.locked {
                    match account.held.checked_sub(amount) {
                        Some(held) => match account.available.checked_add(amount) {
                            Some(available) => {
                                account.held = held;
                                account.available = available;
                            },
                            None => {
                                return Err(AccountingError::OutOfRange);
                            },
                        },
                        None => {
                            return Err(AccountingError::OutOfRange);
                        },
                    }
                }
            },
            None => {
                return Err(AccountingError::AccountNotFound);
            },
        }
        proof {
            if old(self).wf() {
                lemma_settle_wf(old(self)@, client, TransactionType::Resolve, amount as int);
            }
        }
        Ok(())
    }

    /// Takes `amount` of `client`'s frozen funds away for good, from held and
    /// from the total, and locks the account. A locked account accepts the
    /// chargeback and ignores it.
    pub fn chargeback(&mut self, client: u16, amount: i64) -> (done: AccountingResponse<()>)
        ensures
            (final(self)@, done) == settle(
                old(self)@,
                client,
                TransactionType::Chargeback,
                amount as int,
            ),
            old(self).wf() ==> final(self).wf(),
    {
        match self.get_account(client) {
            Some(account) => {
                if !account.locked {
                    match account.held.checked_sub(amount) {
                        Some(held) => match account.total.checked_sub(amount) {
                            Some(total) => {
                                account.held = held;
                                account.total = total;
                                account.locked = true;
                            },
                            None => {
                                return Err(AccountingError::OutOfRange);
                            },
                        },
                        None => {
                            return Err(AccountingError::OutOfRange);
                        },
                    }
                }
            },
            None => {
                return Err(AccountingError::AccountNotFound);
            },
        }
        proof {
            if old(self).wf() {
                lemma_settle_wf(old(self)@, client, TransactionType::Chargeback, amount as int);
            }
        }
        Ok(())
    }

    /// Hands out `client`'s account, opening a fresh one first where none is
    /// held.
    pub fn get_or_create(&mut self, client: u16) -> (account: &mut Account)
        ensures
            account_position(with_account(old(self)@, client), client) matches Some(i) && {
                &&& account@ == with_account(old(self)@, client)[i]
                &&& final(self)@ == with_account(old(self)@, client).update(i, final(account)@)
            },
    {
        let mut i: usize = 0;
        while i < self.accounts.len()
            invariant
                i <= self.accounts.len(),
                self.accounts@ == old(self).accounts@,
                forall|j: int| 0 <= j < i ==> (#[trigger] self@[j]).client != client,
            decreases self.accounts.len() - i,
        {
            if self.accounts[i].client == client {
                proof {
                    lemma_account_position_is(self@, client, i as int);
                }
                return &mut self.accounts[i];
            }
            i = i + 1;
        }
        proof {
            lemma_account_position_none(self@, client);
        }
        self.accounts.push(Account::new(client));
        let last: usize = self.accounts.len() - 1;
        proof {
            assert(self@ =~= old(self)@.push(AccountView::opened(client)));
            lemma_account_position_is(self@, client, last as int);
        }
        &mut self.accounts[last]
    }
}

/// Opening an account keeps the store well formed.
pub proof fn lemma_with_account_wf(accounts: Seq<AccountView>, client: u16)
    requires
        accounts_wf(accounts),
    ensures
        accounts_wf(with_account(accounts, client)),
{
    if account_position(accounts, client) is None {
        let after = accounts.push(AccountView::opened(client));
        assert forall|i: int, j: int| 0 <= i < j < after.len() implies (#[trigger] after[i]).client
            != (#[trigger] after[j]).client by {
            if j == accounts.len() {
                if accounts[i].client == client {
                    lemma_account_held(accounts, client, i);
                }
            }
        }
    }
}

/// An account of `client` anywhere in the store gives `client` a place.
pub proof fn lemma_account_held(accounts: Seq<AccountView>, client: u16, i: int)
    requires
        0 <= i < accounts.len(),
        accounts[i].client == client,
    ensures
        account_position(accounts, client) is Some,
    decreases i,
{
    if exists|j: int| 0 <= j < i && (#[trigger] accounts[j]).client == client {
        let j = choose|j: int| 0 <= j < i && (#[trigger] accounts[j]).client == client;
        lemma_account_held(accounts, client, j);
    } else {
        assert(is_account_position(accounts, client, i));
    }
}

/// An operation on one account keeps the store well formed.
pub proof fn lemma_settle_wf(accounts: Seq<AccountView>, client: u16, kind: TransactionType, amount: int)
    requires
        accounts_wf(accounts),
    ensures
        accounts_wf(settle(accounts, client, kind, amount).0),
{
}

} // verus!
