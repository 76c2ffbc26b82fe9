use payments_engine::{
    Account, AccountingError, AccountingStorage, Transaction, TransactionError,
    TransactionStorage, TransactionType,
};

fn held(client: u16, available: i64, held: i64, locked: bool) -> Account {
    Account { client, available, held, total: available + held, locked }
}

#[test]
fn new_stores_are_empty() {
    assert!(AccountingStorage::new().accounts.is_empty());
    assert!(TransactionStorage::new().transactions.is_empty());
}

#[test]
fn new_account_is_zero_and_unlocked() {
    assert_eq!(
        Account::new(9),
        Account { client: 9, available: 0, held: 0, total: 0, locked: false }
    );
}

#[test]
fn create_account_opens_one_account_per_client() {
    let mut store = AccountingStorage::new();
    assert_eq!(store.create_account(4), Ok(()));
    assert_eq!(store.create_account(2), Ok(()));
    assert_eq!(store.deposit(4, 15), Ok(()));
    assert_eq!(store.create_account(4), Ok(()));
    assert_eq!(store.accounts, vec![held(4, 15, 0, false), held(2, 0, 0, false)]);
}

#[test]
fn exists_account_tells_held_clients_apart() {
    let mut store = AccountingStorage::new();
    assert!(!store.exists_account(1));
    assert_eq!(store.create_account(1), Ok(()));
    assert!(store.exists_account(1));
    assert!(!store.exists_account(2));
}

#[test]
fn get_account_finds_without_changing() {
    let mut store = AccountingStorage::new();
    assert_eq!(store.create_account(1), Ok(()));
    assert_eq!(store.create_account(2), Ok(()));
    assert_eq!(store.deposit(2, 8), Ok(()));
    let before = store.accounts.clone();
    assert_eq!(store.get_account(2).copied(), Some(held(2, 8, 0, false)));
    assert_eq!(store.get_account(2).copied(), Some(held(2, 8, 0, false)));
    assert_eq!(store.get_account(3).copied(), None);
    assert_eq!(store.accounts, before);
}

#[test]
fn get_account_hands_out_the_stored_account() {
    let mut store = AccountingStorage::new();
    assert_eq!(store.create_account(1), Ok(()));
    assert_eq!(store.create_account(2), Ok(()));
    match store.get_account(2) {
        Some(account) => {
            account.available = 3;
            account.total = 3;
        }
        None => panic!("client 2 has an account"),
    }
    assert_eq!(store.accounts, vec![held(1, 0, 0, false), held(2, 3, 0, false)]);
}

#[test]
fn get_or_create_opens_only_missing_accounts() {
    let mut store = AccountingStorage::new();
    assert_eq!(*store.get_or_create(5), held(5, 0, 0, false));
    assert_eq!(store.deposit(5, 11), Ok(()));
    assert_eq!(*store.get_or_create(6), held(6, 0, 0, false));
    assert_eq!(*store.get_or_create(5), held(5, 11, 0, false));
    assert_eq!(store.accounts, vec![held(5, 11, 0, false), held(6, 0, 0, false)]);
}

#[test]
fn operations_on_a_missing_account_report_it() {
    let mut store = AccountingStorage::new();
    assert_eq!(store.create_account(1), Ok(()));
    assert_eq!(store.deposit(2, 1), Err(AccountingError::AccountNotFound));
    assert_eq!(store.withdraw(2, 1), Err(AccountingError::AccountNotFound));
    assert_eq!(store.dispute(2, 1), Err(AccountingError::AccountNotFound));
    assert_eq!(store.resolve(2, 1), Err(AccountingError::AccountNotFound));
    assert_eq!(store.chargeback(2, 1), Err(AccountingError::AccountNotFound));
    assert_eq!(store.accounts, vec![held(1, 0, 0, false)]);
}

#[test]
fn deposit_adds_to_available_and_total() {
    let mut store = AccountingStorage::new();
    store.accounts.push(held(1, 5, 2, false));
    assert_eq!(store.deposit(1, 10), Ok(()));
    assert_eq!(store.accounts, vec![Account { client: 1, available: 15, held: 2, total: 17, locked: false }]);
    assert_eq!(store.deposit(1, 0), Ok(()));
    assert_eq!(store.deposit(1, -1), Err(AccountingError::InvalidAmount));
    assert_eq!(store.accounts, vec![held(1, 15, 2, false)]);
}

#[test]
fn withdraw_takes_from_available_and_total() {
    let mut store = AccountingStorage::new();
    store.accounts.push(held(1, 5, 2, false));
    assert_eq!(store.withdraw(1, 6), Err(AccountingError::InsufficientFunds));
    assert_eq!(store.withdraw(1, 3), Ok(()));
    assert_eq!(store.accounts, vec![Account { client: 1, available: 2, held: 2, total: 4, locked: false }]);
    assert_eq!(store.withdraw(1, 2), Ok(()));
    assert_eq!(store.accounts, vec![held(1, 0, 2, false)]);
}

#[test]
fn withdraw_of_a_negative_amount_adds_it() {
    let mut store = AccountingStorage::new();
    store.accounts.push(held(1, 5, 0, false));
    assert_eq!(store.withdraw(1, -3), Ok(()));
    assert_eq!(store.accounts, vec![held(1, 8, 0, false)]);
}

#[test]
fn dispute_and_resolve_move_funds_between_available_and_held() {
    let mut store = AccountingStorage::new();
    store.accounts.push(held(1, 5, 0, false));
    assert_eq!(store.dispute(1, 7), Ok(()));
    assert_eq!(store.accounts, vec![Account { client: 1, available: -2, held: 7, total: 5, locked: false }]);
    assert_eq!(store.resolve(1, 4), Ok(()));
    assert_eq!(store.accounts, vec![Account { client: 1, available: 2, held: 3, total: 5, locked: false }]);
}

#[test]
fn chargeback_takes_from_held_and_total_and_locks() {
    let mut store = AccountingStorage::new();
    store.accounts.push(held(1, 5, 7, false));
    assert_eq!(store.chargeback(1, 7), Ok(()));
    assert_eq!(store.accounts, vec![Account { client: 1, available: 5, held: 0, total: 5, locked: true }]);
}

#[test]
fn locked_account_accepts_and_ignores() {
    let mut store = AccountingStorage::new();
    let frozen = held(1, 5, 7, true);
    store.accounts.push(frozen);
    assert_eq!(store.deposit(1, 1), Ok(()));
    assert_eq!(store.deposit(1, -1), Ok(()));
    assert_eq!(store.withdraw(1, 1), Ok(()));
    assert_eq!(store.withdraw(1, 100), Ok(()));
    assert_eq!(store.dispute(1, 1), Ok(()));
    assert_eq!(store.resolve(1, 1), Ok(()));
    assert_eq!(store.chargeback(1, 1), Ok(()));
    assert_eq!(store.accounts, vec![frozen]);
}

#[test]
fn balances_that_would_leave_the_range_are_refused() {
    let mut store = AccountingStorage::new();
    let full = Account { client: 1, available: i64::MAX, held: 0, total: i64::MAX, locked: false };
    store.accounts.push(full);
    assert_eq!(store.deposit(1, 1), Err(AccountingError::OutOfRange));
    assert_eq!(store.dispute(1, -1), Err(AccountingError::OutOfRange));
    assert_eq!(store.resolve(1, 1), Err(AccountingError::OutOfRange));
    assert_eq!(store.withdraw(1, -1), Err(AccountingError::OutOfRange));
    assert_eq!(store.chargeback(1, -1), Err(AccountingError::OutOfRange));
    assert_eq!(store.accounts, vec![full]);
    let low = Account { client: 2, available: 0, held: i64::MIN, total: i64::MIN, locked: false };
    store.accounts.push(low);
    assert_eq!(store.chargeback(2, 1), Err(AccountingError::OutOfRange));
    assert_eq!(store.resolve(2, 1), Err(AccountingError::OutOfRange));
    assert_eq!(store.deposit(2, i64::MAX), Ok(()));
    assert_eq!(
        store.accounts[1],
        Account { client: 2, available: i64::MAX, held: i64::MIN, total: -1, locked: false }
    );
}

#[test]
fn add_transaction_appends_new_identifiers_only() {
    let mut ledger = TransactionStorage::new();
    let first = Transaction { tx: 1, amount: 10, disputed: false };
    let second = Transaction { tx: 2, amount: -4, disputed: false };
    assert_eq!(ledger.add_transaction(first), Ok(()));
    assert_eq!(ledger.add_transaction(second), Ok(()));
    assert_eq!(
        ledger.add_transaction(Transaction { tx: 1, amount: 99, disputed: true }),
        Err(TransactionError::DuplicateTransaction)
    );
    assert_eq!(ledger.transactions, vec![first, second]);
}

#[test]
fn exists_transaction_tells_recorded_identifiers_apart() {
    let mut ledger = TransactionStorage::new();
    assert!(!ledger.exists_transaction(1));
    assert_eq!(ledger.add_transaction(Transaction { tx: 1, amount: 10, disputed: false }), Ok(()));
    assert!(ledger.exists_transaction(1));
    assert!(!ledger.exists_transaction(2));
}

#[test]
fn get_transaction_finds_without_changing() {
    let mut ledger = TransactionStorage::new();
    let first = Transaction { tx: 1, amount: 10, disputed: false };
    let second = Transaction { tx: 2, amount: -4, disputed: false };
    assert_eq!(ledger.add_transaction(first), Ok(()));
    assert_eq!(ledger.add_transaction(second), Ok(()));
    assert_eq!(ledger.get_transaction(2).copied(), Some(second));
    assert_eq!(ledger.get_transaction(2).copied(), Some(second));
    assert_eq!(ledger.get_transaction(3).copied(), None);
    assert_eq!(ledger.transactions, vec![first, second]);
}

#[test]
fn get_transaction_hands_out_the_stored_entry() {
    let mut ledger = TransactionStorage::new();
    assert_eq!(ledger.add_transaction(Transaction { tx: 1, amount: 10, disputed: false }), Ok(()));
    match ledger.get_transaction(1) {
        Some(entry) => entry.disputed = true,
        None => panic!("transaction 1 is recorded"),
    }
    assert_eq!(ledger.transactions, vec![Transaction { tx: 1, amount: 10, disputed: true }]);
}

#[test]
fn set_disputed_flips_only_the_marker() {
    let mut ledger = TransactionStorage::new();
    assert_eq!(ledger.add_transaction(Transaction { tx: 1, amount: 10, disputed: false }), Ok(()));
    assert_eq!(ledger.add_transaction(Transaction { tx: 2, amount: 20, disputed: false }), Ok(()));
    assert_eq!(ledger.set_disputed(2, true), Ok(()));
    assert_eq!(
        ledger.transactions,
        vec![
            Transaction { tx: 1, amount: 10, disputed: false },
            Transaction { tx: 2, amount: 20, disputed: true },
        ]
    );
    assert_eq!(ledger.set_disputed(2, false), Ok(()));
    assert_eq!(ledger.transactions[1], Transaction { tx: 2, amount: 20, disputed: false });
    assert_eq!(ledger.set_disputed(3, true), Err(TransactionError::TransactionNotFound));
    assert_eq!(ledger.transactions.len(), 2);
}

#[test]
fn kinds_are_read_from_lowercase_names() {
    assert_eq!(TransactionType::from_lowercase("chargeback"), Some(TransactionType::Chargeback));
    assert_eq!(TransactionType::from_lowercase("deposit"), Some(TransactionType::Deposit));
    assert_eq!(TransactionType::from_lowercase("dispute"), Some(TransactionType::Dispute));
    assert_eq!(TransactionType::from_lowercase("resolve"), Some(TransactionType::Resolve));
    assert_eq!(TransactionType::from_lowercase("withdrawal"), Some(TransactionType::Withdrawal));
    assert_eq!(TransactionType::from_lowercase("Deposit"), None);
    assert_eq!(TransactionType::from_lowercase("deposits"), None);
    assert_eq!(TransactionType::from_lowercase("deposi"), None);
    assert_eq!(TransactionType::from_lowercase("withdraw"), None);
    assert_eq!(TransactionType::from_lowercase(""), None);
}

#[test]
fn kinds_are_read_in_any_case() {
    assert_eq!(TransactionType::from_name("DEPOSIT"), Some(TransactionType::Deposit));
    assert_eq!(TransactionType::from_name("Chargeback"), Some(TransactionType::Chargeback));
    assert_eq!(TransactionType::from_name("wIThdrawAL"), Some(TransactionType::Withdrawal));
    assert_eq!(TransactionType::from_name("resolve"), Some(TransactionType::Resolve));
    assert_eq!(TransactionType::from_name("DISPUTE"), Some(TransactionType::Dispute));
    assert_eq!(TransactionType::from_name(" deposit"), None);
    assert_eq!(TransactionType::from_name("d\u{e9}posit"), None);
}

#[test]
fn kinds_parse_from_strings() {
    assert_eq!("Deposit".parse::<TransactionType>(), Ok(TransactionType::Deposit));
    assert_eq!("RESOLVE".parse::<TransactionType>(), Ok(TransactionType::Resolve));
    assert_eq!("payout".parse::<TransactionType>(), Err(()));
}
