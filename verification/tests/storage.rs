use ledger_balance::amount::Amount;
use ledger_balance::balance::{Balance, BalanceError};
use ledger_balance::ledger::{Action, Ledger};
use ledger_balance::storage::{InMemory, StorageError};

#[test]
fn test_get_balance() {
    let mut storage = InMemory::new();
    let balance = Balance::new("USD").unwrap();
    storage.insert("account_1", balance.clone()).unwrap();
    let balance = storage.get("account_1").unwrap();
    assert_eq!(balance.currency, "USD");
}

#[test]
fn test_new_in_memory() {
    let storage = InMemory::new();
    assert!(storage.get("account_1").is_none());
}

#[test]
fn test_insert_existing_account() {
    let mut storage = InMemory::new();
    let balance = Balance::new("USD").unwrap();
    assert!(storage.insert("account_1", balance.clone()).is_ok());
    assert!(matches!(
        storage.insert("account_1", balance),
        Err(StorageError::AccountAlreadyExists)
    ));
}

#[test]
fn test_update_balance_with_exist_account() {
    let mut storage = InMemory::new();
    let balance = Balance::new("USD").unwrap();
    storage.insert("account_1", balance.clone()).unwrap();

    let mut balance = storage.get("account_1").unwrap();
    let ledger = Ledger::new(Action::Deposit("100.0".to_string())).unwrap();
    balance.mutate(ledger).unwrap();

    storage.update("account_1", balance).unwrap();

    let balance = storage.get("account_1").unwrap();
    assert_eq!(balance.amount(), Amount::parse("100.0").unwrap());
}

#[test]
fn test_update_balance_with_not_exist_account() {
    let mut storage = InMemory::new();
    let balance = Balance::new("USD").unwrap();
    assert!(matches!(
        storage.update("account_1", balance),
        Err(StorageError::AccountNotExists)
    ));
}

#[test]
fn test_store_scenario_absent_then_present() {
    // An account is absent until inserted, and can only be inserted once.
    let mut storage = InMemory::new();
    assert!(storage.get("a").is_none());
    let balance = Balance::new("USD").unwrap();
    assert!(matches!(
        storage.update("a", balance.clone()),
        Err(StorageError::AccountNotExists)
    ));
    assert!(storage.insert("a", balance.clone()).is_ok());
    assert!(matches!(
        storage.insert("a", balance),
        Err(StorageError::AccountAlreadyExists)
    ));
    assert!(storage.get("a").is_some());
    assert!(storage.get("b").is_none());
}

#[test]
fn test_clones_share_one_store() {
    let storage = InMemory::new();
    let mut writer = storage.clone();
    writer.insert("shared", Balance::new("eur").unwrap()).unwrap();
    let seen = storage.get("shared").unwrap();
    assert_eq!(seen.currency, "EUR");
}

#[test]
fn test_mutate_balance_atomic() {
    // The store-level mutation holds the exclusive lock across the whole
    // read-check-write sequence, so a second withdrawal cannot be judged
    // against a stale balance: once funds are gone, it fails.
    let mut storage = InMemory::new();
    storage.insert("acct", Balance::new("USD").unwrap()).unwrap();

    let missing = Ledger::new(Action::Deposit("1".to_string())).unwrap();
    assert!(matches!(
        storage.mutate_balance("nobody", missing),
        Err(StorageError::AccountNotExists)
    ));

    let deposit = Ledger::new(Action::Deposit("100".to_string())).unwrap();
    let total = storage.mutate_balance("acct", deposit).unwrap().unwrap();
    assert_eq!(total, Amount::parse("100").unwrap());

    let w1 = Ledger::new(Action::Withdrawal("60".to_string())).unwrap();
    assert_eq!(
        storage.mutate_balance("acct", w1).unwrap().unwrap(),
        Amount::parse("40").unwrap()
    );

    let w2 = Ledger::new(Action::Withdrawal("60".to_string())).unwrap();
    assert!(matches!(
        storage.mutate_balance("acct", w2).unwrap(),
        Err(BalanceError::BalanceNotEnough)
    ));

    assert_eq!(storage.get("acct").unwrap().amount(), Amount::parse("40").unwrap());
}
