use ledger_balance::amount::Amount;
use ledger_balance::balance::{Balance, BalanceError};
use ledger_balance::ledger::{Action, Ledger};

#[test]
fn test_balance_new_valid_currency() {
    let balance = Balance::new("USD");
    assert!(balance.is_ok());
    let balance = balance.unwrap();
    assert_eq!(balance.currency, "USD");
}

#[test]
fn test_balance_new_empty_currency() {
    let balance = Balance::new("");
    assert!(matches!(balance, Err(BalanceError::InvalidCurrency)));
}

#[test]
fn test_balance_mutate_with_sufficient_funds() {
    let mut balance = Balance::new("USD").unwrap();
    let ledger = Ledger::new(Action::Deposit("100.0".to_string())).unwrap();
    let result = balance.mutate(ledger);
    assert!(result.is_ok());
    assert_eq!(result.unwrap(), Amount::parse("100.0").unwrap());
}

#[test]
fn test_balance_mutate_with_insufficient_funds() {
    let mut balance = Balance::new("USD").unwrap();
    let ledger = Ledger::new(Action::Withdrawal("100.0".to_string())).unwrap();
    let result = balance.mutate(ledger);
    assert!(matches!(result, Err(BalanceError::BalanceNotEnough)));
}

#[test]
fn test_balance_amount_with_no_ledgers() {
    let balance = Balance::new("USD").unwrap();
    assert_eq!(balance.amount(), Amount::zero());
}

#[test]
fn test_balance_amount_with_ledgers() {
    let mut balance = Balance::new("USD").unwrap();
    let ledger_deposit = Ledger::new(Action::Deposit("100.0".to_string())).unwrap();
    balance.mutate(ledger_deposit).unwrap();
    let ledger_withdrawal = Ledger::new(Action::Withdrawal("50.0".to_string())).unwrap();
    balance.mutate(ledger_withdrawal).unwrap();
    assert_eq!(balance.amount(), Amount::parse("50.0").unwrap());
}

#[test]
fn test_balance_mutate_duplicate_entry() {
    let mut balance = Balance::new("USD").unwrap();
    let first = Ledger::new_with_id(Action::Deposit("10".to_string()), "same-id".to_string()).unwrap();
    let second = Ledger::new_with_id(Action::Deposit("20".to_string()), "same-id".to_string()).unwrap();
    assert!(balance.mutate(first).is_ok());
    let before = balance.amount();
    assert!(matches!(balance.mutate(second), Err(BalanceError::DuplicateLedger)));
    assert_eq!(balance.amount(), before);
    assert_eq!(balance.ledgers.len(), 1);
}

#[test]
fn test_balance_rejection_leaves_amount_unchanged() {
    let mut balance = Balance::new("USD").unwrap();
    let deposit = Ledger::new(Action::Deposit("30".to_string())).unwrap();
    balance.mutate(deposit).unwrap();
    let before = balance.amount();
    let too_big = Ledger::new(Action::Withdrawal("30.01".to_string())).unwrap();
    assert!(matches!(balance.mutate(too_big), Err(BalanceError::BalanceNotEnough)));
    assert_eq!(balance.amount(), before);
    assert_eq!(balance.ledgers.len(), 1);
}

#[test]
fn test_balance_mutate_overflowing_total() {
    // Both entries parse exactly on their own, but their exact sum needs
    // more precision than the representation holds.
    let mut balance = Balance::new("USD").unwrap();
    let huge = Ledger::new(Action::Deposit("79228162514264337593543950335".to_string())).unwrap();
    balance.mutate(huge).unwrap();
    let tiny = Ledger::new(Action::Deposit("0.0000000000000000000000000001".to_string())).unwrap();
    let before = balance.amount();
    assert!(matches!(balance.mutate(tiny), Err(BalanceError::AmountOverflow)));
    assert_eq!(balance.amount(), before);
}

#[test]
fn test_balance_display_integer_and_fraction() {
    let mut balance = Balance::new("usd").unwrap();
    let deposit = Ledger::new(Action::Deposit("100.00".to_string())).unwrap();
    balance.mutate(deposit).unwrap();
    assert_eq!(balance.display(), "USD 100");
    let withdrawal = Ledger::new(Action::Withdrawal("49.50".to_string())).unwrap();
    balance.mutate(withdrawal).unwrap();
    assert_eq!(balance.display(), "USD 50.5");
}

#[test]
fn test_balance_scenario_usd() {
    // Create in lower case, deposit, withdraw, then overdraw.
    let mut balance = Balance::new("usd").unwrap();
    assert_eq!(balance.currency, "USD");
    let deposit = Ledger::new(Action::Deposit("100.00".to_string())).unwrap();
    balance.mutate(deposit).unwrap();
    assert_eq!(balance.amount(), Amount::parse("100.00").unwrap());
    assert_eq!(balance.display(), "USD 100");
    let withdrawal = Ledger::new(Action::Withdrawal("50.00".to_string())).unwrap();
    balance.mutate(withdrawal).unwrap();
    assert_eq!(balance.amount(), Amount::parse("50.00").unwrap());
    let too_much = Ledger::new(Action::Withdrawal("200.00".to_string())).unwrap();
    assert!(matches!(balance.mutate(too_much), Err(BalanceError::BalanceNotEnough)));
    assert_eq!(balance.amount(), Amount::parse("50.00").unwrap());
}

#[test]
fn test_balance_round_trip_many_times() {
    // Depositing and withdrawing the same amount returns the balance to its
    // prior value exactly, with no drift over a thousand repetitions.
    let mut balance = Balance::new("USD").unwrap();
    let seed = Ledger::new(Action::Deposit("3.33".to_string())).unwrap();
    balance.mutate(seed).unwrap();
    let before = balance.amount();
    for i in 0..1000u32 {
        let dep = Ledger::new_with_id(
            Action::Deposit("0.10".to_string()),
            format!("dep-{}", i),
        )
        .unwrap();
        balance.mutate(dep).unwrap();
        let wd = Ledger::new_with_id(
            Action::Withdrawal("0.10".to_string()),
            format!("wd-{}", i),
        )
        .unwrap();
        balance.mutate(wd).unwrap();
        assert_eq!(balance.amount(), before);
    }
    assert_eq!(balance.amount(), Amount::parse("3.33").unwrap());
}
