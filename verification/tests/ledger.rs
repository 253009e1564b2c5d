use ledger_balance::amount::Amount;
use ledger_balance::ledger::{Action, Ledger, LedgerError, Ledgers};

#[test]
fn test_ledger_new_withdrawal_positive_amount() {
    let action = Action::Withdrawal("100.0".to_string());
    let ledger = Ledger::new(action).unwrap();
    assert_eq!(ledger.amount(), Amount::parse("-100.0").unwrap());
}

#[test]
fn test_ledger_new_deposit_positive_amount() {
    let action = Action::Deposit("200.0".to_string());
    let ledger = Ledger::new(action).unwrap();
    assert_eq!(ledger.amount(), Amount::parse("200.0").unwrap());
}

#[test]
fn test_ledger_new_withdrawal_empty_amount() {
    let action = Action::Withdrawal("".to_string());
    let result = Ledger::new(action);
    assert!(matches!(result, Err(LedgerError::EmptyAmount)));
}

#[test]
fn test_ledger_new_deposit_empty_amount() {
    let action = Action::Deposit("".to_string());
    let result = Ledger::new(action);
    assert!(matches!(result, Err(LedgerError::EmptyAmount)));
}

#[test]
fn test_ledger_new_withdrawal_negative_amount() {
    let action = Action::Withdrawal("-50.0".to_string());
    let result = Ledger::new(action);
    assert!(matches!(result, Err(LedgerError::InvalidAmount(_))));
}

#[test]
fn test_ledger_new_deposit_negative_amount() {
    let action = Action::Deposit("-50.0".to_string());
    let result = Ledger::new(action);
    assert!(matches!(result, Err(LedgerError::InvalidAmount(_))));
}

#[test]
fn test_ledger_new_zero_amount() {
    let action = Action::Deposit("0.0".to_string());
    let result = Ledger::new(action);
    assert!(matches!(result, Err(LedgerError::InvalidAmount(_))));
}

#[test]
fn test_ledgers_new() {
    let ledgers = Ledgers::new();
    assert_eq!(ledgers.len(), 0);
}

#[test]
fn test_ledgers_add() {
    let mut ledgers = Ledgers::new();
    let action = Action::Deposit("100.0".to_string());
    let ledger = Ledger::new(action).unwrap();
    let _ = ledgers.add(ledger);
    assert_eq!(ledgers.len(), 1);
}

#[test]
fn test_ledgers_sum() {
    let mut ledgers = Ledgers::new();
    let action_deposit = Action::Deposit("100.0".to_string());
    let ledger_deposit = Ledger::new(action_deposit).unwrap();
    let _ = ledgers.add(ledger_deposit);

    let action_withdrawal = Action::Withdrawal("50.0".to_string());
    let ledger_withdrawal = Ledger::new(action_withdrawal).unwrap();
    let _ = ledgers.add(ledger_withdrawal);

    assert_eq!(ledgers.sum(), Amount::parse("50.0").unwrap());
}

#[test]
fn test_ledgers_add_duplicate() {
    let mut ledgers = Ledgers::new();
    let action1 = Action::Deposit("100.0".to_string());
    let action2 = Action::Deposit("100.0".to_string());
    let ledger1 = Ledger::new(action1).unwrap();
    let mut ledger2 = Ledger::new(action2).unwrap();
    ledger2.id = ledger1.id.clone();

    assert_eq!(ledgers.add(ledger1), Ok(()));
    assert_eq!(ledgers.add(ledger2), Err(LedgerError::DuplicateLedger));
}

#[test]
fn test_ledger_new_id_length() {
    let ledger = Ledger::new(Action::Deposit("1".to_string())).unwrap();
    assert_eq!(ledger.id.chars().count(), 16);
    assert!(ledger.id.chars().all(|c| c.is_ascii_alphanumeric()));
}

#[test]
fn test_ledger_new_with_id_keeps_id() {
    let ledger = Ledger::new_with_id(Action::Deposit("7".to_string()), "token-1".to_string()).unwrap();
    assert_eq!(ledger.id, "token-1");
}

#[test]
fn test_ledger_new_non_numeric_amount() {
    let result = Ledger::new(Action::Deposit("12a.5".to_string()));
    assert!(matches!(result, Err(LedgerError::ParseAmount)));
    let result = Ledger::new(Action::Withdrawal("one".to_string()));
    assert!(matches!(result, Err(LedgerError::ParseAmount)));
}

#[test]
fn test_ledger_invalid_amount_messages() {
    match Ledger::new(Action::Deposit("-1".to_string())) {
        Err(LedgerError::InvalidAmount(msg)) => assert_eq!(msg, "amount can't be negative"),
        other => panic!("unexpected outcome: {:?}", other),
    }
    match Ledger::new(Action::Withdrawal("0.00".to_string())) {
        Err(LedgerError::InvalidAmount(msg)) => assert_eq!(msg, "amount can't be zero"),
        other => panic!("unexpected outcome: {:?}", other),
    }
}

#[test]
fn test_action_name() {
    assert_eq!(Action::Deposit("1".to_string()).name(), "Deposit");
    assert_eq!(Action::Withdrawal("1".to_string()).name(), "Withdrawal");
}

#[test]
fn test_amount_parse_exact_decimal() {
    // Parsing is exact and normalized: trailing fractional zeros do not
    // change the value, and non-numeric text is rejected.
    assert_eq!(Amount::parse("12.50").unwrap(), Amount::parse("12.5").unwrap());
    assert_eq!(Amount::parse("0.1").unwrap().mantissa, 1);
    assert_eq!(Amount::parse("0.1").unwrap().scale, 1);
    assert!(Amount::parse("abc").is_none());
    assert!(Amount::parse("").is_none());
}
