use quasar::ledger::{Ledger, LedgerError};
use quasar::models::Key;

fn fresh_id() -> u128 {
    uuid::Uuid::new_v4().as_u128()
}

#[test]
fn test_create_account() {
    let mut ledger = Ledger::new();
    let keys = vec![Key::Email("test@test.com".to_string())];
    let account_id_result = ledger.create_account(keys);
    assert!(account_id_result.is_ok());
    let account_id = account_id_result.unwrap();

    let account = ledger.get_account(account_id);
    assert!(account.is_ok());
    assert_eq!(account.unwrap().keys.len(), 1);
}

#[test]
fn test_get_existing_account() {
    let mut ledger = Ledger::new();
    let account_id = ledger.create_account(vec![]).unwrap();
    let account_result = ledger.get_account(account_id);
    assert!(account_result.is_ok());
    assert_eq!(account_result.unwrap().uuid, account_id);
}

#[test]
fn test_commit_transfer_and_is_processed() {
    let mut ledger = Ledger::new();
    let source_id = ledger.create_account(vec![]).unwrap();
    let dest_id = ledger.create_account(vec![]).unwrap();

    ledger.deposit_into_account(source_id, 50).unwrap();
    ledger.deposit_into_account(dest_id, 150).unwrap();

    let transaction_id = fresh_id();

    // Before commit
    assert!(!ledger.is_transaction_processed(transaction_id).unwrap());

    // Commit
    let transfer_result = ledger.transfer(transaction_id, source_id, dest_id, 50);
    assert!(transfer_result.is_ok());

    // After commit
    assert!(ledger.is_transaction_processed(transaction_id).unwrap());

    let final_source_account = ledger.get_account(source_id).unwrap();
    let final_dest_account = ledger.get_account(dest_id).unwrap();

    assert_eq!(final_source_account.balance, 0);
    assert_eq!(final_dest_account.balance, 200);
    assert_eq!(final_source_account.transaction_history.len(), 1);
    assert_eq!(final_dest_account.transaction_history.len(), 1);
}

#[test]
fn test_mark_transaction_as_processed() {
    let mut ledger = Ledger::new();
    let tx_id = fresh_id();

    assert!(!ledger.is_transaction_processed(tx_id).unwrap());

    let result = ledger.mark_transaction_processed(tx_id);
    assert!(result.is_ok());

    assert!(ledger.is_transaction_processed(tx_id).unwrap());
}

#[test]
fn test_transfer_conservation() {
    let mut ledger = Ledger::new();
    let a = ledger.create_account(vec![]).unwrap();
    let b = ledger.create_account(vec![]).unwrap();
    ledger.deposit_into_account(a, 700).unwrap();
    ledger.deposit_into_account(b, 300).unwrap();

    ledger.transfer(fresh_id(), a, b, 250).unwrap();

    let balance_a = ledger.get_account(a).unwrap().balance;
    let balance_b = ledger.get_account(b).unwrap().balance;
    assert_eq!(balance_a, 450);
    assert_eq!(balance_b, 550);
    assert_eq!(balance_a + balance_b, 1000);
}

#[test]
fn test_transfer_insufficient_funds_leaves_state_unchanged() {
    let mut ledger = Ledger::new();
    let a = ledger.create_account(vec![]).unwrap();
    let b = ledger.create_account(vec![]).unwrap();
    ledger.deposit_into_account(a, 100).unwrap();

    let t2 = fresh_id();
    let result = ledger.transfer(t2, a, b, 500);
    assert!(matches!(result, Err(LedgerError::InsufficientFunds)));
    assert_eq!(ledger.get_account(a).unwrap().balance, 100);
    assert_eq!(ledger.get_account(b).unwrap().balance, 0);
    assert!(!ledger.is_transaction_processed(t2).unwrap());
    assert_eq!(ledger.get_account(a).unwrap().transaction_history.len(), 0);

    // After funding the source, the same transaction id goes through.
    ledger.deposit_into_account(a, 1000).unwrap();
    assert!(ledger.transfer(t2, a, b, 500).is_ok());
    assert_eq!(ledger.get_account(a).unwrap().balance, 600);
    assert_eq!(ledger.get_account(b).unwrap().balance, 500);
    assert!(ledger.is_transaction_processed(t2).unwrap());
}

#[test]
fn test_transfer_to_missing_account() {
    let mut ledger = Ledger::new();
    let a = ledger.create_account(vec![]).unwrap();
    ledger.deposit_into_account(a, 100).unwrap();

    let result = ledger.transfer(fresh_id(), a, fresh_id(), 10);
    assert!(matches!(result, Err(LedgerError::AccountNotFound)));
    assert_eq!(ledger.get_account(a).unwrap().balance, 100);
}

#[test]
fn test_transfer_repeat_is_rejected() {
    let mut ledger = Ledger::new();
    let a = ledger.create_account(vec![]).unwrap();
    let b = ledger.create_account(vec![]).unwrap();
    ledger.deposit_into_account(a, 300).unwrap();

    let tx = fresh_id();
    assert!(ledger.transfer(tx, a, b, 100).is_ok());
    let repeat = ledger.transfer(tx, a, b, 100);
    assert!(matches!(repeat, Err(LedgerError::TransactionAlreadyProcessed)));
    assert_eq!(ledger.get_account(a).unwrap().balance, 200);
    assert_eq!(ledger.get_account(b).unwrap().balance, 100);
}

#[test]
fn test_self_transfer_is_noop_commit() {
    let mut ledger = Ledger::new();
    let a = ledger.create_account(vec![]).unwrap();
    ledger.deposit_into_account(a, 400).unwrap();

    let tx = fresh_id();
    assert!(ledger.transfer(tx, a, a, 50).is_ok());
    assert_eq!(ledger.get_account(a).unwrap().balance, 400);
    assert!(ledger.is_transaction_processed(tx).unwrap());
    let repeat = ledger.transfer(tx, a, a, 50);
    assert!(matches!(repeat, Err(LedgerError::TransactionAlreadyProcessed)));
}

#[test]
fn test_transfer_overflow_on_destination() {
    let mut ledger = Ledger::new();
    let a = ledger.create_account(vec![]).unwrap();
    let b = ledger.create_account(vec![]).unwrap();
    ledger.deposit_into_account(a, 10).unwrap();
    ledger.deposit_into_account(b, u64::MAX - 5).unwrap();

    let result = ledger.transfer(fresh_id(), a, b, 10);
    assert!(matches!(result, Err(LedgerError::ArithmeticOverflow)));
    assert_eq!(ledger.get_account(a).unwrap().balance, 10);
    assert_eq!(ledger.get_account(b).unwrap().balance, u64::MAX - 5);
}

#[test]
fn test_deposit_overflow() {
    let mut ledger = Ledger::new();
    let a = ledger.create_account(vec![]).unwrap();
    ledger.deposit_into_account(a, u64::MAX).unwrap();
    let result = ledger.deposit_into_account(a, 1);
    assert!(matches!(result, Err(LedgerError::ArithmeticOverflow)));
    assert_eq!(ledger.get_account(a).unwrap().balance, u64::MAX);
}

#[test]
fn test_deposit_missing_account() {
    let mut ledger = Ledger::new();
    let result = ledger.deposit_into_account(fresh_id(), 5);
    assert!(matches!(result, Err(LedgerError::AccountNotFound)));
}

#[test]
fn test_cross_transfers_drain_to_initial_balances() {
    // Both directions of the same account pair, submitted back and forth;
    // when both sides drain, the balances equal the initial ones.
    let mut ledger = Ledger::new();
    let a = ledger.create_account(vec![]).unwrap();
    let b = ledger.create_account(vec![]).unwrap();
    ledger.deposit_into_account(a, 5000).unwrap();
    ledger.deposit_into_account(b, 5000).unwrap();

    for _ in 0..10_000 {
        ledger.transfer(fresh_id(), a, b, 1).unwrap();
        ledger.transfer(fresh_id(), b, a, 1).unwrap();
    }

    assert_eq!(ledger.get_account(a).unwrap().balance, 5000);
    assert_eq!(ledger.get_account(b).unwrap().balance, 5000);
}

#[test]
fn test_account_count() {
    let mut ledger = Ledger::new();
    assert_eq!(ledger.account_count(), 0);
    ledger.create_account(vec![]).unwrap();
    ledger.create_account(vec![Key::Phone("123".to_string())]).unwrap();
    assert_eq!(ledger.account_count(), 2);
}
