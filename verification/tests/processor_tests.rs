use quasar::ledger::{Ledger, LedgerError};
use quasar::models::{
    CreateAccountInstruction, DepositInstruction, GetBalanceInstruction, Instruction, Key,
    Transaction, TransactionStatus, TransferInstruction,
};
use quasar::processor::{TransactionProcessor, TransactionProcessorError, TransactionResult};

fn new_id() -> u128 {
    uuid::Uuid::new_v4().as_u128()
}

fn transfer_tx(id: u128, src: u128, dst: u128, amount: u64) -> Transaction {
    Transaction {
        id,
        instruction: Instruction::Transfer(TransferInstruction {
            source_account_id: src,
            destination_account_id: dst,
            amount,
        }),
        status: TransactionStatus::Pending,
        timestamp: 0,
    }
}

fn deposit_tx(id: u128, dst: u128, amount: u64) -> Transaction {
    Transaction {
        id,
        instruction: Instruction::Deposit(DepositInstruction {
            destination_account_id: dst,
            amount,
        }),
        status: TransactionStatus::Pending,
        timestamp: 0,
    }
}

fn balance_tx(id: u128, account: u128) -> Transaction {
    Transaction {
        id,
        instruction: Instruction::GetBalance(GetBalanceInstruction { account_id: account }),
        status: TransactionStatus::Pending,
        timestamp: 0,
    }
}

fn setup_for_transfer() -> (TransactionProcessor, u128, u128) {
    let mut ledger = Ledger::new();
    let source_id = ledger.create_account(vec![]).unwrap();
    let dest_id = ledger.create_account(vec![]).unwrap();
    ledger.deposit_into_account(source_id, 1000).unwrap();
    (TransactionProcessor::new(ledger), source_id, dest_id)
}

#[test]
fn test_process_create_account_transaction() {
    let ledger = Ledger::new();
    let mut processor = TransactionProcessor::new(ledger);

    let transaction = Transaction {
        id: new_id(),
        instruction: Instruction::CreateAccount(CreateAccountInstruction {
            keys: vec![Key::Email("test@test.com".to_string())],
        }),
        timestamp: 0,
        status: TransactionStatus::Pending,
    };

    let result = processor.process_transaction(transaction);
    assert!(result.is_ok());

    assert_eq!(processor.ledger().account_count(), 1);
}

#[test]
fn test_process_successful_transfer() {
    let (mut processor, source_id, dest_id) = setup_for_transfer();

    let transaction = transfer_tx(new_id(), source_id, dest_id, 100);

    let result = processor.process_transaction(transaction);
    assert!(result.is_ok());

    let source_account = processor.ledger().get_account(source_id).unwrap();
    let dest_account = processor.ledger().get_account(dest_id).unwrap();

    assert_eq!(source_account.balance, 900);
    assert_eq!(dest_account.balance, 100);
}

#[test]
fn test_process_transfer_insufficient_funds() {
    let (mut processor, source_id, dest_id) = setup_for_transfer();

    let transaction = transfer_tx(new_id(), source_id, dest_id, 2000);

    let result = processor.process_transaction(transaction);
    assert!(result.is_err());
    assert!(matches!(
        result.err().unwrap(),
        TransactionProcessorError::InsufficientFunds
    ));
}

#[test]
fn test_create_deposit_get_balance_idempotent() {
    // Create an account, deposit 500 under one id, read the balance, then
    // resubmit the same deposit: the repeat is rejected and the balance
    // stays at 500.
    let mut processor = TransactionProcessor::new(Ledger::new());
    let create = Transaction {
        id: new_id(),
        instruction: Instruction::CreateAccount(CreateAccountInstruction::new(vec![])),
        status: TransactionStatus::Pending,
        timestamp: 0,
    };
    let a = match processor.process_transaction(create) {
        Ok(TransactionResult::AccountCreated(id)) => id,
        other => panic!("unexpected result: {:?}", other),
    };

    let d1 = new_id();
    let result = processor.process_transaction(deposit_tx(d1, a, 500));
    assert!(matches!(result, Ok(TransactionResult::Success)));

    let balance = processor.process_transaction(balance_tx(new_id(), a));
    assert!(matches!(balance, Ok(TransactionResult::Balance(500))));

    let repeat = processor.process_transaction(deposit_tx(d1, a, 500));
    assert!(matches!(
        repeat,
        Err(TransactionProcessorError::TransactionAlreadyProcessed)
    ));

    let balance = processor.process_transaction(balance_tx(new_id(), a));
    assert!(matches!(balance, Ok(TransactionResult::Balance(500))));
}

#[test]
fn test_transfer_writes_both_histories() {
    // Two accounts, 1000 deposited into the source, 250 transferred:
    // 750 and 250 remain and both histories carry the transfer id.
    let (mut processor, a, b) = setup_for_transfer();
    let t1 = new_id();
    let result = processor.process_transaction(transfer_tx(t1, a, b, 250));
    assert!(matches!(result, Ok(TransactionResult::Success)));

    let account_a = processor.ledger().get_account(a).unwrap();
    let account_b = processor.ledger().get_account(b).unwrap();
    assert_eq!(account_a.balance, 750);
    assert_eq!(account_b.balance, 250);
    assert!(account_a.transaction_history.contains(&t1));
    assert!(account_b.transaction_history.contains(&t1));
}

#[test]
fn test_repeated_transfer_changes_state_once() {
    // The same transfer id submitted twice: one submission succeeds, the
    // other reports the id as already processed, and the source balance
    // drops by the amount exactly once.
    let (mut processor, a, b) = setup_for_transfer();
    let t3 = new_id();
    let first = processor.process_transaction(transfer_tx(t3, a, b, 100));
    let second = processor.process_transaction(transfer_tx(t3, a, b, 100));
    assert!(matches!(first, Ok(TransactionResult::Success)));
    assert!(matches!(
        second,
        Err(TransactionProcessorError::TransactionAlreadyProcessed)
    ));
    assert_eq!(processor.ledger().get_account(a).unwrap().balance, 900);
    assert_eq!(processor.ledger().get_account(b).unwrap().balance, 100);
}

#[test]
fn test_zero_amounts_are_rejected() {
    let (mut processor, a, b) = setup_for_transfer();
    let transfer = processor.process_transaction(transfer_tx(new_id(), a, b, 0));
    assert!(matches!(
        transfer,
        Err(TransactionProcessorError::InvalidAmount)
    ));
    let deposit = processor.process_transaction(deposit_tx(new_id(), a, 0));
    assert!(matches!(
        deposit,
        Err(TransactionProcessorError::InvalidAmount)
    ));
    assert_eq!(processor.ledger().get_account(a).unwrap().balance, 1000);
}

#[test]
fn test_deposit_overflow_is_invalid_amount() {
    let (mut processor, a, _) = setup_for_transfer();
    let result = processor.process_transaction(deposit_tx(new_id(), a, u64::MAX));
    assert!(matches!(
        result,
        Err(TransactionProcessorError::InvalidAmount)
    ));
    assert_eq!(processor.ledger().get_account(a).unwrap().balance, 1000);
}

#[test]
fn test_missing_accounts_surface_ledger_error() {
    let (mut processor, a, _) = setup_for_transfer();
    let ghost_account = new_id();

    let deposit = processor.process_transaction(deposit_tx(new_id(), ghost_account, 10));
    assert!(matches!(
        deposit,
        Err(TransactionProcessorError::LedgerError(
            LedgerError::AccountNotFound
        ))
    ));

    let transfer = processor.process_transaction(transfer_tx(new_id(), a, ghost_account, 10));
    assert!(matches!(
        transfer,
        Err(TransactionProcessorError::LedgerError(
            LedgerError::AccountNotFound
        ))
    ));

    let balance = processor.process_transaction(balance_tx(new_id(), ghost_account));
    assert!(matches!(
        balance,
        Err(TransactionProcessorError::LedgerError(
            LedgerError::AccountNotFound
        ))
    ));
}

#[test]
fn test_transfer_overflow_surfaces_ledger_error() {
    let (mut processor, a, b) = setup_for_transfer();
    let fill = processor.process_transaction(deposit_tx(new_id(), b, u64::MAX - 5));
    assert!(fill.is_ok());
    let result = processor.process_transaction(transfer_tx(new_id(), a, b, 10));
    assert!(matches!(
        result,
        Err(TransactionProcessorError::LedgerError(
            LedgerError::ArithmeticOverflow
        ))
    ));
    assert_eq!(processor.ledger().get_account(a).unwrap().balance, 1000);
}

#[test]
fn test_get_balance_is_not_gated() {
    // A balance query is never recorded as processed: the same id read
    // twice answers twice.
    let (mut processor, a, _) = setup_for_transfer();
    let q = new_id();
    assert!(matches!(
        processor.process_transaction(balance_tx(q, a)),
        Ok(TransactionResult::Balance(1000))
    ));
    assert!(matches!(
        processor.process_transaction(balance_tx(q, a)),
        Ok(TransactionResult::Balance(1000))
    ));
    assert!(!processor.ledger().is_transaction_processed(q).unwrap());
}

#[test]
fn test_self_transfer_commits_as_noop() {
    let (mut processor, a, _) = setup_for_transfer();
    let tx = new_id();
    let result = processor.process_transaction(transfer_tx(tx, a, a, 100));
    assert!(matches!(result, Ok(TransactionResult::Success)));
    assert_eq!(processor.ledger().get_account(a).unwrap().balance, 1000);
    let repeat = processor.process_transaction(transfer_tx(tx, a, a, 100));
    assert!(matches!(
        repeat,
        Err(TransactionProcessorError::TransactionAlreadyProcessed)
    ));
}

#[test]
fn test_transaction_record_carries_outcome() {
    let (mut processor, a, b) = setup_for_transfer();
    let good = new_id();
    let bad = new_id();
    processor
        .process_transaction(transfer_tx(good, a, b, 10))
        .unwrap();
    let _ = processor.process_transaction(transfer_tx(bad, a, b, 100_000));

    let good_record = processor.get_transaction(good).unwrap();
    let bad_record = processor.get_transaction(bad).unwrap();
    assert!(matches!(good_record.status, TransactionStatus::Completed));
    assert!(matches!(bad_record.status, TransactionStatus::Failed));
}

#[test]
fn test_random_transfers_preserve_total_balance() {
    // A stream of pseudo-random transfers among a few accounts: the total
    // balance never changes, and the number of balance-changing commits
    // equals the number of distinct ids that reported Success.
    let mut ledger = Ledger::new();
    let mut accounts = Vec::new();
    for _ in 0..3 {
        accounts.push(ledger.create_account(vec![]).unwrap());
    }
    for &a in &accounts {
        ledger.deposit_into_account(a, 10_000).unwrap();
    }
    let mut processor = TransactionProcessor::new(ledger);

    let mut state: u64 = 0x2545_f491_4f6c_dd1d;
    let mut successes = 0u32;
    let mut success_ids = Vec::new();
    for _ in 0..50 {
        state = state.wrapping_mul(6364136223846793005).wrapping_add(1442695040888963407);
        let src = accounts[(state >> 33) as usize % 3];
        let dst = accounts[(state >> 13) as usize % 3];
        let amount = state % 2000 + 1;
        let id = new_id();
        match processor.process_transaction(transfer_tx(id, src, dst, amount)) {
            Ok(TransactionResult::Success) => {
                successes += 1;
                success_ids.push(id);
            }
            Ok(other) => panic!("unexpected result: {:?}", other),
            Err(_) => {}
        }
    }

    let total: u64 = accounts
        .iter()
        .map(|&a| processor.ledger().get_account(a).unwrap().balance)
        .sum();
    assert_eq!(total, 30_000);

    success_ids.sort();
    success_ids.dedup();
    assert_eq!(success_ids.len() as u32, successes);
    for id in success_ids {
        assert!(processor.ledger().is_transaction_processed(id).unwrap());
    }
}
