use quasar::checked_add_amount;
use quasar::config::{GrpcConfig, HttpConfig, MetricsConfig, QuasarServerConfig};
use quasar::ledger::Ledger;
use quasar::models::{
    CreateAccountInstruction, Instruction, Key, Transaction, TransactionStatus,
    TransferInstruction,
};
use quasar::processor::TransactionProcessor;
use quasar::snapshot::{load_state, save_state};

fn make_id() -> u128 {
    uuid::Uuid::new_v4().as_u128()
}

#[test]
fn test_snapshot_round_trip() {
    // Three accounts, fifty transfers with random ids and amounts that
    // keep every balance non-negative; after a save and a load, every
    // balance, every history in order, and every processed id is
    // identical.
    let mut ledger = Ledger::new();
    let mut accounts = Vec::new();
    for _ in 0..3 {
        accounts.push(ledger.create_account(vec![]).unwrap());
    }
    for &a in &accounts {
        ledger.deposit_into_account(a, 100_000).unwrap();
    }
    let mut state: u64 = 0x9e37_79b9_7f4a_7c15;
    for i in 0..50 {
        state = state.wrapping_mul(6364136223846793005).wrapping_add(1442695040888963407);
        let src = accounts[i % 3];
        let dst = accounts[(i + 1 + (state as usize % 2)) % 3];
        let amount = state % 100 + 1;
        ledger.transfer(make_id(), src, dst, amount).unwrap();
    }
    let processor = TransactionProcessor::new(ledger);

    let snapshot = save_state(&processor);
    let restored = load_state(&snapshot);

    for &a in &accounts {
        let before = processor.ledger().get_account(a).unwrap();
        let after = restored.ledger().get_account(a).unwrap();
        assert_eq!(before.balance, after.balance);
        assert_eq!(before.transaction_history, after.transaction_history);
        assert_eq!(before.keys.len(), after.keys.len());
    }
    assert_eq!(
        processor.ledger().account_count(),
        restored.ledger().account_count()
    );

    let mut before_ids = processor.ledger().export_processed();
    let mut after_ids = restored.ledger().export_processed();
    before_ids.sort();
    after_ids.sort();
    assert_eq!(before_ids.len(), 50);
    assert_eq!(before_ids, after_ids);
}

#[test]
fn test_snapshot_keeps_transaction_records() {
    let mut ledger = Ledger::new();
    let a = ledger.create_account(vec![]).unwrap();
    let b = ledger.create_account(vec![]).unwrap();
    ledger.deposit_into_account(a, 500).unwrap();
    let mut processor = TransactionProcessor::new(ledger);

    let tx = make_id();
    processor
        .process_transaction(Transaction {
            id: tx,
            instruction: Instruction::Transfer(TransferInstruction {
                source_account_id: a,
                destination_account_id: b,
                amount: 200,
            }),
            status: TransactionStatus::Pending,
            timestamp: 1700000000,
        })
        .unwrap();

    let restored = load_state(&save_state(&processor));
    let record = restored.get_transaction(tx).unwrap();
    assert!(matches!(record.status, TransactionStatus::Completed));
    assert_eq!(record.timestamp, 1700000000);
    match record.instruction {
        Instruction::Transfer(t) => {
            assert_eq!(t.source_account_id, a);
            assert_eq!(t.destination_account_id, b);
            assert_eq!(t.amount, 200);
        }
        other => panic!("unexpected instruction: {:?}", other),
    }
}

#[test]
fn test_empty_snapshot_round_trip() {
    let processor = TransactionProcessor::new(Ledger::new());
    let restored = load_state(&save_state(&processor));
    assert_eq!(restored.ledger().account_count(), 0);
    assert!(restored.ledger().export_processed().is_empty());
}

#[test]
fn test_create_account_instruction_new() {
    let instruction =
        CreateAccountInstruction::new(vec![Key::CPF("12345678900".to_string())]);
    assert_eq!(instruction.keys.len(), 1);
    assert!(matches!(&instruction.keys[0], Key::CPF(s) if s == "12345678900"));
}

#[test]
fn test_checked_add_amount() {
    assert_eq!(checked_add_amount(2, 3), Some(5));
    assert_eq!(checked_add_amount(u64::MAX, 0), Some(u64::MAX));
    assert_eq!(checked_add_amount(u64::MAX, 1), None);
}

#[test]
fn test_server_config_holds_fields() {
    let config = QuasarServerConfig {
        grpc: GrpcConfig {
            address: "127.0.0.1".to_string(),
            port: 50051,
        },
        http: HttpConfig {
            address: "127.0.0.1".to_string(),
            port: 8080,
        },
        metrics: MetricsConfig {
            remote_write_url: "http://localhost:9091/metrics".to_string(),
            push_interval_seconds: 15,
        },
        debug: false,
    };
    assert_eq!(config.grpc.port, 50051);
    assert_eq!(config.metrics.push_interval_seconds, 15);
    assert!(!config.debug);
}
