use icn_core::blockchain::Transaction;
use icn_core::communication::{CommunicatorLog, CrossShardTransactionStatus};
use icn_core::currency::CurrencyType;
use icn_core::error::Error;

fn transfer(amount: f64) -> Transaction {
    Transaction::new("Alice".to_string(), "Bob".to_string(), amount.to_bits(), CurrencyType::BasicNeeds, 1000)
}

#[test]
fn same_shard_transfers_are_refused() {
    let mut log = CommunicatorLog::new();
    match log.record(transfer(1.0), 1, 1) {
        Err(Error::ShardingError(m)) => assert_eq!(m, "Not a cross-shard transaction"),
        _ => panic!("expected a refusal"),
    }
    assert_eq!(log.get_transaction_status("anything"), None);
}

#[test]
fn recorded_transfers_start_initiated_under_a_fresh_id() {
    let mut log = CommunicatorLog::new();
    let first = log.record(transfer(1.0), 0, 1).unwrap();
    let second = log.record(transfer(2.0), 1, 0).unwrap();
    assert_eq!(first.len(), 36);
    assert_ne!(first, second);
    assert_eq!(log.get_transaction_status(&first), Some(CrossShardTransactionStatus::Initiated));
    let kept = log.get_transaction(&second).unwrap();
    assert_eq!((kept.from_shard, kept.to_shard), (1, 0));
    assert_eq!(f64::from_bits(kept.transaction.amount), 2.0);
}

#[test]
fn outcomes_settle_a_transfer_once() {
    let mut log = CommunicatorLog::new();
    log.record_with_id("t1".to_string(), transfer(1.0), 0, 1).unwrap();
    log.record_with_id("t2".to_string(), transfer(5.0), 0, 1).unwrap();
    log.finish("t1", Ok(()));
    log.finish("t2", Err("Insufficient balance".to_string()));
    assert_eq!(log.get_transaction_status("t1"), Some(CrossShardTransactionStatus::Committed));
    assert_eq!(
        log.get_transaction_status("t2"),
        Some(CrossShardTransactionStatus::Failed("Insufficient balance".to_string()))
    );
    log.finish("t1", Err("late".to_string()));
    log.finish("t2", Ok(()));
    assert_eq!(log.get_transaction_status("t1"), Some(CrossShardTransactionStatus::Committed));
    assert_eq!(
        log.get_transaction_status("t2"),
        Some(CrossShardTransactionStatus::Failed("Insufficient balance".to_string()))
    );
    log.finish("unknown", Ok(()));
    assert_eq!(log.get_transaction_status("unknown"), None);
}
