use icn_core::blockchain::Transaction;
use icn_core::cross_shard::{CrossShardTransactionManager, LedgerAction, LedgerStep, TransactionStatus};
use icn_core::currency::CurrencyType;
use icn_core::sharding::ShardingManager;

/// The shards' side for the test: records the work asked for, and fails
/// commits when `fail_commit` is set.
struct MockLedger {
    fail_commit: bool,
    done: Vec<(LedgerStep, u64)>,
}

impl MockLedger {
    fn perform(&mut self, actions: &[LedgerAction]) -> Result<(), String> {
        for a in actions {
            self.done.push((a.step, a.shard_id));
            if a.step == LedgerStep::Commit && self.fail_commit {
                return Err("commit failed".to_string());
            }
        }
        Ok(())
    }
}

/// Works a transaction through, as the node does.
fn process(manager: &mut CrossShardTransactionManager, ledger: &mut MockLedger, id: &str) -> Result<(), String> {
    let actions = manager.process_cross_shard_transaction(id)?;
    let outcome = ledger.perform(&actions);
    manager.record_processing(id, outcome)
}

/// Finalizes a transaction, as the node does.
fn finalize(manager: &mut CrossShardTransactionManager, ledger: &mut MockLedger, id: &str) -> Result<(), String> {
    let actions = manager.finalize_cross_shard_transaction(id)?;
    let outcome = ledger.perform(&actions);
    manager.record_finalization(id, outcome)
}

/// Two shards: Alice lives in shard 0, Bob and Carol in shard 1.
fn manager() -> CrossShardTransactionManager {
    let mut shards = ShardingManager::new(2, 10);
    shards.add_address_to_shard("Alice".to_string(), 0);
    shards.add_address_to_shard("Bob".to_string(), 1);
    shards.add_address_to_shard("Carol".to_string(), 1);
    CrossShardTransactionManager::new(shards)
}

fn ledger(fail_commit: bool) -> MockLedger {
    MockLedger { fail_commit, done: Vec::new() }
}

fn transfer(from: &str, to: &str) -> Transaction {
    Transaction::new(from.to_string(), to.to_string(), 100.0f64.to_bits(), CurrencyType::BasicNeeds, 1000)
}

#[test]
fn test_cross_shard_transaction_flow() {
    let mut manager = manager();
    let mut ledger = ledger(false);

    let transaction = transfer("Alice", "Bob");

    let tx_id = manager.initiate_cross_shard_transaction(transaction).unwrap();
    assert_eq!(manager.get_transaction_status(&tx_id).unwrap(), TransactionStatus::Pending);

    process(&mut manager, &mut ledger, &tx_id).unwrap();
    assert_eq!(manager.get_transaction_status(&tx_id).unwrap(), TransactionStatus::Completed);

    finalize(&mut manager, &mut ledger, &tx_id).unwrap();
    assert_eq!(manager.get_transaction_status(&tx_id).unwrap(), TransactionStatus::Completed);

    assert_eq!(manager.pending_count(), 0);
    assert!(manager.is_processed(&tx_id));
    assert_eq!(
        ledger.done,
        vec![
            (LedgerStep::LockFunds, 0),
            (LedgerStep::PrepareBlock, 1),
            (LedgerStep::Commit, 0),
            (LedgerStep::Commit, 1)
        ]
    );
}

#[test]
fn same_shard_transactions_are_refused() {
    let mut manager = manager();
    let r = manager.initiate_cross_shard_transaction(transfer("Bob", "Carol"));
    assert_eq!(r, Err("Not a cross-shard transaction".to_string()));
    assert_eq!(manager.pending_count(), 0);
}

#[test]
fn steps_out_of_order_are_refused() {
    let mut manager = manager();
    assert_eq!(manager.get_transaction_status("nope"), Err("Transaction not found".to_string()));
    assert_eq!(
        manager.process_cross_shard_transaction("nope").err(),
        Some("Transaction not found".to_string())
    );
    let id = manager.initiate_cross_shard_transaction(transfer("Alice", "Bob")).unwrap();
    assert_eq!(id.len(), 36);
    assert_eq!(
        manager.finalize_cross_shard_transaction(&id).err(),
        Some("Transaction is not in a completed state".to_string())
    );
    assert_eq!(manager.record_processing(&id, Ok(())), Err("Transaction is not in progress".to_string()));
    let actions = manager.process_cross_shard_transaction(&id).unwrap();
    assert_eq!(actions.len(), 2);
    assert_eq!(actions[0].transaction_id, id);
    assert_eq!(manager.get_transaction_status(&id).unwrap(), TransactionStatus::InProgress);
    assert_eq!(
        manager.process_cross_shard_transaction(&id).err(),
        Some("Transaction is not in a pending state".to_string())
    );
    assert_eq!(manager.record_processing(&id, Err("lock failed".to_string())), Err("lock failed".to_string()));
    assert_eq!(manager.get_transaction_status(&id).unwrap(), TransactionStatus::InProgress);
    assert!(!manager.is_processed(&id));
}

#[test]
fn failed_commit_keeps_transaction_in_flight() {
    let mut manager = manager();
    let mut ledger = ledger(true);
    let id = manager.initiate_cross_shard_transaction(transfer("Alice", "Bob")).unwrap();
    process(&mut manager, &mut ledger, &id).unwrap();
    assert_eq!(finalize(&mut manager, &mut ledger, &id), Err("commit failed".to_string()));
    assert_eq!(manager.pending_count(), 1);
    assert_eq!(manager.get_transaction_status(&id).unwrap(), TransactionStatus::Completed);
}

#[test]
fn initiated_transactions_record_the_parties_shards() {
    let mut manager = manager();
    let id = manager.initiate_cross_shard_transaction(transfer("Bob", "Alice")).unwrap();
    assert_eq!(manager.get_transaction_status(&id).unwrap(), TransactionStatus::Pending);
    let record = manager.get_transaction(&id).unwrap();
    assert_eq!((record.from_shard, record.to_shard), (1, 0));
    assert_eq!(manager.pending_count(), 1);
}
