//! Transactions whose sender and recipient live in different shards, and
//! the steps each goes through: pending, in progress, completed, finalized.
use vstd::prelude::*;
use crate::blockchain::Transaction;
use crate::string_map::StringMap;
use crate::sharding::ShardingManager;

verus! {

/// Where a cross-shard transaction stands.
#[derive(Debug, Clone, Copy, PartialEq, Eq, Structural)]
pub enum TransactionStatus {
    Pending,
    InProgress,
    Completed,
    Failed,
}

/// A transaction between two shards.
pub struct CrossShardTransaction {
    pub id: String,
    pub transaction: Transaction,
    pub from_shard: u64,
    pub to_shard: u64,
    pub status: TransactionStatus,
}

/// A kind of work the shards' side does for a cross-shard transaction.
#[derive(Debug, Clone, Copy, PartialEq, Eq, Structural)]
pub enum LedgerStep {
    /// Hold back the sender's amount in the source shard.
    LockFunds,
    /// Prepare the block that takes the transaction in the destination shard.
    PrepareBlock,
    /// Make the transaction's changes final in a shard.
    Commit,
}

/// One piece of work for the shards' side: what to do, in which shard, for
/// the transaction in flight under `transaction_id` (whose sender, currency
/// and amount its record holds). The amounts are binary64 numbers, so the
/// caller does this work and reports how it went.
#[derive(Debug)]
pub struct LedgerAction {
    pub step: LedgerStep,
    pub shard_id: u64,
    pub transaction_id: String,
}

/// Whether `a` asks for `step` in `shard_id` for the transaction under `id`.
pub open spec fn is_action(a: LedgerAction, step: LedgerStep, shard_id: u64, id: Seq<char>) -> bool {
    &&& a.step == step
    &&& a.shard_id == shard_id
    &&& a.transaction_id@ == id
}

/// Calls `uuid::Uuid::new_v4` and writes it out: a random id, written as
/// 36 characters (32 hex digits in five hyphenated groups). It is random,
/// so nothing more is promised of it.
#[verifier::external_body]
pub(crate) fn new_transaction_id() -> (id: String)
    ensures
        id@.len() == 36,
{
    uuid::Uuid::new_v4().to_string()
}

/// `t` moved to status `s`.
pub open spec fn with_status(t: CrossShardTransaction, s: TransactionStatus) -> CrossShardTransaction {
    CrossShardTransaction { status: s, ..t }
}

/// The cross-shard transactions in flight, those done, and the shards they
/// move between.
pub struct CrossShardTransactionManager {
    sharding_manager: ShardingManager,
    pending_transactions: StringMap<CrossShardTransaction>,
    processed_transactions: StringMap<()>,
}

impl CrossShardTransactionManager {
    /// The transactions in flight, by id.
    pub closed spec fn pending(&self) -> Map<Seq<char>, CrossShardTransaction> {
        self.pending_transactions@
    }

    /// The ids of the transactions that went through.
    pub closed spec fn processed(&self) -> Set<Seq<char>> {
        self.processed_transactions@.dom()
    }

    /// The status a query for `id` reports, if the id is known.
    pub open spec fn status_of(&self, id: Seq<char>) -> Option<TransactionStatus> {
        if self.pending().contains_key(id) {
            Some(self.pending()[id].status)
        } else if self.processed().contains(id) {
            Some(TransactionStatus::Completed)
        } else {
            None
        }
    }

    /// The shards and where addresses live.
    pub closed spec fn sharding(&self) -> ShardingManager {
        self.sharding_manager
    }

    /// The tables are well formed.
    pub closed spec fn wf(&self) -> bool {
        &&& self.pending_transactions.wf()
        &&& self.processed_transactions.wf()
    }

    /// A manager with nothing in flight, over the shards of `sharding_manager`.
    pub fn new(sharding_manager: ShardingManager) -> (m: Self)
        ensures
            m.wf(),
            m.pending() == Map::<Seq<char>, CrossShardTransaction>::empty(),
            m.processed() == Set::<Seq<char>>::empty(),
            m.sharding() == sharding_manager,
    {
        let m = CrossShardTransactionManager {
            sharding_manager,
            pending_transactions: StringMap::new(),
            processed_transactions: StringMap::new(),
        };
        assert(m.processed() =~= Set::<Seq<char>>::empty());
        m
    }

    /// The shards, to be worked on; nothing else changes.
    pub fn get_sharding_manager_mut(&mut self) -> (m: &mut ShardingManager)
        ensures
            *m == old(self).sharding(),
            final(self).sharding() == *final(m),
            final(self).pending() == old(self).pending(),
            final(self).processed() == old(self).processed(),
            final(self).wf() == old(self).wf(),
    {
        &mut self.sharding_manager
    }

    /// The transaction in flight under `transaction_id`, if any.
    pub fn get_transaction(&self, transaction_id: &str) -> (r: Option<&CrossShardTransaction>)
        requires
            self.wf(),
        ensures
            r.is_none() <==> !self.pending().contains_key(transaction_id@),
            r matches Some(t) ==> *t == self.pending()[transaction_id@],
    {
        let key = transaction_id.to_owned();
        self.pending_transactions.get(&key)
    }

    /// The shards and where addresses live.
    pub fn get_sharding_manager(&self) -> (m: &ShardingManager)
        ensures
            *m == self.sharding(),
    {
        &self.sharding_manager
    }

    /// Starts a transaction between the shards of its sender and its
    /// recipient, under a fresh random id; refused when both live in the
    /// same shard.
    pub fn initiate_cross_shard_transaction(&mut self, transaction: Transaction) -> (r: Result<
        String,
        String,
    >)
        requires
            old(self).wf(),
            old(self).sharding().count() > 0,
        ensures
            final(self).wf(),
            final(self).processed() == old(self).processed(),
            final(self).sharding() == old(self).sharding(),
            ({
                let from_shard = old(self).sharding().shard_of_address(transaction.from@);
                let to_shard = old(self).sharding().shard_of_address(transaction.to@);
                &&& r is Err <==> from_shard == to_shard
                &&& r matches Err(e) ==> e@ == "Not a cross-shard transaction"@ && final(self).pending()
                    == old(self).pending()
                &&& r matches Ok(id) ==> id@.len() == 36 && final(self).pending() == old(self).pending().insert(
                    id@,
                    CrossShardTransaction {
                        id: id,
                        transaction: transaction,
                        from_shard: from_shard as u64,
                        to_shard: to_shard as u64,
                        status: TransactionStatus::Pending,
                    },
                )
            }),
    {
        proof {
            use_type_invariant(&self.sharding_manager);
        }
        let from_shard = self.sharding_manager.get_shard_for_address(transaction.from.as_str());
        let to_shard = self.sharding_manager.get_shard_for_address(transaction.to.as_str());
        if from_shard == to_shard {
            return Err("Not a cross-shard transaction".to_owned());
        }
        let transaction_id = new_transaction_id();
        let tx = CrossShardTransaction {
            id: transaction_id.clone(),
            transaction,
            from_shard,
            to_shard,
            status: TransactionStatus::Pending,
        };
        self.pending_transactions.insert(transaction_id.clone(), tx);
        Ok(transaction_id)
    }

    /// Checks a transaction before its funds are locked. Every transaction passes.
    fn verify_transaction(&self, transaction: &Transaction) -> (ok: bool)
        ensures
            ok,
    {
        true
    }

    /// Sets the status of the transaction in flight under `key`.
    fn set_status(&mut self, key: &String, status: TransactionStatus)
        requires
            old(self).wf(),
            old(self).pending().contains_key(key@),
        ensures
            final(self).wf(),
            final(self).pending() == old(self).pending().insert(
                key@,
                with_status(old(self).pending()[key@], status),
            ),
            final(self).processed() == old(self).processed(),
            final(self).sharding() == old(self).sharding(),
    {
        let mut tx = self.pending_transactions.remove(key).unwrap();
        tx.status = status;
        self.pending_transactions.insert(key.clone(), tx);
        assert(self.pending() =~= old(self).pending().insert(
            key@,
            with_status(old(self).pending()[key@], status),
        ));
    }

    /// Starts working a pending transaction through: it goes in progress,
    /// and the work asked of the shards' side is handed back, in order: lock
    /// the funds in the source shard, then prepare the block in the
    /// destination shard. Refused when the transaction is unknown or not
    /// pending. The outcome of the work is reported with `record_processing`.
    pub fn process_cross_shard_transaction(&mut self, transaction_id: &str) -> (r: Result<
        Vec<LedgerAction>,
        String,
    >)
        requires
            old(self).wf(),
        ensures
            final(self).wf(),
            final(self).processed() == old(self).processed(),
            final(self).sharding() == old(self).sharding(),
            !old(self).pending().contains_key(transaction_id@) ==> (r matches Err(e) && e@
                == "Transaction not found"@) && final(self).pending() == old(self).pending(),
            old(self).pending().contains_key(transaction_id@) && old(self).pending()[transaction_id@].status
                != TransactionStatus::Pending ==> (r matches Err(e) && e@
                == "Transaction is not in a pending state"@) && final(self).pending() == old(self).pending(),
            old(self).pending().contains_key(transaction_id@) && old(self).pending()[transaction_id@].status
                == TransactionStatus::Pending ==> {
                let t = old(self).pending()[transaction_id@];
                &&& r matches Ok(actions) && actions@.len() == 2 && is_action(
                    actions@[0],
                    LedgerStep::LockFunds,
                    t.from_shard,
                    transaction_id@,
                ) && is_action(actions@[1], LedgerStep::PrepareBlock, t.to_shard, transaction_id@)
                &&& final(self).pending() == old(self).pending().insert(
                    transaction_id@,
                    with_status(t, TransactionStatus::InProgress),
                )
            },
    {
        let key = transaction_id.to_owned();
        let (from_shard, to_shard) = match self.pending_transactions.get(&key) {
            None => {
                return Err("Transaction not found".to_owned());
            },
            Some(tx) => {
                if tx.status != TransactionStatus::Pending {
                    return Err("Transaction is not in a pending state".to_owned());
                }
                (tx.from_shard, tx.to_shard)
            },
        };
        self.set_status(&key, TransactionStatus::InProgress);
        let tx = self.pending_transactions.get(&key).unwrap();
        if !self.verify_transaction(&tx.transaction) {
            self.set_status(&key, TransactionStatus::Failed);
            return Err("Transaction verification failed".to_owned());
        }
        let mut actions: Vec<LedgerAction> = Vec::new();
        actions.push(LedgerAction { step: LedgerStep::LockFunds, shard_id: from_shard, transaction_id: key.clone() });
        actions.push(LedgerAction { step: LedgerStep::PrepareBlock, shard_id: to_shard, transaction_id: key });
        Ok(actions)
    }

    /// Takes in how the work of `process_cross_shard_transaction` went for
    /// the transaction in progress under `transaction_id`: on success it is
    /// completed and counted as processed; a failure is handed back with the
    /// transaction left in progress. Refused when the transaction is unknown
    /// or not in progress.
    pub fn record_processing(&mut self, transaction_id: &str, outcome: Result<(), String>) -> (r: Result<
        (),
        String,
    >)
        requires
            old(self).wf(),
        ensures
            final(self).wf(),
            final(self).sharding() == old(self).sharding(),
            !old(self).pending().contains_key(transaction_id@) ==> (r matches Err(e) && e@
                == "Transaction not found"@) && final(self).pending() == old(self).pending()
                && final(self).processed() == old(self).processed(),
            old(self).pending().contains_key(transaction_id@) && old(self).pending()[transaction_id@].status
                != TransactionStatus::InProgress ==> (r matches Err(e) && e@
                == "Transaction is not in progress"@) && final(self).pending() == old(self).pending()
                && final(self).processed() == old(self).processed(),
            old(self).pending().contains_key(transaction_id@) && old(self).pending()[transaction_id@].status
                == TransactionStatus::InProgress ==> {
                &&& outcome is Ok ==> r is Ok && final(self).pending() == old(self).pending().insert(
                    transaction_id@,
                    with_status(old(self).pending()[transaction_id@], TransactionStatus::Completed),
                ) && final(self).processed() == old(self).processed().insert(transaction_id@)
                &&& outcome is Err ==> r == outcome && final(self).pending() == old(self).pending()
                    && final(self).processed() == old(self).processed()
            },
    {
        let key = transaction_id.to_owned();
        match self.pending_transactions.get(&key) {
            None => {
                return Err("Transaction not found".to_owned());
            },
            Some(tx) => {
                if tx.status != TransactionStatus::InProgress {
                    return Err("Transaction is not in progress".to_owned());
                }
            },
        }
        match outcome {
            Err(e) => Err(e),
            Ok(()) => {
                self.set_status(&key, TransactionStatus::Completed);
                self.processed_transactions.insert(key, ());
                proof {
                    assert(self.pending() =~= old(self).pending().insert(
                        transaction_id@,
                        with_status(old(self).pending()[transaction_id@], TransactionStatus::Completed),
                    ));
                    assert(self.processed() =~= old(self).processed().insert(transaction_id@));
                }
                Ok(())
            },
        }
    }

    /// Starts finalizing a completed transaction: the work asked of the
    /// shards' side is handed back, in order: commit in the source shard,
    /// then in the destination shard. Nothing changes yet; the outcome is
    /// reported with `record_finalization`. Refused when the transaction is
    /// unknown or not completed.
    pub fn finalize_cross_shard_transaction(&self, transaction_id: &str) -> (r: Result<Vec<LedgerAction>, String>)
        requires
            self.wf(),
        ensures
            !self.pending().contains_key(transaction_id@) ==> (r matches Err(e) && e@ == "Transaction not found"@),
            self.pending().contains_key(transaction_id@) && self.pending()[transaction_id@].status
                != TransactionStatus::Completed ==> (r matches Err(e) && e@
                == "Transaction is not in a completed state"@),
            self.pending().contains_key(transaction_id@) && self.pending()[transaction_id@].status
                == TransactionStatus::Completed ==> {
                let t = self.pending()[transaction_id@];
                r matches Ok(actions) && actions@.len() == 2 && is_action(
                    actions@[0],
                    LedgerStep::Commit,
                    t.from_shard,
                    transaction_id@,
                ) && is_action(actions@[1], LedgerStep::Commit, t.to_shard, transaction_id@)
            },
    {
        let key = transaction_id.to_owned();
        let tx = match self.pending_transactions.get(&key) {
            None => {
                return Err("Transaction not found".to_owned());
            },
            Some(tx) => tx,
        };
        if tx.status != TransactionStatus::Completed {
            return Err("Transaction is not in a completed state".to_owned());
        }
        let mut actions: Vec<LedgerAction> = Vec::new();
        actions.push(LedgerAction { step: LedgerStep::Commit, shard_id: tx.from_shard, transaction_id: key.clone() });
        actions.push(LedgerAction { step: LedgerStep::Commit, shard_id: tx.to_shard, transaction_id: key });
        Ok(actions)
    }

    /// Takes in how the commits of `finalize_cross_shard_transaction` went:
    /// on success the completed transaction leaves the transactions in
    /// flight and stays counted as processed; a failure is handed back and
    /// the transaction stays in flight. Refused when the transaction is
    /// unknown or not completed.
    pub fn record_finalization(&mut self, transaction_id: &str, outcome: Result<(), String>) -> (r: Result<
        (),
        String,
    >)
        requires
            old(self).wf(),
        ensures
            final(self).wf(),
            final(self).sharding() == old(self).sharding(),
            !old(self).pending().contains_key(transaction_id@) ==> (r matches Err(e) && e@
                == "Transaction not found"@) && final(self).pending() == old(self).pending()
                && final(self).processed() == old(self).processed(),
            old(self).pending().contains_key(transaction_id@) && old(self).pending()[transaction_id@].status
                != TransactionStatus::Completed ==> (r matches Err(e) && e@
                == "Transaction is not in a completed state"@) && final(self).pending() == old(self).pending()
                && final(self).processed() == old(self).processed(),
            old(self).pending().contains_key(transaction_id@) && old(self).pending()[transaction_id@].status
                == TransactionStatus::Completed ==> {
                &&& outcome is Ok ==> r is Ok && final(self).pending() == old(self).pending().remove(transaction_id@)
                    && final(self).processed() == old(self).processed().insert(transaction_id@)
                &&& outcome is Err ==> r == outcome && final(self).pending() == old(self).pending()
                    && final(self).processed() == old(self).processed()
            },
    {
        let key = transaction_id.to_owned();
        match self.pending_transactions.get(&key) {
            None => {
                return Err("Transaction not found".to_owned());
            },
            Some(tx) => {
                if tx.status != TransactionStatus::Completed {
                    return Err("Transaction is not in a completed state".to_owned());
                }
            },
        }
        match outcome {
            Err(e) => Err(e),
            Ok(()) => {
                self.processed_transactions.insert(key.clone(), ());
                self.pending_transactions.remove(&key);
                proof {
                    assert(self.processed() =~= old(self).processed().insert(transaction_id@));
                }
                Ok(())
            },
        }
    }

    /// How many transactions are in flight.
    pub fn pending_count(&self) -> (n: usize)
        requires
            self.wf(),
        ensures
            n == self.pending().len(),
    {
        self.pending_transactions.len()
    }

    /// Whether the transaction `transaction_id` went through.
    pub fn is_processed(&self, transaction_id: &str) -> (b: bool)
        requires
            self.wf(),
        ensures
            b == self.processed().contains(transaction_id@),
    {
        let key = transaction_id.to_owned();
        self.processed_transactions.contains_key(&key)
    }

    /// The status of a transaction: that of a transaction in flight, else
    /// `Completed` for one that went through; refused for an unknown id.
    pub fn get_transaction_status(&self, transaction_id: &str) -> (r: Result<TransactionStatus, String>)
        requires
            self.wf(),
        ensures
            match self.status_of(transaction_id@) {
                Some(st) => r == Ok::<TransactionStatus, String>(st),
                None => r matches Err(e) && e@ == "Transaction not found"@,
            },
    {
        let key = transaction_id.to_owned();
        if let Some(tx) = self.pending_transactions.get(&key) {
            Ok(tx.status)
        } else if self.processed_transactions.contains_key(&key) {
            Ok(TransactionStatus::Completed)
        } else {
            Err("Transaction not found".to_owned())
        }
    }
}

impl CrossShardTransactionManager {
    /// A transaction that went through processing reports `Completed`, and
    /// keeps reporting it once finalized.
    pub proof fn lemma_completed_stays_completed(before: Self, processed: Self, finalized: Self, id: Seq<char>)
        requires
            before.pending().contains_key(id),
            processed.pending() == before.pending().insert(
                id,
                with_status(before.pending()[id], TransactionStatus::Completed),
            ),
            processed.processed() == before.processed().insert(id),
            finalized.pending() == processed.pending().remove(id),
            finalized.processed() == processed.processed().insert(id),
        ensures
            processed.status_of(id) == Some(TransactionStatus::Completed),
            finalized.status_of(id) == Some(TransactionStatus::Completed),
            !finalized.pending().contains_key(id),
    {
    }
}

} // verus!
