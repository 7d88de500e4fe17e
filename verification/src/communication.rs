//! The bookkeeping of the cross-shard communicator: the transactions it
//! handed to the worker of their source shard, under their ids, and the
//! status each reached. The channels and workers themselves run outside the
//! library; they report each outcome back through `finish`.
use vstd::prelude::*;
use crate::blockchain::Transaction;
use crate::cross_shard::new_transaction_id;
use crate::error::Error;
use crate::string_map::StringMap;

verus! {

/// Where a transaction handed between shards stands.
#[derive(Debug, Clone, PartialEq)]
pub enum CrossShardTransactionStatus {
    Initiated,
    LockAcquired,
    Committed,
    Failed(String),
}

/// A transaction on its way between two shards.
#[derive(Debug, Clone)]
pub struct CrossShardTransaction {
    pub transaction: Transaction,
    pub from_shard: u64,
    pub to_shard: u64,
    pub status: CrossShardTransactionStatus,
}

/// Whether a transaction with status `s` still waits for its worker.
pub open spec fn is_open(s: CrossShardTransactionStatus) -> bool {
    s is Initiated || s is LockAcquired
}

/// The status a worker's outcome gives a transaction.
pub open spec fn status_after(outcome: Result<(), String>) -> CrossShardTransactionStatus {
    match outcome {
        Ok(()) => CrossShardTransactionStatus::Committed,
        Err(reason) => CrossShardTransactionStatus::Failed(reason),
    }
}

/// The record after the worker reported `outcome` for `id`: a transaction
/// that still waits takes the status of the outcome; anything else is kept.
pub open spec fn after_finish(
    log: Map<Seq<char>, CrossShardTransaction>,
    id: Seq<char>,
    outcome: Result<(), String>,
) -> Map<Seq<char>, CrossShardTransaction> {
    if log.contains_key(id) && is_open(log[id].status) {
        log.insert(id, CrossShardTransaction { status: status_after(outcome), ..log[id] })
    } else {
        log
    }
}

/// A copy of `s`.
fn copy_status(s: &CrossShardTransactionStatus) -> (c: CrossShardTransactionStatus)
    ensures
        c == *s,
{
    match s {
        CrossShardTransactionStatus::Initiated => CrossShardTransactionStatus::Initiated,
        CrossShardTransactionStatus::LockAcquired => CrossShardTransactionStatus::LockAcquired,
        CrossShardTransactionStatus::Committed => CrossShardTransactionStatus::Committed,
        CrossShardTransactionStatus::Failed(m) => CrossShardTransactionStatus::Failed(m.clone()),
    }
}

/// The transactions the communicator handed on, by id.
pub struct CommunicatorLog {
    pending_transactions: StringMap<CrossShardTransaction>,
}

impl View for CommunicatorLog {
    type V = Map<Seq<char>, CrossShardTransaction>;

    closed spec fn view(&self) -> Map<Seq<char>, CrossShardTransaction> {
        self.pending_transactions@
    }
}

impl CommunicatorLog {
    /// The table is well formed.
    pub closed spec fn wf(&self) -> bool {
        self.pending_transactions.wf()
    }

    /// A log with nothing in it.
    pub fn new() -> (l: Self)
        ensures
            l.wf(),
            l@ == Map::<Seq<char>, CrossShardTransaction>::empty(),
    {
        CommunicatorLog { pending_transactions: StringMap::new() }
    }

    /// Records `transaction`, from shard `from_shard` to shard `to_shard`, as
    /// initiated under `id`; refused when the two shards are the same.
    pub fn record_with_id(&mut self, id: String, transaction: Transaction, from_shard: u64, to_shard: u64) -> (r:
        Result<(), Error>)
        requires
            old(self).wf(),
        ensures
            final(self).wf(),
            from_shard == to_shard ==> (r matches Err(Error::ShardingError(m)) && m@
                == "Not a cross-shard transaction"@) && final(self)@ == old(self)@,
            from_shard != to_shard ==> r is Ok && final(self)@ == old(self)@.insert(
                id@,
                CrossShardTransaction {
                    transaction: transaction,
                    from_shard: from_shard,
                    to_shard: to_shard,
                    status: CrossShardTransactionStatus::Initiated,
                },
            ),
    {
        if from_shard == to_shard {
            return Err(Error::ShardingError("Not a cross-shard transaction".to_owned()));
        }
        let record = CrossShardTransaction {
            transaction,
            from_shard,
            to_shard,
            status: CrossShardTransactionStatus::Initiated,
        };
        self.pending_transactions.insert(id, record);
        Ok(())
    }

    /// Records `transaction` as initiated under a fresh random id, which it
    /// returns; refused when both shards are the same.
    pub fn record(&mut self, transaction: Transaction, from_shard: u64, to_shard: u64) -> (r: Result<
        String,
        Error,
    >)
        requires
            old(self).wf(),
        ensures
            final(self).wf(),
            from_shard == to_shard ==> (r matches Err(Error::ShardingError(m)) && m@
                == "Not a cross-shard transaction"@) && final(self)@ == old(self)@,
            from_shard != to_shard ==> (r matches Ok(id) && id@.len() == 36 && final(self)@
                == old(self)@.insert(
                id@,
                CrossShardTransaction {
                    transaction: transaction,
                    from_shard: from_shard,
                    to_shard: to_shard,
                    status: CrossShardTransactionStatus::Initiated,
                },
            )),
    {
        if from_shard == to_shard {
            return Err(Error::ShardingError("Not a cross-shard transaction".to_owned()));
        }
        let id = new_transaction_id();
        let result = self.record_with_id(id.clone(), transaction, from_shard, to_shard);
        match result {
            Ok(()) => Ok(id),
            Err(e) => Err(e),
        }
    }

    /// The record kept under `id`, if any.
    pub fn get_transaction(&self, id: &str) -> (r: Option<&CrossShardTransaction>)
        requires
            self.wf(),
        ensures
            r.is_none() <==> !self@.contains_key(id@),
            r matches Some(t) ==> *t == self@[id@],
    {
        self.pending_transactions.get(&id.to_owned())
    }

    /// The status of the transaction under `id`, if it is known.
    pub fn get_transaction_status(&self, id: &str) -> (r: Option<CrossShardTransactionStatus>)
        requires
            self.wf(),
        ensures
            r == (if self@.contains_key(id@) {
                Some(self@[id@].status)
            } else {
                None
            }),
    {
        match self.pending_transactions.get(&id.to_owned()) {
            Some(t) => Some(copy_status(&t.status)),
            None => None,
        }
    }

    /// Takes in what the worker reported for the transaction under `id`: a
    /// transaction that still waits is committed on success and failed with
    /// the reason otherwise; an unknown or settled one is left as it is.
    pub fn finish(&mut self, id: &str, outcome: Result<(), String>)
        requires
            old(self).wf(),
        ensures
            final(self).wf(),
            final(self)@ == after_finish(old(self)@, id@, outcome),
    {
        let key = id.to_owned();
        let open = match self.pending_transactions.get(&key) {
            Some(t) => match t.status {
                CrossShardTransactionStatus::Initiated => true,
                CrossShardTransactionStatus::LockAcquired => true,
                _ => false,
            },
            None => false,
        };
        if !open {
            return;
        }
        let mut t = self.pending_transactions.remove(&key).unwrap();
        t.status = match outcome {
            Ok(()) => CrossShardTransactionStatus::Committed,
            Err(reason) => CrossShardTransactionStatus::Failed(reason),
        };
        self.pending_transactions.insert(key, t);
    }

    /// A transaction is settled once: after a first outcome for `id`, a
    /// second outcome changes nothing.
    pub proof fn lemma_settled_once(
        log: Map<Seq<char>, CrossShardTransaction>,
        id: Seq<char>,
        first: Result<(), String>,
        second: Result<(), String>,
    )
        ensures
            after_finish(after_finish(log, id, first), id, second) == after_finish(log, id, first),
            log.contains_key(id) && is_open(log[id].status) ==> after_finish(log, id, first)[id].status
                == status_after(first),
            after_finish(log, id, first).remove(id) == log.remove(id),
    {
        assert(after_finish(log, id, first).remove(id) =~= log.remove(id));
    }
}

} // verus!
