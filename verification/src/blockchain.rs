//! The block chain: transactions waiting to be included, the blocks that
//! hold them, and the contracts deployed on the chain.
use vstd::prelude::*;
use crate::clock::unix_seconds_now;
use crate::crypto::{
    ed25519_point_decompresses, ed25519_signature_of, ed25519_verifies, signature_bytes_ok, signature_valid,
    verify_signature_bytes, KeyPair,
};
use crate::currency::CurrencyType;
use crate::smart_contract::SmartContract;
use crate::string_map::StringMap;

verus! {

/// The members taking part in agreeing on blocks.
#[derive(Debug, Clone)]
pub struct Consensus {
    pub members: Vec<String>,
}

impl Consensus {
    /// No members yet.
    pub fn new() -> (c: Consensus)
        ensures
            c.members@ == Seq::<String>::empty(),
    {
        Consensus { members: Vec::new() }
    }

    /// Adds a member at the end.
    pub fn add_member(&mut self, member: String)
        ensures
            final(self).members@ == old(self).members@.push(member),
    {
        self.members.push(member);
    }
}

/// A transfer of currency, possibly carrying a contract and a signature.
#[derive(Debug, Clone)]
pub struct Transaction {
    pub from: String,
    pub to: String,
    /// The amount, as the bit pattern of a binary64 floating-point number.
    pub amount: u64,
    pub currency_type: CurrencyType,
    pub gas_limit: u64,
    pub smart_contract: Option<SmartContract>,
    pub signature: Option<Vec<u8>>,
    pub public_key: Option<Vec<u8>>,
}

impl Transaction {
    /// An unsigned transaction without a contract.
    pub fn new(from: String, to: String, amount: u64, currency_type: CurrencyType, gas_limit: u64) -> (t:
        Transaction)
        ensures
            t.from == from,
            t.to == to,
            t.amount == amount,
            t.currency_type == currency_type,
            t.gas_limit == gas_limit,
            t.smart_contract is None,
            t.signature is None,
            t.public_key is None,
    {
        Transaction {
            from,
            to,
            amount,
            currency_type,
            gas_limit,
            smart_contract: None,
            signature: None,
            public_key: None,
        }
    }

    /// The same transaction, carrying `smart_contract`.
    pub fn with_smart_contract(self, smart_contract: SmartContract) -> (t: Transaction)
        ensures
            t == (Transaction { smart_contract: Some(smart_contract), ..self }),
    {
        let mut t = self;
        t.smart_contract = Some(smart_contract);
        t
    }

    /// Signs the transaction with `keypair`: `message` is the bytes the
    /// transaction is signed as. It records the pair's signature of
    /// `message` and the pair's public key, and always succeeds; the
    /// signature is then valid under the recorded key.
    pub fn sign(&mut self, keypair: &KeyPair, message: &[u8]) -> (r: Result<(), String>)
        ensures
            r is Ok,
            final(self).public_key matches Some(k) && k@ == keypair@.subrange(32, 64),
            final(self).signature matches Some(g) && g@ == ed25519_signature_of(keypair@, message@),
            transaction_signature_valid(*final(self), message@),
            final(self).from == old(self).from,
            final(self).to == old(self).to,
            final(self).amount == old(self).amount,
            final(self).currency_type == old(self).currency_type,
            final(self).gas_limit == old(self).gas_limit,
            final(self).smart_contract == old(self).smart_contract,
    {
        let signature = keypair.sign(message);
        let public_key = keypair.public_key();
        self.signature = Some(signature);
        self.public_key = Some(public_key);
        Ok(())
    }

    /// Checks the transaction's signature: `message` is the bytes the
    /// transaction is signed as. Refused without a public key or a
    /// signature, or when one of them does not parse; otherwise whether the
    /// signature of `message` verifies under the key.
    pub fn verify(&self, message: &[u8]) -> (r: Result<bool, String>)
        ensures
            self.public_key is None ==> (r matches Err(e) && e@ == "No public key present"@),
            self.public_key is Some && self.signature is None ==> (r matches Err(e) && e@
                == "No signature present"@),
            self.public_key is Some && self.signature is Some ==> (r is Ok <==> (
            self.public_key.unwrap()@.len() == 32 && ed25519_point_decompresses(self.public_key.unwrap()@)
                && signature_bytes_ok(self.signature.unwrap()@))),
            r matches Ok(b) ==> self.public_key is Some && self.signature is Some && b == ed25519_verifies(
                self.public_key.unwrap()@,
                message@,
                self.signature.unwrap()@,
            ),
            match verify_answer(*self, message@) {
                Some(b) => r == Ok::<bool, String>(b),
                None => r is Err,
            },
    {
        verify_signature_bytes(&self.public_key, &self.signature, message)
    }
}

/// Whether the transaction carries a public key and a signature that both
/// parse, so that its signature can be checked at all.
pub open spec fn signature_checkable(transaction: Transaction) -> bool {
    &&& transaction.public_key matches Some(k) && k@.len() == 32 && ed25519_point_decompresses(k@)
    &&& transaction.signature matches Some(g) && signature_bytes_ok(g@)
}

/// Whether the transaction carries a public key and a signature under which
/// its signature of `message` is valid.
pub open spec fn transaction_signature_valid(transaction: Transaction, message: Seq<u8>) -> bool {
    &&& transaction.public_key is Some
    &&& transaction.signature is Some
    &&& signature_valid(transaction.public_key.unwrap()@, message, transaction.signature.unwrap()@)
}

/// What checking the transaction's signature of `message` answers: nothing
/// when its key or signature is missing or does not parse, else whether
/// the signature verifies.
pub open spec fn verify_answer(transaction: Transaction, message: Seq<u8>) -> Option<bool> {
    if signature_checkable(transaction) {
        Some(ed25519_verifies(transaction.public_key.unwrap()@, message, transaction.signature.unwrap()@))
    } else {
        None
    }
}

/// A transaction signed over `message` verifies over it: checking its
/// signature answers `true`.
pub proof fn lemma_signed_transaction_verifies(transaction: Transaction, message: Seq<u8>)
    requires
        transaction_signature_valid(transaction, message),
    ensures
        verify_answer(transaction, message) == Some(true),
{
}

/// The hash every block is given and checked against.
pub open spec fn block_hash_text() -> Seq<char> {
    "dummy_hash"@
}

/// A block of the chain.
#[derive(Debug, Clone)]
pub struct Block {
    pub index: u64,
    /// When the block was made, in Unix seconds.
    pub timestamp: i64,
    pub transactions: Vec<Transaction>,
    pub previous_hash: String,
    pub hash: String,
    pub nonce: u64,
    /// The gas spent by the contracts that ran in this block.
    pub gas_used: u64,
    /// The outcome of each contract that ran, by contract id.
    pub smart_contract_results: StringMap<String>,
}

impl Block {
    pub open spec fn wf(&self) -> bool {
        self.smart_contract_results.wf()
    }

    /// A block made at Unix second `timestamp`, hashed.
    pub fn new_at(index: u64, transactions: Vec<Transaction>, previous_hash: String, timestamp: i64) -> (b:
        Block)
        ensures
            b.wf(),
            b.index == index,
            b.timestamp == timestamp,
            b.transactions == transactions,
            b.previous_hash == previous_hash,
            b.hash@ == block_hash_text(),
            b.nonce == 0,
            b.gas_used == 0,
            b.smart_contract_results@ == Map::<Seq<char>, String>::empty(),
    {
        let mut block = Block {
            index,
            timestamp,
            transactions,
            previous_hash,
            hash: String::new(),
            nonce: 0,
            gas_used: 0,
            smart_contract_results: StringMap::new(),
        };
        block.hash = block.calculate_hash();
        block
    }

    /// A block made now, hashed.
    pub fn new(index: u64, transactions: Vec<Transaction>, previous_hash: String) -> (b: Block)
        ensures
            b.wf(),
            b.index == index,
            b.transactions == transactions,
            b.previous_hash == previous_hash,
            b.hash@ == block_hash_text(),
            b.nonce == 0,
            b.gas_used == 0,
            b.smart_contract_results@ == Map::<Seq<char>, String>::empty(),
    {
        let now = unix_seconds_now();
        Self::new_at(index, transactions, previous_hash, now)
    }

    /// The hash of the block.
    pub fn calculate_hash(&self) -> (h: String)
        ensures
            h@ == block_hash_text(),
    {
        "dummy_hash".to_owned()
    }

    /// Records the outcome of contract `contract_id` and the gas it used.
    pub fn add_smart_contract_result(&mut self, contract_id: String, result: String, gas_used: u64)
        requires
            old(self).wf(),
            old(self).gas_used + gas_used <= u64::MAX,
        ensures
            final(self).wf(),
            final(self).smart_contract_results@ == old(self).smart_contract_results@.insert(
                contract_id@,
                result,
            ),
            final(self).gas_used == old(self).gas_used + gas_used,
            final(self).index == old(self).index,
            final(self).timestamp == old(self).timestamp,
            final(self).transactions == old(self).transactions,
            final(self).previous_hash == old(self).previous_hash,
            final(self).hash == old(self).hash,
            final(self).nonce == old(self).nonce,
    {
        self.smart_contract_results.insert(contract_id, result);
        self.gas_used = self.gas_used + gas_used;
    }
}

/// A chain is valid when every block after the first carries the block hash
/// and the hash of the block before it.
pub open spec fn chain_valid(chain: Seq<Block>) -> bool {
    forall|i: int|
        #![trigger chain[i]]
        1 <= i < chain.len() ==> chain[i].hash@ == block_hash_text() && chain[i].previous_hash@
            == chain[i - 1].hash@
}

/// Whether a block may follow a chain: it must name the hash of the last
/// block, and carry the block hash.
pub open spec fn block_check(chain: Seq<Block>, block: Block) -> Result<(), Seq<char>> {
    if chain.len() > 0 && block.previous_hash@ != chain.last().hash@ {
        Err("Invalid previous hash"@)
    } else if block.hash@ != block_hash_text() {
        Err("Invalid block hash"@)
    } else {
        Ok(())
    }
}

/// A token standing for an asset, and who holds it.
#[derive(Debug, Clone)]
pub struct AssetToken {
    pub asset_id: String,
    pub name: String,
    pub description: String,
    pub owner: String,
    /// Its value, as the bit pattern of a binary64 number.
    pub value: u64,
}

/// A bond, and who holds it.
#[derive(Debug, Clone)]
pub struct Bond {
    pub bond_id: String,
    pub name: String,
    pub description: String,
    pub issuer: String,
    /// Its face value, as the bit pattern of a binary64 number.
    pub face_value: u64,
    /// When it matures, in Unix microseconds.
    pub maturity_date: i64,
    /// Its interest rate, as the bit pattern of a binary64 number.
    pub interest_rate: u64,
    pub owner: String,
}

/// The chain, the transactions waiting for the next block, the deployed
/// contracts, and the registered asset tokens and bonds.
#[derive(Debug, Clone)]
pub struct Blockchain {
    pub chain: Vec<Block>,
    pub pending_transactions: Vec<Transaction>,
    pub consensus: Consensus,
    pub smart_contracts: StringMap<SmartContract>,
    pub asset_tokens: StringMap<AssetToken>,
    pub bonds: StringMap<Bond>,
}

impl Blockchain {
    pub open spec fn wf(&self) -> bool {
        &&& self.smart_contracts.wf()
        &&& self.asset_tokens.wf()
        &&& self.bonds.wf()
    }

    /// The deployed contracts, by id.
    pub open spec fn contracts(&self) -> Map<Seq<char>, SmartContract> {
        self.smart_contracts@
    }

    /// A chain holding just the genesis block.
    pub fn new() -> (bc: Blockchain)
        ensures
            bc.wf(),
            bc.chain@.len() == 1,
            bc.chain@[0].index == 0,
            bc.chain@[0].transactions@ == Seq::<Transaction>::empty(),
            bc.chain@[0].previous_hash@ == Seq::<char>::empty(),
            bc.chain@[0].hash@ == block_hash_text(),
            bc.pending_transactions@ == Seq::<Transaction>::empty(),
            bc.contracts() == Map::<Seq<char>, SmartContract>::empty(),
            bc.asset_tokens@ == Map::<Seq<char>, AssetToken>::empty(),
            bc.bonds@ == Map::<Seq<char>, Bond>::empty(),
            chain_valid(bc.chain@),
    {
        let mut chain = Vec::new();
        chain.push(Block::new(0, Vec::new(), String::new()));
        Blockchain {
            chain,
            pending_transactions: Vec::new(),
            consensus: Consensus::new(),
            smart_contracts: StringMap::new(),
            asset_tokens: StringMap::new(),
            bonds: StringMap::new(),
        }
    }

    /// Checks a block against the chain: it must name the hash of the last
    /// block, every transaction must pass, and it must carry the block hash.
    pub fn validate_block(&self, block: &Block) -> (r: Result<(), String>)
        ensures
            match block_check(self.chain@, *block) {
                Ok(()) => r is Ok,
                Err(m) => r matches Err(e) && e@ == m,
            },
    {
        let n = self.chain.len();
        if n > 0 {
            if block.previous_hash != self.chain[n - 1].hash {
                return Err("Invalid previous hash".to_owned());
            }
        }
        let mut i: usize = 0;
        while i < block.transactions.len()
            invariant
                i <= block.transactions@.len(),
            decreases block.transactions@.len() - i,
        {
            match self.validate_transaction(&block.transactions[i]) {
                Ok(()) => {},
                Err(e) => {
                    return Err(e);
                },
            }
            i = i + 1;
        }
        let h = block.calculate_hash();
        if block.hash != h {
            return Err("Invalid block hash".to_owned());
        }
        Ok(())
    }

    /// Checks a transaction; every transaction passes.
    pub fn validate_transaction(&self, transaction: &Transaction) -> (r: Result<(), String>)
        ensures
            r is Ok,
    {
        Ok(())
    }

    /// Makes a block of the pending transactions and appends it; the
    /// pending list is then empty. An empty chain has no block to follow.
    pub fn create_block(&mut self, proposer: String) -> (r: Result<(), String>)
        requires
            old(self).wf(),
        ensures
            final(self).wf(),
            final(self).contracts() == old(self).contracts(),
            old(self).chain@.len() == 0 ==> (r matches Err(e) && e@ == "No previous block found"@
                && final(self).chain@ == old(self).chain@ && final(self).pending_transactions@
                == old(self).pending_transactions@),
            old(self).chain@.len() > 0 ==> {
                &&& r is Ok
                &&& final(self).chain@.len() == old(self).chain@.len() + 1
                &&& final(self).chain@.drop_last() == old(self).chain@
                &&& final(self).chain@.last().index == old(self).chain@.len()
                &&& final(self).chain@.last().transactions@ == old(self).pending_transactions@
                &&& final(self).chain@.last().previous_hash == old(self).chain@.last().hash
                &&& final(self).chain@.last().hash@ == block_hash_text()
                &&& final(self).pending_transactions@ == Seq::<Transaction>::empty()
            },
            chain_valid(old(self).chain@) ==> chain_valid(final(self).chain@),
    {
        let n = self.chain.len();
        if n == 0 {
            return Err("No previous block found".to_owned());
        }
        let previous_hash = self.chain[n - 1].hash.clone();
        let mut transactions: Vec<Transaction> = Vec::new();
        std::mem::swap(&mut transactions, &mut self.pending_transactions);
        let block = Block::new(n as u64, transactions, previous_hash);
        match self.validate_block(&block) {
            Ok(()) => {},
            Err(e) => {
                self.pending_transactions = block.transactions;
                return Err(e);
            },
        }
        let ghost before = self.chain@;
        self.chain.push(block);
        proof {
            assert(self.chain@.drop_last() =~= before);
            assert forall|i: int|
                #![trigger self.chain@[i]]
                chain_valid(before) && 1 <= i < self.chain@.len() implies self.chain@[i].hash@
                == block_hash_text() && self.chain@[i].previous_hash@ == self.chain@[i - 1].hash@ by {
                if i < before.len() {
                    assert(self.chain@[i] == before[i]);
                    assert(self.chain@[i - 1] == before[i - 1]);
                }
            }
        }
        Ok(())
    }

    /// Queues a transaction for the next block.
    pub fn add_transaction(&mut self, transaction: Transaction)
        ensures
            final(self).pending_transactions@ == old(self).pending_transactions@.push(transaction),
            final(self).chain == old(self).chain,
            final(self).contracts() == old(self).contracts(),
            final(self).wf() == old(self).wf(),
    {
        self.pending_transactions.push(transaction);
    }

    /// The last block, if any.
    pub fn get_latest_block(&self) -> (r: Option<&Block>)
        ensures
            self.chain@.len() == 0 ==> r is None,
            self.chain@.len() > 0 ==> r == Some(&self.chain@.last()),
    {
        let n = self.chain.len();
        if n == 0 {
            None
        } else {
            Some(&self.chain[n - 1])
        }
    }

    /// Whether every block after the first carries the block hash and the
    /// hash of the block before it.
    pub fn is_chain_valid(&self) -> (b: bool)
        ensures
            b == chain_valid(self.chain@),
    {
        let n = self.chain.len();
        let mut i: usize = 1;
        while i < n
            invariant
                n == self.chain@.len(),
                1 <= i,
                forall|j: int|
                    #![trigger self.chain@[j]]
                    1 <= j < i && j < n ==> self.chain@[j].hash@ == block_hash_text()
                        && self.chain@[j].previous_hash@ == self.chain@[j - 1].hash@,
            decreases n - i,
        {
            let current = &self.chain[i];
            let h = current.calculate_hash();
            if current.hash != h {
                assert(!(self.chain@[i as int].hash@ == block_hash_text()));
                return false;
            }
            if current.previous_hash != self.chain[i - 1].hash {
                assert(!(self.chain@[i as int].previous_hash@ == self.chain@[i - 1].hash@));
                return false;
            }
            i = i + 1;
        }
        true
    }

    /// Stores a contract under its id, replacing any contract with that id.
    pub fn store_smart_contract(&mut self, contract: SmartContract) -> (r: Result<(), String>)
        requires
            old(self).wf(),
        ensures
            final(self).wf(),
            r is Ok,
            final(self).contracts() == old(self).contracts().insert(contract.id@, contract),
            final(self).chain == old(self).chain,
    {
        let id = contract.id.clone();
        self.smart_contracts.insert(id, contract);
        Ok(())
    }

    /// The contract stored under `id`, if any.
    pub fn get_smart_contract(&self, id: &str) -> (r: Option<&SmartContract>)
        requires
            self.wf(),
        ensures
            r.is_some() == self.contracts().contains_key(id@),
            r matches Some(c) ==> *c == self.contracts()[id@],
    {
        let key = id.to_owned();
        self.smart_contracts.get(&key)
    }

    /// Stores `updated_contract` under `id`.
    pub fn update_smart_contract(&mut self, id: &str, updated_contract: SmartContract) -> (r: Result<
        (),
        String,
    >)
        requires
            old(self).wf(),
        ensures
            final(self).wf(),
            r is Ok,
            final(self).contracts() == old(self).contracts().insert(id@, updated_contract),
            final(self).chain == old(self).chain,
    {
        let key = id.to_owned();
        self.smart_contracts.insert(key, updated_contract);
        Ok(())
    }

    /// Removes the contract stored under `id`, if any.
    pub fn remove_smart_contract(&mut self, id: &str) -> (r: Result<(), String>)
        requires
            old(self).wf(),
        ensures
            final(self).wf(),
            r is Ok,
            final(self).contracts() == old(self).contracts().remove(id@),
            final(self).chain == old(self).chain,
    {
        let key = id.to_owned();
        self.smart_contracts.remove(&key);
        Ok(())
    }

    /// Deploys a contract under its id; an id in use is refused and nothing changes.
    pub fn deploy_smart_contract(&mut self, contract: SmartContract) -> (r: Result<(), String>)
        requires
            old(self).wf(),
        ensures
            final(self).wf(),
            final(self).chain == old(self).chain,
            old(self).contracts().contains_key(contract.id@) ==> (r matches Err(e) && e@
                == "Smart contract with this ID already exists"@ && final(self).contracts() == old(self).contracts()),
            !old(self).contracts().contains_key(contract.id@) ==> r is Ok && final(self).contracts()
                == old(self).contracts().insert(contract.id@, contract),
    {
        if self.smart_contracts.contains_key(&contract.id) {
            return Err("Smart contract with this ID already exists".to_owned());
        }
        let id = contract.id.clone();
        self.smart_contracts.insert(id, contract);
        Ok(())
    }

    /// Registers `asset_token` under its id; refused, with nothing changed,
    /// when the id is taken.
    pub fn register_asset_token(&mut self, asset_token: &AssetToken) -> (r: Result<(), String>)
        requires
            old(self).wf(),
        ensures
            final(self).wf(),
            final(self).chain == old(self).chain,
            final(self).bonds == old(self).bonds,
            old(self).asset_tokens@.contains_key(asset_token.asset_id@) ==> (r matches Err(e) && e@
                == "Asset token with this ID already exists"@) && final(self).asset_tokens@ == old(self).asset_tokens@,
            !old(self).asset_tokens@.contains_key(asset_token.asset_id@) ==> r is Ok && final(self).asset_tokens@ == old(self).asset_tokens@.insert(asset_token.asset_id@, *asset_token),
    {
        if self.asset_tokens.contains_key(&asset_token.asset_id) {
            return Err("Asset token with this ID already exists".to_owned());
        }
        let copy = AssetToken {
            asset_id: asset_token.asset_id.clone(),
            name: asset_token.name.clone(),
            description: asset_token.description.clone(),
            owner: asset_token.owner.clone(),
            value: asset_token.value,
        };
        self.asset_tokens.insert(asset_token.asset_id.clone(), copy);
        Ok(())
    }

    /// Hands asset token `asset_id` to `new_owner`; refused when there is no
    /// such token.
    pub fn transfer_asset_token(&mut self, asset_id: &str, new_owner: &str) -> (r: Result<(), String>)
        requires
            old(self).wf(),
        ensures
            final(self).wf(),
            final(self).chain == old(self).chain,
            final(self).bonds == old(self).bonds,
            !old(self).asset_tokens@.contains_key(asset_id@) ==> (r matches Err(e) && e@
                == "Asset token not found"@) && final(self).asset_tokens@ == old(self).asset_tokens@,
            old(self).asset_tokens@.contains_key(asset_id@) ==> r is Ok && final(self).asset_tokens@.dom()
                == old(self).asset_tokens@.dom() && (forall|k: Seq<char>|
                k != asset_id@ && #[trigger] old(self).asset_tokens@.contains_key(k) ==> final(self).asset_tokens@[k] == old(self).asset_tokens@[k]) && final(self).asset_tokens@[asset_id@].owner@
                == new_owner@ && final(self).asset_tokens@[asset_id@] == (AssetToken {
                owner: final(self).asset_tokens@[asset_id@].owner,
                ..old(self).asset_tokens@[asset_id@]
            }),
    {
        let key = asset_id.to_owned();
        match self.asset_tokens.remove(&key) {
            None => Err("Asset token not found".to_owned()),
            Some(mut token) => {
                token.owner = new_owner.to_owned();
                self.asset_tokens.insert(key, token);
                proof {
                    assert(self.asset_tokens@.dom() =~= old(self).asset_tokens@.dom());
                }
                Ok(())
            },
        }
    }

    /// The asset token registered under `asset_id`, if any.
    pub fn get_asset_token(&self, asset_id: &str) -> (r: Option<&AssetToken>)
        requires
            self.wf(),
        ensures
            r.is_some() == self.asset_tokens@.contains_key(asset_id@),
            r matches Some(t) ==> *t == self.asset_tokens@[asset_id@],
    {
        let key = asset_id.to_owned();
        self.asset_tokens.get(&key)
    }

    /// Registers `bond` under its id; refused, with nothing changed, when the
    /// id is taken.
    pub fn register_bond(&mut self, bond: &Bond) -> (r: Result<(), String>)
        requires
            old(self).wf(),
        ensures
            final(self).wf(),
            final(self).chain == old(self).chain,
            final(self).asset_tokens == old(self).asset_tokens,
            old(self).bonds@.contains_key(bond.bond_id@) ==> (r matches Err(e) && e@
                == "Bond with this ID already exists"@) && final(self).bonds@ == old(self).bonds@,
            !old(self).bonds@.contains_key(bond.bond_id@) ==> r is Ok && final(self).bonds@ == old(self).bonds@.insert(bond.bond_id@, *bond),
    {
        if self.bonds.contains_key(&bond.bond_id) {
            return Err("Bond with this ID already exists".to_owned());
        }
        let copy = Bond {
            bond_id: bond.bond_id.clone(),
            name: bond.name.clone(),
            description: bond.description.clone(),
            issuer: bond.issuer.clone(),
            face_value: bond.face_value,
            maturity_date: bond.maturity_date,
            interest_rate: bond.interest_rate,
            owner: bond.owner.clone(),
        };
        self.bonds.insert(bond.bond_id.clone(), copy);
        Ok(())
    }

    /// Hands bond `bond_id` to `new_owner`; refused when there is no such bond.
    pub fn transfer_bond(&mut self, bond_id: &str, new_owner: &str) -> (r: Result<(), String>)
        requires
            old(self).wf(),
        ensures
            final(self).wf(),
            final(self).chain == old(self).chain,
            final(self).asset_tokens == old(self).asset_tokens,
            !old(self).bonds@.contains_key(bond_id@) ==> (r matches Err(e) && e@ == "Bond not found"@)
                && final(self).bonds@ == old(self).bonds@,
            old(self).bonds@.contains_key(bond_id@) ==> r is Ok && final(self).bonds@.dom() == old(self).bonds@.dom() && (forall|k: Seq<char>|
                k != bond_id@ && #[trigger] old(self).bonds@.contains_key(k) ==> final(self).bonds@[k]
                    == old(self).bonds@[k]) && final(self).bonds@[bond_id@].owner@ == new_owner@
                && final(self).bonds@[bond_id@] == (Bond {
                owner: final(self).bonds@[bond_id@].owner,
                ..old(self).bonds@[bond_id@]
            }),
    {
        let key = bond_id.to_owned();
        match self.bonds.remove(&key) {
            None => Err("Bond not found".to_owned()),
            Some(mut bond) => {
                bond.owner = new_owner.to_owned();
                self.bonds.insert(key, bond);
                proof {
                    assert(self.bonds@.dom() =~= old(self).bonds@.dom());
                }
                Ok(())
            },
        }
    }

    /// The bond registered under `bond_id`, if any.
    pub fn get_bond(&self, bond_id: &str) -> (r: Option<&Bond>)
        requires
            self.wf(),
        ensures
            r.is_some() == self.bonds@.contains_key(bond_id@),
            r matches Some(b) ==> *b == self.bonds@[bond_id@],
    {
        let key = bond_id.to_owned();
        self.bonds.get(&key)
    }
}

} // verus!
