//! Shards: which shard an address or a piece of data belongs to, the nodes
//! each shard holds, and the balances it keeps.
//!
//! Amounts are the bit patterns of binary64 floating-point numbers. They are
//! stored and looked up here; the arithmetic on them is done by the caller.
use vstd::prelude::*;
use crate::blockchain::{signature_checkable, transaction_signature_valid, Block, Transaction};
use crate::crypto::{
    ed25519_point_decompresses, ed25519_verifies, ed25519_verify, sha256, sha256_of, signature_bytes_ok, signature_valid,
};
use crate::currency::{CurrencyType, CurrencyTypeV};
use crate::error::{sharding_error_text, Error, ShardingError};
use crate::network::Node;
use crate::string_map::StringMap;
use crate::text::{decimal_digits, u64_text};

verus! {

/// What an address holds (or has locked) in one currency.
pub struct BalanceEntry {
    pub address: String,
    pub currency: CurrencyType,
    /// The amount, as the bit pattern of a binary64 number.
    pub amount: u64,
}

/// The key a balance is kept under: the address and the currency.
pub open spec fn balance_key(e: BalanceEntry) -> (Seq<char>, CurrencyTypeV) {
    (e.address@, e.currency@)
}

/// The amount kept under `k` in `s`: the last entry with that key wins.
pub open spec fn lookup(s: Seq<BalanceEntry>, k: (Seq<char>, CurrencyTypeV)) -> Option<u64>
    decreases s.len(),
{
    if s.len() == 0 {
        None
    } else if balance_key(s.last()) == k {
        Some(s.last().amount)
    } else {
        lookup(s.drop_last(), k)
    }
}

/// Amounts by address and currency.
pub struct BalanceTable {
    entries: Vec<BalanceEntry>,
}

impl View for BalanceTable {
    type V = Map<(Seq<char>, CurrencyTypeV), u64>;

    closed spec fn view(&self) -> Map<(Seq<char>, CurrencyTypeV), u64> {
        Map::new(
            |k: (Seq<char>, CurrencyTypeV)| lookup(self.entries@, k) is Some,
            |k: (Seq<char>, CurrencyTypeV)| lookup(self.entries@, k)->0,
        )
    }
}

proof fn lemma_lookup_push(s: Seq<BalanceEntry>, e: BalanceEntry, k: (Seq<char>, CurrencyTypeV))
    ensures
        lookup(s.push(e), k) == if balance_key(e) == k {
            Some(e.amount)
        } else {
            lookup(s, k)
        },
{
    assert(s.push(e).drop_last() =~= s);
}

proof fn lemma_lookup_filter(s: Seq<BalanceEntry>, gone: (Seq<char>, CurrencyTypeV), k: (Seq<char>, CurrencyTypeV))
    ensures
        lookup(s.filter(|e: BalanceEntry| balance_key(e) != gone), k) == if k == gone {
            None
        } else {
            lookup(s, k)
        },
    decreases s.len(),
{
    reveal_with_fuel(Seq::filter, 1);
    if s.len() > 0 {
        lemma_lookup_filter(s.drop_last(), gone, k);
        let f = s.drop_last().filter(|e: BalanceEntry| balance_key(e) != gone);
        if balance_key(s.last()) != gone {
            lemma_lookup_push(f, s.last(), k);
        }
    }
}

/// A key that some entry holds has a recorded amount.
proof fn lemma_lookup_some(s: Seq<BalanceEntry>, i: int)
    requires
        0 <= i < s.len(),
    ensures
        lookup(s, balance_key(s[i])) is Some,
    decreases s.len(),
{
    if i < s.len() - 1 && balance_key(s.last()) != balance_key(s[i]) {
        assert(s.drop_last()[i] == s[i]);
        lemma_lookup_some(s.drop_last(), i);
    }
}

/// A key whose address no entry holds has no recorded amount.
proof fn lemma_lookup_none(s: Seq<BalanceEntry>, k: (Seq<char>, CurrencyTypeV))
    requires
        forall|j: int| 0 <= j < s.len() ==> s[j].address@ != k.0,
    ensures
        lookup(s, k) is None,
    decreases s.len(),
{
    if s.len() > 0 {
        assert forall|j: int| 0 <= j < s.drop_last().len() implies s.drop_last()[j].address@ != k.0 by {
            assert(s.drop_last()[j] == s[j]);
        }
        lemma_lookup_none(s.drop_last(), k);
    }
}

impl BalanceTable {
    /// An empty table.
    pub fn new() -> (t: Self)
        ensures
            t@ == Map::<(Seq<char>, CurrencyTypeV), u64>::empty(),
    {
        let t = BalanceTable { entries: Vec::new() };
        assert(t@ =~= Map::<(Seq<char>, CurrencyTypeV), u64>::empty());
        t
    }

    /// The amount `address` holds in `currency`, if any is recorded.
    pub fn get(&self, address: &String, currency: &CurrencyType) -> (r: Option<u64>)
        ensures
            r == (if self@.contains_key((address@, currency@)) {
                Some(self@[(address@, currency@)])
            } else {
                None
            }),
    {
        let ghost k = (address@, currency@);
        let mut i: usize = self.entries.len();
        assert(self.entries@.subrange(0, i as int) =~= self.entries@);
        while i > 0
            invariant
                i <= self.entries@.len(),
                k == (address@, currency@),
                lookup(self.entries@, k) == lookup(self.entries@.subrange(0, i as int), k),
            decreases i,
        {
            let e = &self.entries[i - 1];
            let ghost sub = self.entries@.subrange(0, i as int);
            assert(sub.drop_last() =~= self.entries@.subrange(0, i - 1));
            assert(sub.last() == *e);
            let same_address = e.address == *address;
            let same_currency = e.currency.same_as(currency);
            assert((same_address && same_currency) == (balance_key(*e) == k));
            if same_address && same_currency {
                return Some(e.amount);
            }
            i = i - 1;
        }
        None
    }

    /// Whether anything is recorded for `address`, in any currency.
    pub fn holds_address(&self, address: &String) -> (b: bool)
        ensures
            b == exists|c: CurrencyTypeV| #[trigger] self@.contains_key((address@, c)),
    {
        let n = self.entries.len();
        let mut i: usize = 0;
        while i < n
            invariant
                n == self.entries@.len(),
                i <= n,
                forall|j: int| 0 <= j < i ==> self.entries@[j].address@ != address@,
            decreases n - i,
        {
            if self.entries[i].address == *address {
                proof {
                    let e = self.entries@[i as int];
                    lemma_lookup_some(self.entries@, i as int);
                    assert(self@.contains_key((address@, e.currency@)));
                }
                return true;
            }
            i = i + 1;
        }
        proof {
            assert forall|c: CurrencyTypeV| !#[trigger] self@.contains_key((address@, c)) by {
                lemma_lookup_none(self.entries@, (address@, c));
            }
        }
        false
    }

    /// Records that `address` holds `amount` in `currency`.
    pub fn set(&mut self, address: String, currency: CurrencyType, amount: u64)
        ensures
            final(self)@ == old(self)@.insert((address@, currency@), amount),
    {
        let ghost k = (address@, currency@);
        self.remove(&address, &currency);
        let ghost s = self.entries@;
        let ghost mid = self@;
        assert(mid == old(self)@.remove(k));
        let e = BalanceEntry { address, currency, amount };
        let ghost ev = e;
        self.entries.push(e);
        proof {
            assert forall|j: (Seq<char>, CurrencyTypeV)| #[trigger] lookup(self.entries@, j) == (if j == k {
                Some(amount)
            } else {
                lookup(s, j)
            }) by {
                lemma_lookup_push(s, ev, j);
            }
            assert forall|j: (Seq<char>, CurrencyTypeV)| j != k implies (#[trigger] lookup(s, j)) == (
            if mid.contains_key(j) {
                Some(mid[j])
            } else {
                None
            }) by {}
            assert(self@ =~= old(self)@.insert(k, amount));
        }
    }

    /// Forgets what `address` holds in `currency`.
    pub fn remove(&mut self, address: &String, currency: &CurrencyType)
        ensures
            final(self)@ == old(self)@.remove((address@, currency@)),
    {
        let ghost k = (address@, currency@);
        let ghost s = self.entries@;
        let mut kept: Vec<BalanceEntry> = Vec::new();
        let n = self.entries.len();
        let mut i: usize = 0;
        while i < n
            invariant
                n == s.len(),
                i <= n,
                self.entries@ == s,
                k == (address@, currency@),
                kept@ == s.subrange(0, i as int).filter(|e: BalanceEntry| balance_key(e) != k),
            decreases n - i,
        {
            let e = &self.entries[i];
            proof {
                let sub = s.subrange(0, i + 1);
                assert(sub.drop_last() =~= s.subrange(0, i as int));
                assert(sub.last() == *e);
                reveal_with_fuel(Seq::filter, 1);
            }
            let same_address = e.address == *address;
            let same_currency = e.currency.same_as(currency);
            assert((same_address && same_currency) == (balance_key(*e) == k));
            if !(same_address && same_currency) {
                let copy = BalanceEntry {
                    address: e.address.clone(),
                    currency: e.currency.duplicate(),
                    amount: e.amount,
                };
                assert(copy == *e);
                kept.push(copy);
            }
            i = i + 1;
        }
        proof {
            assert(s.subrange(0, n as int) =~= s);
            assert forall|j: (Seq<char>, CurrencyTypeV)| #[trigger] lookup(kept@, j) == (if j == k {
                None
            } else {
                lookup(s, j)
            }) by {
                lemma_lookup_filter(s, k, j);
            }
        }
        self.entries = kept;
        proof {
            assert(self@ =~= old(self)@.remove(k));
        }
    }
}

/// A shard: its nodes, its blocks, and the balances it keeps.
pub struct Shard {
    pub id: u64,
    pub nodes: Vec<Node>,
    pub blockchain: Vec<Block>,
    pub balances: BalanceTable,
    pub locked_funds: BalanceTable,
}

/// The value of the first eight bytes of `s`, read least significant first.
pub open spec fn le_u64_value(s: Seq<u8>) -> int {
    s[0] + 0x100 * s[1] + 0x1_0000 * s[2] + 0x100_0000 * s[3] + 0x1_0000_0000 * s[4]
        + 0x100_0000_0000 * s[5] + 0x1_0000_0000_0000 * s[6] + 0x100_0000_0000_0000 * s[7]
}

/// The number the shard of `data` is drawn from: the first eight bytes of
/// its SHA-256 digest, least significant first.
pub open spec fn data_hash(data: Seq<u8>) -> int {
    le_u64_value(sha256_of(data))
}

/// The value of the first eight bytes of `b`, least significant first.
fn le_u64(b: &[u8]) -> (r: u64)
    requires
        b@.len() >= 8,
    ensures
        r == le_u64_value(b@),
{
    b[0] as u64 + 0x100 * (b[1] as u64) + 0x1_0000 * (b[2] as u64) + 0x100_0000 * (b[3] as u64)
        + 0x1_0000_0000 * (b[4] as u64) + 0x100_0000_0000 * (b[5] as u64) + 0x1_0000_0000_0000 * (
    b[6] as u64) + 0x100_0000_0000_0000 * (b[7] as u64)
}

/// The message of the refusal to put a node in full shard `id`.
pub open spec fn shard_full_text(id: u64) -> Seq<char> {
    "Failed to lock shard: "@ + ("Shard "@ + decimal_digits(id as nat) + " is full"@)
}

/// The message of the error for an unknown shard `id`.
pub open spec fn shard_missing_text(id: u64) -> Seq<char> {
    sharding_error_text(ShardingError::ShardNotFound(id))
}

/// The two shards agree in everything but their nodes.
pub open spec fn same_but_nodes(a: Shard, b: Shard) -> bool {
    &&& a.id == b.id
    &&& a.blockchain == b.blockchain
    &&& a.balances == b.balances
    &&& a.locked_funds == b.locked_funds
}

/// The two shards agree in everything but their balances.
pub open spec fn same_but_balances(a: Shard, b: Shard) -> bool {
    &&& a.id == b.id
    &&& a.nodes == b.nodes
    &&& a.blockchain == b.blockchain
    &&& a.locked_funds == b.locked_funds
}

/// The shards, and which shard each address is kept in.
pub struct ShardingManager {
    shards: Vec<Shard>,
    shard_count: u64,
    nodes_per_shard: usize,
    address_to_shard: StringMap<u64>,
    current_shard_id: u64,
}

impl ShardingManager {
    /// The shards, by id.
    pub closed spec fn shard_seq(&self) -> Seq<Shard> {
        self.shards@
    }

    /// How many shards there are.
    pub closed spec fn count(&self) -> u64 {
        self.shard_count
    }

    /// How many nodes a shard takes.
    pub closed spec fn capacity(&self) -> usize {
        self.nodes_per_shard
    }

    /// The shards that addresses have been put in explicitly.
    pub closed spec fn routes(&self) -> Map<Seq<char>, u64> {
        self.address_to_shard@
    }

    /// The shard this node works in.
    pub closed spec fn current(&self) -> u64 {
        self.current_shard_id
    }

    /// There is one shard per id below the count, at the position of its id.
    #[verifier::type_invariant]
    pub closed spec fn wf(&self) -> bool {
        &&& self.shards@.len() == self.shard_count
        &&& forall|i: int| 0 <= i < self.shards@.len() ==> (#[trigger] self.shards@[i]).id == i
        &&& self.address_to_shard.wf()
    }

    /// The shard an address belongs to: the one it was put in, or else the
    /// one its bytes hash to.
    pub open spec fn shard_of_address(&self, address: Seq<char>) -> int {
        if self.routes().contains_key(address) {
            self.routes()[address] as int
        } else {
            data_hash(vstd::utf8::encode_utf8(address)) % (self.count() as int)
        }
    }

    /// `shard_count` empty shards, each taking up to `nodes_per_shard` nodes.
    pub fn new(shard_count: u64, nodes_per_shard: usize) -> (m: Self)
        requires
            shard_count <= usize::MAX,
        ensures
            m.wf(),
            m.count() == shard_count,
            m.shard_seq().len() == shard_count,
            m.capacity() == nodes_per_shard,
            m.routes() == Map::<Seq<char>, u64>::empty(),
            m.current() == 0,
            forall|i: int|
                0 <= i < shard_count ==> (#[trigger] m.shard_seq()[i]).nodes@.len() == 0
                    && m.shard_seq()[i].blockchain@.len() == 0 && m.shard_seq()[i].balances@
                    == Map::<(Seq<char>, CurrencyTypeV), u64>::empty() && m.shard_seq()[i].locked_funds@
                    == Map::<(Seq<char>, CurrencyTypeV), u64>::empty(),
    {
        let mut shards: Vec<Shard> = Vec::new();
        let mut i: u64 = 0;
        while i < shard_count
            invariant
                i <= shard_count,
                shard_count <= usize::MAX,
                shards@.len() == i,
                forall|j: int| 0 <= j < i ==> (#[trigger] shards@[j]).id == j,
                forall|j: int|
                    0 <= j < i ==> (#[trigger] shards@[j]).nodes@.len() == 0
                        && shards@[j].blockchain@.len() == 0 && shards@[j].balances@ == Map::<
                        (Seq<char>, CurrencyTypeV),
                        u64,
                    >::empty() && shards@[j].locked_funds@ == Map::<
                        (Seq<char>, CurrencyTypeV),
                        u64,
                    >::empty(),
            decreases shard_count - i,
        {
            shards.push(
                Shard {
                    id: i,
                    nodes: Vec::new(),
                    blockchain: Vec::new(),
                    balances: BalanceTable::new(),
                    locked_funds: BalanceTable::new(),
                },
            );
            i = i + 1;
        }
        ShardingManager {
            shards,
            shard_count,
            nodes_per_shard,
            address_to_shard: StringMap::new(),
            current_shard_id: 0,
        }
    }

    /// Takes the manager out, leaving one without shards in its place.
    fn take(&mut self) -> (m: Self)
        ensures
            m == *old(self),
    {
        let mut m = ShardingManager::new(0, 0);
        std::mem::swap(self, &mut m);
        m
    }

    /// How many shards there are.
    pub fn get_shard_count(&self) -> (n: u64)
        ensures
            n == self.count(),
    {
        self.shard_count
    }

    /// How many nodes a shard takes.
    pub fn get_nodes_per_shard(&self) -> (n: usize)
        ensures
            n == self.capacity(),
    {
        self.nodes_per_shard
    }

    /// The shards, by id.
    pub fn shards(&self) -> (s: &Vec<Shard>)
        ensures
            s@ == self.shard_seq(),
    {
        &self.shards
    }

    /// The shard this node works in.
    pub fn get_current_shard_id(&self) -> (id: u64)
        ensures
            id == self.current(),
    {
        self.current_shard_id
    }

    /// Sets the shard this node works in.
    pub fn set_current_shard_id(&mut self, shard_id: u64)
        requires
            old(self).wf(),
        ensures
            final(self).wf(),
            final(self).current() == shard_id,
            final(self).shard_seq() == old(self).shard_seq(),
            final(self).routes() == old(self).routes(),
            final(self).count() == old(self).count(),
            final(self).capacity() == old(self).capacity(),
    {
        self.current_shard_id = shard_id;
    }

    /// Puts `address` in shard `shard_id`.
    pub fn add_address_to_shard(&mut self, address: String, shard_id: u64)
        requires
            old(self).wf(),
        ensures
            final(self).wf(),
            final(self).routes() == old(self).routes().insert(address@, shard_id),
            final(self).shard_seq() == old(self).shard_seq(),
            final(self).current() == old(self).current(),
            final(self).count() == old(self).count(),
            final(self).capacity() == old(self).capacity(),
    {
        let m = self.take();
        let ShardingManager { shards, shard_count, nodes_per_shard, mut address_to_shard, current_shard_id } = m;
        address_to_shard.insert(address, shard_id);
        *self = ShardingManager { shards, shard_count, nodes_per_shard, address_to_shard, current_shard_id };
    }

    /// The first eight bytes of the SHA-256 digest of `data`, least significant first.
    fn hash_data(&self, data: &[u8]) -> (h: u64)
        ensures
            h == data_hash(data@),
    {
        let digest = sha256(data);
        le_u64(digest.as_slice())
    }

    /// The shard `data` belongs to: its hash modulo the number of shards.
    pub fn get_shard_for_data(&self, data: &[u8]) -> (id: u64)
        requires
            self.count() > 0,
        ensures
            id == data_hash(data@) % (self.count() as int),
    {
        let h = self.hash_data(data);
        h % self.shard_count
    }

    /// The shard `address` belongs to: the one it was put in, or else the
    /// one the UTF-8 bytes of the address hash to.
    pub fn get_shard_for_address(&self, address: &str) -> (id: u64)
        requires
            self.wf(),
            self.count() > 0,
        ensures
            id == self.shard_of_address(address@),
    {
        let hashed = self.hash_data(address.as_bytes()) % self.shard_count;
        let key = address.to_owned();
        match self.address_to_shard.get(&key) {
            Some(id) => *id,
            None => hashed,
        }
    }

    /// Puts `node` in shard `shard_id`. Refused when there is no such shard
    /// or it already holds as many nodes as a shard takes.
    pub fn assign_node_to_shard(&mut self, node: Node, shard_id: u64) -> (r: Result<(), Error>)
        requires
            old(self).wf(),
        ensures
            final(self).wf(),
            final(self).routes() == old(self).routes(),
            final(self).count() == old(self).count(),
            final(self).capacity() == old(self).capacity(),
            final(self).current() == old(self).current(),
            shard_id >= old(self).count() ==> (r matches Err(Error::ShardingError(m)) && m@
                == shard_missing_text(shard_id)) && final(self).shard_seq() == old(self).shard_seq(),
            shard_id < old(self).count() && old(self).shard_seq()[shard_id as int].nodes@.len()
                >= old(self).capacity() ==> (r matches Err(Error::ShardingError(m)) && m@
                == shard_full_text(shard_id)) && final(self).shard_seq() == old(self).shard_seq(),
            shard_id < old(self).count() && old(self).shard_seq()[shard_id as int].nodes@.len()
                < old(self).capacity() ==> r is Ok && final(self).shard_seq().len() == old(self).shard_seq().len() && (forall|j: int|
                0 <= j < old(self).shard_seq().len() && j != shard_id ==> #[trigger] final(self).shard_seq()[j] == old(self).shard_seq()[j]) && final(self).shard_seq()[shard_id as int].nodes@
                == old(self).shard_seq()[shard_id as int].nodes@.push(node) && same_but_nodes(
                final(self).shard_seq()[shard_id as int],
                old(self).shard_seq()[shard_id as int],
            ),
    {
        if shard_id >= self.shard_count {
            let e = ShardingError::ShardNotFound(shard_id);
            return Err(Error::ShardingError(e.message()));
        }
        let n = self.shards.len();
        let i = shard_id as usize;
        assert(i == shard_id);
        if self.shards[i].nodes.len() >= self.nodes_per_shard {
            let mut m = "Shard ".to_owned();
            let digits = u64_text(shard_id);
            m.append(digits.as_str());
            m.append(" is full");
            let e = ShardingError::ShardLockFailed(m);
            let text = e.message();
            assert(text@ =~= shard_full_text(shard_id));
            return Err(Error::ShardingError(text));
        }
        let m = self.take();
        let ShardingManager { mut shards, shard_count, nodes_per_shard, address_to_shard, current_shard_id } = m;
        shards[i].nodes.push(node);
        *self = ShardingManager { shards, shard_count, nodes_per_shard, address_to_shard, current_shard_id };
        Ok(())
    }

    /// Records that `address` holds `amount` in `currency_type`, in the
    /// shard the address belongs to; refused when that shard does not exist.
    pub fn initialize_balance(&mut self, address: String, currency_type: CurrencyType, amount: u64) -> (r:
        Result<(), Error>)
        requires
            old(self).wf(),
            old(self).count() > 0,
        ensures
            final(self).wf(),
            final(self).routes() == old(self).routes(),
            final(self).count() == old(self).count(),
            final(self).capacity() == old(self).capacity(),
            final(self).current() == old(self).current(),
            ({
                let s = old(self).shard_of_address(address@);
                &&& s >= old(self).count() ==> (r matches Err(Error::ShardingError(m)) && m@
                    == shard_missing_text(s as u64)) && final(self).shard_seq() == old(self).shard_seq()
                &&& s < old(self).count() ==> r is Ok && final(self).shard_seq().len() == old(self).shard_seq().len() && (forall|j: int|
                    0 <= j < old(self).shard_seq().len() && j != s ==> #[trigger] final(self).shard_seq()[j] == old(self).shard_seq()[j]) && final(self).shard_seq()[s].balances@
                    == old(self).shard_seq()[s].balances@.insert(
                    (address@, currency_type@),
                    amount,
                ) && same_but_balances(final(self).shard_seq()[s], old(self).shard_seq()[s])
            }),
    {
        let shard_id = self.get_shard_for_address(address.as_str());
        if shard_id >= self.shard_count {
            let e = ShardingError::ShardNotFound(shard_id);
            return Err(Error::ShardingError(e.message()));
        }
        let n = self.shards.len();
        let i = shard_id as usize;
        assert(i == shard_id);
        let m = self.take();
        let ShardingManager { mut shards, shard_count, nodes_per_shard, address_to_shard, current_shard_id } = m;
        shards[i].balances.set(address, currency_type, amount);
        *self = ShardingManager { shards, shard_count, nodes_per_shard, address_to_shard, current_shard_id };
        Ok(())
    }

    /// What `address` holds in `currency_type`, in the shard the address
    /// belongs to: the recorded amount, or `0` (the bit pattern of 0.0) when
    /// none is recorded. Refused when that shard does not exist.
    pub fn get_balance(&self, address: String, currency_type: CurrencyType) -> (r: Result<u64, Error>)
        requires
            self.wf(),
            self.count() > 0,
        ensures
            ({
                let s = self.shard_of_address(address@);
                let k = (address@, currency_type@);
                &&& s >= self.count() ==> (r matches Err(Error::ShardingError(m)) && m@
                    == shard_missing_text(s as u64))
                &&& s < self.count() ==> r == Ok::<u64, Error>(
                    if self.shard_seq()[s].balances@.contains_key(k) {
                        self.shard_seq()[s].balances@[k]
                    } else {
                        0u64
                    },
                )
            }),
    {
        let shard_id = self.get_shard_for_address(address.as_str());
        if shard_id >= self.shard_count {
            let e = ShardingError::ShardNotFound(shard_id);
            return Err(Error::ShardingError(e.message()));
        }
        let n = self.shards.len();
        let i = shard_id as usize;
        assert(i == shard_id);
        match self.shards[i].balances.get(&address, &currency_type) {
            Some(b) => Ok(b),
            None => Ok(0),
        }
    }

    /// Records that `address` holds `amount` of `currency_type` in shard
    /// `shard_id`; refused when there is no such shard.
    pub fn set_shard_balance(&mut self, shard_id: u64, address: String, currency_type: CurrencyType, amount: u64) -> (r:
        Result<(), Error>)
        requires
            old(self).wf(),
        ensures
            final(self).wf(),
            final(self).routes() == old(self).routes(),
            final(self).count() == old(self).count(),
            final(self).capacity() == old(self).capacity(),
            final(self).current() == old(self).current(),
            shard_id >= old(self).count() ==> (r matches Err(Error::ShardingError(m)) && m@
                == shard_missing_text(shard_id)) && final(self).shard_seq() == old(self).shard_seq(),
            shard_id < old(self).count() ==> r is Ok && final(self).shard_seq().len() == old(self).shard_seq().len() && (forall|j: int|
                0 <= j < old(self).shard_seq().len() && j != shard_id ==> #[trigger] final(self).shard_seq()[j] == old(self).shard_seq()[j]) && final(self).shard_seq()[shard_id as int].balances@
                == old(self).shard_seq()[shard_id as int].balances@.insert(
                (address@, currency_type@),
                amount,
            ) && same_but_balances(
                final(self).shard_seq()[shard_id as int],
                old(self).shard_seq()[shard_id as int],
            ),
    {
        if shard_id >= self.shard_count {
            let e = ShardingError::ShardNotFound(shard_id);
            return Err(Error::ShardingError(e.message()));
        }
        let n = self.shards.len();
        let i = shard_id as usize;
        assert(i == shard_id);
        let m = self.take();
        let ShardingManager { mut shards, shard_count, nodes_per_shard, address_to_shard, current_shard_id } = m;
        shards[i].balances.set(address, currency_type, amount);
        *self = ShardingManager { shards, shard_count, nodes_per_shard, address_to_shard, current_shard_id };
        Ok(())
    }

    /// Records that `amount` of `address`'s `currency_type` is locked in
    /// shard `shard_id`, or with `None` that nothing is; refused when there
    /// is no such shard.
    pub fn set_locked_funds(
        &mut self,
        shard_id: u64,
        address: String,
        currency_type: CurrencyType,
        amount: Option<u64>,
    ) -> (r: Result<(), Error>)
        requires
            old(self).wf(),
        ensures
            final(self).wf(),
            final(self).routes() == old(self).routes(),
            final(self).count() == old(self).count(),
            final(self).capacity() == old(self).capacity(),
            final(self).current() == old(self).current(),
            shard_id >= old(self).count() ==> (r matches Err(Error::ShardingError(m)) && m@
                == shard_missing_text(shard_id)) && final(self).shard_seq() == old(self).shard_seq(),
            shard_id < old(self).count() ==> r is Ok && final(self).shard_seq().len() == old(self).shard_seq().len() && (forall|j: int|
                0 <= j < old(self).shard_seq().len() && j != shard_id ==> #[trigger] final(self).shard_seq()[j] == old(self).shard_seq()[j]) && final(self).shard_seq()[shard_id as int].locked_funds@
                == match amount {
                Some(a) => old(self).shard_seq()[shard_id as int].locked_funds@.insert(
                    (address@, currency_type@),
                    a,
                ),
                None => old(self).shard_seq()[shard_id as int].locked_funds@.remove(
                    (address@, currency_type@),
                ),
            } && final(self).shard_seq()[shard_id as int].balances == old(self).shard_seq()[shard_id as int].balances && final(self).shard_seq()[shard_id as int].id
                == old(self).shard_seq()[shard_id as int].id,
    {
        if shard_id >= self.shard_count {
            let e = ShardingError::ShardNotFound(shard_id);
            return Err(Error::ShardingError(e.message()));
        }
        let n = self.shards.len();
        let i = shard_id as usize;
        assert(i == shard_id);
        let m = self.take();
        let ShardingManager { mut shards, shard_count, nodes_per_shard, address_to_shard, current_shard_id } = m;
        match amount {
            Some(a) => shards[i].locked_funds.set(address, currency_type, a),
            None => shards[i].locked_funds.remove(&address, &currency_type),
        }
        *self = ShardingManager { shards, shard_count, nodes_per_shard, address_to_shard, current_shard_id };
        Ok(())
    }

    /// What `verify_transaction` answers once the signature has been looked
    /// at: `signature_check` is `None` where the transaction carries no key
    /// or no signature or one of them does not parse, and `Some(v)` where
    /// the signature was checked against the key and the check answered `v`.
    pub fn transaction_verdict(
        &self,
        shard: &Shard,
        transaction: &Transaction,
        balance_covers_amount: bool,
        signature_check: Option<bool>,
    ) -> (ok: bool)
        ensures
            ok == (shard.balances@.contains_key((transaction.from@, transaction.currency_type@))
                && balance_covers_amount && signature_check == Some(true)),
    {
        match shard.balances.get(&transaction.from, &transaction.currency_type) {
            None => false,
            Some(_) => balance_covers_amount && matches!(signature_check, Some(true)),
        }
    }

    /// Checks a transaction against `shard`: the sender must hold a balance
    /// in its currency that covers the amount (`balance_covers_amount`, the
    /// caller's comparison of the two binary64 numbers), and it must carry a
    /// public key and a signature that parse and under which `message` (the
    /// bytes the transaction is signed as) verifies. The signature is looked
    /// at only where the balance passes.
    pub fn verify_transaction(
        &self,
        shard: &Shard,
        transaction: &Transaction,
        balance_covers_amount: bool,
        message: &[u8],
    ) -> (ok: bool)
        ensures
            ok == (shard.balances@.contains_key((transaction.from@, transaction.currency_type@))
                && balance_covers_amount && transaction_signature_valid(*transaction, message@)),
    {
        if shard.balances.get(&transaction.from, &transaction.currency_type).is_none() || !balance_covers_amount {
            return false;
        }
        let signature_check = check_signature(transaction, message);
        self.transaction_verdict(shard, transaction, balance_covers_amount, signature_check)
    }
}

/// Checks the transaction's signature over `message` under its public key:
/// `None` where either is missing or does not parse, else whether the
/// signature verifies.
fn check_signature(transaction: &Transaction, message: &[u8]) -> (c: Option<bool>)
    ensures
        c is Some <==> signature_checkable(*transaction),
        c matches Some(b) ==> b == ed25519_verifies(
            transaction.public_key.unwrap()@,
            message@,
            transaction.signature.unwrap()@,
        ),
        (c == Some(true)) == transaction_signature_valid(*transaction, message@),
{
    match (&transaction.public_key, &transaction.signature) {
        (Some(key_bytes), Some(signature_bytes)) => {
            match ed25519_verify(key_bytes.as_slice(), message, signature_bytes.as_slice()) {
                Ok(b) => Some(b),
                Err(_) => None,
            }
        },
        _ => None,
    }
}

impl ShardingManager {
    /// Every address and every piece of data belongs to an existing shard,
    /// unless the address was put in one that does not exist; an address
    /// put in a shard belongs to it.
    pub proof fn lemma_routing(&self, address: Seq<char>, data: Seq<u8>)
        requires
            self.count() > 0,
        ensures
            0 <= data_hash(data) % (self.count() as int) < self.count(),
            self.routes().contains_key(address) ==> self.shard_of_address(address) == self.routes()[address],
            !self.routes().contains_key(address) ==> 0 <= self.shard_of_address(address) < self.count(),
    {
    }

    /// An address with no route of its own goes where its UTF-8 bytes go as
    /// data: `get_shard_for_address` and `get_shard_for_data` on those bytes
    /// agree, both being the first eight bytes of the SHA-256 digest, read
    /// least significant first, modulo the number of shards. An address
    /// put in a shard goes there, whatever its bytes hash to.
    pub proof fn lemma_unrouted_address_follows_its_bytes(&self, address: Seq<char>)
        requires
            self.count() > 0,
        ensures
            !self.routes().contains_key(address) ==> self.shard_of_address(address) == data_hash(
                vstd::utf8::encode_utf8(address),
            ) % (self.count() as int),
            !self.routes().contains_key(address) ==> self.shard_of_address(address) == (sha256_of(
                vstd::utf8::encode_utf8(address),
            )[0] + 0x100 * sha256_of(vstd::utf8::encode_utf8(address))[1] + 0x1_0000 * sha256_of(
                vstd::utf8::encode_utf8(address),
            )[2] + 0x100_0000 * sha256_of(vstd::utf8::encode_utf8(address))[3] + 0x1_0000_0000
                * sha256_of(vstd::utf8::encode_utf8(address))[4] + 0x100_0000_0000 * sha256_of(
                vstd::utf8::encode_utf8(address),
            )[5] + 0x1_0000_0000_0000 * sha256_of(vstd::utf8::encode_utf8(address))[6]
                + 0x100_0000_0000_0000 * sha256_of(vstd::utf8::encode_utf8(address))[7]) % (self.count() as int),
            self.routes().contains_key(address) ==> self.shard_of_address(address) == self.routes()[address],
    {
    }

    /// What is recorded as a balance is read back: after `initialize_balance`
    /// the address's shard holds the amount for the address and currency.
    pub proof fn lemma_balance_read_back(
        before: Self,
        after: Self,
        address: Seq<char>,
        currency: CurrencyTypeV,
        amount: u64,
    )
        requires
            before.count() > 0,
            after.routes() == before.routes(),
            after.count() == before.count(),
            before.shard_of_address(address) < before.count(),
            after.shard_seq()[before.shard_of_address(address)].balances@ == before.shard_seq()[before.shard_of_address(
                address,
            )].balances@.insert((address, currency), amount),
        ensures
            after.shard_of_address(address) == before.shard_of_address(address),
            after.shard_seq()[after.shard_of_address(address)].balances@.contains_key((address, currency)),
            after.shard_seq()[after.shard_of_address(address)].balances@[(address, currency)] == amount,
    {
    }
}

} // verus!
