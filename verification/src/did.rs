//! Decentralized identities: an Ed25519 public key, the id derived from it,
//! a reputation and free-form attributes, kept by a registry.
use vstd::prelude::*;
use crate::clock::unix_micros_now;
use crate::crypto::{ed25519_point_decompresses, ed25519_verify, hex_encode, hex_text, pair_ok, signature_valid, KeyPair};
use crate::string_map::StringMap;

verus! {

/// The bit pattern of the binary64 number 1.0, the reputation an identity starts with.
pub const INITIAL_REPUTATION: u64 = 0x3ff0_0000_0000_0000u64;

/// The id of the identity whose public key has bytes `key`: `did:icn:` and the key in hex.
pub open spec fn did_text(key: Seq<u8>) -> Seq<char> {
    "did:icn:"@ + hex_text(key)
}

/// A decentralized identity.
#[derive(Debug, Clone)]
pub struct DecentralizedIdentity {
    pub id: String,
    /// The Ed25519 public key, as its 32 bytes.
    pub public_key: Vec<u8>,
    /// When it was made, in Unix microseconds.
    pub created_at: i64,
    /// Its standing, as the bit pattern of a binary64 number.
    pub reputation: u64,
    pub attributes: StringMap<String>,
}

/// The id of the identity whose public key has the bytes `key`.
pub fn did_for_key(key: &[u8]) -> (id: String)
    ensures
        id@ == did_text(key@),
{
    let hex = hex_encode(key);
    let mut id = "did:icn:".to_owned();
    id.append(hex.as_str());
    id
}

impl DecentralizedIdentity {
    /// The identity of the public half of `keypair`, made at `now`, with the
    /// starting reputation.
    pub fn from_keypair(keypair: &KeyPair, attributes: StringMap<String>, now: i64) -> (d: Self)
        ensures
            d.public_key@ == keypair@.subrange(32, 64),
            d.public_key@.len() == 32,
            ed25519_point_decompresses(d.public_key@),
            d.id@ == did_text(d.public_key@),
            d.created_at == now,
            d.reputation == INITIAL_REPUTATION,
            d.attributes == attributes,
    {
        let public_key = keypair.public_key();
        let id = did_for_key(public_key.as_slice());
        DecentralizedIdentity {
            id,
            public_key,
            created_at: now,
            reputation: INITIAL_REPUTATION,
            attributes,
        }
    }

    /// A fresh identity with a newly generated key pair, made now; the key
    /// pair is handed back beside it, and its public half is the identity's key.
    pub fn new(attributes: StringMap<String>) -> (r: (Self, KeyPair))
        ensures
            pair_ok(r.1@),
            r.0.public_key@ == r.1@.subrange(32, 64),
            r.0.public_key@.len() == 32,
            ed25519_point_decompresses(r.0.public_key@),
            r.0.id@ == did_text(r.0.public_key@),
            r.0.reputation == INITIAL_REPUTATION,
            r.0.attributes == attributes,
    {
        let keypair = KeyPair::generate();
        let now = unix_micros_now();
        let did = Self::from_keypair(&keypair, attributes, now);
        (did, keypair)
    }

    /// Whether `signature` (its 64 bytes) is a valid signature of `message`
    /// under the identity's public key.
    pub fn verify_signature(&self, message: &[u8], signature: &[u8]) -> (ok: bool)
        ensures
            ok == signature_valid(self.public_key@, message@, signature@),
    {
        match ed25519_verify(self.public_key.as_slice(), message, signature) {
            Ok(b) => b,
            Err(_) => false,
        }
    }
}

/// `d` with reputation `reputation`.
pub open spec fn with_reputation(d: DecentralizedIdentity, reputation: u64) -> DecentralizedIdentity {
    DecentralizedIdentity { reputation: reputation, ..d }
}

/// The two identities agree in everything but their attributes.
pub open spec fn same_but_attributes(a: DecentralizedIdentity, b: DecentralizedIdentity) -> bool {
    &&& a.id == b.id
    &&& a.public_key == b.public_key
    &&& a.created_at == b.created_at
    &&& a.reputation == b.reputation
}

/// The registry of identities, each filed under its id.
pub struct DidManager {
    identities: StringMap<DecentralizedIdentity>,
}

impl DidManager {
    /// The identities, by id.
    pub closed spec fn dids(&self) -> Map<Seq<char>, DecentralizedIdentity> {
        self.identities@
    }

    /// Each identity is filed under its id.
    pub closed spec fn wf(&self) -> bool {
        &&& self.identities.wf()
        &&& forall|k: Seq<char>| #[trigger] self.identities@.contains_key(k) ==> self.identities@[k].id@ == k
        &&& forall|k: Seq<char>| #[trigger] self.identities@.contains_key(k) ==> self.identities@[k].attributes.wf()
    }

    /// An empty registry.
    pub fn new() -> (m: Self)
        ensures
            m.wf(),
            m.dids() == Map::<Seq<char>, DecentralizedIdentity>::empty(),
    {
        DidManager { identities: StringMap::new() }
    }

    /// Files `did` under its id; refused, with nothing changed, when the id is taken.
    pub fn register_did(&mut self, did: DecentralizedIdentity) -> (r: Result<(), String>)
        requires
            old(self).wf(),
            did.attributes.wf(),
        ensures
            final(self).wf(),
            old(self).dids().contains_key(did.id@) ==> (r matches Err(e) && e@ == "DiD already exists"@)
                && final(self).dids() == old(self).dids(),
            !old(self).dids().contains_key(did.id@) ==> r is Ok && final(self).dids() == old(self).dids().insert(did.id@, did),
    {
        if self.identities.contains_key(&did.id) {
            return Err("DiD already exists".to_owned());
        }
        let id = did.id.clone();
        self.identities.insert(id, did);
        Ok(())
    }

    /// The identity filed under `id`, if any.
    pub fn get_did(&self, id: &str) -> (r: Option<&DecentralizedIdentity>)
        requires
            self.wf(),
        ensures
            r.is_some() == self.dids().contains_key(id@),
            r matches Some(d) ==> *d == self.dids()[id@],
    {
        let key = id.to_owned();
        self.identities.get(&key)
    }

    /// Sets the reputation of the identity filed under `id`; refused when
    /// there is none.
    pub fn set_reputation(&mut self, id: &str, reputation: u64) -> (r: Result<(), String>)
        requires
            old(self).wf(),
        ensures
            final(self).wf(),
            !old(self).dids().contains_key(id@) ==> (r matches Err(e) && e@ == "DiD not found"@)
                && final(self).dids() == old(self).dids(),
            old(self).dids().contains_key(id@) ==> r is Ok && final(self).dids() == old(self).dids().insert(id@, with_reputation(old(self).dids()[id@], reputation)),
    {
        let key = id.to_owned();
        match self.identities.remove(&key) {
            None => Err("DiD not found".to_owned()),
            Some(mut did) => {
                did.reputation = reputation;
                self.identities.insert(key, did);
                proof {
                    assert forall|k: Seq<char>| #[trigger] self.identities@.contains_key(k)
                        implies self.identities@[k].id@ == k && self.identities@[k].attributes.wf() by {
                        if k != id@ {
                            assert(old(self).identities@.contains_key(k));
                        }
                    }
                }
                Ok(())
            },
        }
    }

    /// Whether `signature` is a valid signature of `message` under the key of
    /// the identity filed under `id`; never for an unknown id.
    pub fn verify_identity(&self, id: &str, message: &[u8], signature: &[u8]) -> (ok: bool)
        requires
            self.wf(),
        ensures
            !self.dids().contains_key(id@) ==> !ok,
            self.dids().contains_key(id@) ==> ok == signature_valid(self.dids()[id@].public_key@, message@, signature@),
    {
        match self.get_did(id) {
            Some(did) => did.verify_signature(message, signature),
            None => false,
        }
    }

    /// Adds `attributes` to those of the identity filed under `id`, the new
    /// values winning; refused when there is none.
    pub fn update_attributes(&mut self, id: &str, attributes: StringMap<String>) -> (r: Result<
        (),
        String,
    >)
        requires
            old(self).wf(),
            attributes.wf(),
        ensures
            final(self).wf(),
            !old(self).dids().contains_key(id@) ==> (r matches Err(e) && e@ == "DiD not found"@)
                && final(self).dids() == old(self).dids(),
            old(self).dids().contains_key(id@) ==> r is Ok && final(self).dids().dom() == old(self).dids().dom() && (forall|k: Seq<char>|
                k != id@ && #[trigger] old(self).dids().contains_key(k) ==> final(self).dids()[k]
                    == old(self).dids()[k]) && final(self).dids()[id@].attributes@ == old(self).dids()[id@].attributes@.union_prefer_right(attributes@) && same_but_attributes(
                final(self).dids()[id@],
                old(self).dids()[id@],
            ),
    {
        let key = id.to_owned();
        match self.identities.remove(&key) {
            None => Err("DiD not found".to_owned()),
            Some(mut did) => {
                let ghost before = did;
                let ghost start = did.attributes@;
                let n = attributes.len();
                let mut i: usize = 0;
                while i < n
                    invariant
                        n == attributes.key_seq().len(),
                        attributes.wf(),
                        i <= n,
                        did.attributes.wf(),
                        same_but_attributes(did, before),
                        did.attributes@ == start.union_prefer_right(
                            attributes@.restrict(attributes.key_seq().subrange(0, i as int).to_set()),
                        ),
                    decreases n - i,
                {
                    proof {
                        attributes.lemma_key_seq();
                        attributes.lemma_entry(i as int);
                    }
                    let k = attributes.key_at(i).clone();
                    let v = attributes.value_at(i).clone();
                    let ghost kk = k@;
                    did.attributes.insert(k, v);
                    proof {
                        let ks = attributes.key_seq();
                        assert(ks.subrange(0, i + 1).to_set() =~= ks.subrange(0, i as int).to_set().insert(kk)) by {
                            assert(ks.subrange(0, i + 1) =~= ks.subrange(0, i as int).push(kk));
                            ks.subrange(0, i as int).lemma_push_to_set_commute(kk);
                        }
                        assert(did.attributes@ =~= start.union_prefer_right(
                            attributes@.restrict(ks.subrange(0, i + 1).to_set()),
                        ));
                    }
                    i = i + 1;
                }
                proof {
                    attributes.lemma_len();
                    assert(attributes.key_seq().subrange(0, n as int) =~= attributes.key_seq());
                    assert(attributes@.restrict(attributes.key_seq().to_set()) =~= attributes@);
                }
                self.identities.insert(key, did);
                proof {
                    assert forall|k: Seq<char>| #[trigger] self.identities@.contains_key(k)
                        implies self.identities@[k].id@ == k && self.identities@[k].attributes.wf() by {
                        if k != id@ {
                            assert(old(self).identities@.contains_key(k));
                        }
                    }
                    assert(self.dids().dom() =~= old(self).dids().dom());
                }
                Ok(())
            },
        }
    }

    /// Removes the identity filed under `id`; refused when there is none.
    pub fn revoke_did(&mut self, id: &str) -> (r: Result<(), String>)
        requires
            old(self).wf(),
        ensures
            final(self).wf(),
            final(self).dids() == old(self).dids().remove(id@),
            old(self).dids().contains_key(id@) <==> r is Ok,
            r matches Err(e) ==> e@ == "DiD not found"@,
    {
        let key = id.to_owned();
        let removed = self.identities.remove(&key);
        proof {
            assert forall|k: Seq<char>| #[trigger] self.identities@.contains_key(k)
                implies self.identities@[k].id@ == k && self.identities@[k].attributes.wf() by {
                assert(old(self).identities@.contains_key(k));
            }
        }
        if removed.is_some() {
            Ok(())
        } else {
            Err("DiD not found".to_owned())
        }
    }

    /// The ids of the registered identities, each once.
    pub fn list_dids(&self) -> (ids: Vec<String>)
        requires
            self.wf(),
        ensures
            ids@.len() == self.dids().len(),
            ids@.map_values(|s: String| s@).no_duplicates(),
            ids@.map_values(|s: String| s@).to_set() == self.dids().dom(),
    {
        let n = self.identities.len();
        let mut ids: Vec<String> = Vec::new();
        let mut i: usize = 0;
        while i < n
            invariant
                n == self.identities.key_seq().len(),
                i <= n,
                ids@.map_values(|s: String| s@) == self.identities.key_seq().subrange(0, i as int),
            decreases n - i,
        {
            let k = self.identities.key_at(i).clone();
            let ghost before = ids@;
            ids.push(k);
            proof {
                assert(ids@.map_values(|s: String| s@) =~= before.map_values(|s: String| s@).push(
                    self.identities.key_seq()[i as int],
                ));
                assert(ids@.map_values(|s: String| s@) =~= self.identities.key_seq().subrange(0, i + 1));
            }
            i = i + 1;
        }
        proof {
            self.identities.lemma_len();
            assert(self.identities.key_seq().subrange(0, n as int) =~= self.identities.key_seq());
        }
        ids
    }
}

/// An id is registered at most once: a registration under an id in use is
/// refused, and once the id is revoked it can be registered again.
pub proof fn lemma_register_revoke_register(
    before: Map<Seq<char>, DecentralizedIdentity>,
    registered: Map<Seq<char>, DecentralizedIdentity>,
    revoked: Map<Seq<char>, DecentralizedIdentity>,
    did: DecentralizedIdentity,
)
    requires
        !before.contains_key(did.id@),
        registered == before.insert(did.id@, did),
        revoked == registered.remove(did.id@),
    ensures
        registered.contains_key(did.id@) && registered[did.id@] == did,
        !revoked.contains_key(did.id@),
        revoked == before,
{
    assert(revoked =~= before);
}

/// What the key pair of an identity signs verifies under the identity:
/// a signature valid under the pair's public half is valid under the
/// identity's key, so `verify_signature` accepts it.
pub proof fn lemma_own_signature_verifies(
    d: DecentralizedIdentity,
    pair: Seq<u8>,
    message: Seq<u8>,
    signature: Seq<u8>,
)
    requires
        d.public_key@ == pair.subrange(32, 64),
        signature_valid(pair.subrange(32, 64), message, signature),
    ensures
        signature_valid(d.public_key@, message, signature),
{
}

} // verus!
