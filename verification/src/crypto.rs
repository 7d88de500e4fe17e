//! Digests, hex text and Ed25519 keys and signatures, as the rest of the
//! library uses them.
use vstd::prelude::*;
use ed25519_dalek::{Keypair, PublicKey, SecretKey, Signature, Signer, Verifier};
use sha2::{Digest, Sha256};

verus! {

/// The SHA-256 digest of `data`.
pub uninterp spec fn sha256_of(data: Seq<u8>) -> Seq<u8>;

/// Calls `sha2::Sha256::digest`: the digest of `data`, which is 32 bytes long.
#[verifier::external_body]
pub(crate) fn sha256(data: &[u8]) -> (h: Vec<u8>)
    ensures
        h@ == sha256_of(data@),
        h@.len() == 32,
{
    Sha256::digest(data).to_vec()
}

/// The lowercase hex digit of a number below 16.
pub open spec fn hex_digit(n: u8) -> char {
    if n < 10 {
        (('0' as int) + n) as char
    } else {
        (('a' as int) + n - 10) as char
    }
}

/// `bytes` in lowercase hex, two digits per byte, high half first.
pub open spec fn hex_text(bytes: Seq<u8>) -> Seq<char>
    decreases bytes.len(),
{
    if bytes.len() == 0 {
        Seq::empty()
    } else {
        hex_text(bytes.drop_last()) + seq![
            hex_digit(bytes.last() / 16),
            hex_digit(bytes.last() % 16),
        ]
    }
}

/// Calls `hex::encode`, which writes each byte as two lowercase hex digits,
/// the high half first.
#[verifier::external_body]
pub(crate) fn hex_encode(bytes: &[u8]) -> (s: String)
    ensures
        s@ == hex_text(bytes@),
{
    hex::encode(bytes)
}

/// Whether the 32 bytes `bytes` are the compressed Edwards-Y form of a
/// point on the curve, as `CompressedEdwardsY::decompress` decides it
/// (what `ed25519_dalek::PublicKey::from_bytes` asks of its input).
pub uninterp spec fn ed25519_point_decompresses(bytes: Seq<u8>) -> bool;

/// Whether `ed25519::Signature::from_bytes` accepts `bytes`: 64 bytes whose
/// last byte has its three highest bits clear.
pub open spec fn signature_bytes_ok(bytes: Seq<u8>) -> bool {
    bytes.len() == 64 && bytes[63] & 0xe0u8 == 0
}

/// Whether `Verifier::verify` of `ed25519_dalek::PublicKey` accepts the
/// signature with bytes `signature` of `message` under the key with bytes
/// `key` (both of which parse).
pub uninterp spec fn ed25519_verifies(key: Seq<u8>, message: Seq<u8>, signature: Seq<u8>) -> bool;

/// The bytes of the signature that `Signer::sign` of the key pair with
/// bytes `keypair` (secret key, then public key) makes of `message`.
pub uninterp spec fn ed25519_signature_of(keypair: Seq<u8>, message: Seq<u8>) -> Seq<u8>;

/// Whether `signature` is a valid Ed25519 signature of `message` under the
/// public key with bytes `key`: both parse and the signature verifies.
pub open spec fn signature_valid(key: Seq<u8>, message: Seq<u8>, signature: Seq<u8>) -> bool {
    &&& key.len() == 32
    &&& ed25519_point_decompresses(key)
    &&& signature_bytes_ok(signature)
    &&& ed25519_verifies(key, message, signature)
}

/// Parses `key` with `ed25519_dalek::PublicKey::from_bytes` and `signature`
/// with `ed25519::Signature::from_bytes`, in that order, and checks the
/// signature of `message` with `Verifier::verify`. A parse failure is
/// handed back as the text of its `SignatureError`, which is not stated.
#[verifier::external_body]
pub(crate) fn ed25519_verify(key: &[u8], message: &[u8], signature: &[u8]) -> (r: Result<bool, String>)
    ensures
        r is Ok <==> (key@.len() == 32 && ed25519_point_decompresses(key@) && signature_bytes_ok(signature@)),
        r matches Ok(b) ==> b == ed25519_verifies(key@, message@, signature@),
{
    let k = PublicKey::from_bytes(key).map_err(|e| e.to_string())?;
    let g = Signature::from_bytes(signature).map_err(|e| e.to_string())?;
    Ok(k.verify(message, &g).is_ok())
}

/// The 32 bytes of the public key that `ed25519_dalek::PublicKey::from`
/// derives from the secret key with bytes `secret`.
pub uninterp spec fn ed25519_public_of(secret: Seq<u8>) -> Seq<u8>;

/// Whether `bytes` are a key pair whose halves belong together: a 32-byte
/// secret key followed by the public key derived from it (a compressed
/// curve point, which decompresses).
pub open spec fn pair_ok(bytes: Seq<u8>) -> bool {
    &&& bytes.len() == 64
    &&& bytes.subrange(32, 64) == ed25519_public_of(bytes.subrange(0, 32))
    &&& ed25519_point_decompresses(bytes.subrange(32, 64))
}

/// Calls `ed25519_dalek::SecretKey::from_bytes` (which takes any 32 bytes)
/// and derives the public key with `PublicKey::from`; its 32 bytes. The
/// key is the compression of a curve point, so it decompresses.
#[verifier::external_body]
fn ed25519_public_key_of(secret: &[u8]) -> (p: Vec<u8>)
    requires
        secret@.len() == 32,
    ensures
        p@ == ed25519_public_of(secret@),
        p@.len() == 32,
        ed25519_point_decompresses(p@),
{
    match SecretKey::from_bytes(secret) {
        Ok(k) => PublicKey::from(&k).to_bytes().to_vec(),
        Err(_) => Vec::new(),
    }
}

/// Calls `ed25519_dalek::Keypair::generate` with the operating system's
/// random source and writes the pair out with `Keypair::to_bytes`: the
/// secret key, then the public key `generate` derives from it. The key is
/// random, so nothing more is promised of it.
#[verifier::external_body]
fn generate_keypair_bytes() -> (b: Vec<u8>)
    ensures
        pair_ok(b@),
{
    Keypair::generate(&mut rand::rngs::OsRng {}).to_bytes().to_vec()
}

/// Rebuilds the key pair with bytes `keypair` through
/// `ed25519_dalek::Keypair::from_bytes` and signs `message` with
/// `Signer::sign`; the signature's 64 bytes. For a pair whose halves belong
/// together, the signature is valid under the public half, as Ed25519
/// promises (and its scalar is reduced, so its last byte has the three
/// highest bits clear).
#[verifier::external_body]
fn ed25519_sign(keypair: &[u8], message: &[u8]) -> (s: Vec<u8>)
    requires
        pair_ok(keypair@),
    ensures
        s@ == ed25519_signature_of(keypair@, message@),
        signature_valid(keypair@.subrange(32, 64), message@, s@),
{
    match Keypair::from_bytes(keypair) {
        Ok(k) => k.sign(message).to_bytes().to_vec(),
        Err(_) => Vec::new(),
    }
}

/// Whether `a` and `b` hold the same bytes.
fn same_bytes(a: &[u8], b: &[u8]) -> (r: bool)
    ensures
        r == (a@ == b@),
{
    if a.len() != b.len() {
        return false;
    }
    let mut i: usize = 0;
    while i < a.len()
        invariant
            a@.len() == b@.len(),
            i <= a@.len(),
            forall|j: int| 0 <= j < i ==> a@[j] == b@[j],
        decreases a@.len() - i,
    {
        if a[i] != b[i] {
            return false;
        }
        i = i + 1;
    }
    assert(a@ =~= b@);
    true
}

/// An Ed25519 key pair held as its 64 bytes: the secret key, then the
/// public key derived from it.
#[derive(Debug)]
pub struct KeyPair {
    bytes: Vec<u8>,
}

impl View for KeyPair {
    type V = Seq<u8>;

    closed spec fn view(&self) -> Seq<u8> {
        self.bytes@
    }
}

impl KeyPair {
    /// The two halves belong together.
    #[verifier::type_invariant]
    spec fn halves_belong_together(&self) -> bool {
        pair_ok(self.bytes@)
    }

    /// A fresh key pair from the operating system's random source.
    pub fn generate() -> (k: KeyPair)
        ensures
            pair_ok(k@),
    {
        KeyPair { bytes: generate_keypair_bytes() }
    }

    /// The key pair with bytes `bytes`, when they are a secret key followed
    /// by its public key.
    pub fn from_bytes(bytes: &[u8]) -> (r: Option<KeyPair>)
        ensures
            r is Some <==> pair_ok(bytes@),
            r matches Some(k) ==> k@ == bytes@,
    {
        if bytes.len() != 64 {
            return None;
        }
        let secret = byte_range(bytes, 0, 32);
        let public = byte_range(bytes, 32, 64);
        let derived = ed25519_public_key_of(secret.as_slice());
        if !same_bytes(derived.as_slice(), public.as_slice()) {
            return None;
        }
        let all = byte_range(bytes, 0, 64);
        assert(bytes@.subrange(0, 64) =~= bytes@);
        Some(KeyPair { bytes: all })
    }

    /// The 64 bytes of the pair.
    pub fn to_bytes(&self) -> (b: Vec<u8>)
        ensures
            b@ == self@,
            pair_ok(self@),
    {
        proof {
            use_type_invariant(self);
        }
        let b = byte_range(self.bytes.as_slice(), 0, 64);
        assert(self.bytes@.subrange(0, 64) =~= self.bytes@);
        b
    }

    /// The 32 bytes of the public key.
    pub fn public_key(&self) -> (p: Vec<u8>)
        ensures
            p@ == self@.subrange(32, 64),
            pair_ok(self@),
    {
        proof {
            use_type_invariant(self);
        }
        byte_range(self.bytes.as_slice(), 32, 64)
    }

    /// The Ed25519 signature of `message` under this pair; it is valid under
    /// the pair's public key.
    pub fn sign(&self, message: &[u8]) -> (s: Vec<u8>)
        ensures
            s@ == ed25519_signature_of(self@, message@),
            signature_valid(self@.subrange(32, 64), message@, s@),
            pair_ok(self@),
    {
        proof {
            use_type_invariant(self);
        }
        ed25519_sign(self.bytes.as_slice(), message)
    }
}

/// The bytes `from..to` of `bytes`.
pub fn byte_range(bytes: &[u8], from: usize, to: usize) -> (r: Vec<u8>)
    requires
        from <= to <= bytes@.len(),
    ensures
        r@ == bytes@.subrange(from as int, to as int),
{
    let mut r: Vec<u8> = Vec::new();
    let mut i = from;
    while i < to
        invariant
            from <= i <= to <= bytes@.len(),
            r@ == bytes@.subrange(from as int, i as int),
        decreases to - i,
    {
        r.push(bytes[i]);
        i = i + 1;
    }
    r
}

/// Checks a signature given as optional raw bytes: refused without a key
/// (`No public key present`) or without a signature (`No signature
/// present`), and with the parser's complaint when the key or the
/// signature does not parse; otherwise whether the signature of `message`
/// verifies under the key.
pub fn verify_signature_bytes(public_key: &Option<Vec<u8>>, signature: &Option<Vec<u8>>, message: &[u8]) -> (r:
    Result<bool, String>)
    ensures
        public_key is None ==> (r matches Err(e) && e@ == "No public key present"@),
        public_key is Some && signature is None ==> (r matches Err(e) && e@ == "No signature present"@),
        public_key is Some && signature is Some ==> (r is Ok <==> (public_key.unwrap()@.len() == 32
            && ed25519_point_decompresses(public_key.unwrap()@) && signature_bytes_ok(
            signature.unwrap()@,
        ))),
        r matches Ok(b) ==> public_key is Some && signature is Some && b == ed25519_verifies(
            public_key.unwrap()@,
            message@,
            signature.unwrap()@,
        ),
{
    let key = match public_key {
        Some(k) => k,
        None => {
            return Err("No public key present".to_owned());
        },
    };
    let sig = match signature {
        Some(g) => g,
        None => {
            return Err("No signature present".to_owned());
        },
    };
    ed25519_verify(key.as_slice(), message, sig.as_slice())
}

} // verus!
