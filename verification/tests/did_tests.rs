use ed25519_dalek::Signer;
use icn_core::crypto::KeyPair;
use icn_core::did::{did_for_key, DecentralizedIdentity, DidManager, INITIAL_REPUTATION};
use icn_core::string_map::StringMap;

fn attributes(pairs: &[(&str, &str)]) -> StringMap<String> {
    let mut m = StringMap::new();
    for (k, v) in pairs {
        m.insert(k.to_string(), v.to_string());
    }
    m
}

/// What the node does with a reputation change: add it and hold the result to 0..=100.
fn adjusted(bits: u64, delta: f64) -> u64 {
    (f64::from_bits(bits) + delta).max(0.0).min(100.0).to_bits()
}

#[test]
fn did_test_did_creation_and_verification() {
    let attrs = attributes(&[("name", "Alice")]);
    let (did, keypair) = DecentralizedIdentity::new(attrs);

    assert!(did.id.starts_with("did:icn:"));
    assert_eq!(did.attributes.get(&"name".to_string()), Some(&"Alice".to_string()));

    let message = b"Hello, World!";
    let signature = keypair.sign(message);

    assert!(did.verify_signature(message, &signature));
    assert_eq!(did.public_key, keypair.public_key());
}

#[test]
fn did_test_did_manager() {
    let mut manager = DidManager::new();

    let attrs = attributes(&[("name", "Bob")]);
    let (did, _) = DecentralizedIdentity::new(attrs);

    assert!(manager.register_did(did.clone()).is_ok());
    assert!(manager.register_did(did.clone()).is_err());

    let retrieved_did = manager.get_did(&did.id).unwrap();
    assert_eq!(retrieved_did.attributes.get(&"name".to_string()), Some(&"Bob".to_string()));

    let bits = adjusted(retrieved_did.reputation, 5.0);
    assert!(manager.set_reputation(&did.id, bits).is_ok());
    let updated_did = manager.get_did(&did.id).unwrap();
    assert_eq!(f64::from_bits(updated_did.reputation), 6.0);

    let new_attributes = attributes(&[("age", "30")]);
    assert!(manager.update_attributes(&did.id, new_attributes).is_ok());

    let final_did = manager.get_did(&did.id).unwrap();
    assert_eq!(final_did.attributes.get(&"age".to_string()), Some(&"30".to_string()));

    assert!(manager.revoke_did(&did.id).is_ok());
    assert!(manager.get_did(&did.id).is_none());
}

#[test]
fn did_id_is_hex_of_public_key() {
    let (did, keypair) = DecentralizedIdentity::new(StringMap::new());
    let expected = format!("did:icn:{}", hex::encode(keypair.public_key()));
    assert_eq!(did.id, expected);
    assert_eq!(did.id.len(), "did:icn:".len() + 64);
    assert_eq!(did.reputation, INITIAL_REPUTATION);
    assert_eq!(f64::from_bits(INITIAL_REPUTATION), 1.0);
}

#[test]
fn did_manager_refuses_unknown_ids() {
    let mut manager = DidManager::new();
    assert_eq!(manager.revoke_did("did:icn:00"), Err("DiD not found".to_string()));
    assert_eq!(manager.set_reputation("did:icn:00", 0), Err("DiD not found".to_string()));
    assert_eq!(
        manager.update_attributes("did:icn:00", StringMap::new()),
        Err("DiD not found".to_string())
    );
    let (did, keypair) = DecentralizedIdentity::new(StringMap::new());
    let signature = keypair.sign(b"m");
    assert!(!manager.verify_identity(&did.id, b"m", &signature));
    manager.register_did(did.clone()).unwrap();
    assert!(manager.verify_identity(&did.id, b"m", &signature));
    assert!(!manager.verify_identity(&did.id, b"other", &signature));
    assert!(!manager.verify_identity(&did.id, b"m", &signature[..63]));
    assert_eq!(manager.register_did(did), Err("DiD already exists".to_string()));
}

#[test]
fn did_attributes_update_keeps_old_and_overrides() {
    let mut manager = DidManager::new();
    let (did, _) = DecentralizedIdentity::new(attributes(&[("name", "Bob"), ("city", "Oslo")]));
    let id = did.id.clone();
    manager.register_did(did).unwrap();
    manager.update_attributes(&id, attributes(&[("city", "Bergen"), ("age", "30")])).unwrap();
    let d = manager.get_did(&id).unwrap();
    assert_eq!(d.attributes.get(&"name".to_string()), Some(&"Bob".to_string()));
    assert_eq!(d.attributes.get(&"city".to_string()), Some(&"Bergen".to_string()));
    assert_eq!(d.attributes.get(&"age".to_string()), Some(&"30".to_string()));
    assert_eq!(manager.list_dids(), vec![id]);
}

#[test]
fn did_for_key_is_prefixed_lowercase_hex() {
    assert_eq!(did_for_key(&[0x00, 0xab, 0x7f, 0x10]), "did:icn:00ab7f10");
    assert_eq!(did_for_key(&[]), "did:icn:");
}

#[test]
fn key_pairs_from_bytes_need_matching_halves() {
    let dalek = ed25519_dalek::Keypair::generate(&mut rand::rngs::OsRng {});
    let bytes = dalek.to_bytes();
    let pair = KeyPair::from_bytes(&bytes).unwrap();
    assert_eq!(pair.to_bytes(), bytes.to_vec());
    assert_eq!(pair.public_key(), dalek.public.to_bytes().to_vec());
    let mut mismatched = bytes;
    mismatched[0] ^= 1;
    assert!(KeyPair::from_bytes(&mismatched).is_none());
    assert!(KeyPair::from_bytes(&bytes[..63]).is_none());
    let did = DecentralizedIdentity::from_keypair(&pair, StringMap::new(), 7);
    assert_eq!(did.created_at, 7);
    assert!(did.verify_signature(b"hi", &pair.sign(b"hi")));
    assert_eq!(pair.sign(b"hi"), dalek.sign(b"hi").to_bytes().to_vec());
}
