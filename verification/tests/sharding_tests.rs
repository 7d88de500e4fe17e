use ed25519_dalek::{Keypair, Signer};
use icn_core::blockchain::Transaction;
use icn_core::currency::CurrencyType;
use icn_core::error::Error;
use icn_core::network::{Node, NodeType};
use icn_core::sharding::ShardingManager;
use sha2::{Digest, Sha256};

fn message_of(t: &Transaction) -> Vec<u8> {
    format!(
        "{}{}{}:{:?}:{}",
        t.from,
        t.to,
        f64::from_bits(t.amount),
        t.currency_type,
        t.gas_limit
    )
    .into_bytes()
}

fn signed(from: &str, to: &str, amount: f64, keypair: &Keypair) -> Transaction {
    let mut t = Transaction::new(
        from.to_string(),
        to.to_string(),
        amount.to_bits(),
        CurrencyType::BasicNeeds,
        1000,
    );
    let signature = keypair.sign(&message_of(&t));
    t.signature = Some(signature.to_bytes().to_vec());
    t.public_key = Some(keypair.public.to_bytes().to_vec());
    t
}

fn sharding_message(e: Error) -> String {
    match e {
        Error::ShardingError(m) => m,
        _ => panic!("not a sharding error"),
    }
}

#[test]
fn test_create_sharding_manager() {
    let manager = ShardingManager::new(4, 10);
    assert_eq!(manager.shards().len(), 4);
    assert_eq!(manager.get_shard_count(), 4);
    assert_eq!(manager.get_nodes_per_shard(), 10);
}

#[test]
fn test_assign_node_to_shard() {
    let mut manager = ShardingManager::new(4, 2);
    let _node1 = Node::new("node1", NodeType::PersonalDevice, "127.0.0.1:8000");
    let _node2 = Node::new("node2", NodeType::PersonalDevice, "127.0.0.1:8001");

    manager.add_address_to_shard("Alice".to_string(), 0);
    manager.add_address_to_shard("Bob".to_string(), 1);

    assert_eq!(manager.get_shard_for_address("Alice"), 0);
    assert_eq!(manager.get_shard_for_address("Bob"), 1);
}

#[test]
fn test_get_shard_for_data() {
    let manager = ShardingManager::new(4, 10);
    let data1 = b"test_data_1";
    let data2 = b"test_data_2";

    let shard1 = manager.get_shard_for_data(data1);
    let shard2 = manager.get_shard_for_data(data2);

    assert!(shard1 < 4);
    assert!(shard2 < 4);
    assert_ne!(shard1, shard2);
}

#[test]
fn test_get_shard_for_address() {
    let mut manager = ShardingManager::new(4, 10);
    manager.add_address_to_shard("Alice".to_string(), 2);

    assert_eq!(manager.get_shard_for_address("Alice"), 2);

    let bob_shard = manager.get_shard_for_address("Bob");
    assert!(bob_shard < 4);
}

#[test]
fn test_verify_transaction() {
    let mut manager = ShardingManager::new(4, 10);
    let keypair = Keypair::generate(&mut rand::rngs::OsRng {});

    let transaction = signed("Alice", "Bob", 100.0, &keypair);

    manager.add_address_to_shard("Alice".to_string(), 0);
    manager
        .initialize_balance("Alice".to_string(), CurrencyType::BasicNeeds, 1000.0f64.to_bits())
        .unwrap();

    let balance = f64::from_bits(
        manager.get_balance("Alice".to_string(), CurrencyType::BasicNeeds).unwrap(),
    );
    let shard = &manager.shards()[0];
    let covers = !(balance < f64::from_bits(transaction.amount));
    assert!(manager.verify_transaction(shard, &transaction, covers, &message_of(&transaction)));

    let invalid_transaction = signed("Alice", "Bob", 2000.0, &keypair);
    let covers = !(balance < f64::from_bits(invalid_transaction.amount));
    assert!(!manager.verify_transaction(
        shard,
        &invalid_transaction,
        covers,
        &message_of(&invalid_transaction)
    ));
}

#[test]
fn shard_for_data_is_first_digest_bytes_modulo_count() {
    let manager = ShardingManager::new(7, 1);
    let digest = Sha256::digest(b"abc");
    let mut first = [0u8; 8];
    first.copy_from_slice(&digest[..8]);
    assert_eq!(manager.get_shard_for_data(b"abc"), u64::from_le_bytes(first) % 7);
}

#[test]
fn full_and_missing_shards_are_refused() {
    let mut manager = ShardingManager::new(2, 1);
    assert!(manager.assign_node_to_shard(Node::new("a", NodeType::PersonalDevice, "x"), 1).is_ok());
    let full = manager.assign_node_to_shard(Node::new("b", NodeType::PersonalDevice, "y"), 1);
    assert_eq!(sharding_message(full.unwrap_err()), "Failed to lock shard: Shard 1 is full");
    let missing = manager.assign_node_to_shard(Node::new("c", NodeType::PersonalDevice, "z"), 5);
    assert_eq!(sharding_message(missing.unwrap_err()), "Shard not found: 5");
    assert_eq!(manager.shards()[1].nodes.len(), 1);
    assert_eq!(manager.shards()[0].nodes.len(), 0);
}

#[test]
fn balances_read_back_what_was_set() {
    let mut manager = ShardingManager::new(4, 10);
    manager.add_address_to_shard("Carol".to_string(), 3);
    assert_eq!(manager.get_balance("Carol".to_string(), CurrencyType::Energy).unwrap(), 0);
    manager
        .initialize_balance("Carol".to_string(), CurrencyType::Energy, 42.5f64.to_bits())
        .unwrap();
    assert_eq!(
        f64::from_bits(manager.get_balance("Carol".to_string(), CurrencyType::Energy).unwrap()),
        42.5
    );
    assert_eq!(manager.get_balance("Carol".to_string(), CurrencyType::Storage).unwrap(), 0);
    manager.add_address_to_shard("Dan".to_string(), 9);
    let e = manager.get_balance("Dan".to_string(), CurrencyType::Energy).unwrap_err();
    assert_eq!(sharding_message(e), "Shard not found: 9");
}

#[test]
fn current_shard_id_is_kept() {
    let mut manager = ShardingManager::new(3, 1);
    assert_eq!(manager.get_current_shard_id(), 0);
    manager.set_current_shard_id(2);
    assert_eq!(manager.get_current_shard_id(), 2);
}

#[test]
fn shard_balances_and_locks_are_kept_per_shard() {
    let mut manager = ShardingManager::new(2, 1);
    manager
        .set_shard_balance(1, "Eve".to_string(), CurrencyType::Service, 3.0f64.to_bits())
        .unwrap();
    manager
        .set_locked_funds(1, "Eve".to_string(), CurrencyType::Service, Some(1.0f64.to_bits()))
        .unwrap();
    let shard = &manager.shards()[1];
    assert!(shard.balances.holds_address(&"Eve".to_string()));
    assert!(!manager.shards()[0].balances.holds_address(&"Eve".to_string()));
    assert_eq!(
        shard.locked_funds.get(&"Eve".to_string(), &CurrencyType::Service),
        Some(1.0f64.to_bits())
    );
    manager.set_locked_funds(1, "Eve".to_string(), CurrencyType::Service, None).unwrap();
    assert_eq!(manager.shards()[1].locked_funds.get(&"Eve".to_string(), &CurrencyType::Service), None);
    let e = manager.set_shard_balance(2, "Eve".to_string(), CurrencyType::Service, 0).unwrap_err();
    assert_eq!(sharding_message(e), "Shard not found: 2");
}

#[test]
fn transaction_verdict_needs_balance_cover_and_good_signature() {
    let mut manager = ShardingManager::new(2, 1);
    let keypair = Keypair::generate(&mut rand::rngs::OsRng {});
    let transaction = signed("Alice", "Bob", 5.0, &keypair);
    manager.add_address_to_shard("Alice".to_string(), 0);
    manager
        .initialize_balance("Alice".to_string(), CurrencyType::BasicNeeds, 10.0f64.to_bits())
        .unwrap();
    let funded = &manager.shards()[0];
    let empty = &manager.shards()[1];
    assert!(manager.transaction_verdict(funded, &transaction, true, Some(true)));
    assert!(!manager.transaction_verdict(funded, &transaction, true, Some(false)));
    assert!(!manager.transaction_verdict(funded, &transaction, true, None));
    assert!(!manager.transaction_verdict(funded, &transaction, false, Some(true)));
    assert!(!manager.transaction_verdict(empty, &transaction, true, Some(true)));
    let mut tampered = transaction.clone();
    tampered.amount = 6.0f64.to_bits();
    assert!(!manager.verify_transaction(funded, &tampered, true, &message_of(&tampered)));
    let mut unsigned = transaction.clone();
    unsigned.signature = None;
    assert!(!manager.verify_transaction(funded, &unsigned, true, &message_of(&unsigned)));
}

#[test]
fn signatures_with_high_bits_or_short_keys_do_not_verify() {
    let mut manager = ShardingManager::new(1, 1);
    let keypair = Keypair::generate(&mut rand::rngs::OsRng {});
    manager
        .initialize_balance("Alice".to_string(), CurrencyType::BasicNeeds, 10.0f64.to_bits())
        .unwrap();
    let good = signed("Alice", "Bob", 1.0, &keypair);
    let shard = &manager.shards()[0];
    assert!(manager.verify_transaction(shard, &good, true, &message_of(&good)));
    let mut high = good.clone();
    if let Some(sig) = high.signature.as_mut() {
        sig[63] |= 0xe0;
    }
    assert!(!manager.verify_transaction(shard, &high, true, &message_of(&high)));
    let mut short = good.clone();
    short.public_key = Some(vec![1u8; 31]);
    assert!(!manager.verify_transaction(shard, &short, true, &message_of(&short)));
}
