use icn_core::blockchain::{Block, Blockchain, Transaction};
use icn_core::currency::CurrencyType;
use icn_core::smart_contract::{ContractType, SmartContract};

fn tx(from: &str, to: &str) -> Transaction {
    Transaction::new(from.to_string(), to.to_string(), 1.0f64.to_bits(), CurrencyType::BasicNeeds, 10)
}

#[test]
fn blocks_link_to_the_chain() {
    let mut chain = Blockchain::new();
    assert_eq!(chain.chain.len(), 1);
    assert!(chain.is_chain_valid());
    chain.add_transaction(tx("a", "b"));
    chain.add_transaction(tx("b", "c"));
    assert!(chain.create_block("proposer".to_string()).is_ok());
    assert_eq!(chain.chain.len(), 2);
    assert!(chain.pending_transactions.is_empty());
    let last = chain.get_latest_block().unwrap();
    assert_eq!(last.index, 1);
    assert_eq!(last.transactions.len(), 2);
    assert_eq!(last.previous_hash, chain.chain[0].hash);
    assert_eq!(last.hash, "dummy_hash");
    assert!(chain.is_chain_valid());
}

#[test]
fn a_broken_link_makes_the_chain_invalid() {
    let mut chain = Blockchain::new();
    chain.create_block("p".to_string()).unwrap();
    chain.chain[1].previous_hash = "elsewhere".to_string();
    assert!(!chain.is_chain_valid());
    let stray = Block::new(2, vec![], "nowhere".to_string());
    assert_eq!(chain.validate_block(&stray), Err("Invalid previous hash".to_string()));
}

#[test]
fn contracts_are_deployed_once() {
    let mut chain = Blockchain::new();
    let c = SmartContract::new_at(ContractType::Proposal, "a".to_string(), "{}".to_string(), 7);
    assert!(chain.deploy_smart_contract(c.clone()).is_ok());
    assert_eq!(
        chain.deploy_smart_contract(c.clone()),
        Err("Smart contract with this ID already exists".to_string())
    );
    assert_eq!(chain.get_smart_contract("contract_7").unwrap().creator, "a");
    chain.remove_smart_contract("contract_7").unwrap();
    assert!(chain.get_smart_contract("contract_7").is_none());
}

#[test]
fn contract_results_add_up_gas() {
    let mut b = Block::new_at(3, vec![], "h".to_string(), 99);
    b.add_smart_contract_result("c1".to_string(), "ok".to_string(), 5);
    b.add_smart_contract_result("c2".to_string(), "failed".to_string(), 7);
    assert_eq!(b.gas_used, 12);
    assert_eq!(b.smart_contract_results.get(&"c2".to_string()), Some(&"failed".to_string()));
    assert_eq!(b.timestamp, 99);
}

fn token(id: &str, owner: &str) -> icn_core::blockchain::AssetToken {
    icn_core::blockchain::AssetToken {
        asset_id: id.to_string(),
        name: "Seed bank share".to_string(),
        description: "One share".to_string(),
        owner: owner.to_string(),
        value: 10.0f64.to_bits(),
    }
}

#[test]
fn asset_tokens_register_once_and_change_hands() {
    let mut chain = Blockchain::new();
    assert!(chain.register_asset_token(&token("t1", "ann")).is_ok());
    assert_eq!(
        chain.register_asset_token(&token("t1", "bob")),
        Err("Asset token with this ID already exists".to_string())
    );
    assert_eq!(chain.transfer_asset_token("t2", "bob"), Err("Asset token not found".to_string()));
    chain.transfer_asset_token("t1", "bob").unwrap();
    let t = chain.get_asset_token("t1").unwrap();
    assert_eq!(t.owner, "bob");
    assert_eq!(f64::from_bits(t.value), 10.0);
}

#[test]
fn bonds_register_once_and_change_hands() {
    let bond = icn_core::blockchain::Bond {
        bond_id: "b1".to_string(),
        name: "Solar".to_string(),
        description: "Roof panels".to_string(),
        issuer: "coop".to_string(),
        face_value: 100.0f64.to_bits(),
        maturity_date: 1_800_000_000_000_000,
        interest_rate: 0.03f64.to_bits(),
        owner: "ann".to_string(),
    };
    let mut chain = Blockchain::new();
    assert!(chain.register_bond(&bond).is_ok());
    assert_eq!(chain.register_bond(&bond), Err("Bond with this ID already exists".to_string()));
    assert_eq!(chain.transfer_bond("b2", "bob"), Err("Bond not found".to_string()));
    chain.transfer_bond("b1", "bob").unwrap();
    assert_eq!(chain.get_bond("b1").unwrap().owner, "bob");
    assert!(chain.get_bond("b2").is_none());
}

fn signed_bytes(t: &Transaction) -> Vec<u8> {
    format!(
        "{}{}{}:{:?}:{}",
        t.from,
        t.to,
        f64::from_bits(t.amount),
        t.currency_type,
        t.gas_limit
    )
    .into_bytes()
}

#[test]
fn test_transaction_sign_and_verify() {
    let keypair = icn_core::crypto::KeyPair::generate();

    let mut transaction = Transaction::new(
        "Alice".to_string(),
        "Bob".to_string(),
        100.0f64.to_bits(),
        CurrencyType::BasicNeeds,
        1000,
    );

    let message = signed_bytes(&transaction);
    transaction.sign(&keypair, &message).unwrap();

    assert!(transaction.verify(&signed_bytes(&transaction)).unwrap());

    transaction.amount = 200.0f64.to_bits();

    assert!(!transaction.verify(&signed_bytes(&transaction)).unwrap());
}

#[test]
fn unsigned_or_malformed_transactions_are_refused() {
    let mut t = Transaction::new("A".to_string(), "B".to_string(), 0, CurrencyType::BasicNeeds, 1);
    assert_eq!(t.verify(b"x"), Err("No public key present".to_string()));
    t.public_key = Some(vec![0u8; 32]);
    assert_eq!(t.verify(b"x"), Err("No signature present".to_string()));
    t.public_key = Some(vec![0u8; 31]);
    t.signature = Some(vec![0u8; 64]);
    assert!(t.verify(b"x").is_err());
    let keypair = icn_core::crypto::KeyPair::generate();
    t.sign(&keypair, b"x").unwrap();
    assert_eq!(t.public_key, Some(keypair.public_key()));
    assert_eq!(t.signature.as_ref().map(|s| s.len()), Some(64));
    let mut high = t.clone();
    if let Some(s) = high.signature.as_mut() {
        s[63] |= 0xe0;
    }
    assert!(high.verify(b"x").is_err());
    assert_eq!(t.verify(b"x"), Ok(true));
}
