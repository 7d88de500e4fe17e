use icn_core::smart_contract::{
    AssetTransferParams, ContractStatus, ContractType, CooperativeMembershipParams, ExecutionEnvironment,
    GovernanceVoteParams, IdentityVerificationParams, ProposalParams, ResourceAllocationParams,
    ServiceAgreementParams, SmartContract,
};

const TRANSFER: &str = r#"{"from": "Alice", "to": "Bob", "asset": "ICN_TOKEN", "amount": 100.0}"#;

fn active(kind: ContractType, creator: &str, content: &str) -> SmartContract {
    let mut c = SmartContract::new(kind, creator.to_string(), content.to_string());
    c.activate();
    c
}

#[test]
fn smart_contract_test_contract_lifecycle() {
    let mut contract = SmartContract::new(ContractType::AssetTransfer, "Alice".to_string(), TRANSFER.to_string());

    assert_eq!(contract.status, ContractStatus::Pending);

    contract.activate();
    assert_eq!(contract.status, ContractStatus::Active);

    contract.complete();
    assert_eq!(contract.status, ContractStatus::Completed);

    contract.terminate();
    assert_eq!(contract.status, ContractStatus::Terminated);
}

#[test]
fn contract_ids_carry_the_second_they_were_made() {
    let c = SmartContract::new_at(ContractType::Proposal, "Carl".to_string(), "{}".to_string(), 1_700_000_000);
    assert_eq!(c.id, "contract_1700000000");
    assert_eq!(c.created_at, 1_700_000_000);
    let d = SmartContract::new_at(ContractType::Proposal, "Carl".to_string(), "{}".to_string(), -5);
    assert_eq!(d.id, "contract_-5");
}

#[test]
fn only_active_contracts_run() {
    let c = SmartContract::new(ContractType::Proposal, "Carl".to_string(), "{}".to_string());
    assert_eq!(c.check_active(), Err("Contract is not active. Current status: Pending".to_string()));
    let mut d = active(ContractType::Proposal, "Carl", "{}");
    assert_eq!(d.check_active(), Ok(()));
    d.terminate();
    assert_eq!(d.check_active(), Err("Contract is not active. Current status: Terminated".to_string()));
}

#[test]
fn proposal_contract_is_filed_under_its_id() {
    let mut env = ExecutionEnvironment::new();
    let contract = active(ContractType::Proposal, "Charlie", "{}");
    let params = ProposalParams {
        title: "New Project".to_string(),
        description: "Start a community garden".to_string(),
        options: vec!["Approve".to_string(), "Reject".to_string()],
        voting_period: 604800,
        quorum: 0.5f64.to_bits(),
    };
    assert!(contract.execute_proposal(&mut env, Ok(params)).is_ok());
    assert_eq!(env.proposals.len(), 1);
    assert!(env.proposals.contains_key(&contract.id));
}

#[test]
fn unreadable_parameters_are_refused() {
    let mut env = ExecutionEnvironment::new();
    let contract = active(ContractType::Proposal, "Charlie", "oops");
    let r = contract.execute_proposal(&mut env, Err("expected value at line 1 column 1".to_string()));
    assert_eq!(r, Err("Failed to parse proposal params: expected value at line 1 column 1".to_string()));
    assert!(env.proposals.is_empty());
    let r = contract.asset_transfer_source(&env, Err("eof".to_string()));
    assert_eq!(r.err(), Some("Failed to parse asset transfer params: eof".to_string()));
}

#[test]
fn governance_votes_accumulate_and_tally() {
    let mut env = ExecutionEnvironment::new();
    let contract = active(ContractType::GovernanceVote, "Dave", "{}");
    for (voter, vote) in [("Dave", true), ("Erin", false), ("Finn", true)] {
        let params = GovernanceVoteParams {
            proposal_id: "proposal_1".to_string(),
            voter: voter.to_string(),
            vote,
        };
        assert!(contract.execute_governance_vote(&mut env, Ok(params)).is_ok());
    }
    assert_eq!(env.votes.len(), 1);
    assert_eq!(
        env.votes.get(&"proposal_1".to_string()).unwrap(),
        &vec![("Dave".to_string(), true), ("Erin".to_string(), false), ("Finn".to_string(), true)]
    );
    assert_eq!(env.tally_votes("proposal_1"), (2, 1));
    assert_eq!(env.tally_votes("proposal_2"), (0, 0));
}

#[test]
fn other_contract_kinds_are_filed() {
    let mut env = ExecutionEnvironment::new();
    let service = active(ContractType::ServiceAgreement, "Eve", "{}");
    service
        .execute_service_agreement(
            &mut env,
            Ok(ServiceAgreementParams {
                provider: "Eve".to_string(),
                consumer: "Frank".to_string(),
                service: "Web Development".to_string(),
                terms: "Develop a website for 1000 ICN_TOKEN".to_string(),
                start_date: 1_688_169_600_000_000,
                end_date: 1_690_848_000_000_000,
            }),
        )
        .unwrap();
    assert!(env.service_agreements.contains_key(&service.id));

    let allocation = active(ContractType::ResourceAllocation, "Grace", "{}");
    allocation
        .execute_resource_allocation(
            &mut env,
            Ok(ResourceAllocationParams {
                resource: "Computing Power".to_string(),
                amount: 100.0f64.to_bits(),
                recipient: "Research Team".to_string(),
                duration: 2592000,
            }),
        )
        .unwrap();
    assert!(env.resource_allocations.contains_key(&allocation.id));

    let identity = active(ContractType::IdentityVerification, "Henry", "{}");
    identity
        .execute_identity_verification(
            &mut env,
            Ok(IdentityVerificationParams {
                user_id: "Henry".to_string(),
                verification_data: "Passport: AB123456".to_string(),
                verification_method: "Government ID".to_string(),
                expiration: 1_751_328_000_000_000,
            }),
        )
        .unwrap();
    assert!(env.identities.contains_key(&"Henry".to_string()));

    let membership = active(ContractType::CooperativeMembership, "Ivy", "{}");
    membership
        .execute_cooperative_membership(
            &mut env,
            Ok(CooperativeMembershipParams {
                user_id: "Ivy".to_string(),
                membership_type: "Full Member".to_string(),
                join_date: 1_688_169_600_000_000,
                subscription_period: 31536000,
            }),
        )
        .unwrap();
    assert!(env.memberships.contains_key(&"Ivy".to_string()));

    let custom = active(ContractType::Custom("DataSharing".to_string()), "Jack", "{\"x\": 1}");
    custom.execute_custom_contract(&mut env, "DataSharing").unwrap();
    assert_eq!(
        env.custom_contracts.get(&custom.id),
        Some(&("DataSharing".to_string(), "{\"x\": 1}".to_string()))
    );
}

#[test]
fn asset_transfer_source_checks_the_sender() {
    let mut env = ExecutionEnvironment::new();
    let contract = active(ContractType::AssetTransfer, "Alice", TRANSFER);
    let params = || AssetTransferParams {
        from: "Alice".to_string(),
        to: "Bob".to_string(),
        asset: "ICN_TOKEN".to_string(),
        amount: 100.0f64.to_bits(),
    };
    assert_eq!(contract.asset_transfer_source(&env, Ok(params())).err(), Some("Sender not found".to_string()));
    env.set_balance("Alice", "OTHER", 1.0f64.to_bits());
    assert_eq!(
        contract.asset_transfer_source(&env, Ok(params())).err(),
        Some("Asset not found in sender's balance".to_string())
    );
    env.set_balance("Alice", "ICN_TOKEN", 1000.0f64.to_bits());
    let (p, balance) = contract.asset_transfer_source(&env, Ok(params())).unwrap();
    assert_eq!(p.to, "Bob");
    assert_eq!(f64::from_bits(balance), 1000.0);
    assert_eq!(f64::from_bits(env.get_balance("Alice", "ICN_TOKEN")), 1000.0);
    assert_eq!(env.get_balance("Bob", "ICN_TOKEN"), 0);
    assert_eq!(env.balance_of("Bob", "ICN_TOKEN"), None);
}
