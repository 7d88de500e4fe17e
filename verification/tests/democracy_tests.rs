use icn_core::blockchain::Blockchain;
use icn_core::democracy::{
    DemocraticSystem, ExecutableProposal, ParameterChangeProposal, ProposalCategory, ProposalStatus,
    ProposalType,
};

type System = DemocraticSystem<Box<dyn ExecutableProposal>>;

const HOUR: i64 = 3_600_000_000;
const START: i64 = 1_700_000_000_123_456;

fn with_proposal() -> (System, String) {
    let mut s = System::new();
    let id = s.create_proposal_at(
        START,
        "Raise fees".to_string(),
        "Fees go up".to_string(),
        "Alice".to_string(),
        HOUR,
        ProposalType::EconomicAdjustment,
        ProposalCategory::Economic,
        10.0f64.to_bits(),
        None,
    );
    (s, id)
}

#[test]
fn proposals_are_named_by_their_second() {
    let (s, id) = with_proposal();
    assert_eq!(id, "prop_1700000000");
    let p = s.get_proposal(&id).unwrap();
    assert_eq!(p.status, ProposalStatus::Active);
    assert_eq!(p.created_at, START);
    assert_eq!(p.voting_ends_at, START + HOUR);
    assert_eq!(s.list_active_proposals().len(), 1);
}

#[test]
fn votes_are_taken_while_the_period_runs() {
    let (mut s, id) = with_proposal();
    assert!(s.vote_at(START + 1, "Bob".to_string(), id.clone(), true, 4.0f64.to_bits()).is_ok());
    assert!(s.vote_at(START + HOUR, "Cid".to_string(), id.clone(), false, 1.0f64.to_bits()).is_ok());
    assert_eq!(
        s.vote_at(START + HOUR + 1, "Dee".to_string(), id.clone(), true, 1.0f64.to_bits()),
        Err("Voting period has ended".to_string())
    );
    assert_eq!(
        s.vote_at(START, "Dee".to_string(), "prop_0".to_string(), true, 0),
        Err("Proposal not found".to_string())
    );
    let votes = s.get_votes(&id).unwrap();
    assert_eq!(votes.len(), 2);
    assert_eq!(votes[0].voter, "Bob");
    assert_eq!(votes[1].in_favor, false);
    assert_eq!(votes[1].timestamp, START + HOUR);
}

#[test]
fn tally_waits_for_the_end_and_needs_votes() {
    let (mut s, id) = with_proposal();
    assert_eq!(s.tally_votes_at(START, &id, true), Err("Voting period has not ended yet".to_string()));
    assert_eq!(
        s.tally_votes_at(START + HOUR, &id, true),
        Err("No votes found for this proposal".to_string())
    );
    s.vote_at(START, "Bob".to_string(), id.clone(), true, 20.0f64.to_bits()).unwrap();
    assert_eq!(s.tally_votes_at(START + HOUR, &id, true), Ok(()));
    assert_eq!(s.get_proposal(&id).unwrap().status, ProposalStatus::Passed);
    assert_eq!(s.tally_votes_at(START + HOUR, &id, true), Err("Proposal is not active".to_string()));
    assert_eq!(
        s.vote_at(START, "Cid".to_string(), id.clone(), true, 1),
        Err("Voting is not active for this proposal".to_string())
    );
    assert!(s.list_active_proposals().is_empty());
}

#[test]
fn rejected_proposals_cannot_be_implemented() {
    let (mut s, id) = with_proposal();
    s.vote_at(START, "Bob".to_string(), id.clone(), false, 20.0f64.to_bits()).unwrap();
    s.tally_votes_at(START + HOUR, &id, false).unwrap();
    assert_eq!(s.get_proposal(&id).unwrap().status, ProposalStatus::Rejected);
    assert_eq!(s.mark_as_implemented(&id), Err("Proposal has not passed".to_string()));
    assert_eq!(s.mark_as_implemented("prop_1"), Err("Proposal not found".to_string()));
}

#[test]
fn passed_proposals_execute_once() {
    let (mut s, id) = with_proposal();
    let mut chain = Blockchain::new();
    s.vote_at(START, "Bob".to_string(), id.clone(), true, 20.0f64.to_bits()).unwrap();
    assert_eq!(s.execute_proposal(&id, &mut chain), Err("Proposal has not passed".to_string()));
    s.tally_votes_at(START + HOUR, &id, true).unwrap();
    assert_eq!(
        s.execute_proposal(&id, &mut chain),
        Err("No executable found for this proposal".to_string())
    );
    s.add_executable_proposal(
        id.clone(),
        Box::new(ParameterChangeProposal { parameter_name: "fee".to_string(), new_value: "2".to_string() }),
    );
    assert_eq!(s.execute_proposal(&id, &mut chain), Ok(()));
    assert_eq!(s.get_proposal(&id).unwrap().status, ProposalStatus::Implemented);
    assert_eq!(s.execute_proposal(&id, &mut chain), Err("Proposal has not passed".to_string()));
}

/// An action that always fails.
struct Refuse;

impl ExecutableProposal for Refuse {
    fn execute(&self, _blockchain: &mut Blockchain) -> Result<(), String> {
        Err("refused".to_string())
    }
}

#[test]
fn a_failed_execution_leaves_the_proposal_passed() {
    let (mut s, id) = with_proposal();
    let mut chain = Blockchain::new();
    s.vote_at(START, "Bob".to_string(), id.clone(), true, 20.0f64.to_bits()).unwrap();
    s.tally_votes_at(START + HOUR, &id, true).unwrap();
    s.add_executable_proposal(id.clone(), Box::new(Refuse));
    assert_eq!(s.execute_proposal(&id, &mut chain), Err("refused".to_string()));
    assert_eq!(s.get_proposal(&id).unwrap().status, ProposalStatus::Passed);
    assert_eq!(s.record_execution(&id, Ok(())), Ok(()));
    assert_eq!(s.get_proposal(&id).unwrap().status, ProposalStatus::Implemented);
}

#[test]
fn voting_period_end_is_held_to_the_time_range() {
    let mut s = System::new();
    let id = s.create_proposal_at(
        i64::MAX - 5,
        "t".to_string(),
        "d".to_string(),
        "p".to_string(),
        HOUR,
        ProposalType::NetworkUpgrade,
        ProposalCategory::Technical,
        0,
        Some(0),
    );
    assert_eq!(s.get_proposal(&id).unwrap().voting_ends_at, i64::MAX);
    let id = s.create_proposal_at(-1, "t".to_string(), "d".to_string(), "p".to_string(), 0,
        ProposalType::Constitutional, ProposalCategory::Constitutional, 0, None);
    assert_eq!(id, "prop_-1");
}
