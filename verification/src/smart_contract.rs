//! Smart contracts: what kind they are, who made them, and where they stand
//! in their life cycle.
use vstd::prelude::*;
use crate::clock::unix_seconds_now;
use crate::string_map::StringMap;
use crate::text::{decimal_text, i64_text};

verus! {

/// The kind of agreement a contract records.
#[derive(Debug, Clone, PartialEq)]
pub enum ContractType {
    AssetTransfer,
    Proposal,
    ServiceAgreement,
    GovernanceVote,
    ResourceAllocation,
    IdentityVerification,
    CooperativeMembership,
    Custom(String),
}

/// Where a contract stands in its life cycle.
#[derive(Debug, Clone, Copy, PartialEq, Eq, Structural)]
pub enum ContractStatus {
    Pending,
    Active,
    Completed,
    Terminated,
}

/// The name a status is written with.
pub open spec fn status_text(s: ContractStatus) -> Seq<char> {
    match s {
        ContractStatus::Pending => "Pending"@,
        ContractStatus::Active => "Active"@,
        ContractStatus::Completed => "Completed"@,
        ContractStatus::Terminated => "Terminated"@,
    }
}

impl ContractStatus {
    /// The name the status is written with.
    pub fn name(&self) -> (s: String)
        ensures
            s@ == status_text(*self),
    {
        match self {
            ContractStatus::Pending => "Pending".to_owned(),
            ContractStatus::Active => "Active".to_owned(),
            ContractStatus::Completed => "Completed".to_owned(),
            ContractStatus::Terminated => "Terminated".to_owned(),
        }
    }
}

/// A smart contract.
#[derive(Debug, Clone)]
pub struct SmartContract {
    pub id: String,
    pub contract_type: ContractType,
    pub creator: String,
    /// When the contract was made, in Unix seconds.
    pub created_at: i64,
    /// The terms, as a JSON text that the contract's kind gives a shape to.
    pub content: String,
    pub status: ContractStatus,
}

/// The id a contract made at Unix second `t` gets.
pub open spec fn contract_id_text(t: i64) -> Seq<char> {
    "contract_"@ + decimal_text(t)
}

/// The message of a refusal to run a contract in status `s`.
pub open spec fn not_active_text(s: ContractStatus) -> Seq<char> {
    "Contract is not active. Current status: "@ + status_text(s)
}

impl SmartContract {
    /// A pending contract made at Unix second `now`, with id `contract_<now>`.
    pub fn new_at(contract_type: ContractType, creator: String, content: String, now: i64) -> (c:
        SmartContract)
        ensures
            c.id@ == contract_id_text(now),
            c.contract_type == contract_type,
            c.creator == creator,
            c.created_at == now,
            c.content == content,
            c.status == ContractStatus::Pending,
    {
        let mut id = "contract_".to_owned();
        let digits = i64_text(now);
        id.append(digits.as_str());
        SmartContract {
            id,
            contract_type,
            creator,
            created_at: now,
            content,
            status: ContractStatus::Pending,
        }
    }

    /// A pending contract made now.
    pub fn new(contract_type: ContractType, creator: String, content: String) -> (c: SmartContract)
        ensures
            c.id@ == contract_id_text(c.created_at),
            c.contract_type == contract_type,
            c.creator == creator,
            c.content == content,
            c.status == ContractStatus::Pending,
    {
        let now = unix_seconds_now();
        Self::new_at(contract_type, creator, content, now)
    }

    /// Makes the contract active.
    pub fn activate(&mut self)
        ensures
            *final(self) == (SmartContract { status: ContractStatus::Active, ..*old(self) }),
    {
        self.status = ContractStatus::Active;
    }

    /// Marks the contract completed.
    pub fn complete(&mut self)
        ensures
            *final(self) == (SmartContract { status: ContractStatus::Completed, ..*old(self) }),
    {
        self.status = ContractStatus::Completed;
    }

    /// Ends the contract.
    pub fn terminate(&mut self)
        ensures
            *final(self) == (SmartContract { status: ContractStatus::Terminated, ..*old(self) }),
    {
        self.status = ContractStatus::Terminated;
    }

    /// Only an active contract runs: `Ok` when it is active, and otherwise
    /// the refusal that names its status.
    pub fn check_active(&self) -> (r: Result<(), String>)
        ensures
            self.status == ContractStatus::Active <==> r is Ok,
            r matches Err(msg) ==> msg@ == not_active_text(self.status),
    {
        if self.status == ContractStatus::Active {
            Ok(())
        } else {
            let mut msg = "Contract is not active. Current status: ".to_owned();
            let name = self.status.name();
            msg.append(name.as_str());
            Err(msg)
        }
    }
}

/// What an asset-transfer contract moves.
#[derive(Debug, Clone)]
pub struct AssetTransferParams {
    pub from: String,
    pub to: String,
    pub asset: String,
    /// The amount, as the bit pattern of a binary64 number.
    pub amount: u64,
}

/// What a proposal contract puts forward.
#[derive(Debug, Clone)]
pub struct ProposalParams {
    pub title: String,
    pub description: String,
    pub options: Vec<String>,
    /// How long the vote runs, in seconds.
    pub voting_period: u64,
    /// The quorum, as the bit pattern of a binary64 number.
    pub quorum: u64,
}

/// A vote cast by a governance-vote contract.
#[derive(Debug, Clone)]
pub struct GovernanceVoteParams {
    pub proposal_id: String,
    pub voter: String,
    pub vote: bool,
}

/// What a service agreement binds its parties to.
#[derive(Debug, Clone)]
pub struct ServiceAgreementParams {
    pub provider: String,
    pub consumer: String,
    pub service: String,
    pub terms: String,
    /// When the service starts, in Unix microseconds.
    pub start_date: i64,
    /// When the service ends, in Unix microseconds.
    pub end_date: i64,
}

/// What a resource-allocation contract hands out.
#[derive(Debug, Clone)]
pub struct ResourceAllocationParams {
    pub resource: String,
    /// The amount, as the bit pattern of a binary64 number.
    pub amount: u64,
    pub recipient: String,
    /// For how long, in seconds.
    pub duration: u64,
}

/// What an identity-verification contract attests.
#[derive(Debug, Clone)]
pub struct IdentityVerificationParams {
    pub user_id: String,
    pub verification_data: String,
    pub verification_method: String,
    /// When the verification lapses, in Unix microseconds.
    pub expiration: i64,
}

/// Whom a cooperative-membership contract admits.
#[derive(Debug, Clone)]
pub struct CooperativeMembershipParams {
    pub user_id: String,
    pub membership_type: String,
    /// When the member joined, in Unix microseconds.
    pub join_date: i64,
    /// How long the subscription runs, in seconds.
    pub subscription_period: u64,
}

/// The state contracts act on.
#[derive(Debug, Clone)]
pub struct ExecutionEnvironment {
    /// Amounts by user and asset, as bit patterns of binary64 numbers.
    pub balances: StringMap<StringMap<u64>>,
    pub proposals: StringMap<ProposalParams>,
    /// The votes cast on each proposal: voter and approval, in order.
    pub votes: StringMap<Vec<(String, bool)>>,
    pub service_agreements: StringMap<ServiceAgreementParams>,
    pub resource_allocations: StringMap<ResourceAllocationParams>,
    pub identities: StringMap<IdentityVerificationParams>,
    pub memberships: StringMap<CooperativeMembershipParams>,
    /// Custom contracts by id: their kind's name and their content.
    pub custom_contracts: StringMap<(String, String)>,
}

/// The number of approvals and of rejections among `votes`.
pub open spec fn vote_counts(votes: Seq<(String, bool)>) -> (nat, nat)
    decreases votes.len(),
{
    if votes.len() == 0 {
        (0, 0)
    } else {
        let (a, r) = vote_counts(votes.drop_last());
        if votes.last().1 {
            (a + 1, r)
        } else {
            (a, r + 1)
        }
    }
}

impl ExecutionEnvironment {
    /// Every table is well formed.
    pub open spec fn wf(&self) -> bool {
        &&& self.balances.wf()
        &&& forall|u: Seq<char>| #[trigger] self.balances@.contains_key(u) ==> self.balances@[u].wf()
        &&& self.proposals.wf()
        &&& self.votes.wf()
        &&& self.service_agreements.wf()
        &&& self.resource_allocations.wf()
        &&& self.identities.wf()
        &&& self.memberships.wf()
        &&& self.custom_contracts.wf()
    }

    /// The amount `user` holds of `asset`, if one is recorded.
    pub open spec fn balance(&self, user: Seq<char>, asset: Seq<char>) -> Option<u64> {
        if self.balances@.contains_key(user) && self.balances@[user]@.contains_key(asset) {
            Some(self.balances@[user]@[asset])
        } else {
            None
        }
    }

    /// An environment with nothing in it.
    pub fn new() -> (env: Self)
        ensures
            env.wf(),
            env.balances@ == Map::<Seq<char>, StringMap<u64>>::empty(),
            env.proposals@ == Map::<Seq<char>, ProposalParams>::empty(),
            env.votes@ == Map::<Seq<char>, Vec<(String, bool)>>::empty(),
            env.service_agreements@ == Map::<Seq<char>, ServiceAgreementParams>::empty(),
            env.resource_allocations@ == Map::<Seq<char>, ResourceAllocationParams>::empty(),
            env.identities@ == Map::<Seq<char>, IdentityVerificationParams>::empty(),
            env.memberships@ == Map::<Seq<char>, CooperativeMembershipParams>::empty(),
            env.custom_contracts@ == Map::<Seq<char>, (String, String)>::empty(),
    {
        ExecutionEnvironment {
            balances: StringMap::new(),
            proposals: StringMap::new(),
            votes: StringMap::new(),
            service_agreements: StringMap::new(),
            resource_allocations: StringMap::new(),
            identities: StringMap::new(),
            memberships: StringMap::new(),
            custom_contracts: StringMap::new(),
        }
    }

    /// The amount `user` holds of `asset`, if one is recorded.
    pub fn balance_of(&self, user: &str, asset: &str) -> (r: Option<u64>)
        requires
            self.wf(),
        ensures
            r == self.balance(user@, asset@),
    {
        let u = user.to_owned();
        match self.balances.get(&u) {
            None => None,
            Some(assets) => {
                let a = asset.to_owned();
                match assets.get(&a) {
                    None => None,
                    Some(v) => Some(*v),
                }
            },
        }
    }

    /// The amount `user` holds of `asset`: the recorded one, or `0` (the
    /// bit pattern of 0.0).
    pub fn get_balance(&self, user: &str, asset: &str) -> (r: u64)
        requires
            self.wf(),
        ensures
            r == match self.balance(user@, asset@) {
                Some(v) => v,
                None => 0u64,
            },
    {
        match self.balance_of(user, asset) {
            Some(v) => v,
            None => 0,
        }
    }

    /// Records that `user` holds `amount` of `asset`.
    pub fn set_balance(&mut self, user: &str, asset: &str, amount: u64)
        requires
            old(self).wf(),
        ensures
            final(self).wf(),
            forall|u: Seq<char>, a: Seq<char>|
                #[trigger] final(self).balance(u, a) == if u == user@ && a == asset@ {
                    Some(amount)
                } else {
                    old(self).balance(u, a)
                },
            final(self).proposals == old(self).proposals,
            final(self).votes == old(self).votes,
            final(self).service_agreements == old(self).service_agreements,
            final(self).resource_allocations == old(self).resource_allocations,
            final(self).identities == old(self).identities,
            final(self).memberships == old(self).memberships,
            final(self).custom_contracts == old(self).custom_contracts,
    {
        let u = user.to_owned();
        let mut assets = match self.balances.remove(&u) {
            Some(m) => m,
            None => StringMap::new(),
        };
        let ghost before = assets@;
        assets.insert(asset.to_owned(), amount);
        self.balances.insert(u, assets);
        proof {
            assert forall|v: Seq<char>| #[trigger] self.balances@.contains_key(v)
                implies self.balances@[v].wf() by {
                if v != user@ {
                    assert(old(self).balances@.contains_key(v));
                }
            }
        }
    }

    /// The number of approvals and of rejections cast on `proposal_id`.
    pub fn tally_votes(&self, proposal_id: &str) -> (r: (usize, usize))
        requires
            self.wf(),
        ensures
            ({
                let counts = if self.votes@.contains_key(proposal_id@) {
                    vote_counts(self.votes@[proposal_id@]@)
                } else {
                    (0, 0)
                };
                r.0 == counts.0 && r.1 == counts.1
            }),
    {
        let key = proposal_id.to_owned();
        match self.votes.get(&key) {
            None => (0, 0),
            Some(list) => {
                let n = list.len();
                let mut approve: usize = 0;
                let mut reject: usize = 0;
                let mut i: usize = 0;
                while i < n
                    invariant
                        n == list@.len(),
                        i <= n,
                        approve + reject == i,
                        (approve as nat, reject as nat) == vote_counts(list@.subrange(0, i as int)),
                    decreases n - i,
                {
                    proof {
                        assert(list@.subrange(0, i + 1).drop_last() =~= list@.subrange(0, i as int));
                    }
                    if list[i].1 {
                        approve = approve + 1;
                    } else {
                        reject = reject + 1;
                    }
                    i = i + 1;
                }
                proof {
                    assert(list@.subrange(0, n as int) =~= list@);
                }
                (approve, reject)
            },
        }
    }
}

/// `prefix`, then `e`, then nothing else.
fn parse_failure(prefix: &str, e: String) -> (m: String)
    ensures
        m@ == prefix@ + e@,
{
    let mut m = prefix.to_owned();
    m.append(e.as_str());
    m
}

/// The two environments hold the same tables.
pub open spec fn same_env(a: ExecutionEnvironment, b: ExecutionEnvironment) -> bool {
    &&& a.balances == b.balances
    &&& a.proposals == b.proposals
    &&& a.votes == b.votes
    &&& a.service_agreements == b.service_agreements
    &&& a.resource_allocations == b.resource_allocations
    &&& a.identities == b.identities
    &&& a.memberships == b.memberships
    &&& a.custom_contracts == b.custom_contracts
}

impl SmartContract {
    /// Files the proposal parameters read from the content (or refuses with the
    /// reason they could not be read) under the contract's id.
    pub fn execute_proposal(&self, env: &mut ExecutionEnvironment, parsed: Result<ProposalParams, String>) -> (r: Result<
        (),
        String,
    >)
        requires
            old(env).wf(),
        ensures
            final(env).wf(),
            parsed matches Err(e) ==> (r matches Err(m) && m@ == "Failed to parse proposal params: "@ + e@)
                && same_env(*final(env), *old(env)),
            parsed matches Ok(p) ==> r is Ok && final(env).proposals@ == old(env).proposals@.insert(self.id@, p)
                && final(env).balances == old(env).balances
                && final(env).votes == old(env).votes
                && final(env).service_agreements == old(env).service_agreements
                && final(env).resource_allocations == old(env).resource_allocations
                && final(env).identities == old(env).identities
                && final(env).memberships == old(env).memberships
                && final(env).custom_contracts == old(env).custom_contracts,
    {
        match parsed {
            Err(e) => Err(parse_failure("Failed to parse proposal params: ", e)),
            Ok(params) => {
                let key = self.id.clone();
                env.proposals.insert(key, params);
                Ok(())
            },
        }
    }

    /// Files the service agreement parameters read from the content (or refuses with the
    /// reason they could not be read) under the contract's id.
    pub fn execute_service_agreement(&self, env: &mut ExecutionEnvironment, parsed: Result<ServiceAgreementParams, String>) -> (r: Result<
        (),
        String,
    >)
        requires
            old(env).wf(),
        ensures
            final(env).wf(),
            parsed matches Err(e) ==> (r matches Err(m) && m@ == "Failed to parse service agreement params: "@ + e@)
                && same_env(*final(env), *old(env)),
            parsed matches Ok(p) ==> r is Ok && final(env).service_agreements@ == old(env).service_agreements@.insert(self.id@, p)
                && final(env).balances == old(env).balances
                && final(env).proposals == old(env).proposals
                && final(env).votes == old(env).votes
                && final(env).resource_allocations == old(env).resource_allocations
                && final(env).identities == old(env).identities
                && final(env).memberships == old(env).memberships
                && final(env).custom_contracts == old(env).custom_contracts,
    {
        match parsed {
            Err(e) => Err(parse_failure("Failed to parse service agreement params: ", e)),
            Ok(params) => {
                let key = self.id.clone();
                env.service_agreements.insert(key, params);
                Ok(())
            },
        }
    }

    /// Files the resource allocation parameters read from the content (or refuses with the
    /// reason they could not be read) under the contract's id.
    pub fn execute_resource_allocation(&self, env: &mut ExecutionEnvironment, parsed: Result<ResourceAllocationParams, String>) -> (r: Result<
        (),
        String,
    >)
        requires
            old(env).wf(),
        ensures
            final(env).wf(),
            parsed matches Err(e) ==> (r matches Err(m) && m@ == "Failed to parse resource allocation params: "@ + e@)
                && same_env(*final(env), *old(env)),
            parsed matches Ok(p) ==> r is Ok && final(env).resource_allocations@ == old(env).resource_allocations@.insert(self.id@, p)
                && final(env).balances == old(env).balances
                && final(env).proposals == old(env).proposals
                && final(env).votes == old(env).votes
                && final(env).service_agreements == old(env).service_agreements
                && final(env).identities == old(env).identities
                && final(env).memberships == old(env).memberships
                && final(env).custom_contracts == old(env).custom_contracts,
    {
        match parsed {
            Err(e) => Err(parse_failure("Failed to parse resource allocation params: ", e)),
            Ok(params) => {
                let key = self.id.clone();
                env.resource_allocations.insert(key, params);
                Ok(())
            },
        }
    }

    /// Files the identity verification parameters read from the content (or refuses with the
    /// reason they could not be read) under the user's id.
    pub fn execute_identity_verification(&self, env: &mut ExecutionEnvironment, parsed: Result<IdentityVerificationParams, String>) -> (r: Result<
        (),
        String,
    >)
        requires
            old(env).wf(),
        ensures
            final(env).wf(),
            parsed matches Err(e) ==> (r matches Err(m) && m@ == "Failed to parse identity verification params: "@ + e@)
                && same_env(*final(env), *old(env)),
            parsed matches Ok(p) ==> r is Ok && final(env).identities@ == old(env).identities@.insert(p.user_id@, p)
                && final(env).balances == old(env).balances
                && final(env).proposals == old(env).proposals
                && final(env).votes == old(env).votes
                && final(env).service_agreements == old(env).service_agreements
                && final(env).resource_allocations == old(env).resource_allocations
                && final(env).memberships == old(env).memberships
                && final(env).custom_contracts == old(env).custom_contracts,
    {
        match parsed {
            Err(e) => Err(parse_failure("Failed to parse identity verification params: ", e)),
            Ok(params) => {
                let key = params.user_id.clone();
                env.identities.insert(key, params);
                Ok(())
            },
        }
    }

    /// Files the cooperative membership parameters read from the content (or refuses with the
    /// reason they could not be read) under the user's id.
    pub fn execute_cooperative_membership(&self, env: &mut ExecutionEnvironment, parsed: Result<CooperativeMembershipParams, String>) -> (r: Result<
        (),
        String,
    >)
        requires
            old(env).wf(),
        ensures
            final(env).wf(),
            parsed matches Err(e) ==> (r matches Err(m) && m@ == "Failed to parse cooperative membership params: "@ + e@)
                && same_env(*final(env), *old(env)),
            parsed matches Ok(p) ==> r is Ok && final(env).memberships@ == old(env).memberships@.insert(p.user_id@, p)
                && final(env).balances == old(env).balances
                && final(env).proposals == old(env).proposals
                && final(env).votes == old(env).votes
                && final(env).service_agreements == old(env).service_agreements
                && final(env).resource_allocations == old(env).resource_allocations
                && final(env).identities == old(env).identities
                && final(env).custom_contracts == old(env).custom_contracts,
    {
        match parsed {
            Err(e) => Err(parse_failure("Failed to parse cooperative membership params: ", e)),
            Ok(params) => {
                let key = params.user_id.clone();
                env.memberships.insert(key, params);
                Ok(())
            },
        }
    }

    /// Adds the vote read from the content to those cast on its proposal
    /// (or refuses with the reason it could not be read).
    pub fn execute_governance_vote(&self, env: &mut ExecutionEnvironment, parsed: Result<GovernanceVoteParams, String>) -> (r: Result<
        (),
        String,
    >)
        requires
            old(env).wf(),
        ensures
            final(env).wf(),
            parsed matches Err(e) ==> (r matches Err(m) && m@ == "Failed to parse governance vote params: "@ + e@)
                && same_env(*final(env), *old(env)),
            parsed matches Ok(p) ==> r is Ok && final(env).votes@.dom() == old(env).votes@.dom().insert(p.proposal_id@)
                && final(env).votes@[p.proposal_id@]@ == (if old(env).votes@.contains_key(p.proposal_id@) {
                    old(env).votes@[p.proposal_id@]@
                } else {
                    Seq::empty()
                }).push((p.voter, p.vote))
                && (forall|k: Seq<char>| k != p.proposal_id@ && #[trigger] old(env).votes@.contains_key(k)
                    ==> final(env).votes@[k] == old(env).votes@[k])
                && final(env).balances == old(env).balances
                && final(env).proposals == old(env).proposals
                && final(env).service_agreements == old(env).service_agreements
                && final(env).resource_allocations == old(env).resource_allocations
                && final(env).identities == old(env).identities
                && final(env).memberships == old(env).memberships
                && final(env).custom_contracts == old(env).custom_contracts,
    {
        match parsed {
            Err(e) => Err(parse_failure("Failed to parse governance vote params: ", e)),
            Ok(params) => {
                let ghost p = params;
                let mut list = match env.votes.remove(&params.proposal_id) {
                    Some(v) => v,
                    None => Vec::new(),
                };
                list.push((params.voter, params.vote));
                env.votes.insert(params.proposal_id, list);
                proof {
                    assert(env.votes@.dom() =~= old(env).votes@.dom().insert(p.proposal_id@));
                }
                Ok(())
            },
        }
    }

    /// Files a custom contract of kind `name`: its kind's name and its
    /// content, under its id.
    pub fn execute_custom_contract(&self, env: &mut ExecutionEnvironment, name: &str) -> (r: Result<(), String>)
        requires
            old(env).wf(),
        ensures
            final(env).wf(),
            r is Ok,
            final(env).custom_contracts@.dom() == old(env).custom_contracts@.dom().insert(self.id@),
            final(env).custom_contracts@[self.id@].0@ == name@,
            final(env).custom_contracts@[self.id@].1 == self.content,
            forall|k: Seq<char>| k != self.id@ && #[trigger] old(env).custom_contracts@.contains_key(k)
                ==> final(env).custom_contracts@[k] == old(env).custom_contracts@[k],
            final(env).balances == old(env).balances,
            final(env).proposals == old(env).proposals,
            final(env).votes == old(env).votes,
            final(env).service_agreements == old(env).service_agreements,
            final(env).resource_allocations == old(env).resource_allocations,
            final(env).identities == old(env).identities,
            final(env).memberships == old(env).memberships,
    {
        env.custom_contracts.insert(self.id.clone(), (name.to_owned(), self.content.clone()));
        assert(env.custom_contracts@.dom() =~= old(env).custom_contracts@.dom().insert(self.id@));
        Ok(())
    }

    /// The first steps of an asset transfer: the parameters read from the
    /// content (or the reason they could not be read), the sender must have
    /// balances, and one in the asset. Hands back the parameters and the
    /// sender's balance, for the caller to compare with the amount.
    pub fn asset_transfer_source(&self, env: &ExecutionEnvironment, parsed: Result<AssetTransferParams, String>) -> (r: Result<
        (AssetTransferParams, u64),
        String,
    >)
        requires
            env.wf(),
        ensures
            parsed matches Err(e) ==> (r matches Err(m) && m@ == "Failed to parse asset transfer params: "@ + e@),
            parsed matches Ok(p) && !env.balances@.contains_key(p.from@) ==> (r matches Err(m) && m@ == "Sender not found"@),
            parsed matches Ok(p) && env.balances@.contains_key(p.from@) && !env.balances@[p.from@]@.contains_key(p.asset@)
                ==> (r matches Err(m) && m@ == "Asset not found in sender's balance"@),
            parsed matches Ok(p) ==> (env.balance(p.from@, p.asset@) is Some ==> r == Ok::<
                (AssetTransferParams, u64),
                String,
            >((p, env.balance(p.from@, p.asset@)->0))),
    {
        match parsed {
            Err(e) => Err(parse_failure("Failed to parse asset transfer params: ", e)),
            Ok(params) => {
                match env.balances.get(&params.from) {
                    None => Err("Sender not found".to_owned()),
                    Some(assets) => {
                        match assets.get(&params.asset) {
                            None => Err("Asset not found in sender's balance".to_owned()),
                            Some(b) => {
                                let b = *b;
                                Ok((params, b))
                            },
                        }
                    },
                }
            },
        }
    }
}

/// Every vote is either an approval or a rejection: the two counts add up
/// to the number of votes.
pub proof fn lemma_vote_counts_total(votes: Seq<(String, bool)>)
    ensures
        vote_counts(votes).0 + vote_counts(votes).1 == votes.len(),
    decreases votes.len(),
{
    if votes.len() > 0 {
        lemma_vote_counts_total(votes.drop_last());
    }
}

} // verus!
