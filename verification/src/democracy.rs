//! Proposals put to the members' vote, and what becomes of them.
//!
//! Times are Unix microseconds. Vote weights and quorums are the bit
//! patterns of binary64 floating-point numbers: they are carried here and
//! added up by the caller, who hands the verdict of a tally back in.
use vstd::prelude::*;
use crate::blockchain::Blockchain;
use crate::clock::{second_of_micros, seconds_of_micros, unix_micros_now};
use crate::string_map::StringMap;
use crate::text::{decimal_text, i64_text};

verus! {

/// The field of governance a proposal belongs to.
#[derive(Debug, Clone, Copy, PartialEq, Eq, Structural)]
pub enum ProposalCategory {
    Constitutional,
    Economic,
    Technical,
}

/// Where a proposal stands.
#[derive(Debug, Clone, Copy, PartialEq, Eq, Structural)]
pub enum ProposalStatus {
    Active,
    Passed,
    Rejected,
    Implemented,
}

/// What a proposal would change.
#[derive(Debug, Clone, Copy, PartialEq, Eq, Structural)]
pub enum ProposalType {
    Constitutional,
    EconomicAdjustment,
    NetworkUpgrade,
}

/// A proposal put to the vote.
#[derive(Debug, Clone)]
pub struct Proposal {
    pub id: String,
    pub title: String,
    pub description: String,
    pub proposer: String,
    /// When it was made, in Unix microseconds.
    pub created_at: i64,
    /// When its voting period ends, in Unix microseconds.
    pub voting_ends_at: i64,
    pub status: ProposalStatus,
    pub proposal_type: ProposalType,
    pub category: ProposalCategory,
    /// The total weight a tally needs, as the bit pattern of a binary64 number.
    pub required_quorum: u64,
    /// When it is to take effect, in Unix microseconds.
    pub execution_timestamp: Option<i64>,
}

/// A vote cast on a proposal.
#[derive(Debug, Clone)]
pub struct Vote {
    pub voter: String,
    pub proposal_id: String,
    pub in_favor: bool,
    /// The voter's weight, as the bit pattern of a binary64 number.
    pub weight: u64,
    /// When it was cast, in Unix microseconds.
    pub timestamp: i64,
}

/// A proposal that, once passed, changes something on the chain.
pub trait ExecutableProposal {
    fn execute(&self, blockchain: &mut Blockchain) -> Result<(), String>;
}

/// A proposal to give a chain parameter a new value.
pub struct ParameterChangeProposal {
    pub parameter_name: String,
    pub new_value: String,
}

impl ExecutableProposal for ParameterChangeProposal {
    /// Changing a parameter is not wired to the chain yet: it succeeds and
    /// leaves the chain as it is.
    fn execute(&self, _blockchain: &mut Blockchain) -> (r: Result<(), String>)
        ensures
            r == Ok::<(), String>(()),
            *final(_blockchain) == *old(_blockchain),
    {
        Ok(())
    }
}

impl ExecutableProposal for Box<dyn ExecutableProposal> {
    /// A boxed action runs the action in the box.
    fn execute(&self, blockchain: &mut Blockchain) -> (r: Result<(), String>) {
        (**self).execute(blockchain)
    }
}

/// The id of a proposal made at `now` (Unix microseconds): `prop_` and the Unix second.
pub open spec fn proposal_id_text(now: i64) -> Seq<char> {
    "prop_"@ + decimal_text(second_of_micros(now) as i64)
}

/// `now + duration`, held to the range of `i64`.
pub open spec fn voting_end(now: i64, duration: i64) -> i64 {
    if now + duration > i64::MAX {
        i64::MAX
    } else if now + duration < i64::MIN {
        i64::MIN
    } else {
        (now + duration) as i64
    }
}

/// The proposals and votes of the members, and what each proposal does
/// once passed (of type `E`: callers that file several kinds of action
/// use a boxed trait object).
pub struct DemocraticSystem<E> {
    proposals: StringMap<Proposal>,
    votes: StringMap<Vec<Vote>>,
    executable_proposals: StringMap<E>,
}

impl<E: ExecutableProposal> DemocraticSystem<E> {
    /// The proposals, by id.
    pub closed spec fn proposal_map(&self) -> Map<Seq<char>, Proposal> {
        self.proposals@
    }

    /// The proposals, in the order in which they were first made.
    pub closed spec fn proposal_seq(&self) -> Seq<Proposal> {
        self.proposals.entry_seq().map_values(|e: (String, Proposal)| e.1)
    }

    /// The votes cast on each proposal, in the order in which they were cast.
    pub closed spec fn vote_map(&self) -> Map<Seq<char>, Seq<Vote>> {
        self.votes@.map_values(|v: Vec<Vote>| v@)
    }

    /// The ids of the proposals that have something to execute.
    pub closed spec fn executable_ids(&self) -> Set<Seq<char>> {
        self.executable_proposals@.dom()
    }

    /// The tables are well formed.
    pub closed spec fn tables_wf(&self) -> bool {
        &&& self.proposals.wf()
        &&& self.votes.wf()
        &&& self.executable_proposals.wf()
        &&& self.proposal_seq().len() == self.proposal_map().len()
        &&& forall|i: int|
            0 <= i < self.proposal_seq().len() ==> self.proposal_map().contains_key(
                #[trigger] self.proposal_seq()[i].id@,
            ) && self.proposal_map()[self.proposal_seq()[i].id@] == self.proposal_seq()[i]
    }

    /// Every proposal is filed under its id; votes are only ever filed under
    /// a known proposal, and each names the proposal it is filed under.
    pub open spec fn wf(&self) -> bool {
        &&& self.tables_wf()
        &&& forall|k: Seq<char>| #[trigger]
            self.proposal_map().contains_key(k) ==> self.proposal_map()[k].id@ == k
        &&& forall|k: Seq<char>| #[trigger]
            self.vote_map().contains_key(k) ==> self.proposal_map().contains_key(k)
        &&& forall|k: Seq<char>, i: int|
            self.vote_map().contains_key(k) && 0 <= i < self.vote_map()[k].len()
                ==> (#[trigger] self.vote_map()[k][i]).proposal_id@ == k
    }

    proof fn lemma_proposal_seq(&self)
        requires
            self.proposals.wf(),
            forall|k: Seq<char>| #[trigger]
                self.proposal_map().contains_key(k) ==> self.proposal_map()[k].id@ == k,
        ensures
            self.proposal_seq().len() == self.proposal_map().len(),
            forall|i: int|
                0 <= i < self.proposal_seq().len() ==> self.proposal_map().contains_key(
                    #[trigger] self.proposal_seq()[i].id@,
                ) && self.proposal_map()[self.proposal_seq()[i].id@] == self.proposal_seq()[i],
    {
        self.proposals.lemma_len();
        assert forall|i: int| 0 <= i < self.proposal_seq().len() implies self.proposal_map().contains_key(
            #[trigger] self.proposal_seq()[i].id@,
        ) && self.proposal_map()[self.proposal_seq()[i].id@] == self.proposal_seq()[i] by {
            self.proposals.lemma_entry(i);
            let k = self.proposals.entry_seq()[i].0@;
            assert(self.proposal_map()[k].id@ == k);
        }
    }
}

/// The votes filed under proposal `id`, or none.
pub open spec fn votes_on(votes: Map<Seq<char>, Seq<Vote>>, id: Seq<char>) -> Seq<Vote> {
    if votes.contains_key(id) {
        votes[id]
    } else {
        Seq::empty()
    }
}

/// `p` with its status set to `status`.
pub open spec fn with_status(p: Proposal, status: ProposalStatus) -> Proposal {
    Proposal { status: status, ..p }
}

/// A copy of `p` with status `status`.
fn restated(p: &Proposal, status: ProposalStatus) -> (q: Proposal)
    ensures
        q == with_status(*p, status),
{
    Proposal {
        id: p.id.clone(),
        title: p.title.clone(),
        description: p.description.clone(),
        proposer: p.proposer.clone(),
        created_at: p.created_at,
        voting_ends_at: p.voting_ends_at,
        status: status,
        proposal_type: p.proposal_type,
        category: p.category,
        required_quorum: p.required_quorum,
        execution_timestamp: p.execution_timestamp,
    }
}

impl<E: ExecutableProposal> DemocraticSystem<E> {
    /// A system with no proposals.
    pub fn new() -> (s: Self)
        ensures
            s.wf(),
            s.proposal_map() == Map::<Seq<char>, Proposal>::empty(),
            s.vote_map() == Map::<Seq<char>, Seq<Vote>>::empty(),
            s.executable_ids() == Set::<Seq<char>>::empty(),
    {
        let s = DemocraticSystem {
            proposals: StringMap::new(),
            votes: StringMap::new(),
            executable_proposals: StringMap::new(),
        };
        proof {
            assert(s.vote_map() =~= Map::<Seq<char>, Seq<Vote>>::empty());
            assert(s.executable_ids() =~= Set::<Seq<char>>::empty());
            s.lemma_proposal_seq();
        }
        s
    }

    /// Files a new active proposal made at `now`, whose voting period lasts
    /// `voting_duration` microseconds, and returns its id `prop_<second>`.
    /// A proposal made in the same second replaces the one filed before.
    pub fn create_proposal_at(
        &mut self,
        now: i64,
        title: String,
        description: String,
        proposer: String,
        voting_duration: i64,
        proposal_type: ProposalType,
        category: ProposalCategory,
        required_quorum: u64,
        execution_timestamp: Option<i64>,
    ) -> (id: String)
        requires
            old(self).wf(),
        ensures
            final(self).wf(),
            id@ == proposal_id_text(now),
            final(self).proposal_map() == old(self).proposal_map().insert(
                id@,
                Proposal {
                    id: id,
                    title: title,
                    description: description,
                    proposer: proposer,
                    created_at: now,
                    voting_ends_at: voting_end(now, voting_duration),
                    status: ProposalStatus::Active,
                    proposal_type: proposal_type,
                    category: category,
                    required_quorum: required_quorum,
                    execution_timestamp: execution_timestamp,
                },
            ),
            final(self).vote_map() == old(self).vote_map(),
            final(self).executable_ids() == old(self).executable_ids(),
    {
        let second = seconds_of_micros(now);
        let mut id = "prop_".to_owned();
        let digits = i64_text(second);
        id.append(digits.as_str());
        let voting_ends_at = match now.checked_add(voting_duration) {
            Some(t) => t,
            None => if voting_duration > 0 {
                i64::MAX
            } else {
                i64::MIN
            },
        };
        let proposal = Proposal {
            id: id.clone(),
            title,
            description,
            proposer,
            created_at: now,
            voting_ends_at,
            status: ProposalStatus::Active,
            proposal_type,
            category,
            required_quorum,
            execution_timestamp,
        };
        let ghost p = proposal;
        self.proposals.insert(id.clone(), proposal);
        proof {
            assert(self.proposal_map() == old(self).proposal_map().insert(id@, p));
            assert forall|k: Seq<char>| #[trigger]
                self.proposal_map().contains_key(k) implies self.proposal_map()[k].id@ == k by {
                if k != id@ {
                    assert(old(self).proposal_map().contains_key(k));
                }
            }
            self.lemma_proposal_seq();
            assert(self.vote_map() == old(self).vote_map());
        }
        id
    }

    /// Files a new active proposal made now; see `create_proposal_at`.
    pub fn create_proposal(
        &mut self,
        title: String,
        description: String,
        proposer: String,
        voting_duration: i64,
        proposal_type: ProposalType,
        category: ProposalCategory,
        required_quorum: u64,
        execution_timestamp: Option<i64>,
    ) -> (id: String)
        requires
            old(self).wf(),
        ensures
            final(self).wf(),
            final(self).proposal_map().contains_key(id@),
            final(self).proposal_map()[id@].id == id,
            id@ == proposal_id_text(final(self).proposal_map()[id@].created_at),
            final(self).proposal_map() == old(self).proposal_map().insert(
                id@,
                Proposal {
                    id: id,
                    title: title,
                    description: description,
                    proposer: proposer,
                    voting_ends_at: voting_end(
                        final(self).proposal_map()[id@].created_at,
                        voting_duration,
                    ),
                    status: ProposalStatus::Active,
                    proposal_type: proposal_type,
                    category: category,
                    required_quorum: required_quorum,
                    execution_timestamp: execution_timestamp,
                    ..final(self).proposal_map()[id@]
                },
            ),
            final(self).vote_map() == old(self).vote_map(),
            final(self).executable_ids() == old(self).executable_ids(),
    {
        let now = unix_micros_now();
        self.create_proposal_at(
            now,
            title,
            description,
            proposer,
            voting_duration,
            proposal_type,
            category,
            required_quorum,
            execution_timestamp,
        )
    }
}

impl<E: ExecutableProposal> DemocraticSystem<E> {
    /// Why a vote on proposal `id` at `now` is refused, if it is.
    pub open spec fn vote_refusal(&self, id: Seq<char>, now: i64) -> Option<Seq<char>> {
        if !self.proposal_map().contains_key(id) {
            Some("Proposal not found"@)
        } else if self.proposal_map()[id].status != ProposalStatus::Active {
            Some("Voting is not active for this proposal"@)
        } else if now > self.proposal_map()[id].voting_ends_at {
            Some("Voting period has ended"@)
        } else {
            None
        }
    }

    /// Why a tally of proposal `id` at `now` is refused, if it is.
    pub open spec fn tally_refusal(&self, id: Seq<char>, now: i64) -> Option<Seq<char>> {
        if !self.proposal_map().contains_key(id) {
            Some("Proposal not found"@)
        } else if self.proposal_map()[id].status != ProposalStatus::Active {
            Some("Proposal is not active"@)
        } else if now < self.proposal_map()[id].voting_ends_at {
            Some("Voting period has not ended yet"@)
        } else if !self.vote_map().contains_key(id) {
            Some("No votes found for this proposal"@)
        } else {
            None
        }
    }

    /// Why proposal `id` cannot be marked implemented, if it cannot.
    pub open spec fn implement_refusal(&self, id: Seq<char>) -> Option<Seq<char>> {
        if !self.proposal_map().contains_key(id) {
            Some("Proposal not found"@)
        } else if self.proposal_map()[id].status != ProposalStatus::Passed {
            Some("Proposal has not passed"@)
        } else {
            None
        }
    }

    /// Why proposal `id` cannot be executed, if it cannot.
    pub open spec fn execute_refusal(&self, id: Seq<char>) -> Option<Seq<char>> {
        if self.implement_refusal(id) is Some {
            self.implement_refusal(id)
        } else if !self.executable_ids().contains(id) {
            Some("No executable found for this proposal"@)
        } else {
            None
        }
    }

    /// Sets the status of the proposal filed under `key`.
    fn set_status(&mut self, key: &String, status: ProposalStatus)
        requires
            old(self).wf(),
            old(self).proposal_map().contains_key(key@),
        ensures
            final(self).wf(),
            final(self).proposal_map() == old(self).proposal_map().insert(
                key@,
                with_status(old(self).proposal_map()[key@], status),
            ),
            final(self).vote_map() == old(self).vote_map(),
            final(self).executable_ids() == old(self).executable_ids(),
    {
        let q = restated(self.proposals.get(key).unwrap(), status);
        let ghost qv = q;
        self.proposals.insert(key.clone(), q);
        proof {
            assert(self.proposal_map() == old(self).proposal_map().insert(key@, qv));
            assert forall|k: Seq<char>| #[trigger]
                self.proposal_map().contains_key(k) implies self.proposal_map()[k].id@ == k by {
                if k != key@ {
                    assert(old(self).proposal_map().contains_key(k));
                }
            }
            self.lemma_proposal_seq();
            assert(self.vote_map() == old(self).vote_map());
        }
    }

    /// Records a vote cast at `now` on proposal `proposal_id`: refused when
    /// the proposal is unknown, no longer active, or its voting period has
    /// ended; otherwise the vote joins the end of those filed under it.
    pub fn vote_at(
        &mut self,
        now: i64,
        voter: String,
        proposal_id: String,
        in_favor: bool,
        weight: u64,
    ) -> (r: Result<(), String>)
        requires
            old(self).wf(),
        ensures
            final(self).wf(),
            final(self).proposal_map() == old(self).proposal_map(),
            final(self).executable_ids() == old(self).executable_ids(),
            match old(self).vote_refusal(proposal_id@, now) {
                Some(m) => r matches Err(e) && e@ == m && final(self).vote_map() == old(self).vote_map(),
                None => r is Ok && final(self).vote_map() == old(self).vote_map().insert(
                    proposal_id@,
                    votes_on(old(self).vote_map(), proposal_id@).push(
                        Vote {
                            voter: voter,
                            proposal_id: proposal_id,
                            in_favor: in_favor,
                            weight: weight,
                            timestamp: now,
                        },
                    ),
                ),
            },
    {
        match self.proposals.get(&proposal_id) {
            None => {
                return Err("Proposal not found".to_owned());
            },
            Some(p) => {
                if p.status != ProposalStatus::Active {
                    return Err("Voting is not active for this proposal".to_owned());
                }
                if now > p.voting_ends_at {
                    return Err("Voting period has ended".to_owned());
                }
            },
        }
        let vote = Vote { voter, proposal_id: proposal_id.clone(), in_favor, weight, timestamp: now };
        let ghost vv = vote;
        let ghost old_votes = self.votes@;
        let mut list = match self.votes.remove(&proposal_id) {
            Some(v) => v,
            None => Vec::new(),
        };
        proof {
            assert(list@ == votes_on(old(self).vote_map(), proposal_id@));
        }
        list.push(vote);
        let ghost lv = list@;
        self.votes.insert(proposal_id.clone(), list);
        proof {
            let k = proposal_id@;
            assert(self.votes@ == old_votes.insert(k, self.votes@[k]));
            assert(self.vote_map() =~= old(self).vote_map().insert(k, lv));
            assert forall|j: Seq<char>, i: int|
                self.vote_map().contains_key(j) && 0 <= i < self.vote_map()[j].len() implies (
                #[trigger] self.vote_map()[j][i]).proposal_id@ == j by {
                if j != k {
                    assert(old(self).vote_map().contains_key(j));
                    assert(self.vote_map()[j] == old(self).vote_map()[j]);
                } else if i < lv.len() - 1 {
                    assert(old(self).vote_map().contains_key(j));
                    assert(self.vote_map()[j][i] == old(self).vote_map()[j][i]);
                }
            }
        }
        Ok(())
    }

    /// Records a vote cast now; see `vote_at`.
    pub fn vote(&mut self, voter: String, proposal_id: String, in_favor: bool, weight: u64) -> (r:
        Result<(), String>)
        requires
            old(self).wf(),
        ensures
            final(self).wf(),
            final(self).proposal_map() == old(self).proposal_map(),
            final(self).executable_ids() == old(self).executable_ids(),
            r is Err ==> final(self).vote_map() == old(self).vote_map(),
            !old(self).proposal_map().contains_key(proposal_id@) ==> (r matches Err(e) && e@
                == "Proposal not found"@),
            old(self).proposal_map().contains_key(proposal_id@) && old(self).proposal_map()[proposal_id@].status
                != ProposalStatus::Active ==> (r matches Err(e) && e@
                == "Voting is not active for this proposal"@),
            r is Ok ==> exists|t: i64|
                old(self).vote_refusal(proposal_id@, t) is None && final(self).vote_map() == old(self).vote_map().insert(
                    proposal_id@,
                    votes_on(old(self).vote_map(), proposal_id@).push(
                        Vote {
                            voter: voter,
                            proposal_id: proposal_id,
                            in_favor: in_favor,
                            weight: weight,
                            timestamp: t,
                        },
                    ),
                ),
    {
        let now = unix_micros_now();
        self.vote_at(now, voter, proposal_id, in_favor, weight)
    }

    /// Settles proposal `proposal_id` at `now`. `carried` is the verdict of
    /// the weights filed under it: that their total reaches the quorum and
    /// that more than half of it is in favour. Refused when the proposal is
    /// unknown, not active, still open, or has no votes; otherwise it passes
    /// when carried and is rejected when not.
    pub fn tally_votes_at(&mut self, now: i64, proposal_id: &str, carried: bool) -> (r: Result<
        (),
        String,
    >)
        requires
            old(self).wf(),
        ensures
            final(self).wf(),
            final(self).vote_map() == old(self).vote_map(),
            final(self).executable_ids() == old(self).executable_ids(),
            match old(self).tally_refusal(proposal_id@, now) {
                Some(m) => r matches Err(e) && e@ == m && final(self).proposal_map() == old(self).proposal_map(),
                None => r is Ok && final(self).proposal_map() == old(self).proposal_map().insert(
                    proposal_id@,
                    with_status(
                        old(self).proposal_map()[proposal_id@],
                        if carried {
                            ProposalStatus::Passed
                        } else {
                            ProposalStatus::Rejected
                        },
                    ),
                ),
            },
    {
        let key = proposal_id.to_owned();
        match self.proposals.get(&key) {
            None => {
                return Err("Proposal not found".to_owned());
            },
            Some(p) => {
                if p.status != ProposalStatus::Active {
                    return Err("Proposal is not active".to_owned());
                }
                if now < p.voting_ends_at {
                    return Err("Voting period has not ended yet".to_owned());
                }
            },
        }
        if !self.votes.contains_key(&key) {
            return Err("No votes found for this proposal".to_owned());
        }
        let status = if carried {
            ProposalStatus::Passed
        } else {
            ProposalStatus::Rejected
        };
        self.set_status(&key, status);
        Ok(())
    }

    /// The proposal filed under `proposal_id`, if any.
    pub fn get_proposal(&self, proposal_id: &str) -> (r: Option<&Proposal>)
        requires
            self.wf(),
        ensures
            r.is_some() == self.proposal_map().contains_key(proposal_id@),
            r matches Some(p) ==> *p == self.proposal_map()[proposal_id@],
    {
        let key = proposal_id.to_owned();
        self.proposals.get(&key)
    }

    /// The votes filed under `proposal_id`, if any.
    pub fn get_votes(&self, proposal_id: &str) -> (r: Option<&Vec<Vote>>)
        requires
            self.wf(),
        ensures
            r.is_some() == self.vote_map().contains_key(proposal_id@),
            r matches Some(v) ==> v@ == self.vote_map()[proposal_id@],
    {
        let key = proposal_id.to_owned();
        self.votes.get(&key)
    }

    /// The active proposals, in the order in which they were made.
    pub fn list_active_proposals(&self) -> (r: Vec<&Proposal>)
        requires
            self.wf(),
        ensures
            r@.map_values(|p: &Proposal| *p) == self.proposal_seq().filter(
                |p: Proposal| p.status == ProposalStatus::Active,
            ),
    {
        let mut r: Vec<&Proposal> = Vec::new();
        let n = self.proposals.len();
        let mut i: usize = 0;
        while i < n
            invariant
                self.wf(),
                n == self.proposal_seq().len(),
                n == self.proposals.key_seq().len(),
                i <= n,
                r@.map_values(|p: &Proposal| *p) == self.proposal_seq().subrange(0, i as int).filter(
                    |p: Proposal| p.status == ProposalStatus::Active,
                ),
            decreases n - i,
        {
            let p = self.proposals.value_at(i);
            proof {
                let sub = self.proposal_seq().subrange(0, i + 1);
                assert(sub.drop_last() =~= self.proposal_seq().subrange(0, i as int));
                assert(sub.last() == *p);
                reveal_with_fuel(Seq::filter, 1);
            }
            if p.status == ProposalStatus::Active {
                let ghost before = r@;
                r.push(p);
                proof {
                    assert(r@.map_values(|p: &Proposal| *p) =~= before.map_values(|p: &Proposal| *p).push(*p));
                }
            }
            i = i + 1;
        }
        proof {
            assert(self.proposal_seq().subrange(0, n as int) =~= self.proposal_seq());
        }
        r
    }

    /// Marks a passed proposal implemented; refused when the proposal is
    /// unknown or has not passed.
    pub fn mark_as_implemented(&mut self, proposal_id: &str) -> (r: Result<(), String>)
        requires
            old(self).wf(),
        ensures
            final(self).wf(),
            final(self).vote_map() == old(self).vote_map(),
            final(self).executable_ids() == old(self).executable_ids(),
            match old(self).implement_refusal(proposal_id@) {
                Some(m) => r matches Err(e) && e@ == m && final(self).proposal_map() == old(self).proposal_map(),
                None => r is Ok && final(self).proposal_map() == old(self).proposal_map().insert(
                    proposal_id@,
                    with_status(old(self).proposal_map()[proposal_id@], ProposalStatus::Implemented),
                ),
            },
    {
        let key = proposal_id.to_owned();
        match self.proposals.get(&key) {
            None => {
                return Err("Proposal not found".to_owned());
            },
            Some(p) => {
                if p.status != ProposalStatus::Passed {
                    return Err("Proposal has not passed".to_owned());
                }
            },
        }
        self.set_status(&key, ProposalStatus::Implemented);
        Ok(())
    }

    /// Files what proposal `proposal_id` does once passed, replacing
    /// anything filed under it before.
    pub fn add_executable_proposal(
        &mut self,
        proposal_id: String,
        executable: E,
    )
        requires
            old(self).wf(),
        ensures
            final(self).wf(),
            final(self).proposal_map() == old(self).proposal_map(),
            final(self).vote_map() == old(self).vote_map(),
            final(self).executable_ids() == old(self).executable_ids().insert(proposal_id@),
    {
        let ghost k = proposal_id@;
        self.executable_proposals.insert(proposal_id, executable);
        proof {
            assert(self.proposal_map() == old(self).proposal_map());
            assert(self.vote_map() == old(self).vote_map());
            assert(self.executable_ids() =~= old(self).executable_ids().insert(k));
        }
    }

    /// Settles an execution of proposal `proposal_id` that ended with
    /// `outcome`: a failure is handed back and nothing changes; a success
    /// marks the proposal implemented.
    pub fn record_execution(&mut self, proposal_id: &str, outcome: Result<(), String>) -> (r: Result<
        (),
        String,
    >)
        requires
            old(self).wf(),
        ensures
            final(self).wf(),
            final(self).vote_map() == old(self).vote_map(),
            final(self).executable_ids() == old(self).executable_ids(),
            outcome is Err ==> r == outcome && final(self).proposal_map() == old(self).proposal_map(),
            outcome is Ok ==> match old(self).implement_refusal(proposal_id@) {
                Some(m) => r matches Err(e) && e@ == m && final(self).proposal_map() == old(self).proposal_map(),
                None => r is Ok && final(self).proposal_map() == old(self).proposal_map().insert(
                    proposal_id@,
                    with_status(old(self).proposal_map()[proposal_id@], ProposalStatus::Implemented),
                ),
            },
    {
        match outcome {
            Err(e) => Err(e),
            Ok(()) => self.mark_as_implemented(proposal_id),
        }
    }

    /// Runs what passed proposal `proposal_id` does on `blockchain` and marks
    /// it implemented. Refused, with nothing run, when the proposal is
    /// unknown, has not passed, or has nothing to execute; a failure of the
    /// run is handed back and the proposal stays as it was.
    pub fn execute_proposal(&mut self, proposal_id: &str, blockchain: &mut Blockchain) -> (r: Result<
        (),
        String,
    >)
        requires
            old(self).wf(),
        ensures
            final(self).wf(),
            final(self).vote_map() == old(self).vote_map(),
            final(self).executable_ids() == old(self).executable_ids(),
            match old(self).execute_refusal(proposal_id@) {
                Some(m) => r matches Err(e) && e@ == m && final(self).proposal_map() == old(self).proposal_map() && *final(blockchain) == *old(blockchain),
                None => {
                    &&& r is Err ==> final(self).proposal_map() == old(self).proposal_map()
                    &&& r is Ok ==> final(self).proposal_map() == old(self).proposal_map().insert(
                        proposal_id@,
                        with_status(
                            old(self).proposal_map()[proposal_id@],
                            ProposalStatus::Implemented,
                        ),
                    )
                },
            },
    {
        let key = proposal_id.to_owned();
        match self.proposals.get(&key) {
            None => {
                return Err("Proposal not found".to_owned());
            },
            Some(p) => {
                if p.status != ProposalStatus::Passed {
                    return Err("Proposal has not passed".to_owned());
                }
            },
        }
        let outcome = match self.executable_proposals.get(&key) {
            Some(executable) => executable.execute(blockchain),
            None => {
                return Err("No executable found for this proposal".to_owned());
            },
        };
        self.record_execution(proposal_id, outcome)
    }
}

impl<E: ExecutableProposal> DemocraticSystem<E> {
    /// A rejected proposal is settled for good: it takes no vote, no tally,
    /// and is never implemented or executed.
    pub proof fn lemma_rejected_is_final(&self, id: Seq<char>, now: i64)
        requires
            self.proposal_map().contains_key(id),
            self.proposal_map()[id].status == ProposalStatus::Rejected,
        ensures
            self.vote_refusal(id, now) is Some,
            self.tally_refusal(id, now) is Some,
            self.implement_refusal(id) is Some,
            self.execute_refusal(id) is Some,
    {
    }

    /// An implemented proposal is settled for good: it takes no vote, no
    /// tally, and is not implemented or executed again.
    pub proof fn lemma_implemented_is_final(&self, id: Seq<char>, now: i64)
        requires
            self.proposal_map().contains_key(id),
            self.proposal_map()[id].status == ProposalStatus::Implemented,
        ensures
            self.vote_refusal(id, now) is Some,
            self.tally_refusal(id, now) is Some,
            self.implement_refusal(id) is Some,
            self.execute_refusal(id) is Some,
    {
    }

    /// A tally that carries makes the proposal implementable; one that does
    /// not leaves it never to be implemented.
    pub proof fn lemma_tally_decides_implementation(before: Self, after: Self, id: Seq<char>, now: i64, carried: bool)
        requires
            before.tally_refusal(id, now) is None,
            after.proposal_map() == before.proposal_map().insert(
                id,
                with_status(
                    before.proposal_map()[id],
                    if carried {
                        ProposalStatus::Passed
                    } else {
                        ProposalStatus::Rejected
                    },
                ),
            ),
        ensures
            carried ==> after.implement_refusal(id) is None,
            !carried ==> after.implement_refusal(id) is Some && after.vote_refusal(id, now) is Some,
    {
    }

    /// Votes are taken from the moment a proposal is made until its voting
    /// period ends, and a tally only from that end on: at the end itself
    /// both are open.
    pub proof fn lemma_vote_and_tally_windows(&self, id: Seq<char>, now: i64)
        requires
            self.proposal_map().contains_key(id),
            self.proposal_map()[id].status == ProposalStatus::Active,
            self.vote_map().contains_key(id),
        ensures
            self.vote_refusal(id, now) is None <==> now <= self.proposal_map()[id].voting_ends_at,
            self.tally_refusal(id, now) is None <==> now >= self.proposal_map()[id].voting_ends_at,
    {
    }
}

} // verus!
