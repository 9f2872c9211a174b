//! Lookups and derived facts on an escrow contract.

use crate::laws::lemma_wf_after;
use crate::model::{
    all_completed, any_unsettled, is_first, is_unsettled, lemma_first_index_is,
    lemma_first_index_none, outcome, same_index, DisputeFilter,
};
use crate::operations::Operation;
use crate::types::{
    ContractStatus, Dispute, DisputeModel, DisputeStatus, EscrowContract, EscrowError, EscrowModel,
    MilestoneModel, MilestoneStatus, Resolution,
};
use vstd::prelude::*;

verus! {

impl DisputeFilter {
    /// Whether the filter admits a dispute.
    pub fn admits_dispute(&self, d: &Dispute) -> (r: bool)
        ensures
            r == self.admits(d@),
    {
        match self {
            DisputeFilter::Any => true,
            DisputeFilter::InStatus(s) => d.status == *s,
            DisputeFilter::AwaitingVerdict => d.status == DisputeStatus::Pending || d.status
                == DisputeStatus::Appealed,
            DisputeFilter::AwaitingFinality => d.status == DisputeStatus::AiResolved || d.status
                == DisputeStatus::AppealResolved,
            DisputeFilter::AwaitingSettlement => d.status == DisputeStatus::Finalized
                && !d.funds_released,
            DisputeFilter::Overridable => {
                if d.status == DisputeStatus::AiResolved {
                    true
                } else if d.status == DisputeStatus::Finalized && !d.funds_released {
                    match d.resolution {
                        Some(Resolution::Client) => true,
                        Some(Resolution::Split { .. }) => true,
                        _ => false,
                    }
                } else {
                    false
                }
            },
        }
    }
}

impl EscrowModel {
    /// An account joins the contract as its freelancer with the invite
    /// token, which is spent; the contract becomes active.
    pub open spec fn join(self, caller: Seq<char>, invite_token: Seq<char>) -> Result<
        (EscrowModel, ()),
        EscrowError,
    > {
        if self.freelancer is Some {
            Err(EscrowError::AlreadyHasFreelancer)
        } else if self.invite_token != Some(invite_token) {
            Err(EscrowError::InvalidInviteToken)
        } else if caller == self.client {
            Err(EscrowError::JoinOwnContract)
        } else {
            Ok(
                (
                    EscrowModel {
                        freelancer: Some(caller),
                        status: ContractStatus::Active,
                        invite_token: None,
                        ..self
                    },
                    (),
                ),
            )
        }
    }
}

impl EscrowContract {
    /// Binds `caller` as the freelancer, against the invite token.
    pub fn join(&mut self, caller: &String, invite_token: &String) -> (r: Result<(), EscrowError>)
        ensures
            outcome(old(self)@, final(self)@, r, old(self)@.join(caller@, invite_token@)),
            old(self)@.wf() ==> final(self)@.wf(),
    {
        proof {
            lemma_wf_after(
                self@,
                Operation::Join { caller: caller@, invite_token: invite_token@ },
                arbitrary(),
                0,
            );
        }
        if self.freelancer.is_some() {
            return Err(EscrowError::AlreadyHasFreelancer);
        }
        let token_matches = match &self.invite_token {
            Some(token) => *token == *invite_token,
            None => false,
        };
        if !token_matches {
            return Err(EscrowError::InvalidInviteToken);
        }
        if *caller == self.client {
            return Err(EscrowError::JoinOwnContract);
        }
        self.freelancer = Some(caller.clone());
        self.status = ContractStatus::Active;
        self.invite_token = None;
        Ok(())
    }

    /// The position of the first milestone with this id.
    pub fn find_milestone(&self, milestone_id: &String) -> (r: Option<usize>)
        ensures
            same_index(r, self@.milestone_index(milestone_id@)),
            r is Some ==> r->0 < self.milestones@.len(),
    {
        let ghost p = |m: MilestoneModel| m.id == milestone_id@;
        let mut i: usize = 0;
        while i < self.milestones.len()
            invariant
                i <= self.milestones@.len(),
                p == (|m: MilestoneModel| m.id == milestone_id@),
                forall|j: int| 0 <= j < i ==> !p(#[trigger] self@.milestones[j]),
            decreases self.milestones@.len() - i,
        {
            if self.milestones[i].id == *milestone_id {
                proof {
                    assert(p(self@.milestones[i as int]));
                    assert(is_first(self@.milestones, p, i as int));
                    lemma_first_index_is(self@.milestones, p, i as int);
                }
                return Some(i);
            }
            assert(!p(self@.milestones[i as int]));
            i += 1;
        }
        proof {
            lemma_first_index_none(self@.milestones, p);
        }
        None
    }

    /// The position of the first dispute over this milestone that the filter admits.
    pub fn find_dispute_where(&self, milestone_id: &String, filter: DisputeFilter) -> (r: Option<
        usize,
    >)
        ensures
            same_index(r, self@.dispute_index(milestone_id@, filter)),
            r is Some ==> r->0 < self.disputes@.len(),
    {
        let ghost p = |d: DisputeModel| d.milestone_id == milestone_id@ && filter.admits(d);
        let mut i: usize = 0;
        while i < self.disputes.len()
            invariant
                i <= self.disputes@.len(),
                p == (|d: DisputeModel| d.milestone_id == milestone_id@ && filter.admits(d)),
                forall|j: int| 0 <= j < i ==> !p(#[trigger] self@.disputes[j]),
            decreases self.disputes@.len() - i,
        {
            if self.disputes[i].milestone_id == *milestone_id && filter.admits_dispute(
                &self.disputes[i],
            ) {
                proof {
                    assert(p(self@.disputes[i as int]));
                    assert(is_first(self@.disputes, p, i as int));
                    lemma_first_index_is(self@.disputes, p, i as int);
                }
                return Some(i);
            }
            assert(!p(self@.disputes[i as int]));
            i += 1;
        }
        proof {
            lemma_first_index_none(self@.disputes, p);
        }
        None
    }

    /// The position of the first dispute over this milestone in exactly this status.
    pub fn find_dispute(&self, milestone_id: &String, status: DisputeStatus) -> (r: Option<usize>)
        ensures
            same_index(r, self@.dispute_index(milestone_id@, DisputeFilter::InStatus(status))),
            r is Some ==> r->0 < self.disputes@.len(),
    {
        self.find_dispute_where(milestone_id, DisputeFilter::InStatus(status))
    }

    /// Whether every milestone is completed.
    pub fn all_milestones_completed(&self) -> (r: bool)
        ensures
            r == all_completed(self@.milestones),
    {
        let mut i: usize = 0;
        while i < self.milestones.len()
            invariant
                i <= self.milestones@.len(),
                forall|j: int|
                    0 <= j < i ==> (#[trigger] self@.milestones[j]).status
                        == MilestoneStatus::Completed,
            decreases self.milestones@.len() - i,
        {
            if self.milestones[i].status != MilestoneStatus::Completed {
                assert(self@.milestones[i as int].status != MilestoneStatus::Completed);
                return false;
            }
            assert(self@.milestones[i as int].status == MilestoneStatus::Completed);
            i += 1;
        }
        true
    }

    /// Whether some dispute still awaits its resolution, its finality or its settlement.
    pub fn has_unsettled_dispute(&self) -> (r: bool)
        ensures
            r == any_unsettled(self@.disputes),
    {
        let mut i: usize = 0;
        while i < self.disputes.len()
            invariant
                i <= self.disputes@.len(),
                forall|j: int| 0 <= j < i ==> !is_unsettled(#[trigger] self@.disputes[j]),
            decreases self.disputes@.len() - i,
        {
            if self.disputes[i].status != DisputeStatus::Finalized
                || !self.disputes[i].funds_released {
                assert(is_unsettled(self@.disputes[i as int]));
                return true;
            }
            assert(!is_unsettled(self@.disputes[i as int]));
            i += 1;
        }
        false
    }

    /// The bound freelancer; `NoFreelancer` when none is bound.
    pub fn require_freelancer(&self) -> (r: Result<String, EscrowError>)
        ensures
            match self@.freelancer {
                Some(f) => r is Ok && r->Ok_0@ == f,
                None => r == Err::<String, EscrowError>(EscrowError::NoFreelancer),
            },
    {
        match &self.freelancer {
            Some(f) => Ok(f.clone()),
            None => Err(EscrowError::NoFreelancer),
        }
    }

    /// Whether the account is the bound freelancer.
    pub fn is_freelancer(&self, account: &String) -> (r: bool)
        ensures
            r == self@.is_freelancer(account@),
    {
        match &self.freelancer {
            Some(f) => *f == *account,
            None => false,
        }
    }

    /// Whether the account is the client.
    pub fn is_client(&self, account: &String) -> (r: bool)
        ensures
            r == (account@ == self@.client),
    {
        *account == self.client
    }

    /// Whether the account is the client or the bound freelancer.
    pub fn is_party(&self, account: &String) -> (r: bool)
        ensures
            r == self@.is_party(account@),
    {
        self.is_client(account) || self.is_freelancer(account)
    }
}

} // verus!
