//! Milestone lifecycle on one contract: start, payment request and its
//! cancellation, and approval by lapse of the review deadline.

use crate::laws::{lemma_registry_wf_after, lemma_wf_after};
use crate::model::{no_payouts, outcome};
use crate::operations::Operation;
use crate::registry::{lemma_one_contract_changed, routed, Contract};
use crate::types::{
    CallContext, EscrowContract, EscrowError, EscrowModel, MilestoneModel, MilestoneStatus, Payouts,
};
use vstd::prelude::*;

verus! {

/// How long the client has to review a payment request: 48 hours.
pub const PAYMENT_REQUEST_DEADLINE_NS: u64 = 48 * 60 * 60 * 1_000_000_000;

impl EscrowModel {
    /// The freelancer starts a funded milestone.
    pub open spec fn start_milestone(self, caller: Seq<char>, milestone_id: Seq<char>) -> Result<
        (EscrowModel, ()),
        EscrowError,
    > {
        match self.milestone_index(milestone_id) {
            None => Err(EscrowError::MilestoneNotFound),
            Some(i) => if !self.is_freelancer(caller) {
                Err(EscrowError::NotFreelancer)
            } else if self.milestones[i].status != MilestoneStatus::Funded {
                Err(EscrowError::MilestoneNotFunded)
            } else {
                Ok(
                    (
                        self.with_milestone(
                            i,
                            MilestoneModel {
                                status: MilestoneStatus::InProgress,
                                ..self.milestones[i]
                            },
                        ),
                        (),
                    ),
                )
            },
        }
    }

    /// The freelancer submits a milestone in progress for review at time
    /// `now`, unless a cooldown still blocks it; the review deadline is set.
    pub open spec fn request_payment(
        self,
        caller: Seq<char>,
        now: u64,
        milestone_id: Seq<char>,
    ) -> Result<(EscrowModel, ()), EscrowError> {
        match self.milestone_index(milestone_id) {
            None => Err(EscrowError::MilestoneNotFound),
            Some(i) => if !self.is_freelancer(caller) {
                Err(EscrowError::NotFreelancer)
            } else if self.milestones[i].status != MilestoneStatus::InProgress {
                Err(EscrowError::MilestoneNotInProgress)
            } else if self.milestones[i].payment_request_blocked_until_ns is Some && now
                < self.milestones[i].payment_request_blocked_until_ns->0 {
                Err(EscrowError::CooldownActive)
            } else if now + PAYMENT_REQUEST_DEADLINE_NS > u64::MAX {
                Err(EscrowError::Overflow)
            } else {
                Ok(
                    (
                        self.with_milestone(
                            i,
                            MilestoneModel {
                                status: MilestoneStatus::SubmittedForReview,
                                payment_request_deadline_ns: Some(
                                    (now + PAYMENT_REQUEST_DEADLINE_NS) as u64,
                                ),
                                payment_request_blocked_until_ns: None,
                                ..self.milestones[i]
                            },
                        ),
                        (),
                    ),
                )
            },
        }
    }

    /// The freelancer withdraws a payment request; the milestone is in
    /// progress again and no deadline is pending.
    pub open spec fn cancel_payment_request(
        self,
        caller: Seq<char>,
        milestone_id: Seq<char>,
    ) -> Result<(EscrowModel, ()), EscrowError> {
        match self.milestone_index(milestone_id) {
            None => Err(EscrowError::MilestoneNotFound),
            Some(i) => if !self.is_freelancer(caller) {
                Err(EscrowError::NotFreelancer)
            } else if self.milestones[i].status != MilestoneStatus::SubmittedForReview {
                Err(EscrowError::MilestoneNotInReview)
            } else {
                Ok(
                    (
                        self.with_milestone(
                            i,
                            MilestoneModel {
                                status: MilestoneStatus::InProgress,
                                payment_request_deadline_ns: None,
                                ..self.milestones[i]
                            },
                        ),
                        (),
                    ),
                )
            },
        }
    }

    /// Anyone has a milestone under review paid once its review deadline has passed.
    pub open spec fn auto_approve_payment(self, now: u64, milestone_id: Seq<char>) -> Result<
        (EscrowModel, Payouts),
        EscrowError,
    > {
        match self.milestone_index(milestone_id) {
            None => Err(EscrowError::MilestoneNotFound),
            Some(i) => if self.freelancer is None {
                Err(EscrowError::NoFreelancer)
            } else if self.milestones[i].status != MilestoneStatus::SubmittedForReview {
                Err(EscrowError::MilestoneNotInReview)
            } else if self.milestones[i].payment_request_deadline_ns is None {
                Err(EscrowError::NoDeadline)
            } else if now < self.milestones[i].payment_request_deadline_ns->0 {
                Err(EscrowError::DeadlineNotReached)
            } else {
                Ok(
                    (
                        self.with_paid_milestone(i),
                        Payouts { to_freelancer: self.milestones[i].amount, ..no_payouts() },
                    ),
                )
            },
        }
    }
}

impl EscrowContract {
    /// Sets the status, the review deadline and the cooldown of milestone `idx`.
    pub(crate) fn set_milestone(
        &mut self,
        idx: usize,
        status: MilestoneStatus,
        deadline: Option<u64>,
        blocked_until: Option<u64>,
    )
        requires
            idx < old(self).milestones@.len(),
        ensures
            final(self)@ == old(self)@.with_milestone(
                idx as int,
                MilestoneModel {
                    status: status,
                    payment_request_deadline_ns: deadline,
                    payment_request_blocked_until_ns: blocked_until,
                    ..old(self)@.milestones[idx as int]
                },
            ),
    {
        self.milestones[idx].status = status;
        self.milestones[idx].payment_request_deadline_ns = deadline;
        self.milestones[idx].payment_request_blocked_until_ns = blocked_until;
        assert(self@.milestones =~= old(self)@.milestones.update(
            idx as int,
            MilestoneModel {
                status: status,
                payment_request_deadline_ns: deadline,
                payment_request_blocked_until_ns: blocked_until,
                ..old(self)@.milestones[idx as int]
            },
        ));
        assert(self@.disputes =~= old(self)@.disputes);
    }

    /// Starts, as `caller`, a funded milestone.
    pub fn start_milestone(&mut self, caller: &String, milestone_id: &String) -> (r: Result<
        (),
        EscrowError,
    >)
        ensures
            outcome(
                old(self)@,
                final(self)@,
                r,
                old(self)@.start_milestone(caller@, milestone_id@),
            ),
            old(self)@.wf() ==> final(self)@.wf(),
    {
        proof {
            lemma_wf_after(
                self@,
                Operation::StartMilestone { caller: caller@, milestone_id: milestone_id@ },
                arbitrary(),
                0,
            );
        }
        let idx = match self.find_milestone(milestone_id) {
            Some(i) => i,
            None => {
                return Err(EscrowError::MilestoneNotFound);
            },
        };
        if !self.is_freelancer(caller) {
            return Err(EscrowError::NotFreelancer);
        }
        if self.milestones[idx].status != MilestoneStatus::Funded {
            return Err(EscrowError::MilestoneNotFunded);
        }
        let deadline = self.milestones[idx].payment_request_deadline_ns;
        let blocked = self.milestones[idx].payment_request_blocked_until_ns;
        self.set_milestone(idx, MilestoneStatus::InProgress, deadline, blocked);
        Ok(())
    }

    /// Submits, as `caller` at time `now`, a milestone in progress for review.
    pub fn request_payment(&mut self, caller: &String, now: u64, milestone_id: &String) -> (r:
        Result<(), EscrowError>)
        ensures
            outcome(
                old(self)@,
                final(self)@,
                r,
                old(self)@.request_payment(caller@, now, milestone_id@),
            ),
            old(self)@.wf() ==> final(self)@.wf(),
    {
        proof {
            lemma_wf_after(
                self@,
                Operation::RequestPayment { caller: caller@, now, milestone_id: milestone_id@ },
                arbitrary(),
                0,
            );
        }
        let idx = match self.find_milestone(milestone_id) {
            Some(i) => i,
            None => {
                return Err(EscrowError::MilestoneNotFound);
            },
        };
        if !self.is_freelancer(caller) {
            return Err(EscrowError::NotFreelancer);
        }
        if self.milestones[idx].status != MilestoneStatus::InProgress {
            return Err(EscrowError::MilestoneNotInProgress);
        }
        match self.milestones[idx].payment_request_blocked_until_ns {
            Some(blocked_until) => {
                if now < blocked_until {
                    return Err(EscrowError::CooldownActive);
                }
            },
            None => {},
        }
        let deadline = match now.checked_add(PAYMENT_REQUEST_DEADLINE_NS) {
            Some(deadline) => deadline,
            None => {
                return Err(EscrowError::Overflow);
            },
        };
        self.set_milestone(idx, MilestoneStatus::SubmittedForReview, Some(deadline), None);
        Ok(())
    }

    /// Withdraws, as `caller`, the payment request of a milestone under review.
    pub fn cancel_payment_request(&mut self, caller: &String, milestone_id: &String) -> (r: Result<
        (),
        EscrowError,
    >)
        ensures
            outcome(
                old(self)@,
                final(self)@,
                r,
                old(self)@.cancel_payment_request(caller@, milestone_id@),
            ),
            old(self)@.wf() ==> final(self)@.wf(),
    {
        proof {
            lemma_wf_after(
                self@,
                Operation::CancelPaymentRequest { caller: caller@, milestone_id: milestone_id@ },
                arbitrary(),
                0,
            );
        }
        let idx = match self.find_milestone(milestone_id) {
            Some(i) => i,
            None => {
                return Err(EscrowError::MilestoneNotFound);
            },
        };
        if !self.is_freelancer(caller) {
            return Err(EscrowError::NotFreelancer);
        }
        if self.milestones[idx].status != MilestoneStatus::SubmittedForReview {
            return Err(EscrowError::MilestoneNotInReview);
        }
        let blocked = self.milestones[idx].payment_request_blocked_until_ns;
        self.set_milestone(idx, MilestoneStatus::InProgress, None, blocked);
        Ok(())
    }

    /// Pays a milestone under review whose review deadline has passed at time `now`.
    pub fn auto_approve_payment(&mut self, now: u64, milestone_id: &String) -> (r: Result<
        Payouts,
        EscrowError,
    >)
        ensures
            outcome(
                old(self)@,
                final(self)@,
                r,
                old(self)@.auto_approve_payment(now, milestone_id@),
            ),
            old(self)@.wf() ==> final(self)@.wf(),
    {
        proof {
            lemma_wf_after(
                self@,
                Operation::AutoApprovePayment { now, milestone_id: milestone_id@ },
                arbitrary(),
                0,
            );
        }
        let idx = match self.find_milestone(milestone_id) {
            Some(i) => i,
            None => {
                return Err(EscrowError::MilestoneNotFound);
            },
        };
        if self.freelancer.is_none() {
            return Err(EscrowError::NoFreelancer);
        }
        if self.milestones[idx].status != MilestoneStatus::SubmittedForReview {
            return Err(EscrowError::MilestoneNotInReview);
        }
        let deadline = match self.milestones[idx].payment_request_deadline_ns {
            Some(deadline) => deadline,
            None => {
                return Err(EscrowError::NoDeadline);
            },
        };
        if now < deadline {
            return Err(EscrowError::DeadlineNotReached);
        }
        let amount = self.milestones[idx].amount;
        self.pay_milestone(idx);
        Ok(Payouts { to_freelancer: amount, to_client: 0, to_owner: 0, to_caller: 0 })
    }
}

impl Contract {
    /// Starts, as the caller of `ctx`, a funded milestone.
    pub fn start_milestone(
        &mut self,
        ctx: &CallContext,
        contract_id: String,
        milestone_id: String,
    ) -> (r: Result<(), EscrowError>)
        ensures
            routed(
                old(self)@,
                final(self)@,
                r,
                contract_id@,
                (|c: EscrowModel|
                    c.start_milestone(ctx@.predecessor, milestone_id@)),
            ),
            old(self)@.wf() ==> final(self)@.wf(),
    {
        let i = match self.find_contract(&contract_id) {
            Some(i) => i,
            None => {
                return Err(EscrowError::ContractNotFound);
            },
        };
        proof {
            lemma_registry_wf_after(
                self@,
                i as int,
                Operation::StartMilestone { caller: ctx@.predecessor, milestone_id: milestone_id@ },
            );
        }
        let r = self.contracts[i].start_milestone(&ctx.predecessor, &milestone_id);
        proof {
            lemma_one_contract_changed(old(self), self, i as int);
        }
        r
    }

    /// Submits, as the caller of `ctx`, a milestone in progress for review.
    pub fn request_payment(
        &mut self,
        ctx: &CallContext,
        contract_id: String,
        milestone_id: String,
    ) -> (r: Result<(), EscrowError>)
        ensures
            routed(
                old(self)@,
                final(self)@,
                r,
                contract_id@,
                (|c: EscrowModel|
                    c.request_payment(ctx@.predecessor, ctx@.block_timestamp, milestone_id@)),
            ),
            old(self)@.wf() ==> final(self)@.wf(),
    {
        let i = match self.find_contract(&contract_id) {
            Some(i) => i,
            None => {
                return Err(EscrowError::ContractNotFound);
            },
        };
        proof {
            lemma_registry_wf_after(
                self@,
                i as int,
                Operation::RequestPayment {
                    caller: ctx@.predecessor,
                    now: ctx@.block_timestamp,
                    milestone_id: milestone_id@,
                },
            );
        }
        let r = self.contracts[i].request_payment(&ctx.predecessor, ctx.block_timestamp, &milestone_id);
        proof {
            lemma_one_contract_changed(old(self), self, i as int);
        }
        r
    }

    /// Pays a milestone under review whose review deadline has passed at the time of `ctx`.
    pub fn auto_approve_payment(
        &mut self,
        ctx: &CallContext,
        contract_id: String,
        milestone_id: String,
    ) -> (r: Result<Payouts, EscrowError>)
        ensures
            routed(
                old(self)@,
                final(self)@,
                r,
                contract_id@,
                (|c: EscrowModel|
                    c.auto_approve_payment(ctx@.block_timestamp, milestone_id@)),
            ),
            old(self)@.wf() ==> final(self)@.wf(),
    {
        let i = match self.find_contract(&contract_id) {
            Some(i) => i,
            None => {
                return Err(EscrowError::ContractNotFound);
            },
        };
        proof {
            lemma_registry_wf_after(
                self@,
                i as int,
                Operation::AutoApprovePayment { now: ctx@.block_timestamp, milestone_id: milestone_id@ },
            );
        }
        let r = self.contracts[i].auto_approve_payment(ctx.block_timestamp, &milestone_id);
        proof {
            lemma_one_contract_changed(old(self), self, i as int);
        }
        r
    }

    /// Withdraws, as the caller of `ctx`, the payment request of a milestone.
    pub fn cancel_payment_request(
        &mut self,
        ctx: &CallContext,
        contract_id: String,
        milestone_id: String,
    ) -> (r: Result<(), EscrowError>)
        ensures
            routed(
                old(self)@,
                final(self)@,
                r,
                contract_id@,
                (|c: EscrowModel|
                    c.cancel_payment_request(ctx@.predecessor, milestone_id@)),
            ),
            old(self)@.wf() ==> final(self)@.wf(),
    {
        let i = match self.find_contract(&contract_id) {
            Some(i) => i,
            None => {
                return Err(EscrowError::ContractNotFound);
            },
        };
        proof {
            lemma_registry_wf_after(
                self@,
                i as int,
                Operation::CancelPaymentRequest { caller: ctx@.predecessor, milestone_id: milestone_id@ },
            );
        }
        let r = self.contracts[i].cancel_payment_request(&ctx.predecessor, &milestone_id);
        proof {
            lemma_one_contract_changed(old(self), self, i as int);
        }
        r
    }
}

} // verus!
