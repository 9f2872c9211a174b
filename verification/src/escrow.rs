//! Fund custody on one contract: deposit intake with its security split,
//! milestone funding, payment release and settlement of a dispute's outcome.

use crate::amounts::{
    lemma_sum_first_monotonic, main_share, security_part, security_share, split_part, split_share,
    sum_first,
};
use crate::laws::{lemma_registry_wf_after, lemma_wf_after};
use crate::model::{all_completed, amounts_of, no_payouts, outcome, promoted, DisputeFilter};
use crate::operations::Operation;
use crate::registry::{lemma_one_contract_changed, routed, Contract};
use crate::types::{
    milestone_models, CallContext, ContractStatus, DisputeModel, DisputeStatus, EscrowContract,
    EscrowError, EscrowModel, Milestone, MilestoneModel, MilestoneStatus, Payouts, Policy,
    Resolution,
};
use vstd::prelude::*;

verus! {

/// What a settlement pays the freelancer and the client out of `amount`.
pub open spec fn settlement_payouts(resolution: Resolution, amount: u128) -> Payouts {
    match resolution {
        Resolution::Freelancer => Payouts { to_freelancer: amount, ..no_payouts() },
        Resolution::Client => Payouts { to_client: amount, ..no_payouts() },
        Resolution::ContinueWork => no_payouts(),
        Resolution::Split { freelancer_pct } => Payouts {
            to_freelancer: split_share(amount, freelancer_pct) as u128,
            to_client: (amount - split_share(amount, freelancer_pct)) as u128,
            ..no_payouts()
        },
    }
}

/// The milestone after the settlement of a dispute over it.
pub open spec fn settled_milestone(resolution: Resolution, m: MilestoneModel) -> MilestoneModel {
    match resolution {
        Resolution::ContinueWork => MilestoneModel {
            status: MilestoneStatus::InProgress,
            payment_request_deadline_ns: None,
            ..m
        },
        _ => MilestoneModel { status: MilestoneStatus::Completed, ..m },
    }
}

impl EscrowModel {
    /// What is still to be funded.
    pub open spec fn remaining_to_fund(self) -> int {
        if self.total_amount >= self.funded_amount {
            self.total_amount - self.funded_amount
        } else {
            0
        }
    }

    /// The part of a deposit that is applied to the funded amount.
    pub open spec fn effective_main(self, deposit: u128) -> int {
        let main = main_share(deposit, self.security_deposit_pct);
        if main <= self.remaining_to_fund() {
            main
        } else {
            self.remaining_to_fund()
        }
    }

    /// The part of a deposit that goes back to the depositor.
    pub open spec fn refund(self, deposit: u128) -> int {
        main_share(deposit, self.security_deposit_pct) - self.effective_main(deposit)
    }

    /// What the contract holds once a deposit is taken: the funded amount
    /// and the security pool together.
    pub open spec fn deposited_after(self, deposit: u128) -> int {
        self.funded_amount + self.effective_main(deposit) + self.security_pool + security_share(
            deposit,
            self.security_deposit_pct,
        )
    }

    /// A deposit by `caller`: its security part goes to the pool, the rest to
    /// the funded amount up to the total, the excess back to the caller; then
    /// every unfunded milestone whose cumulative amount is covered is promoted.
    pub open spec fn fund(self, caller: Seq<char>, deposit: u128, policy: Policy) -> Result<
        (EscrowModel, Payouts),
        EscrowError,
    > {
        let funded = self.funded_amount + self.effective_main(deposit);
        let pool = self.security_pool + security_share(deposit, self.security_deposit_pct);
        if !self.is_party(caller) {
            Err(EscrowError::NotParty)
        } else if self.status != ContractStatus::Active {
            Err(EscrowError::ContractNotActive)
        } else if deposit == 0 {
            Err(EscrowError::ZeroDeposit)
        } else if self.remaining_to_fund() == 0 {
            Err(EscrowError::AlreadyFullyFunded)
        } else if self.deposited_after(deposit) > u128::MAX {
            Err(EscrowError::Overflow)
        } else {
            Ok(
                (
                    EscrowModel {
                        funded_amount: funded as u128,
                        security_pool: pool as u128,
                        milestones: promoted(
                            self.milestones,
                            self.deposited_after(deposit),
                            policy.funding_target(),
                        ),
                        ..self
                    },
                    Payouts { to_caller: self.refund(deposit) as u128, ..no_payouts() },
                ),
            )
        }
    }

    /// A direct addition to the security pool by one of the parties.
    pub open spec fn top_up_security(self, caller: Seq<char>, amount: u128) -> Result<
        (EscrowModel, ()),
        EscrowError,
    > {
        if !self.is_party(caller) {
            Err(EscrowError::NotParty)
        } else if amount == 0 {
            Err(EscrowError::ZeroDeposit)
        } else if self.security_pool + amount > u128::MAX {
            Err(EscrowError::Overflow)
        } else {
            Ok((EscrowModel { security_pool: (self.security_pool + amount) as u128, ..self }, ()))
        }
    }

    /// The contract once milestone `i` has been paid: the milestone is
    /// completed with no deadline pending, and the contract is completed when
    /// every milestone is.
    pub open spec fn with_paid_milestone(self, i: int) -> EscrowModel {
        let paid = self.with_milestone(
            i,
            MilestoneModel {
                status: MilestoneStatus::Completed,
                payment_request_deadline_ns: None,
                ..self.milestones[i]
            },
        );
        if all_completed(paid.milestones) {
            EscrowModel { status: ContractStatus::Completed, ..paid }
        } else {
            paid
        }
    }

    /// The client approves a milestone under review; its amount goes to the freelancer.
    pub open spec fn approve_milestone(self, caller: Seq<char>, milestone_id: Seq<char>) -> Result<
        (EscrowModel, Payouts),
        EscrowError,
    > {
        match self.milestone_index(milestone_id) {
            None => Err(EscrowError::MilestoneNotFound),
            Some(i) => if caller != self.client {
                Err(EscrowError::NotClient)
            } else if self.freelancer is None {
                Err(EscrowError::NoFreelancer)
            } else if self.milestones[i].status != MilestoneStatus::SubmittedForReview {
                Err(EscrowError::MilestoneNotInReview)
            } else {
                Ok(
                    (
                        self.with_paid_milestone(i),
                        Payouts { to_freelancer: self.milestones[i].amount, ..no_payouts() },
                    ),
                )
            },
        }
    }

    /// The contract once dispute `d` over milestone `m` has been settled by `resolution`.
    pub open spec fn with_settlement(self, d: int, m: int, resolution: Resolution) -> EscrowModel {
        let moved = EscrowModel {
            disputes: self.disputes.update(
                d,
                DisputeModel { funds_released: true, ..self.disputes[d] },
            ),
            milestones: self.milestones.update(
                m,
                settled_milestone(resolution, self.milestones[m]),
            ),
            ..self
        };
        EscrowModel { status: moved.settled_status(), ..moved }
    }

    /// The funds of a finalized dispute are released, once: to the freelancer,
    /// to the client, to both by the split, or to nobody when work continues.
    pub open spec fn release_dispute_funds(self, milestone_id: Seq<char>) -> Result<
        (EscrowModel, Payouts),
        EscrowError,
    > {
        match self.dispute_index(milestone_id, DisputeFilter::AwaitingSettlement) {
            None => if self.dispute_index(
                milestone_id,
                DisputeFilter::InStatus(DisputeStatus::Finalized),
            ) is Some {
                Err(EscrowError::FundsAlreadyReleased)
            } else {
                Err(EscrowError::DisputeNotFound)
            },
            Some(d) => match self.milestone_index(milestone_id) {
                None => Err(EscrowError::MilestoneNotFound),
                Some(m) => match self.disputes[d].resolution {
                    None => Err(EscrowError::NoResolution),
                    Some(resolution) => if self.freelancer is None {
                        Err(EscrowError::NoFreelancer)
                    } else if self.milestones[m].status != MilestoneStatus::Disputed {
                        Err(EscrowError::MilestoneNotDisputed)
                    } else if resolution is Split && resolution->freelancer_pct > 100 {
                        Err(EscrowError::InvalidSplit)
                    } else {
                        Ok(
                            (
                                self.with_settlement(d, m, resolution),
                                settlement_payouts(resolution, self.milestones[m].amount),
                            ),
                        )
                    },
                },
            },
        }
    }

    /// The whole security pool goes to the freelancer once every milestone is completed.
    pub open spec fn complete_contract_security(self) -> Result<
        (EscrowModel, Payouts),
        EscrowError,
    > {
        if !all_completed(self.milestones) {
            Err(EscrowError::MilestonesIncomplete)
        } else if self.security_pool == 0 {
            Err(EscrowError::NoSecurityDeposit)
        } else if self.freelancer is None {
            Err(EscrowError::NoFreelancer)
        } else {
            Ok(
                (
                    EscrowModel { security_pool: 0, ..self },
                    Payouts { to_freelancer: self.security_pool, ..no_payouts() },
                ),
            )
        }
    }
}

/// Promotes to `target` every unfunded milestone whose cumulative amount
/// `deposited` covers.
pub fn promote_milestones(milestones: &mut Vec<Milestone>, deposited: u128, target: MilestoneStatus)
    ensures
        milestone_models(final(milestones)@) == promoted(
            milestone_models(old(milestones)@),
            deposited as int,
            target,
        ),
{
    let ghost before = milestone_models(milestones@);
    let ghost amounts = amounts_of(before);
    let mut cumulative: Option<u128> = Some(0);
    let mut i: usize = 0;
    while i < milestones.len()
        invariant
            i <= milestones@.len(),
            milestones@.len() == before.len(),
            before == milestone_models(old(milestones)@),
            amounts == amounts_of(before),
            match cumulative {
                Some(c) => c == sum_first(amounts, i as int),
                None => sum_first(amounts, i as int) > u128::MAX,
            },
            forall|j: int|
                0 <= j < i ==> (#[trigger] milestones@[j])@ == promoted(
                    before,
                    deposited as int,
                    target,
                )[j],
            forall|j: int| i <= j < milestones@.len() ==> (#[trigger] milestones@[j])@ == before[j],
        decreases milestones@.len() - i,
    {
        proof {
            assert(milestones@[i as int]@ == before[i as int]);
            assert(amounts[i as int] == milestones@[i as int].amount);
            lemma_sum_first_monotonic(amounts, i as int, i + 1);
        }
        cumulative =
        match cumulative {
            Some(c) => c.checked_add(milestones[i].amount),
            None => None,
        };
        let covered = match cumulative {
            Some(c) => c <= deposited,
            None => false,
        };
        if milestones[i].status == MilestoneStatus::NotFunded && covered {
            milestones[i].status = target;
        }
        i += 1;
    }
    assert(milestone_models(milestones@) =~= promoted(before, deposited as int, target));
}

impl EscrowContract {
    /// Takes a deposit from `caller`.
    pub fn fund(&mut self, caller: &String, deposit: u128, policy: &Policy) -> (r: Result<
        Payouts,
        EscrowError,
    >)
        ensures
            outcome(old(self)@, final(self)@, r, old(self)@.fund(caller@, deposit, *policy)),
            old(self)@.wf() ==> final(self)@.wf(),
    {
        proof {
            lemma_wf_after(
                self@,
                Operation::Fund { caller: caller@, deposit },
                *policy,
                0,
            );
        }
        if !self.is_party(caller) {
            return Err(EscrowError::NotParty);
        }
        if self.status != ContractStatus::Active {
            return Err(EscrowError::ContractNotActive);
        }
        if deposit == 0 {
            return Err(EscrowError::ZeroDeposit);
        }
        let security = security_part(deposit, self.security_deposit_pct);
        let main = deposit - security;
        let remaining = self.total_amount.saturating_sub(self.funded_amount);
        if remaining == 0 {
            return Err(EscrowError::AlreadyFullyFunded);
        }
        let effective = if main <= remaining {
            main
        } else {
            remaining
        };
        let funded = self.funded_amount + effective;
        let pool = match self.security_pool.checked_add(security) {
            Some(p) => p,
            None => {
                return Err(EscrowError::Overflow);
            },
        };
        let deposited = match funded.checked_add(pool) {
            Some(t) => t,
            None => {
                return Err(EscrowError::Overflow);
            },
        };
        let target = if policy.funding_starts_work {
            MilestoneStatus::InProgress
        } else {
            MilestoneStatus::Funded
        };
        self.funded_amount = funded;
        self.security_pool = pool;
        promote_milestones(&mut self.milestones, deposited, target);
        Ok(Payouts { to_freelancer: 0, to_client: 0, to_owner: 0, to_caller: main - effective })
    }

    /// Marks milestone `idx` as paid.
    pub(crate) fn pay_milestone(&mut self, idx: usize)
        requires
            idx < old(self).milestones@.len(),
        ensures
            final(self)@ == old(self)@.with_paid_milestone(idx as int),
    {
        self.milestones[idx].status = MilestoneStatus::Completed;
        self.milestones[idx].payment_request_deadline_ns = None;
        assert(self@.milestones =~= old(self)@.milestones.update(
            idx as int,
            MilestoneModel {
                status: MilestoneStatus::Completed,
                payment_request_deadline_ns: None,
                ..old(self)@.milestones[idx as int]
            },
        ));
        assert(self@.disputes =~= old(self)@.disputes);
        if self.all_milestones_completed() {
            self.status = ContractStatus::Completed;
        }
    }

    /// Approves, as `caller`, a milestone that is under review.
    pub fn approve_milestone(&mut self, caller: &String, milestone_id: &String) -> (r: Result<
        Payouts,
        EscrowError,
    >)
        ensures
            outcome(
                old(self)@,
                final(self)@,
                r,
                old(self)@.approve_milestone(caller@, milestone_id@),
            ),
            old(self)@.wf() ==> final(self)@.wf(),
    {
        proof {
            lemma_wf_after(
                self@,
                Operation::ApproveMilestone { caller: caller@, milestone_id: milestone_id@ },
                arbitrary(),
                0,
            );
        }
        let idx = match self.find_milestone(milestone_id) {
            Some(i) => i,
            None => {
                return Err(EscrowError::MilestoneNotFound);
            },
        };
        if !self.is_client(caller) {
            return Err(EscrowError::NotClient);
        }
        if self.freelancer.is_none() {
            return Err(EscrowError::NoFreelancer);
        }
        if self.milestones[idx].status != MilestoneStatus::SubmittedForReview {
            return Err(EscrowError::MilestoneNotInReview);
        }
        let amount = self.milestones[idx].amount;
        self.pay_milestone(idx);
        Ok(Payouts { to_freelancer: amount, to_client: 0, to_owner: 0, to_caller: 0 })
    }

    /// Marks dispute `d` over milestone `m` as settled by `resolution`.
    pub(crate) fn settle(&mut self, d: usize, m: usize, resolution: Resolution)
        requires
            d < old(self).disputes@.len(),
            m < old(self).milestones@.len(),
        ensures
            final(self)@ == old(self)@.with_settlement(d as int, m as int, resolution),
    {
        self.disputes[d].funds_released = true;
        match resolution {
            Resolution::ContinueWork => {
                self.milestones[m].status = MilestoneStatus::InProgress;
                self.milestones[m].payment_request_deadline_ns = None;
            },
            _ => {
                self.milestones[m].status = MilestoneStatus::Completed;
            },
        }
        assert(self@.milestones =~= old(self)@.milestones.update(
            m as int,
            settled_milestone(resolution, old(self)@.milestones[m as int]),
        ));
        assert(self@.disputes =~= old(self)@.disputes.update(
            d as int,
            DisputeModel { funds_released: true, ..old(self)@.disputes[d as int] },
        ));
        self.status =
        if self.has_unsettled_dispute() {
            ContractStatus::Disputed
        } else if self.all_milestones_completed() {
            ContractStatus::Resolved
        } else {
            ContractStatus::Active
        };
    }

    /// Releases the funds of the finalized dispute over a milestone.
    pub fn release_dispute_funds(&mut self, milestone_id: &String) -> (r: Result<
        Payouts,
        EscrowError,
    >)
        ensures
            outcome(old(self)@, final(self)@, r, old(self)@.release_dispute_funds(milestone_id@)),
            old(self)@.wf() ==> final(self)@.wf(),
    {
        proof {
            lemma_wf_after(
                self@,
                Operation::ReleaseDisputeFunds { milestone_id: milestone_id@ },
                arbitrary(),
                0,
            );
        }
        let d = match self.find_dispute_where(milestone_id, DisputeFilter::AwaitingSettlement) {
            Some(d) => d,
            None => {
                return match self.find_dispute(milestone_id, DisputeStatus::Finalized) {
                    Some(_) => Err(EscrowError::FundsAlreadyReleased),
                    None => Err(EscrowError::DisputeNotFound),
                };
            },
        };
        let m = match self.find_milestone(milestone_id) {
            Some(m) => m,
            None => {
                return Err(EscrowError::MilestoneNotFound);
            },
        };
        let resolution = match self.disputes[d].resolution {
            Some(resolution) => resolution,
            None => {
                return Err(EscrowError::NoResolution);
            },
        };
        if self.freelancer.is_none() {
            return Err(EscrowError::NoFreelancer);
        }
        if self.milestones[m].status != MilestoneStatus::Disputed {
            return Err(EscrowError::MilestoneNotDisputed);
        }
        let amount = self.milestones[m].amount;
        let payouts = match resolution {
            Resolution::Freelancer => Payouts {
                to_freelancer: amount,
                to_client: 0,
                to_owner: 0,
                to_caller: 0,
            },
            Resolution::Client => Payouts {
                to_freelancer: 0,
                to_client: amount,
                to_owner: 0,
                to_caller: 0,
            },
            Resolution::ContinueWork => Payouts {
                to_freelancer: 0,
                to_client: 0,
                to_owner: 0,
                to_caller: 0,
            },
            Resolution::Split { freelancer_pct } => match split_part(amount, freelancer_pct) {
                Some(part) => Payouts {
                    to_freelancer: part,
                    to_client: amount - part,
                    to_owner: 0,
                    to_caller: 0,
                },
                None => {
                    return Err(EscrowError::InvalidSplit);
                },
            },
        };
        self.settle(d, m, resolution);
        Ok(payouts)
    }

    /// Releases the security pool once every milestone is completed.
    pub fn complete_contract_security(&mut self) -> (r: Result<Payouts, EscrowError>)
        ensures
            outcome(old(self)@, final(self)@, r, old(self)@.complete_contract_security()),
            old(self)@.wf() ==> final(self)@.wf(),
    {
        proof {
            lemma_wf_after(
                self@,
                Operation::CompleteContractSecurity,
                arbitrary(),
                0,
            );
        }
        if !self.all_milestones_completed() {
            return Err(EscrowError::MilestonesIncomplete);
        }
        let pool = self.security_pool;
        if pool == 0 {
            return Err(EscrowError::NoSecurityDeposit);
        }
        if self.freelancer.is_none() {
            return Err(EscrowError::NoFreelancer);
        }
        self.security_pool = 0;
        Ok(Payouts { to_freelancer: pool, to_client: 0, to_owner: 0, to_caller: 0 })
    }

    /// Adds `amount` to the security pool on behalf of `caller`.
    pub fn top_up_security(&mut self, caller: &String, amount: u128) -> (r: Result<
        (),
        EscrowError,
    >)
        ensures
            outcome(old(self)@, final(self)@, r, old(self)@.top_up_security(caller@, amount)),
            old(self)@.wf() ==> final(self)@.wf(),
    {
        proof {
            lemma_wf_after(
                self@,
                Operation::TopUpSecurity { caller: caller@, amount },
                arbitrary(),
                0,
            );
        }
        if !self.is_party(caller) {
            return Err(EscrowError::NotParty);
        }
        if amount == 0 {
            return Err(EscrowError::ZeroDeposit);
        }
        match self.security_pool.checked_add(amount) {
            Some(p) => {
                self.security_pool = p;
                Ok(())
            },
            None => Err(EscrowError::Overflow),
        }
    }
}

impl Contract {
    /// Takes the deposit attached to the call of `ctx` for a contract; its
    /// excess goes back to the caller.
    pub fn fund_contract(
        &mut self,
        ctx: &CallContext,
        contract_id: String,
    ) -> (r: Result<Payouts, EscrowError>)
        ensures
            routed(
                old(self)@,
                final(self)@,
                r,
                contract_id@,
                (|c: EscrowModel|
                    c.fund(ctx@.predecessor, ctx@.attached_deposit, old(self)@.policy)),
            ),
            old(self)@.wf() ==> final(self)@.wf(),
    {
        let i = match self.find_contract(&contract_id) {
            Some(i) => i,
            None => {
                return Err(EscrowError::ContractNotFound);
            },
        };
        proof {
            lemma_registry_wf_after(
                self@,
                i as int,
                Operation::Fund { caller: ctx@.predecessor, deposit: ctx@.attached_deposit },
            );
        }
        let policy = self.policy;
        let r = self.contracts[i].fund(&ctx.predecessor, ctx.attached_deposit, &policy);
        proof {
            lemma_one_contract_changed(old(self), self, i as int);
        }
        r
    }

    /// Adds the deposit attached to the call of `ctx` to the security pool of a contract.
    pub fn top_up_security(
        &mut self,
        ctx: &CallContext,
        contract_id: String,
    ) -> (r: Result<(), EscrowError>)
        ensures
            routed(
                old(self)@,
                final(self)@,
                r,
                contract_id@,
                (|c: EscrowModel|
                    c.top_up_security(ctx@.predecessor, ctx@.attached_deposit)),
            ),
            old(self)@.wf() ==> final(self)@.wf(),
    {
        let i = match self.find_contract(&contract_id) {
            Some(i) => i,
            None => {
                return Err(EscrowError::ContractNotFound);
            },
        };
        proof {
            lemma_registry_wf_after(
                self@,
                i as int,
                Operation::TopUpSecurity { caller: ctx@.predecessor, amount: ctx@.attached_deposit },
            );
        }
        let r = self.contracts[i].top_up_security(&ctx.predecessor, ctx.attached_deposit);
        proof {
            lemma_one_contract_changed(old(self), self, i as int);
        }
        r
    }

    /// Approves, as the caller of `ctx`, a milestone under review.
    pub fn approve_milestone(
        &mut self,
        ctx: &CallContext,
        contract_id: String,
        milestone_id: String,
    ) -> (r: Result<Payouts, EscrowError>)
        ensures
            routed(
                old(self)@,
                final(self)@,
                r,
                contract_id@,
                (|c: EscrowModel|
                    c.approve_milestone(ctx@.predecessor, milestone_id@)),
            ),
            old(self)@.wf() ==> final(self)@.wf(),
    {
        let i = match self.find_contract(&contract_id) {
            Some(i) => i,
            None => {
                return Err(EscrowError::ContractNotFound);
            },
        };
        proof {
            lemma_registry_wf_after(
                self@,
                i as int,
                Operation::ApproveMilestone { caller: ctx@.predecessor, milestone_id: milestone_id@ },
            );
        }
        let r = self.contracts[i].approve_milestone(&ctx.predecessor, &milestone_id);
        proof {
            lemma_one_contract_changed(old(self), self, i as int);
        }
        r
    }

    /// Releases the funds of the finalized dispute over a milestone.
    pub fn release_dispute_funds(
        &mut self,
        contract_id: String,
        milestone_id: String,
    ) -> (r: Result<Payouts, EscrowError>)
        ensures
            routed(
                old(self)@,
                final(self)@,
                r,
                contract_id@,
                (|c: EscrowModel|
                    c.release_dispute_funds(milestone_id@)),
            ),
            old(self)@.wf() ==> final(self)@.wf(),
    {
        let i = match self.find_contract(&contract_id) {
            Some(i) => i,
            None => {
                return Err(EscrowError::ContractNotFound);
            },
        };
        proof {
            lemma_registry_wf_after(
                self@,
                i as int,
                Operation::ReleaseDisputeFunds { milestone_id: milestone_id@ },
            );
        }
        let r = self.contracts[i].release_dispute_funds(&milestone_id);
        proof {
            lemma_one_contract_changed(old(self), self, i as int);
        }
        r
    }

    /// Releases the security pool of a contract whose milestones are all completed.
    pub fn complete_contract_security(
        &mut self,
        contract_id: String,
    ) -> (r: Result<Payouts, EscrowError>)
        ensures
            routed(
                old(self)@,
                final(self)@,
                r,
                contract_id@,
                (|c: EscrowModel|
                    c.complete_contract_security()),
            ),
            old(self)@.wf() ==> final(self)@.wf(),
    {
        let i = match self.find_contract(&contract_id) {
            Some(i) => i,
            None => {
                return Err(EscrowError::ContractNotFound);
            },
        };
        proof {
            lemma_registry_wf_after(
                self@,
                i as int,
                Operation::CompleteContractSecurity,
            );
        }
        let r = self.contracts[i].complete_contract_security();
        proof {
            lemma_one_contract_changed(old(self), self, i as int);
        }
        r
    }
}

} // verus!
