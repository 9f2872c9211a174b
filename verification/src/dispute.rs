//! Dispute and arbitration on one contract: raising a dispute, taking in the
//! oracle's attested verdict, bounded investigation rounds, appeal, acceptance
//! by the parties, finalization by deadline and the client's override.

use crate::attestation::{attestation_check, check_attestation, AttestationCheck};
use crate::laws::{lemma_registry_wf_after, lemma_wf_after};
use crate::model::{no_payouts, outcome, DisputeFilter};
use crate::operations::Operation;
use crate::registry::{lemma_one_contract_changed, routed, Contract};
use crate::types::{
    clone_bytes, text_of, CallContext, ContractStatus, Dispute, DisputeModel, DisputeStatus,
    DisputeWindow, EscrowContract, EscrowError, EscrowModel, InvestigationRound, MilestoneModel,
    MilestoneStatus, Payouts, Policy, Resolution, RoundModel,
};
use vstd::prelude::*;

verus! {

/// How long the parties have to accept or appeal a resolution: 48 hours.
pub const DISPUTE_DEADLINE_NS: u64 = 48 * 60 * 60 * 1_000_000_000;

/// How many investigation rounds a dispute allows before an appeal.
pub const INITIAL_MAX_ROUNDS: u8 = 3;

/// How many investigation rounds a dispute allows after an appeal.
pub const APPEAL_MAX_ROUNDS: u8 = 5;

/// The dispute that `raise_dispute` opens.
pub open spec fn new_dispute(
    milestone_id: Seq<char>,
    raised_by: Seq<char>,
    reason: Seq<char>,
) -> DisputeModel {
    DisputeModel {
        milestone_id,
        raised_by,
        reason,
        status: DisputeStatus::Pending,
        resolution: None,
        explanation: None,
        deadline_ns: None,
        client_accepted: false,
        freelancer_accepted: false,
        is_appeal: false,
        investigation_rounds: Seq::empty(),
        max_rounds: INITIAL_MAX_ROUNDS,
        ai_fee_deducted: false,
        tee_signature: None,
        tee_signing_address: None,
        tee_text: None,
        funds_released: false,
    }
}

impl Policy {
    /// Whether a dispute may be raised over a milestone in this status.
    pub open spec fn disputable(self, status: MilestoneStatus) -> bool {
        match self.dispute_window {
            DisputeWindow::UnderReview => status == MilestoneStatus::SubmittedForReview,
            DisputeWindow::WhileWorking => status == MilestoneStatus::Funded || status
                == MilestoneStatus::InProgress,
            DisputeWindow::Either => status == MilestoneStatus::SubmittedForReview || status
                == MilestoneStatus::Funded || status == MilestoneStatus::InProgress,
        }
    }

    /// Whether a dispute may be raised over a milestone in this status.
    pub fn is_disputable(&self, status: MilestoneStatus) -> (r: bool)
        ensures
            r == self.disputable(status),
    {
        match self.dispute_window {
            DisputeWindow::UnderReview => status == MilestoneStatus::SubmittedForReview,
            DisputeWindow::WhileWorking => status == MilestoneStatus::Funded || status
                == MilestoneStatus::InProgress,
            DisputeWindow::Either => status == MilestoneStatus::SubmittedForReview || status
                == MilestoneStatus::Funded || status == MilestoneStatus::InProgress,
        }
    }
}

impl EscrowModel {
    /// Whether the policy lets `caller` raise a dispute; the error if not.
    pub open spec fn may_dispute(self, caller: Seq<char>, policy: Policy) -> Option<EscrowError> {
        if policy.either_party_may_dispute {
            if self.is_party(caller) {
                None
            } else {
                Some(EscrowError::NotParty)
            }
        } else {
            if caller == self.client {
                None
            } else {
                Some(EscrowError::NotClient)
            }
        }
    }

    /// A party raises a dispute over a milestone: the milestone and the
    /// contract become disputed and a pending dispute is opened. The security
    /// pool must cover the processing fee.
    pub open spec fn raise_dispute(
        self,
        caller: Seq<char>,
        milestone_id: Seq<char>,
        reason: Seq<char>,
        fee: u128,
        policy: Policy,
    ) -> Result<(EscrowModel, ()), EscrowError> {
        match self.milestone_index(milestone_id) {
            None => Err(EscrowError::MilestoneNotFound),
            Some(i) => if self.may_dispute(caller, policy) is Some {
                Err(self.may_dispute(caller, policy)->0)
            } else if !policy.disputable(self.milestones[i].status) {
                Err(EscrowError::MilestoneNotDisputable)
            } else if self.security_pool < fee {
                Err(EscrowError::InsufficientSecurity)
            } else {
                Ok(
                    (
                        EscrowModel {
                            milestones: self.milestones.update(
                                i,
                                MilestoneModel {
                                    status: MilestoneStatus::Disputed,
                                    ..self.milestones[i]
                                },
                            ),
                            status: ContractStatus::Disputed,
                            disputes: self.disputes.push(
                                new_dispute(milestone_id, caller, reason),
                            ),
                            ..self
                        },
                        (),
                    ),
                )
            },
        }
    }

    /// A party accepts the resolution of a dispute. The dispute becomes final
    /// once both have accepted, or, under single acceptance, once the party
    /// that raised it has. The result says whether it became final.
    pub open spec fn accept_resolution(
        self,
        caller: Seq<char>,
        milestone_id: Seq<char>,
        policy: Policy,
    ) -> Result<(EscrowModel, bool), EscrowError> {
        match self.dispute_index(milestone_id, DisputeFilter::AwaitingFinality) {
            None => Err(EscrowError::DisputeNotFound),
            Some(d) => if !self.is_party(caller) {
                Err(EscrowError::NotParty)
            } else {
                let by_client = caller == self.client;
                let client_accepted = self.disputes[d].client_accepted || by_client;
                let freelancer_accepted = self.disputes[d].freelancer_accepted || !by_client;
                let finalized = (client_accepted && freelancer_accepted) || (
                policy.single_acceptance && caller == self.disputes[d].raised_by);
                Ok(
                    (
                        self.with_dispute(
                            d,
                            DisputeModel {
                                client_accepted,
                                freelancer_accepted,
                                status: if finalized {
                                    DisputeStatus::Finalized
                                } else {
                                    self.disputes[d].status
                                },
                                ..self.disputes[d]
                            },
                        ),
                        finalized,
                    ),
                )
            },
        }
    }

    /// A party appeals a first resolution: the dispute is open again as an
    /// appeal, with no acceptance recorded, an empty investigation log and
    /// the larger round cap.
    pub open spec fn appeal_resolution(self, caller: Seq<char>, milestone_id: Seq<char>) -> Result<
        (EscrowModel, ()),
        EscrowError,
    > {
        match self.dispute_index(
            milestone_id,
            DisputeFilter::InStatus(DisputeStatus::AiResolved),
        ) {
            None => Err(EscrowError::DisputeNotFound),
            Some(d) => if !self.is_party(caller) {
                Err(EscrowError::NotParty)
            } else {
                Ok(
                    (
                        self.with_dispute(
                            d,
                            DisputeModel {
                                status: DisputeStatus::Appealed,
                                is_appeal: true,
                                client_accepted: false,
                                freelancer_accepted: false,
                                max_rounds: APPEAL_MAX_ROUNDS,
                                investigation_rounds: Seq::empty(),
                                ..self.disputes[d]
                            },
                        ),
                        (),
                    ),
                )
            },
        }
    }

    /// Whether a resolved dispute may become final at time `now`: both
    /// parties have accepted, or its deadline has passed.
    pub open spec fn may_finalize(d: DisputeModel, now: u64) -> bool {
        (d.client_accepted && d.freelancer_accepted) || (d.deadline_ns is Some && now
            >= d.deadline_ns->0)
    }

    /// Anyone makes a resolved dispute final once both parties have accepted
    /// or its deadline has passed.
    pub open spec fn finalize_resolution(self, now: u64, milestone_id: Seq<char>) -> Result<
        (EscrowModel, ()),
        EscrowError,
    > {
        match self.dispute_index(milestone_id, DisputeFilter::AwaitingFinality) {
            None => Err(EscrowError::DisputeNotFound),
            Some(d) => if !Self::may_finalize(self.disputes[d], now) {
                Err(EscrowError::DeadlineNotReached)
            } else {
                Ok(
                    (
                        self.with_dispute(
                            d,
                            DisputeModel { status: DisputeStatus::Finalized, ..self.disputes[d] },
                        ),
                        (),
                    ),
                )
            },
        }
    }
}

/// The error that a failed attestation check stands for.
pub open spec fn attestation_error(check: AttestationCheck) -> Option<EscrowError> {
    match check {
        AttestationCheck::Accepted => None,
        AttestationCheck::InvalidSignature => Some(EscrowError::InvalidSignature),
        AttestationCheck::UntrustedSigner => Some(EscrowError::UntrustedSigner),
    }
}

/// An attested submission of the oracle: the signature, the signer's key
/// and the signed text.
pub struct AttestationModel {
    pub signature: Seq<u8>,
    pub signing_address: Seq<u8>,
    pub text: Seq<char>,
}

/// What the oracle reports in one investigation round.
pub struct RoundReport {
    pub round_number: u8,
    pub analysis: Seq<char>,
    pub findings: Seq<char>,
    pub confidence: u8,
    pub needs_more_analysis: bool,
}

/// The dispute once a verdict has been recorded in it at time `now`: final
/// at once when work is to continue, else resolved with a deadline.
pub open spec fn verdict_dispute(
    d: DisputeModel,
    resolution: Resolution,
    explanation: Seq<char>,
    attestation: AttestationModel,
    now: u64,
    fee: u128,
) -> DisputeModel {
    DisputeModel {
        status: if resolution == Resolution::ContinueWork {
            DisputeStatus::Finalized
        } else if d.is_appeal {
            DisputeStatus::AppealResolved
        } else {
            DisputeStatus::AiResolved
        },
        resolution: Some(resolution),
        explanation: Some(explanation),
        deadline_ns: if resolution == Resolution::ContinueWork {
            None
        } else {
            Some((now + DISPUTE_DEADLINE_NS) as u64)
        },
        client_accepted: false,
        freelancer_accepted: false,
        ai_fee_deducted: d.ai_fee_deducted || fee > 0,
        tee_signature: Some(attestation.signature),
        tee_signing_address: Some(attestation.signing_address),
        tee_text: Some(attestation.text),
        ..d
    }
}

impl EscrowModel {
    /// The processing fee that a verdict on dispute `d` still owes: the fee,
    /// unless one was deducted for this dispute before.
    pub open spec fn fee_due(self, d: int, fee: u128) -> u128 {
        if self.disputes[d].ai_fee_deducted {
            0
        } else {
            fee
        }
    }

    /// Why a verdict on dispute `d` cannot be recorded at time `now`, if it cannot.
    pub open spec fn verdict_error(self, d: int, resolution: Resolution, now: u64, fee: u128)
        -> Option<EscrowError> {
        if resolution is Split && resolution->freelancer_pct > 100 {
            Some(EscrowError::InvalidSplit)
        } else if self.security_pool < self.fee_due(d, fee) {
            Some(EscrowError::InsufficientSecurity)
        } else if resolution == Resolution::ContinueWork {
            match self.milestone_index(self.disputes[d].milestone_id) {
                None => Some(EscrowError::MilestoneNotFound),
                Some(m) => if self.milestones[m].status != MilestoneStatus::Disputed {
                    Some(EscrowError::MilestoneNotDisputed)
                } else {
                    None
                },
            }
        } else if now + DISPUTE_DEADLINE_NS > u64::MAX {
            Some(EscrowError::Overflow)
        } else {
            None
        }
    }

    /// The contract once a verdict on dispute `d` has been recorded: the fee
    /// that is due leaves the security pool for the owner, and a verdict to
    /// continue work reopens the milestone at once.
    pub open spec fn with_verdict(
        self,
        d: int,
        resolution: Resolution,
        explanation: Seq<char>,
        attestation: AttestationModel,
        now: u64,
        fee: u128,
    ) -> (EscrowModel, Payouts) {
        let recorded = EscrowModel {
            disputes: self.disputes.update(
                d,
                verdict_dispute(self.disputes[d], resolution, explanation, attestation, now, fee),
            ),
            security_pool: (self.security_pool - self.fee_due(d, fee)) as u128,
            ..self
        };
        (
            if resolution == Resolution::ContinueWork {
                recorded.with_settlement(
                    d,
                    self.milestone_index(self.disputes[d].milestone_id)->0,
                    Resolution::ContinueWork,
                )
            } else {
                recorded
            },
            Payouts { to_owner: self.fee_due(d, fee), ..no_payouts() },
        )
    }

    /// The oracle's verdict on an open dispute, with the result of checking
    /// its attestation.
    pub open spec fn submit_ai_resolution(
        self,
        milestone_id: Seq<char>,
        resolution: Resolution,
        explanation: Seq<char>,
        attestation: AttestationModel,
        check: AttestationCheck,
        now: u64,
        fee: u128,
    ) -> Result<(EscrowModel, Payouts), EscrowError> {
        match self.dispute_index(milestone_id, DisputeFilter::AwaitingVerdict) {
            None => Err(EscrowError::DisputeNotFound),
            Some(d) => if attestation_error(check) is Some {
                Err(attestation_error(check)->0)
            } else if self.verdict_error(d, resolution, now, fee) is Some {
                Err(self.verdict_error(d, resolution, now, fee)->0)
            } else {
                Ok(self.with_verdict(d, resolution, explanation, attestation, now, fee))
            },
        }
    }

    /// The contract once a round has been appended to the log of dispute `d`.
    pub open spec fn with_round(
        self,
        d: int,
        report: RoundReport,
        attestation: AttestationModel,
        now: u64,
    ) -> EscrowModel {
        self.with_dispute(
            d,
            DisputeModel {
                investigation_rounds: self.disputes[d].investigation_rounds.push(
                    RoundModel {
                        round_number: report.round_number,
                        analysis: report.analysis,
                        findings: report.findings,
                        confidence: report.confidence,
                        needs_more_analysis: report.needs_more_analysis,
                        tee_signature: attestation.signature,
                        tee_signing_address: attestation.signing_address,
                        tee_text: attestation.text,
                        timestamp: now,
                    },
                ),
                ..self.disputes[d]
            },
        )
    }

    /// Whether a round with this report closes the investigation of dispute
    /// `d`: the oracle needs no more analysis, or the round cap is reached.
    pub open spec fn closes_investigation(self, d: int, report: RoundReport) -> bool {
        !report.needs_more_analysis || report.round_number >= self.disputes[d].max_rounds
    }

    /// One investigation round on an open dispute. Its number must be the
    /// next in sequence and within the cap. A round that closes the
    /// investigation and carries a resolution with its explanation records
    /// that verdict as `submit_ai_resolution` does.
    pub open spec fn submit_investigation_round(
        self,
        milestone_id: Seq<char>,
        report: RoundReport,
        resolution: Option<Resolution>,
        explanation: Option<Seq<char>>,
        attestation: AttestationModel,
        check: AttestationCheck,
        now: u64,
        fee: u128,
    ) -> Result<(EscrowModel, Payouts), EscrowError> {
        match self.dispute_index(milestone_id, DisputeFilter::AwaitingVerdict) {
            None => Err(EscrowError::DisputeNotFound),
            Some(d) => {
                let logged = self.with_round(d, report, attestation, now);
                if attestation_error(check) is Some {
                    Err(attestation_error(check)->0)
                } else if report.round_number != self.disputes[d].investigation_rounds.len() + 1 {
                    Err(EscrowError::InvalidRoundNumber)
                } else if self.disputes[d].investigation_rounds.len()
                    >= self.disputes[d].max_rounds {
                    Err(EscrowError::RoundLimitReached)
                } else if self.closes_investigation(d, report) && resolution is Some
                    && explanation is Some {
                    if logged.verdict_error(d, resolution->0, now, fee) is Some {
                        Err(logged.verdict_error(d, resolution->0, now, fee)->0)
                    } else {
                        Ok(
                            logged.with_verdict(
                                d,
                                resolution->0,
                                explanation->0,
                                attestation,
                                now,
                                fee,
                            ),
                        )
                    }
                } else {
                    Ok((logged, no_payouts()))
                }
            },
        }
    }

    /// The client turns a resolution that is not yet settled into continued
    /// work: the dispute is final and settled, the milestone is in progress
    /// again, and payment requests are blocked for the cooldown.
    pub open spec fn override_to_continue_work(
        self,
        caller: Seq<char>,
        now: u64,
        milestone_id: Seq<char>,
        policy: Policy,
    ) -> Result<(EscrowModel, ()), EscrowError> {
        match self.dispute_index(milestone_id, DisputeFilter::Overridable) {
            None => Err(EscrowError::DisputeNotFound),
            Some(d) => match self.milestone_index(milestone_id) {
                None => Err(EscrowError::MilestoneNotFound),
                Some(m) => if caller != self.client {
                    Err(EscrowError::NotClient)
                } else if self.milestones[m].status != MilestoneStatus::Disputed {
                    Err(EscrowError::MilestoneNotDisputed)
                } else if now + policy.override_cooldown_ns > u64::MAX {
                    Err(EscrowError::Overflow)
                } else {
                    let settled = self.with_dispute(
                        d,
                        DisputeModel {
                            status: DisputeStatus::Finalized,
                            resolution: Some(Resolution::ContinueWork),
                            deadline_ns: None,
                            ..self.disputes[d]
                        },
                    ).with_settlement(d, m, Resolution::ContinueWork);
                    Ok(
                        (
                            settled.with_milestone(
                                m,
                                MilestoneModel {
                                    payment_request_blocked_until_ns: Some(
                                        (now + policy.override_cooldown_ns) as u64,
                                    ),
                                    ..settled.milestones[m]
                                },
                            ),
                            (),
                        ),
                    )
                },
            },
        }
    }
}

/// The error that a failed attestation check stands for.
pub fn attestation_failure(check: AttestationCheck) -> (r: Option<EscrowError>)
    ensures
        r == attestation_error(check),
{
    match check {
        AttestationCheck::Accepted => None,
        AttestationCheck::InvalidSignature => Some(EscrowError::InvalidSignature),
        AttestationCheck::UntrustedSigner => Some(EscrowError::UntrustedSigner),
    }
}

/// What recording a verdict will do, decided before anything is changed.
struct VerdictPlan {
    charge: u128,
    reopen: Option<usize>,
    deadline: Option<u64>,
}

impl EscrowContract {
    /// Decides whether a verdict on dispute `d` can be recorded at time `now`.
    fn plan_verdict(&self, d: usize, resolution: Resolution, now: u64, fee: u128) -> (r: Result<
        VerdictPlan,
        EscrowError,
    >)
        requires
            d < self.disputes@.len(),
        ensures
            match self@.verdict_error(d as int, resolution, now, fee) {
                Some(e) => r is Err && r->Err_0 == e,
                None => r is Ok && r->Ok_0.charge == self@.fee_due(d as int, fee)
                    && r->Ok_0.charge <= self.security_pool && (resolution
                    == Resolution::ContinueWork ==> r->Ok_0.reopen is Some
                    && r->Ok_0.reopen->0 < self.milestones@.len() && Some(
                    r->Ok_0.reopen->0 as int,
                ) == self@.milestone_index(self@.disputes[d as int].milestone_id)
                    && r->Ok_0.deadline is None) && (resolution != Resolution::ContinueWork
                    ==> r->Ok_0.reopen is None && r->Ok_0.deadline == Some(
                    (now + DISPUTE_DEADLINE_NS) as u64,
                )),
            },
    {
        match resolution {
            Resolution::Split { freelancer_pct } => {
                if freelancer_pct > 100 {
                    return Err(EscrowError::InvalidSplit);
                }
            },
            _ => {},
        }
        let charge = if self.disputes[d].ai_fee_deducted {
            0
        } else {
            fee
        };
        if self.security_pool < charge {
            return Err(EscrowError::InsufficientSecurity);
        }
        match resolution {
            Resolution::ContinueWork => {
                let m = match self.find_milestone(&self.disputes[d].milestone_id) {
                    Some(m) => m,
                    None => {
                        return Err(EscrowError::MilestoneNotFound);
                    },
                };
                if self.milestones[m].status != MilestoneStatus::Disputed {
                    return Err(EscrowError::MilestoneNotDisputed);
                }
                Ok(VerdictPlan { charge, reopen: Some(m), deadline: None })
            },
            _ => {
                match now.checked_add(DISPUTE_DEADLINE_NS) {
                    Some(deadline) => Ok(
                        VerdictPlan { charge, reopen: None, deadline: Some(deadline) },
                    ),
                    None => Err(EscrowError::Overflow),
                }
            },
        }
    }

    /// Records a verdict on dispute `d` as planned.
    fn record_verdict(
        &mut self,
        d: usize,
        plan: VerdictPlan,
        resolution: Resolution,
        explanation: String,
        signature: Vec<u8>,
        signing_address: Vec<u8>,
        tee_text: String,
        Ghost(now): Ghost<u64>,
        fee: u128,
    ) -> (r: Payouts)
        requires
            d < old(self).disputes@.len(),
            old(self)@.verdict_error(d as int, resolution, now, fee) is None,
            plan.charge == old(self)@.fee_due(d as int, fee),
            plan.charge <= old(self).security_pool,
            resolution == Resolution::ContinueWork ==> plan.reopen is Some && plan.reopen->0
                < old(self).milestones@.len() && Some(plan.reopen->0 as int)
                == old(self)@.milestone_index(old(self)@.disputes[d as int].milestone_id)
                && plan.deadline is None,
            resolution != Resolution::ContinueWork ==> plan.reopen is None && plan.deadline
                == Some((now + DISPUTE_DEADLINE_NS) as u64),
        ensures
            (final(self)@, r) == old(self)@.with_verdict(
                d as int,
                resolution,
                explanation@,
                AttestationModel {
                    signature: signature@,
                    signing_address: signing_address@,
                    text: tee_text@,
                },
                now,
                fee,
            ),
    {
        let ghost attestation = AttestationModel {
            signature: signature@,
            signing_address: signing_address@,
            text: tee_text@,
        };
        let ghost recorded = verdict_dispute(
            old(self)@.disputes[d as int],
            resolution,
            explanation@,
            attestation,
            now,
            fee,
        );
        let resolved = if self.disputes[d].is_appeal {
            DisputeStatus::AppealResolved
        } else {
            DisputeStatus::AiResolved
        };
        self.disputes[d].status =
        match plan.reopen {
            Some(_) => DisputeStatus::Finalized,
            None => resolved,
        };
        self.disputes[d].resolution = Some(resolution);
        self.disputes[d].explanation = Some(explanation);
        self.disputes[d].deadline_ns = plan.deadline;
        self.disputes[d].client_accepted = false;
        self.disputes[d].freelancer_accepted = false;
        if fee > 0 {
            self.disputes[d].ai_fee_deducted = true;
        }
        self.disputes[d].tee_signature = Some(signature);
        self.disputes[d].tee_signing_address = Some(signing_address);
        self.disputes[d].tee_text = Some(tee_text);
        self.security_pool = self.security_pool - plan.charge;
        assert(self.disputes@[d as int]@ == recorded);
        assert(self@.disputes =~= old(self)@.disputes.update(d as int, recorded));
        assert(self@.milestones =~= old(self)@.milestones);
        match plan.reopen {
            Some(m) => {
                self.settle(d, m, Resolution::ContinueWork);
            },
            None => {},
        }
        Payouts { to_freelancer: 0, to_client: 0, to_owner: plan.charge, to_caller: 0 }
    }

    /// Takes in the oracle's verdict on an open dispute at time `now`.
    /// `check` is the result of checking the attestation.
    pub fn submit_ai_resolution(
        &mut self,
        milestone_id: &String,
        resolution: Resolution,
        explanation: String,
        signature: Vec<u8>,
        signing_address: Vec<u8>,
        tee_text: String,
        check: AttestationCheck,
        now: u64,
        fee: u128,
    ) -> (r: Result<Payouts, EscrowError>)
        ensures
            outcome(
                old(self)@,
                final(self)@,
                r,
                old(self)@.submit_ai_resolution(
                    milestone_id@,
                    resolution,
                    explanation@,
                    AttestationModel {
                        signature: signature@,
                        signing_address: signing_address@,
                        text: tee_text@,
                    },
                    check,
                    now,
                    fee,
                ),
            ),
            old(self)@.wf() ==> final(self)@.wf(),
    {
        proof {
            lemma_wf_after(
                self@,
                Operation::SubmitAiResolution {
                    milestone_id: milestone_id@,
                    resolution,
                    explanation: explanation@,
                    attestation: AttestationModel {
                        signature: signature@,
                        signing_address: signing_address@,
                        text: tee_text@,
                    },
                    check,
                    now,
                },
                arbitrary(),
                fee,
            );
        }
        let d = match self.find_dispute_where(milestone_id, DisputeFilter::AwaitingVerdict) {
            Some(d) => d,
            None => {
                return Err(EscrowError::DisputeNotFound);
            },
        };
        match attestation_failure(check) {
            Some(e) => {
                return Err(e);
            },
            None => {},
        }
        let plan = match self.plan_verdict(d, resolution, now, fee) {
            Ok(plan) => plan,
            Err(e) => {
                return Err(e);
            },
        };
        let payouts = self.record_verdict(
            d,
            plan,
            resolution,
            explanation,
            signature,
            signing_address,
            tee_text,
            Ghost(now),
            fee,
        );
        Ok(payouts)
    }

    /// Takes in one investigation round on an open dispute at time `now`.
    /// `check` is the result of checking the attestation.
    pub fn submit_investigation_round(
        &mut self,
        milestone_id: &String,
        round_number: u8,
        analysis: String,
        findings: String,
        confidence: u8,
        needs_more_analysis: bool,
        resolution: Option<Resolution>,
        explanation: Option<String>,
        signature: Vec<u8>,
        signing_address: Vec<u8>,
        tee_text: String,
        check: AttestationCheck,
        now: u64,
        fee: u128,
    ) -> (r: Result<Payouts, EscrowError>)
        ensures
            outcome(
                old(self)@,
                final(self)@,
                r,
                old(self)@.submit_investigation_round(
                    milestone_id@,
                    RoundReport {
                        round_number,
                        analysis: analysis@,
                        findings: findings@,
                        confidence,
                        needs_more_analysis,
                    },
                    resolution,
                    text_of(explanation),
                    AttestationModel {
                        signature: signature@,
                        signing_address: signing_address@,
                        text: tee_text@,
                    },
                    check,
                    now,
                    fee,
                ),
            ),
            old(self)@.wf() ==> final(self)@.wf(),
    {
        proof {
            lemma_wf_after(
                self@,
                Operation::SubmitInvestigationRound {
                    milestone_id: milestone_id@,
                    report: RoundReport {
                        round_number,
                        analysis: analysis@,
                        findings: findings@,
                        confidence,
                        needs_more_analysis,
                    },
                    resolution,
                    explanation: text_of(explanation),
                    attestation: AttestationModel {
                        signature: signature@,
                        signing_address: signing_address@,
                        text: tee_text@,
                    },
                    check,
                    now,
                },
                arbitrary(),
                fee,
            );
        }
        let ghost report = RoundReport {
            round_number,
            analysis: analysis@,
            findings: findings@,
            confidence,
            needs_more_analysis,
        };
        let ghost attestation = AttestationModel {
            signature: signature@,
            signing_address: signing_address@,
            text: tee_text@,
        };
        let d = match self.find_dispute_where(milestone_id, DisputeFilter::AwaitingVerdict) {
            Some(d) => d,
            None => {
                return Err(EscrowError::DisputeNotFound);
            },
        };
        match attestation_failure(check) {
            Some(e) => {
                return Err(e);
            },
            None => {},
        }
        let count = self.disputes[d].investigation_rounds.len();
        assert(count == self@.disputes[d as int].investigation_rounds.len());
        if round_number == 0 || (round_number - 1) as usize != count {
            return Err(EscrowError::InvalidRoundNumber);
        }
        if count >= self.disputes[d].max_rounds as usize {
            return Err(EscrowError::RoundLimitReached);
        }
        let closes = !needs_more_analysis || round_number >= self.disputes[d].max_rounds;
        let verdict: Option<Resolution> = if closes && explanation.is_some() {
            resolution
        } else {
            None
        };
        let plan = match verdict {
            Some(res) => match self.plan_verdict(d, res, now, fee) {
                Ok(plan) => Some(plan),
                Err(e) => {
                    return Err(e);
                },
            },
            None => None,
        };
        let round = InvestigationRound {
            round_number,
            analysis,
            findings,
            confidence,
            needs_more_analysis,
            tee_signature: clone_bytes(&signature),
            tee_signing_address: clone_bytes(&signing_address),
            tee_text: tee_text.clone(),
            timestamp: now,
        };
        self.disputes[d].investigation_rounds.push(round);
        proof {
            let logged = old(self)@.with_round(d as int, report, attestation, now);
            assert(self.disputes@[d as int]@.investigation_rounds =~= logged.disputes[d as int].investigation_rounds);
            assert(self.disputes@[d as int]@ == logged.disputes[d as int]);
            assert(self@.disputes =~= logged.disputes);
            assert(self@.milestones =~= logged.milestones);
            assert(self@ == logged);
        }
        match verdict {
            Some(res) => {
                let payouts = self.record_verdict(
                    d,
                    plan.unwrap(),
                    res,
                    explanation.unwrap(),
                    signature,
                    signing_address,
                    tee_text,
                    Ghost(now),
                    fee,
                );
                Ok(payouts)
            },
            None => Ok(Payouts { to_freelancer: 0, to_client: 0, to_owner: 0, to_caller: 0 }),
        }
    }

    /// Turns, as `caller` at time `now`, a resolution that is not yet settled
    /// into continued work.
    pub fn override_to_continue_work(
        &mut self,
        caller: &String,
        now: u64,
        milestone_id: &String,
        policy: &Policy,
    ) -> (r: Result<(), EscrowError>)
        ensures
            outcome(
                old(self)@,
                final(self)@,
                r,
                old(self)@.override_to_continue_work(caller@, now, milestone_id@, *policy),
            ),
            old(self)@.wf() ==> final(self)@.wf(),
    {
        proof {
            lemma_wf_after(
                self@,
                Operation::OverrideToContinueWork {
                    caller: caller@,
                    now,
                    milestone_id: milestone_id@,
                },
                *policy,
                0,
            );
        }
        let d = match self.find_dispute_where(milestone_id, DisputeFilter::Overridable) {
            Some(d) => d,
            None => {
                return Err(EscrowError::DisputeNotFound);
            },
        };
        let m = match self.find_milestone(milestone_id) {
            Some(m) => m,
            None => {
                return Err(EscrowError::MilestoneNotFound);
            },
        };
        if !self.is_client(caller) {
            return Err(EscrowError::NotClient);
        }
        if self.milestones[m].status != MilestoneStatus::Disputed {
            return Err(EscrowError::MilestoneNotDisputed);
        }
        let blocked_until = match now.checked_add(policy.override_cooldown_ns) {
            Some(t) => t,
            None => {
                return Err(EscrowError::Overflow);
            },
        };
        self.disputes[d].status = DisputeStatus::Finalized;
        self.disputes[d].resolution = Some(Resolution::ContinueWork);
        self.disputes[d].deadline_ns = None;
        assert(self@.disputes =~= old(self)@.disputes.update(
            d as int,
            DisputeModel {
                status: DisputeStatus::Finalized,
                resolution: Some(Resolution::ContinueWork),
                deadline_ns: None,
                ..old(self)@.disputes[d as int]
            },
        ));
        assert(self@.milestones =~= old(self)@.milestones);
        self.settle(d, m, Resolution::ContinueWork);
        let ghost settled = self@;
        self.milestones[m].payment_request_blocked_until_ns = Some(blocked_until);
        assert(self@.milestones =~= settled.milestones.update(
            m as int,
            MilestoneModel {
                payment_request_blocked_until_ns: Some(blocked_until),
                ..settled.milestones[m as int]
            },
        ));
        assert(self@.disputes =~= settled.disputes);
        Ok(())
    }

    /// Raises, as `caller`, a dispute over a milestone.
    pub fn raise_dispute(
        &mut self,
        caller: &String,
        milestone_id: &String,
        reason: String,
        fee: u128,
        policy: &Policy,
    ) -> (r: Result<(), EscrowError>)
        ensures
            outcome(
                old(self)@,
                final(self)@,
                r,
                old(self)@.raise_dispute(caller@, milestone_id@, reason@, fee, *policy),
            ),
            old(self)@.wf() ==> final(self)@.wf(),
    {
        proof {
            lemma_wf_after(
                self@,
                Operation::RaiseDispute {
                    caller: caller@,
                    milestone_id: milestone_id@,
                    reason: reason@,
                },
                *policy,
                fee,
            );
        }
        let idx = match self.find_milestone(milestone_id) {
            Some(i) => i,
            None => {
                return Err(EscrowError::MilestoneNotFound);
            },
        };
        if policy.either_party_may_dispute {
            if !self.is_party(caller) {
                return Err(EscrowError::NotParty);
            }
        } else {
            if !self.is_client(caller) {
                return Err(EscrowError::NotClient);
            }
        }
        if !policy.is_disputable(self.milestones[idx].status) {
            return Err(EscrowError::MilestoneNotDisputable);
        }
        if self.security_pool < fee {
            return Err(EscrowError::InsufficientSecurity);
        }
        let dispute = Dispute {
            milestone_id: milestone_id.clone(),
            raised_by: caller.clone(),
            reason,
            status: DisputeStatus::Pending,
            resolution: None,
            explanation: None,
            deadline_ns: None,
            client_accepted: false,
            freelancer_accepted: false,
            is_appeal: false,
            investigation_rounds: Vec::new(),
            max_rounds: INITIAL_MAX_ROUNDS,
            ai_fee_deducted: false,
            tee_signature: None,
            tee_signing_address: None,
            tee_text: None,
            funds_released: false,
        };
        assert(dispute@.investigation_rounds =~= Seq::empty());
        assert(dispute@ == new_dispute(milestone_id@, caller@, reason@));
        self.milestones[idx].status = MilestoneStatus::Disputed;
        self.status = ContractStatus::Disputed;
        self.disputes.push(dispute);
        assert(self@.milestones =~= old(self)@.milestones.update(
            idx as int,
            MilestoneModel {
                status: MilestoneStatus::Disputed,
                ..old(self)@.milestones[idx as int]
            },
        ));
        assert(self@.disputes =~= old(self)@.disputes.push(
            new_dispute(milestone_id@, caller@, reason@),
        ));
        Ok(())
    }

    /// Records, as `caller`, the acceptance of the resolution of a dispute.
    pub fn accept_resolution(&mut self, caller: &String, milestone_id: &String, policy: &Policy)
        -> (r: Result<bool, EscrowError>)
        ensures
            outcome(
                old(self)@,
                final(self)@,
                r,
                old(self)@.accept_resolution(caller@, milestone_id@, *policy),
            ),
            old(self)@.wf() ==> final(self)@.wf(),
    {
        proof {
            lemma_wf_after(
                self@,
                Operation::AcceptResolution { caller: caller@, milestone_id: milestone_id@ },
                *policy,
                0,
            );
        }
        let d = match self.find_dispute_where(milestone_id, DisputeFilter::AwaitingFinality) {
            Some(d) => d,
            None => {
                return Err(EscrowError::DisputeNotFound);
            },
        };
        if !self.is_party(caller) {
            return Err(EscrowError::NotParty);
        }
        let by_client = self.is_client(caller);
        let client_accepted = self.disputes[d].client_accepted || by_client;
        let freelancer_accepted = self.disputes[d].freelancer_accepted || !by_client;
        let finalized = (client_accepted && freelancer_accepted) || (policy.single_acceptance
            && *caller == self.disputes[d].raised_by);
        self.disputes[d].client_accepted = client_accepted;
        self.disputes[d].freelancer_accepted = freelancer_accepted;
        if finalized {
            self.disputes[d].status = DisputeStatus::Finalized;
        }
        assert(self@.disputes =~= old(self)@.disputes.update(
            d as int,
            DisputeModel {
                client_accepted,
                freelancer_accepted,
                status: if finalized {
                    DisputeStatus::Finalized
                } else {
                    old(self)@.disputes[d as int].status
                },
                ..old(self)@.disputes[d as int]
            },
        ));
        assert(self@.milestones =~= old(self)@.milestones);
        Ok(finalized)
    }

    /// Appeals, as `caller`, the first resolution of a dispute.
    pub fn appeal_resolution(&mut self, caller: &String, milestone_id: &String) -> (r: Result<
        (),
        EscrowError,
    >)
        ensures
            outcome(
                old(self)@,
                final(self)@,
                r,
                old(self)@.appeal_resolution(caller@, milestone_id@),
            ),
            old(self)@.wf() ==> final(self)@.wf(),
    {
        proof {
            lemma_wf_after(
                self@,
                Operation::AppealResolution { caller: caller@, milestone_id: milestone_id@ },
                arbitrary(),
                0,
            );
        }
        let d = match self.find_dispute(milestone_id, DisputeStatus::AiResolved) {
            Some(d) => d,
            None => {
                return Err(EscrowError::DisputeNotFound);
            },
        };
        if !self.is_party(caller) {
            return Err(EscrowError::NotParty);
        }
        self.disputes[d].status = DisputeStatus::Appealed;
        self.disputes[d].is_appeal = true;
        self.disputes[d].client_accepted = false;
        self.disputes[d].freelancer_accepted = false;
        self.disputes[d].max_rounds = APPEAL_MAX_ROUNDS;
        self.disputes[d].investigation_rounds = Vec::new();
        assert(self.disputes@[d as int]@.investigation_rounds =~= Seq::empty());
        assert(self@.disputes =~= old(self)@.disputes.update(
            d as int,
            DisputeModel {
                status: DisputeStatus::Appealed,
                is_appeal: true,
                client_accepted: false,
                freelancer_accepted: false,
                max_rounds: APPEAL_MAX_ROUNDS,
                investigation_rounds: Seq::empty(),
                ..old(self)@.disputes[d as int]
            },
        ));
        assert(self@.milestones =~= old(self)@.milestones);
        Ok(())
    }

    /// Makes the resolution of a dispute final at time `now`.
    pub fn finalize_resolution(&mut self, now: u64, milestone_id: &String) -> (r: Result<
        (),
        EscrowError,
    >)
        ensures
            outcome(
                old(self)@,
                final(self)@,
                r,
                old(self)@.finalize_resolution(now, milestone_id@),
            ),
            old(self)@.wf() ==> final(self)@.wf(),
    {
        proof {
            lemma_wf_after(
                self@,
                Operation::FinalizeResolution { now, milestone_id: milestone_id@ },
                arbitrary(),
                0,
            );
        }
        let d = match self.find_dispute_where(milestone_id, DisputeFilter::AwaitingFinality) {
            Some(d) => d,
            None => {
                return Err(EscrowError::DisputeNotFound);
            },
        };
        let both_accepted = self.disputes[d].client_accepted
            && self.disputes[d].freelancer_accepted;
        let timed_out = match self.disputes[d].deadline_ns {
            Some(deadline) => now >= deadline,
            None => false,
        };
        if !(both_accepted || timed_out) {
            return Err(EscrowError::DeadlineNotReached);
        }
        self.disputes[d].status = DisputeStatus::Finalized;
        assert(self@.disputes =~= old(self)@.disputes.update(
            d as int,
            DisputeModel { status: DisputeStatus::Finalized, ..old(self)@.disputes[d as int] },
        ));
        assert(self@.milestones =~= old(self)@.milestones);
        Ok(())
    }
}

impl Contract {
    /// Raises, as the caller of `ctx`, a dispute over a milestone.
    pub fn raise_dispute(
        &mut self,
        ctx: &CallContext,
        contract_id: String,
        milestone_id: String,
        reason: String,
    ) -> (r: Result<(), EscrowError>)
        ensures
            routed(
                old(self)@,
                final(self)@,
                r,
                contract_id@,
                (|c: EscrowModel|
                    c.raise_dispute(
                    ctx@.predecessor,
                    milestone_id@,
                    reason@,
                    old(self)@.ai_processing_fee,
                    old(self)@.policy,
                )),
            ),
            old(self)@.wf() ==> final(self)@.wf(),
    {
        let i = match self.find_contract(&contract_id) {
            Some(i) => i,
            None => {
                return Err(EscrowError::ContractNotFound);
            },
        };
        proof {
            lemma_registry_wf_after(
                self@,
                i as int,
                Operation::RaiseDispute {
                    caller: ctx@.predecessor,
                    milestone_id: milestone_id@,
                    reason: reason@,
                },
            );
        }
        let policy = self.policy;
        let fee = self.ai_processing_fee;
        let r = self.contracts[i].raise_dispute(&ctx.predecessor, &milestone_id, reason, fee, &policy);
        proof {
            lemma_one_contract_changed(old(self), self, i as int);
        }
        r
    }

    /// Takes in the oracle's verdict on an open dispute. The signature over
    /// `tee_text` is verified against `signing_address`, which must be on the
    /// allow-list.
    pub fn submit_ai_resolution(
        &mut self,
        ctx: &CallContext,
        contract_id: String,
        milestone_id: String,
        resolution: Resolution,
        explanation: String,
        signature: Vec<u8>,
        signing_address: Vec<u8>,
        tee_text: String,
    ) -> (r: Result<Payouts, EscrowError>)
        ensures
            routed(
                old(self)@,
                final(self)@,
                r,
                contract_id@,
                (|c: EscrowModel|
                    c.submit_ai_resolution(
                    milestone_id@,
                    resolution,
                    explanation@,
                    AttestationModel {
                        signature: signature@,
                        signing_address: signing_address@,
                        text: tee_text@,
                    },
                    attestation_check(
                        old(self)@.trusted_tee_addresses,
                        signature@,
                        tee_text@,
                        signing_address@,
                    ),
                    ctx@.block_timestamp,
                    old(self)@.ai_processing_fee,
                )),
            ),
            old(self)@.wf() ==> final(self)@.wf(),
    {
        let check = check_attestation(
            &self.trusted_tee_addresses,
            &signature,
            &tee_text,
            &signing_address,
        );
        let i = match self.find_contract(&contract_id) {
            Some(i) => i,
            None => {
                return Err(EscrowError::ContractNotFound);
            },
        };
        proof {
            lemma_registry_wf_after(
                self@,
                i as int,
                Operation::SubmitAiResolution {
                    milestone_id: milestone_id@,
                    resolution,
                    explanation: explanation@,
                    attestation: AttestationModel {
                        signature: signature@,
                        signing_address: signing_address@,
                        text: tee_text@,
                    },
                    check,
                    now: ctx@.block_timestamp,
                },
            );
        }
        let fee = self.ai_processing_fee;
        let r = self.contracts[i].submit_ai_resolution(
            &milestone_id,
            resolution,
            explanation,
            signature,
            signing_address,
            tee_text,
            check,
            ctx.block_timestamp,
            fee,
        );
        proof {
            lemma_one_contract_changed(old(self), self, i as int);
        }
        r
    }

    /// Takes in one investigation round on an open dispute. The signature
    /// over `tee_text` is verified against `signing_address`, which must be on
    /// the allow-list.
    pub fn submit_investigation_round(
        &mut self,
        ctx: &CallContext,
        contract_id: String,
        milestone_id: String,
        round_number: u8,
        analysis: String,
        findings: String,
        confidence: u8,
        needs_more_analysis: bool,
        resolution: Option<Resolution>,
        explanation: Option<String>,
        signature: Vec<u8>,
        signing_address: Vec<u8>,
        tee_text: String,
    ) -> (r: Result<Payouts, EscrowError>)
        ensures
            routed(
                old(self)@,
                final(self)@,
                r,
                contract_id@,
                (|c: EscrowModel|
                    c.submit_investigation_round(
                    milestone_id@,
                    RoundReport {
                        round_number,
                        analysis: analysis@,
                        findings: findings@,
                        confidence,
                        needs_more_analysis,
                    },
                    resolution,
                    text_of(explanation),
                    AttestationModel {
                        signature: signature@,
                        signing_address: signing_address@,
                        text: tee_text@,
                    },
                    attestation_check(
                        old(self)@.trusted_tee_addresses,
                        signature@,
                        tee_text@,
                        signing_address@,
                    ),
                    ctx@.block_timestamp,
                    old(self)@.ai_processing_fee,
                )),
            ),
            old(self)@.wf() ==> final(self)@.wf(),
    {
        let check = check_attestation(
            &self.trusted_tee_addresses,
            &signature,
            &tee_text,
            &signing_address,
        );
        let i = match self.find_contract(&contract_id) {
            Some(i) => i,
            None => {
                return Err(EscrowError::ContractNotFound);
            },
        };
        proof {
            lemma_registry_wf_after(
                self@,
                i as int,
                Operation::SubmitInvestigationRound {
                    milestone_id: milestone_id@,
                    report: RoundReport {
                        round_number,
                        analysis: analysis@,
                        findings: findings@,
                        confidence,
                        needs_more_analysis,
                    },
                    resolution,
                    explanation: text_of(explanation),
                    attestation: AttestationModel {
                        signature: signature@,
                        signing_address: signing_address@,
                        text: tee_text@,
                    },
                    check,
                    now: ctx@.block_timestamp,
                },
            );
        }
        let fee = self.ai_processing_fee;
        let r = self.contracts[i].submit_investigation_round(
            &milestone_id,
            round_number,
            analysis,
            findings,
            confidence,
            needs_more_analysis,
            resolution,
            explanation,
            signature,
            signing_address,
            tee_text,
            check,
            ctx.block_timestamp,
            fee,
        );
        proof {
            lemma_one_contract_changed(old(self), self, i as int);
        }
        r
    }

    /// Records, as the caller of `ctx`, the acceptance of a resolution; the
    /// result says whether the dispute became final.
    pub fn accept_resolution(
        &mut self,
        ctx: &CallContext,
        contract_id: String,
        milestone_id: String,
    ) -> (r: Result<bool, EscrowError>)
        ensures
            routed(
                old(self)@,
                final(self)@,
                r,
                contract_id@,
                (|c: EscrowModel|
                    c.accept_resolution(ctx@.predecessor, milestone_id@, old(self)@.policy)),
            ),
            old(self)@.wf() ==> final(self)@.wf(),
    {
        let i = match self.find_contract(&contract_id) {
            Some(i) => i,
            None => {
                return Err(EscrowError::ContractNotFound);
            },
        };
        proof {
            lemma_registry_wf_after(
                self@,
                i as int,
                Operation::AcceptResolution { caller: ctx@.predecessor, milestone_id: milestone_id@ },
            );
        }
        let policy = self.policy;
        let r = self.contracts[i].accept_resolution(&ctx.predecessor, &milestone_id, &policy);
        proof {
            lemma_one_contract_changed(old(self), self, i as int);
        }
        r
    }

    /// Appeals, as the caller of `ctx`, the first resolution of a dispute.
    pub fn appeal_resolution(
        &mut self,
        ctx: &CallContext,
        contract_id: String,
        milestone_id: String,
    ) -> (r: Result<(), EscrowError>)
        ensures
            routed(
                old(self)@,
                final(self)@,
                r,
                contract_id@,
                (|c: EscrowModel|
                    c.appeal_resolution(ctx@.predecessor, milestone_id@)),
            ),
            old(self)@.wf() ==> final(self)@.wf(),
    {
        let i = match self.find_contract(&contract_id) {
            Some(i) => i,
            None => {
                return Err(EscrowError::ContractNotFound);
            },
        };
        proof {
            lemma_registry_wf_after(
                self@,
                i as int,
                Operation::AppealResolution { caller: ctx@.predecessor, milestone_id: milestone_id@ },
            );
        }
        let r = self.contracts[i].appeal_resolution(&ctx.predecessor, &milestone_id);
        proof {
            lemma_one_contract_changed(old(self), self, i as int);
        }
        r
    }

    /// Makes the resolution of a dispute final at the time of `ctx`.
    pub fn finalize_resolution(
        &mut self,
        ctx: &CallContext,
        contract_id: String,
        milestone_id: String,
    ) -> (r: Result<(), EscrowError>)
        ensures
            routed(
                old(self)@,
                final(self)@,
                r,
                contract_id@,
                (|c: EscrowModel|
                    c.finalize_resolution(ctx@.block_timestamp, milestone_id@)),
            ),
            old(self)@.wf() ==> final(self)@.wf(),
    {
        let i = match self.find_contract(&contract_id) {
            Some(i) => i,
            None => {
                return Err(EscrowError::ContractNotFound);
            },
        };
        proof {
            lemma_registry_wf_after(
                self@,
                i as int,
                Operation::FinalizeResolution { now: ctx@.block_timestamp, milestone_id: milestone_id@ },
            );
        }
        let r = self.contracts[i].finalize_resolution(ctx.block_timestamp, &milestone_id);
        proof {
            lemma_one_contract_changed(old(self), self, i as int);
        }
        r
    }

    /// Turns, as the caller of `ctx`, a resolution that is not yet settled
    /// into continued work.
    pub fn override_to_continue_work(
        &mut self,
        ctx: &CallContext,
        contract_id: String,
        milestone_id: String,
    ) -> (r: Result<(), EscrowError>)
        ensures
            routed(
                old(self)@,
                final(self)@,
                r,
                contract_id@,
                (|c: EscrowModel|
                    c.override_to_continue_work(
                    ctx@.predecessor,
                    ctx@.block_timestamp,
                    milestone_id@,
                    old(self)@.policy,
                )),
            ),
            old(self)@.wf() ==> final(self)@.wf(),
    {
        let i = match self.find_contract(&contract_id) {
            Some(i) => i,
            None => {
                return Err(EscrowError::ContractNotFound);
            },
        };
        proof {
            lemma_registry_wf_after(
                self@,
                i as int,
                Operation::OverrideToContinueWork {
                    caller: ctx@.predecessor,
                    now: ctx@.block_timestamp,
                    milestone_id: milestone_id@,
                },
            );
        }
        let policy = self.policy;
        let r = self.contracts[i].override_to_continue_work(&ctx.predecessor, ctx.block_timestamp, &milestone_id, &policy);
        proof {
            lemma_one_contract_changed(old(self), self, i as int);
        }
        r
    }
}

} // verus!
