//! The operations on one contract as values, and the contract after each.

use crate::attestation::AttestationCheck;
use crate::dispute::{AttestationModel, RoundReport};
use crate::types::{EscrowError, EscrowModel, Policy, Resolution};
use vstd::prelude::*;

verus! {

/// One operation on a contract, with its inputs.
#[allow(inconsistent_fields)]
pub enum Operation {
    Join { caller: Seq<char>, invite_token: Seq<char> },
    Fund { caller: Seq<char>, deposit: u128 },
    TopUpSecurity { caller: Seq<char>, amount: u128 },
    ApproveMilestone { caller: Seq<char>, milestone_id: Seq<char> },
    ReleaseDisputeFunds { milestone_id: Seq<char> },
    CompleteContractSecurity,
    StartMilestone { caller: Seq<char>, milestone_id: Seq<char> },
    RequestPayment { caller: Seq<char>, now: u64, milestone_id: Seq<char> },
    AutoApprovePayment { now: u64, milestone_id: Seq<char> },
    CancelPaymentRequest { caller: Seq<char>, milestone_id: Seq<char> },
    RaiseDispute { caller: Seq<char>, milestone_id: Seq<char>, reason: Seq<char> },
    SubmitAiResolution {
        milestone_id: Seq<char>,
        resolution: Resolution,
        explanation: Seq<char>,
        attestation: AttestationModel,
        check: AttestationCheck,
        now: u64,
    },
    SubmitInvestigationRound {
        milestone_id: Seq<char>,
        report: RoundReport,
        resolution: Option<Resolution>,
        explanation: Option<Seq<char>>,
        attestation: AttestationModel,
        check: AttestationCheck,
        now: u64,
    },
    AcceptResolution { caller: Seq<char>, milestone_id: Seq<char> },
    AppealResolution { caller: Seq<char>, milestone_id: Seq<char> },
    FinalizeResolution { now: u64, milestone_id: Seq<char> },
    OverrideToContinueWork { caller: Seq<char>, now: u64, milestone_id: Seq<char> },
}

/// The time of a finalization; `None` for every other operation.
pub open spec fn finalization_time(op: Operation) -> Option<u64> {
    match op {
        Operation::FinalizeResolution { now, .. } => Some(now),
        _ => None,
    }
}

/// The state that a step ends in, if it is accepted.
pub open spec fn state_of<T>(step: Result<(EscrowModel, T), EscrowError>) -> Option<EscrowModel> {
    match step {
        Ok((next, _)) => Some(next),
        Err(_) => None,
    }
}

/// The contract after an operation under a policy and a processing fee;
/// `None` where the operation is rejected.
pub open spec fn apply(c: EscrowModel, op: Operation, policy: Policy, fee: u128) -> Option<
    EscrowModel,
> {
    match op {
        Operation::Join { caller, invite_token } => state_of(c.join(caller, invite_token)),
        Operation::Fund { caller, deposit } => state_of(c.fund(caller, deposit, policy)),
        Operation::TopUpSecurity { caller, amount } => state_of(
            c.top_up_security(caller, amount),
        ),
        Operation::ApproveMilestone { caller, milestone_id } => state_of(
            c.approve_milestone(caller, milestone_id),
        ),
        Operation::ReleaseDisputeFunds { milestone_id } => state_of(
            c.release_dispute_funds(milestone_id),
        ),
        Operation::CompleteContractSecurity => state_of(c.complete_contract_security()),
        Operation::StartMilestone { caller, milestone_id } => state_of(
            c.start_milestone(caller, milestone_id),
        ),
        Operation::RequestPayment { caller, now, milestone_id } => state_of(
            c.request_payment(caller, now, milestone_id),
        ),
        Operation::AutoApprovePayment { now, milestone_id } => state_of(
            c.auto_approve_payment(now, milestone_id),
        ),
        Operation::CancelPaymentRequest { caller, milestone_id } => state_of(
            c.cancel_payment_request(caller, milestone_id),
        ),
        Operation::RaiseDispute { caller, milestone_id, reason } => state_of(
            c.raise_dispute(caller, milestone_id, reason, fee, policy),
        ),
        Operation::SubmitAiResolution {
            milestone_id,
            resolution,
            explanation,
            attestation,
            check,
            now,
        } => state_of(
            c.submit_ai_resolution(
                milestone_id,
                resolution,
                explanation,
                attestation,
                check,
                now,
                fee,
            ),
        ),
        Operation::SubmitInvestigationRound {
            milestone_id,
            report,
            resolution,
            explanation,
            attestation,
            check,
            now,
        } => state_of(
            c.submit_investigation_round(
                milestone_id,
                report,
                resolution,
                explanation,
                attestation,
                check,
                now,
                fee,
            ),
        ),
        Operation::AcceptResolution { caller, milestone_id } => state_of(
            c.accept_resolution(caller, milestone_id, policy),
        ),
        Operation::AppealResolution { caller, milestone_id } => state_of(
            c.appeal_resolution(caller, milestone_id),
        ),
        Operation::FinalizeResolution { now, milestone_id } => state_of(
            c.finalize_resolution(now, milestone_id),
        ),
        Operation::OverrideToContinueWork { caller, now, milestone_id } => state_of(
            c.override_to_continue_work(caller, now, milestone_id, policy),
        ),
    }
}

} // verus!
