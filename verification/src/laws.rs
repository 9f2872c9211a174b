//! What holds of the rules, whatever the state and the inputs.

use crate::amounts::{lemma_scaled_bounds, lemma_sum_first_monotonic, main_share};
use crate::attestation::{attestation_check, signature_valid, AttestationCheck};
use crate::dispute::{AttestationModel, RoundReport};
use crate::escrow::settlement_payouts;
use crate::links::lemma_operation_links;
use crate::model::{
    amounts_of, dispute_wf, distinct_ids, is_first, is_resolved, is_unsettled,
    lemma_first_index_is, lemma_first_index_means, lemma_promoted_in_order, milestone_wf, promoted, some_disputed, unfunded, DisputeFilter,
};
use crate::operations::{apply, finalization_time, Operation};
use crate::preservation::{
    became_final, history_kept, lemma_accept_kept, lemma_appeal_kept, lemma_approve_kept,
    lemma_auto_approve_kept, lemma_cancel_kept, lemma_complete_security_kept, lemma_finalize_kept,
    lemma_fund_kept, lemma_join_kept, lemma_override_kept, lemma_raise_kept, lemma_release_kept,
    lemma_request_payment_kept, lemma_start_kept, lemma_submit_resolution_kept,
    lemma_submit_round_kept, lemma_top_up_kept, none_became_final, settled_fixed, step_kept,
};
use crate::registry::{input_amounts, RegistryModel};
use crate::text::{contract_id_text, lemma_contract_ids_differ, lemma_milestone_ids_differ};
use crate::types::{
    CallModel, DisputeStatus, EscrowError, EscrowModel, MilestoneInputModel, MilestoneModel,
    MilestoneStatus, Payouts, Policy, Resolution,
};
use vstd::prelude::*;

verus! {

/// Funding conserves value. Where a deposit is accepted, the security pool
/// and the funded amount together hold afterwards what they held before,
/// plus the deposit, less the refund; nothing is paid to anyone but the
/// refund to the depositor; and a refund is made only where the main part
/// of the deposit exceeds what was still to be funded.
pub proof fn law_funding_conserves_value(
    c: EscrowModel,
    caller: Seq<char>,
    deposit: u128,
    policy: Policy,
)
    requires
        c.fund(caller, deposit, policy) is Ok,
    ensures
        ({
            let (next, payouts) = c.fund(caller, deposit, policy)->Ok_0;
            &&& next.security_pool + next.funded_amount == c.security_pool + c.funded_amount
                + deposit - payouts.to_caller
            &&& payouts.to_freelancer == 0 && payouts.to_client == 0 && payouts.to_owner == 0
            &&& payouts.to_caller > 0 ==> c.funded_amount + main_share(
                deposit,
                c.security_deposit_pct,
            ) > c.total_amount
            &&& next.funded_amount <= c.total_amount
            &&& next.funded_amount >= c.funded_amount
            &&& next.security_pool >= c.security_pool
        }),
{
    lemma_scaled_bounds(
        deposit as int,
        c.security_deposit_pct as int,
        100 + c.security_deposit_pct as int,
    );
}

/// Funding promotes in order and never demotes. Where the milestones were
/// funded in order before an accepted deposit, they are afterwards: a
/// milestone is past `NotFunded` only if every milestone before it is, so
/// none is promoted before its predecessor. A milestone that was past
/// `NotFunded` is as it was, and no amount changes.
pub proof fn law_funding_promotes_in_order(
    c: EscrowModel,
    caller: Seq<char>,
    deposit: u128,
    policy: Policy,
)
    requires
        c.funded_in_order(),
        c.fund(caller, deposit, policy) is Ok,
    ensures
        ({
            let next = c.fund(caller, deposit, policy)->Ok_0.0;
            &&& next.funded_in_order()
            &&& next.milestones.len() == c.milestones.len()
            &&& forall|i: int, j: int|
                0 <= i <= j < next.milestones.len() && (#[trigger] next.milestones[j]).status
                    != MilestoneStatus::NotFunded ==> (#[trigger] next.milestones[i]).status
                    != MilestoneStatus::NotFunded
            &&& forall|i: int|
                0 <= i < c.milestones.len() && (#[trigger] c.milestones[i]).status
                    != MilestoneStatus::NotFunded ==> next.milestones[i] == c.milestones[i]
            &&& forall|i: int|
                0 <= i < c.milestones.len() ==> (#[trigger] next.milestones[i]).amount
                    == c.milestones[i].amount
        }),
{
    let next = c.fund(caller, deposit, policy)->Ok_0.0;
    let deposited = c.deposited_after(deposit);
    lemma_promoted_in_order(c.milestones, deposited, policy.funding_target());
    assert(next.milestones == promoted(c.milestones, deposited, policy.funding_target()));
    assert forall|i: int, j: int|
        0 <= i <= j < next.milestones.len() && (#[trigger] next.milestones[j]).status
            != MilestoneStatus::NotFunded implies (#[trigger] next.milestones[i]).status
        != MilestoneStatus::NotFunded by {
        if unfunded(next.milestones[i]) {
            assert(unfunded(next.milestones[j]));
        }
    }
    assert forall|i: int| 0 <= i < c.milestones.len() implies (#[trigger] next.milestones[i]).amount
        == c.milestones[i].amount by {
        assert(amounts_of(next.milestones)[i] == amounts_of(c.milestones)[i]);
    }
}

/// A split is exact. For a percentage up to 100, the freelancer's part is
/// the amount times the percentage over 100, rounded down, and the client's
/// part is all the rest, so that the two parts make the amount.
pub proof fn law_split_is_exact(amount: u128, freelancer_pct: u8)
    requires
        freelancer_pct <= 100,
    ensures
        ({
            let payouts = settlement_payouts(Resolution::Split { freelancer_pct }, amount);
            &&& payouts.to_freelancer + payouts.to_client == amount
            &&& payouts.to_freelancer == (amount * freelancer_pct) / 100
            &&& payouts.to_client == amount - (amount * freelancer_pct) / 100
            &&& payouts.to_owner == 0 && payouts.to_caller == 0
        }),
{
    lemma_scaled_bounds(amount as int, freelancer_pct as int, 100);
}

/// A settlement never pays out more than the milestone's amount, whatever
/// the resolution, and pays it to the freelancer and the client alone.
pub proof fn law_settlement_is_bounded(resolution: Resolution, amount: u128)
    requires
        resolution is Split ==> resolution->freelancer_pct <= 100,
    ensures
        ({
            let payouts = settlement_payouts(resolution, amount);
            &&& payouts.to_freelancer + payouts.to_client <= amount
            &&& payouts.to_owner == 0 && payouts.to_caller == 0
        }),
{
    if resolution is Split {
        lemma_scaled_bounds(amount as int, resolution->freelancer_pct as int, 100);
    }
}

/// Funds are released once. Where a release is accepted, the dispute it
/// settles was final with its funds unreleased; afterwards its funds are
/// released, so that no further release settles it; what is paid is no more
/// than the milestone's amount, and only the milestone, that dispute's flag
/// and the contract's status have changed.
pub proof fn law_release_pays_once(c: EscrowModel, milestone_id: Seq<char>)
    requires
        c.release_dispute_funds(milestone_id) is Ok,
    ensures
        ({
            let (next, payouts) = c.release_dispute_funds(milestone_id)->Ok_0;
            let d = c.dispute_index(milestone_id, DisputeFilter::AwaitingSettlement)->0;
            let m = c.milestone_index(milestone_id)->0;
            &&& 0 <= d < c.disputes.len() && 0 <= m < c.milestones.len()
            &&& c.disputes[d].status == DisputeStatus::Finalized && !c.disputes[d].funds_released
            &&& next.disputes.len() == c.disputes.len()
            &&& next.disputes[d].funds_released
            &&& next.dispute_index(milestone_id, DisputeFilter::AwaitingSettlement) != Some(d)
            &&& payouts.to_freelancer + payouts.to_client <= c.milestones[m].amount
            &&& payouts.to_owner == 0 && payouts.to_caller == 0
            &&& next.funded_amount == c.funded_amount && next.security_pool == c.security_pool
        }),
{
    let (next, payouts) = c.release_dispute_funds(milestone_id)->Ok_0;
    c.lemma_dispute_index(milestone_id, DisputeFilter::AwaitingSettlement);
    c.lemma_milestone_index(milestone_id);
    next.lemma_dispute_index(milestone_id, DisputeFilter::AwaitingSettlement);
    let d = c.dispute_index(milestone_id, DisputeFilter::AwaitingSettlement)->0;
    let m = c.milestone_index(milestone_id)->0;
    law_settlement_is_bounded(c.disputes[d].resolution->0, c.milestones[m].amount);
}

/// A release is rejected where no final dispute over the milestone has its
/// funds unreleased: `FundsAlreadyReleased` where one is final, else
/// `DisputeNotFound`.
pub proof fn law_release_rejects_repeat(c: EscrowModel, milestone_id: Seq<char>)
    requires
        forall|d: int|
            0 <= d < c.disputes.len() && (#[trigger] c.disputes[d]).milestone_id == milestone_id
                && c.disputes[d].status == DisputeStatus::Finalized
                ==> c.disputes[d].funds_released,
    ensures
        c.release_dispute_funds(milestone_id) is Err,
        c.release_dispute_funds(milestone_id)->Err_0 == EscrowError::FundsAlreadyReleased
            || c.release_dispute_funds(milestone_id)->Err_0 == EscrowError::DisputeNotFound,
{
    c.lemma_dispute_index(milestone_id, DisputeFilter::AwaitingSettlement);
}

/// A release is not repeated. Once a release for a milestone is accepted,
/// the next release for that milestone is rejected, and so leaves the
/// contract as it is and pays nothing; in a well-formed contract it is
/// rejected with `FundsAlreadyReleased`.
pub proof fn law_second_release_is_rejected(c: EscrowModel, milestone_id: Seq<char>)
    requires
        c.release_dispute_funds(milestone_id) is Ok,
    ensures
        c.release_dispute_funds(milestone_id)->Ok_0.0.release_dispute_funds(milestone_id) is Err,
        c.wf() ==> c.release_dispute_funds(milestone_id)->Ok_0.0.release_dispute_funds(
            milestone_id,
        ) == Err::<(EscrowModel, Payouts), EscrowError>(EscrowError::FundsAlreadyReleased),
{
    let next = c.release_dispute_funds(milestone_id)->Ok_0.0;
    c.lemma_dispute_index(milestone_id, DisputeFilter::AwaitingSettlement);
    let d = c.dispute_index(milestone_id, DisputeFilter::AwaitingSettlement)->0;
    let m = c.milestone_index(milestone_id)->0;
    let with_id = |x: MilestoneModel| x.id == milestone_id;
    lemma_first_index_means(c.milestones, with_id);
    assert(is_first(next.milestones, with_id, m)) by {
        assert forall|j: int| 0 <= j < m implies !with_id(#[trigger] next.milestones[j]) by {
            assert(!with_id(c.milestones[j]));
        }
    }
    lemma_first_index_is(next.milestones, with_id, m);
    assert(next.milestones[m].status != MilestoneStatus::Disputed);
    next.lemma_dispute_index(milestone_id, DisputeFilter::AwaitingSettlement);
    next.lemma_dispute_index(milestone_id, DisputeFilter::InStatus(DisputeStatus::Finalized));
    if c.wf() {
        law_invariant_is_kept(
            c,
            Operation::ReleaseDisputeFunds { milestone_id },
            arbitrary(),
            0,
        );
        match next.dispute_index(milestone_id, DisputeFilter::AwaitingSettlement) {
            Some(k) => {
                assert(is_unsettled(next.disputes[k]));
                assert(some_disputed(next.milestones, milestone_id));
                let other = choose|i: int|
                    0 <= i < next.milestones.len() && (#[trigger] next.milestones[i]).id
                        == milestone_id && next.milestones[i].status == MilestoneStatus::Disputed;
                if other < m {
                    assert(next.milestones[other].id != next.milestones[m].id);
                } else if m < other {
                    assert(next.milestones[m].id != next.milestones[other].id);
                }
            },
            None => {
                assert(DisputeFilter::InStatus(DisputeStatus::Finalized).admits(next.disputes[d]));
            },
        }
    }
}

/// Investigation rounds come in sequence and within the cap. A round whose
/// number is not the next in sequence is rejected. Where a round is
/// accepted, the log of its dispute had fewer rounds than the cap, the round
/// is appended with its number, which is the new length of the log, and the
/// cap is as it was.
pub proof fn law_rounds_in_sequence(
    c: EscrowModel,
    milestone_id: Seq<char>,
    report: RoundReport,
    resolution: Option<Resolution>,
    explanation: Option<Seq<char>>,
    attestation: AttestationModel,
    check: AttestationCheck,
    now: u64,
    fee: u128,
)
    ensures
        ({
            let step = c.submit_investigation_round(
                milestone_id,
                report,
                resolution,
                explanation,
                attestation,
                check,
                now,
                fee,
            );
            let found = c.dispute_index(milestone_id, DisputeFilter::AwaitingVerdict);
            &&& found is Some && report.round_number
                != c.disputes[found->0].investigation_rounds.len() + 1 ==> step is Err
            &&& step is Ok ==> {
                let d = found->0;
                let next = step->Ok_0.0;
                &&& found is Some && 0 <= d < c.disputes.len()
                &&& next.disputes.len() == c.disputes.len()
                &&& c.disputes[d].investigation_rounds.len() < c.disputes[d].max_rounds
                &&& next.disputes[d].investigation_rounds.len() == report.round_number
                &&& next.disputes[d].investigation_rounds.len() <= next.disputes[d].max_rounds
                &&& next.disputes[d].investigation_rounds.last().round_number
                    == report.round_number
                &&& next.disputes[d].investigation_rounds.drop_last()
                    == c.disputes[d].investigation_rounds
                &&& next.disputes[d].max_rounds == c.disputes[d].max_rounds
            }
        }),
{
    c.lemma_dispute_index(milestone_id, DisputeFilter::AwaitingVerdict);
    let step = c.submit_investigation_round(
        milestone_id,
        report,
        resolution,
        explanation,
        attestation,
        check,
        now,
        fee,
    );
    if step is Ok {
        let d = c.dispute_index(milestone_id, DisputeFilter::AwaitingVerdict)->0;
        let next = step->Ok_0.0;
        let logged = c.with_round(d, report, attestation, now);
        logged.lemma_milestone_index(logged.disputes[d].milestone_id);
        assert(logged.disputes[d].investigation_rounds.drop_last()
            =~= c.disputes[d].investigation_rounds);
        assert(next.disputes[d].investigation_rounds == logged.disputes[d].investigation_rounds);
    }
}

/// Only attested submissions are taken in. An attestation is accepted
/// exactly where the signature has 64 bytes, the key has 32, the signature
/// verifies over the text against the key, and the key is on the allow-list.
/// A verdict is recorded only with an accepted attestation, and what is
/// recorded of it is the signature, the key and the text that were checked.
pub proof fn law_only_attested_verdicts(
    c: EscrowModel,
    trusted: Seq<Seq<u8>>,
    milestone_id: Seq<char>,
    resolution: Resolution,
    explanation: Seq<char>,
    attestation: AttestationModel,
    now: u64,
    fee: u128,
)
    ensures
        ({
            let check = attestation_check(
                trusted,
                attestation.signature,
                attestation.text,
                attestation.signing_address,
            );
            let step = c.submit_ai_resolution(
                milestone_id,
                resolution,
                explanation,
                attestation,
                check,
                now,
                fee,
            );
            &&& check is Accepted <==> signature_valid(
                attestation.signature,
                attestation.text,
                attestation.signing_address,
            ) && trusted.contains(attestation.signing_address)
            &&& step is Ok ==> {
                let d = c.dispute_index(milestone_id, DisputeFilter::AwaitingVerdict)->0;
                let next = step->Ok_0.0;
                &&& check is Accepted
                &&& 0 <= d < next.disputes.len()
                &&& next.disputes[d].tee_signature == Some(attestation.signature)
                &&& next.disputes[d].tee_signing_address == Some(attestation.signing_address)
                &&& next.disputes[d].tee_text == Some(attestation.text)
                &&& next.disputes[d].resolution == Some(resolution)
            }
        }),
{
    c.lemma_dispute_index(milestone_id, DisputeFilter::AwaitingVerdict);
    let d = c.dispute_index(milestone_id, DisputeFilter::AwaitingVerdict);
    if d is Some {
        c.lemma_milestone_index(c.disputes[d->0].milestone_id);
    }
}

/// Only attested rounds are taken in: a round is logged only with an
/// accepted attestation, and it carries the signature, the key and the text
/// that were checked.
pub proof fn law_only_attested_rounds(
    c: EscrowModel,
    trusted: Seq<Seq<u8>>,
    milestone_id: Seq<char>,
    report: RoundReport,
    resolution: Option<Resolution>,
    explanation: Option<Seq<char>>,
    attestation: AttestationModel,
    now: u64,
    fee: u128,
)
    ensures
        ({
            let check = attestation_check(
                trusted,
                attestation.signature,
                attestation.text,
                attestation.signing_address,
            );
            let step = c.submit_investigation_round(
                milestone_id,
                report,
                resolution,
                explanation,
                attestation,
                check,
                now,
                fee,
            );
            step is Ok ==> {
                let d = c.dispute_index(milestone_id, DisputeFilter::AwaitingVerdict)->0;
                let round = step->Ok_0.0.disputes[d].investigation_rounds.last();
                &&& signature_valid(
                    attestation.signature,
                    attestation.text,
                    attestation.signing_address,
                )
                &&& trusted.contains(attestation.signing_address)
                &&& round.tee_signature == attestation.signature
                &&& round.tee_signing_address == attestation.signing_address
                &&& round.tee_text == attestation.text
            }
        }),
{
    law_rounds_in_sequence(
        c,
        milestone_id,
        report,
        resolution,
        explanation,
        attestation,
        attestation_check(
            trusted,
            attestation.signature,
            attestation.text,
            attestation.signing_address,
        ),
        now,
        fee,
    );
    c.lemma_dispute_index(milestone_id, DisputeFilter::AwaitingVerdict);
    let d = c.dispute_index(milestone_id, DisputeFilter::AwaitingVerdict);
    if d is Some {
        let logged = c.with_round(d->0, report, attestation, now);
        logged.lemma_milestone_index(logged.disputes[d->0].milestone_id);
    }
}

/// What an accepted operation keeps, whichever it is.
proof fn lemma_operation_kept(c: EscrowModel, op: Operation, policy: Policy, fee: u128)
    requires
        apply(c, op, policy, fee) is Some,
    ensures
        step_kept(c, apply(c, op, policy, fee)->0),
        !(op is AcceptResolution) && !(op is FinalizeResolution) && !(op
            is OverrideToContinueWork) ==> none_became_final(c, apply(c, op, policy, fee)->0),
{
    match op {
        Operation::Join { caller, invite_token } => {
            lemma_join_kept(c, caller, invite_token);
        },
        Operation::Fund { caller, deposit } => {
            lemma_fund_kept(c, caller, deposit, policy);
        },
        Operation::TopUpSecurity { caller, amount } => {
            lemma_top_up_kept(c, caller, amount);
        },
        Operation::ApproveMilestone { caller, milestone_id } => {
            lemma_approve_kept(c, caller, milestone_id);
        },
        Operation::ReleaseDisputeFunds { milestone_id } => {
            lemma_release_kept(c, milestone_id);
        },
        Operation::CompleteContractSecurity => {
            lemma_complete_security_kept(c);
        },
        Operation::StartMilestone { caller, milestone_id } => {
            lemma_start_kept(c, caller, milestone_id);
        },
        Operation::RequestPayment { caller, now, milestone_id } => {
            lemma_request_payment_kept(c, caller, now, milestone_id);
        },
        Operation::AutoApprovePayment { now, milestone_id } => {
            lemma_auto_approve_kept(c, now, milestone_id);
        },
        Operation::CancelPaymentRequest { caller, milestone_id } => {
            lemma_cancel_kept(c, caller, milestone_id);
        },
        Operation::RaiseDispute { caller, milestone_id, reason } => {
            lemma_raise_kept(c, caller, milestone_id, reason, fee, policy);
        },
        Operation::SubmitAiResolution {
            milestone_id,
            resolution,
            explanation,
            attestation,
            check,
            now,
        } => {
            lemma_submit_resolution_kept(
                c,
                milestone_id,
                resolution,
                explanation,
                attestation,
                check,
                now,
                fee,
            );
        },
        Operation::SubmitInvestigationRound {
            milestone_id,
            report,
            resolution,
            explanation,
            attestation,
            check,
            now,
        } => {
            lemma_submit_round_kept(
                c,
                milestone_id,
                report,
                resolution,
                explanation,
                attestation,
                check,
                now,
                fee,
            );
        },
        Operation::AcceptResolution { caller, milestone_id } => {
            lemma_accept_kept(c, caller, milestone_id, policy);
        },
        Operation::AppealResolution { caller, milestone_id } => {
            lemma_appeal_kept(c, caller, milestone_id);
        },
        Operation::FinalizeResolution { now, milestone_id } => {
            lemma_finalize_kept(c, now, milestone_id);
        },
        Operation::OverrideToContinueWork { caller, now, milestone_id } => {
            lemma_override_kept(c, caller, now, milestone_id, policy);
        },
    }
}

/// Every accepted operation keeps the invariant of the contract: the
/// amounts of the milestones sum to the total, no more than the total is
/// funded, the milestones are funded in order, the status agrees with the
/// freelancer, the milestones and the disputes, no log of investigation
/// rounds exceeds its cap, funds are released of final disputes only, and
/// at most one dispute over a milestone is unsettled at a time, while the
/// milestone is disputed.
pub proof fn law_invariant_is_kept(c: EscrowModel, op: Operation, policy: Policy, fee: u128)
    requires
        c.wf(),
        apply(c, op, policy, fee) is Some,
    ensures
        apply(c, op, policy, fee)->0.wf(),
{
    lemma_operation_kept(c, op, policy, fee);
    lemma_operation_links(c, op, policy, fee);
}

/// Every accepted operation keeps the history of the contract: its
/// identity, client, total and security percentage are fixed; a bound
/// freelancer stays bound; the funded amount does not shrink; no milestone
/// changes its id or its amount; no dispute is deleted or changes its
/// milestone, and one that is final, released or an appeal stays so.
pub proof fn law_history_is_kept(c: EscrowModel, op: Operation, policy: Policy, fee: u128)
    requires
        apply(c, op, policy, fee) is Some,
    ensures
        history_kept(c, apply(c, op, policy, fee)->0),
{
    lemma_operation_kept(c, op, policy, fee);
}

/// A dispute whose funds were released never changes again, whatever
/// operation is accepted.
pub proof fn law_settled_disputes_are_fixed(
    c: EscrowModel,
    op: Operation,
    policy: Policy,
    fee: u128,
)
    requires
        c.wf(),
        apply(c, op, policy, fee) is Some,
    ensures
        settled_fixed(c, apply(c, op, policy, fee)->0),
{
    lemma_operation_kept(c, op, policy, fee);
}

/// No resolved dispute becomes final before its deadline unless both
/// parties have accepted. Where both parties must accept and the operation
/// is not the client's override, a dispute that an accepted operation takes
/// from resolved to final has the acceptance of both parties, or the
/// operation is a finalization at or after the dispute's deadline.
pub proof fn law_finality_needs_deadline_or_acceptance(
    c: EscrowModel,
    op: Operation,
    policy: Policy,
    fee: u128,
    d: int,
)
    requires
        !policy.single_acceptance,
        !(op is OverrideToContinueWork),
        apply(c, op, policy, fee) is Some,
        0 <= d < c.disputes.len(),
        d < apply(c, op, policy, fee)->0.disputes.len(),
        became_final(c.disputes[d], apply(c, op, policy, fee)->0.disputes[d]),
    ensures
        (apply(c, op, policy, fee)->0.disputes[d].client_accepted && apply(
            c,
            op,
            policy,
            fee,
        )->0.disputes[d].freelancer_accepted) || (finalization_time(op) is Some
            && c.disputes[d].deadline_ns is Some && finalization_time(op)->0
            >= c.disputes[d].deadline_ns->0),
{
    lemma_operation_kept(c, op, policy, fee);
    let next = apply(c, op, policy, fee)->0;
    match op {
        Operation::AcceptResolution { caller, milestone_id } => {
            lemma_accept_kept(c, caller, milestone_id, policy);
        },
        Operation::FinalizeResolution { now, milestone_id } => {
            lemma_finalize_kept(c, now, milestone_id);
            c.lemma_dispute_index(milestone_id, DisputeFilter::AwaitingFinality);
        },
        _ => {
            assert(!became_final(c.disputes[d], next.disputes[d]));
        },
    }
}

/// A finalization before the deadline, without the acceptance of both
/// parties, is rejected with `DeadlineNotReached`.
pub proof fn law_early_finalization_is_rejected(c: EscrowModel, now: u64, milestone_id: Seq<char>)
    requires
        c.dispute_index(milestone_id, DisputeFilter::AwaitingFinality) is Some,
        ({
            let d = c.disputes[c.dispute_index(milestone_id, DisputeFilter::AwaitingFinality)->0];
            !(d.client_accepted && d.freelancer_accepted) && (d.deadline_ns is None || now
                < d.deadline_ns->0)
        }),
    ensures
        c.finalize_resolution(now, milestone_id) == Err::<(EscrowModel, ()), EscrowError>(
            EscrowError::DeadlineNotReached,
        ),
{
}

/// A contract is created well formed, with nothing funded, an empty
/// security pool, every milestone unfunded and no dispute.
pub proof fn law_new_contract_is_well_formed(
    registry: RegistryModel,
    ctx: CallModel,
    title: Seq<char>,
    description: Seq<char>,
    milestones: Seq<MilestoneInputModel>,
    freelancer: Option<Seq<char>>,
    security_deposit_pct: u8,
    prompt_hash: Seq<char>,
    model_id: Seq<char>,
)
    requires
        registry.create_contract(
            ctx,
            title,
            description,
            milestones,
            freelancer,
            security_deposit_pct,
            prompt_hash,
            model_id,
        ) is Ok,
    ensures
        registry.wf() ==> registry.create_contract(
            ctx,
            title,
            description,
            milestones,
            freelancer,
            security_deposit_pct,
            prompt_hash,
            model_id,
        )->Ok_0.0.wf(),
        ({
            let created = registry.new_contract(
                ctx,
                title,
                description,
                milestones,
                freelancer,
                security_deposit_pct,
                prompt_hash,
                model_id,
            );
            let next = registry.create_contract(
                ctx,
                title,
                description,
                milestones,
                freelancer,
                security_deposit_pct,
                prompt_hash,
                model_id,
            )->Ok_0.0;
            &&& created.wf()
            &&& created.funded_amount == 0 && created.security_pool == 0
            &&& created.disputes.len() == 0
            &&& next.contracts.len() == registry.contracts.len() + 1
            &&& next.contracts.last() == created
            &&& forall|i: int|
                0 <= i < registry.contracts.len() ==> #[trigger] next.contracts[i]
                    == registry.contracts[i]
        }),
{
    let created = registry.new_contract(
        ctx,
        title,
        description,
        milestones,
        freelancer,
        security_deposit_pct,
        prompt_hash,
        model_id,
    );
    assert(amounts_of(created.milestones) =~= input_amounts(milestones));
    lemma_sum_first_monotonic(
        input_amounts(milestones),
        milestones.len() as int,
        milestones.len() as int,
    );
    assert(created.ledger_wf());
    assert(created.status_wf());
    assert forall|i: int, j: int| 0 <= i < j < created.milestones.len() implies (
    #[trigger] created.milestones[i]).id != (#[trigger] created.milestones[j]).id by {
        lemma_milestone_ids_differ((i + 1) as nat, (j + 1) as nat);
    }
    assert(created.links_wf());
    assert(created.wf());
    let id = created.id;
    let pushed = RegistryModel {
        contracts: registry.contracts.push(created),
        next_id: (registry.next_id + 1) as u64,
        ..registry
    };
    assert(pushed.linked(ctx.predecessor, id).contracts == pushed.contracts);
    assert(pushed.linked(ctx.predecessor, id).linked_if(freelancer, id).contracts
        == pushed.contracts);
    assert(pushed.linked(ctx.predecessor, id).next_id == pushed.next_id);
    assert(pushed.linked(ctx.predecessor, id).linked_if(freelancer, id).next_id
        == pushed.next_id);
}

/// A review cannot be stalled. In a well-formed contract, a milestone under
/// review has a review deadline, and from that deadline on anyone has it
/// paid.
pub proof fn law_reviews_end(c: EscrowModel, i: int, now: u64)
    requires
        c.wf(),
        0 <= i < c.milestones.len(),
        c.milestones[i].status == MilestoneStatus::SubmittedForReview,
        c.milestones[i].payment_request_deadline_ns is Some ==> now
            >= c.milestones[i].payment_request_deadline_ns->0,
    ensures
        c.milestones[i].payment_request_deadline_ns is Some,
        c.auto_approve_payment(now, c.milestones[i].id) is Ok,
        c.auto_approve_payment(now, c.milestones[i].id)->Ok_0.0.milestones[i].status
            == MilestoneStatus::Completed,
        c.auto_approve_payment(now, c.milestones[i].id)->Ok_0.1.to_freelancer
            == c.milestones[i].amount,
{
    let id = c.milestones[i].id;
    c.lemma_milestone_index(id);
    lemma_index_of_distinct(c, i);
    assert(milestone_wf(c.milestones[i]));
}

/// In a contract whose milestones have distinct ids, the index of a
/// milestone's id is the milestone's position.
proof fn lemma_index_of_distinct(c: EscrowModel, i: int)
    requires
        distinct_ids(c.milestones),
        0 <= i < c.milestones.len(),
    ensures
        c.milestone_index(c.milestones[i].id) == Some(i),
{
    let id = c.milestones[i].id;
    c.lemma_milestone_index(id);
    lemma_first_index_means(c.milestones, |m: MilestoneModel| m.id == id);
    match c.milestone_index(id) {
        Some(k) => {
            if k < i {
                assert(c.milestones[k].id != c.milestones[i].id);
            } else if i < k {
                assert(c.milestones[i].id != c.milestones[k].id);
            }
        },
        None => {
            let p = |m: MilestoneModel| m.id == id;
            assert(p(c.milestones[i]));
        },
    }
}

/// A resolution cannot be stalled. In a well-formed contract, a resolved
/// dispute has a deadline, and from that deadline on anyone makes it final.
pub proof fn law_resolutions_become_final(c: EscrowModel, d: int, now: u64)
    requires
        c.wf(),
        0 <= d < c.disputes.len(),
        is_resolved(c.disputes[d]),
        c.disputes[d].deadline_ns is Some ==> now >= c.disputes[d].deadline_ns->0,
    ensures
        c.disputes[d].deadline_ns is Some,
        c.finalize_resolution(now, c.disputes[d].milestone_id) is Ok,
        c.finalize_resolution(now, c.disputes[d].milestone_id)->Ok_0.0.disputes[d].status
            == DisputeStatus::Finalized,
{
    let id = c.disputes[d].milestone_id;
    c.lemma_dispute_index(id, DisputeFilter::AwaitingFinality);
    lemma_one_unsettled(c, d, DisputeFilter::AwaitingFinality);
    assert(dispute_wf(c.disputes[d]));
}

/// In a well-formed contract, an unsettled dispute that a filter admits,
/// where the filter admits unsettled disputes only, is the one that a
/// lookup by its milestone finds.
proof fn lemma_one_unsettled(c: EscrowModel, d: int, filter: DisputeFilter)
    requires
        c.wf(),
        0 <= d < c.disputes.len(),
        filter.admits(c.disputes[d]),
        is_unsettled(c.disputes[d]),
        filter == DisputeFilter::AwaitingFinality || filter == DisputeFilter::AwaitingSettlement
            || filter == DisputeFilter::AwaitingVerdict,
    ensures
        c.dispute_index(c.disputes[d].milestone_id, filter) == Some(d),
{
    let id = c.disputes[d].milestone_id;
    c.lemma_dispute_index(id, filter);
    match c.dispute_index(id, filter) {
        Some(k) => {
            assert(is_unsettled(c.disputes[k]));
            if k < d {
                assert(c.disputes[k].milestone_id != c.disputes[d].milestone_id);
            } else if d < k {
                assert(c.disputes[d].milestone_id != c.disputes[k].milestone_id);
            }
        },
        None => {},
    }
}

/// A settlement cannot be stalled. In a well-formed contract, the funds of
/// a final dispute that were not released can be released, by anyone, and
/// the release settles that dispute.
pub proof fn law_final_disputes_can_be_settled(c: EscrowModel, d: int)
    requires
        c.wf(),
        0 <= d < c.disputes.len(),
        c.disputes[d].status == DisputeStatus::Finalized,
        !c.disputes[d].funds_released,
    ensures
        c.release_dispute_funds(c.disputes[d].milestone_id) is Ok,
        c.release_dispute_funds(c.disputes[d].milestone_id)->Ok_0.0.disputes[d].funds_released,
{
    let id = c.disputes[d].milestone_id;
    lemma_one_unsettled(c, d, DisputeFilter::AwaitingSettlement);
    assert(dispute_wf(c.disputes[d]));
    assert(some_disputed(c.milestones, id));
    let m = choose|m: int|
        0 <= m < c.milestones.len() && (#[trigger] c.milestones[m]).id == id
            && c.milestones[m].status == MilestoneStatus::Disputed;
    lemma_index_of_distinct(c, m);
}

/// A new registry is well formed.
pub proof fn law_new_registry_is_well_formed(owner: Seq<char>, policy: Policy)
    ensures
        RegistryModel::initial(owner, policy).wf(),
{
}

/// In a well-formed registry every contract is found by its own id: no two
/// contracts share one.
pub proof fn law_contracts_are_found_by_id(registry: RegistryModel, i: int)
    requires
        registry.wf(),
        0 <= i < registry.contracts.len(),
    ensures
        registry.contract_index(registry.contracts[i].id) == Some(i),
{
    let id = registry.contracts[i].id;
    let p = |c: EscrowModel| c.id == id;
    lemma_first_index_means(registry.contracts, p);
    match registry.contract_index(id) {
        Some(k) => {
            if k != i {
                lemma_contract_ids_differ((k + 1) as nat, (i + 1) as nat);
                assert(registry.contracts[k].id == contract_id_text((k + 1) as nat));
            }
        },
        None => {
            assert(p(registry.contracts[i]));
        },
    }
}

/// An accepted operation on a contract of a well-formed registry leaves the
/// registry well formed: the contract keeps its id and its invariant, and
/// the other contracts are as they were.
pub proof fn law_registry_stays_well_formed(registry: RegistryModel, i: int, op: Operation)
    requires
        registry.wf(),
        0 <= i < registry.contracts.len(),
        apply(registry.contracts[i], op, registry.policy, registry.ai_processing_fee) is Some,
    ensures
        (RegistryModel {
            contracts: registry.contracts.update(
                i,
                apply(
                    registry.contracts[i],
                    op,
                    registry.policy,
                    registry.ai_processing_fee,
                )->0,
            ),
            ..registry
        }).wf(),
{
    let c = registry.contracts[i];
    law_invariant_is_kept(c, op, registry.policy, registry.ai_processing_fee);
    law_history_is_kept(c, op, registry.policy, registry.ai_processing_fee);
}

/// Joining a contract of a well-formed registry leaves the registry well
/// formed.
pub proof fn law_joining_keeps_registry_well_formed(
    registry: RegistryModel,
    ctx: CallModel,
    contract_id: Seq<char>,
    invite_token: Seq<char>,
)
    requires
        registry.wf(),
        registry.join_contract(ctx, contract_id, invite_token) is Ok,
    ensures
        registry.join_contract(ctx, contract_id, invite_token)->Ok_0.0.wf(),
{
    let p = |c: EscrowModel| c.id == contract_id;
    lemma_first_index_means(registry.contracts, p);
    let i = registry.contract_index(contract_id)->0;
    law_registry_stays_well_formed(
        registry,
        i,
        Operation::Join { caller: ctx.predecessor, invite_token },
    );
    let joined = registry.contracts[i].join(ctx.predecessor, invite_token)->Ok_0.0;
    let updated = RegistryModel { contracts: registry.contracts.update(i, joined), ..registry };
    assert(updated.linked(ctx.predecessor, contract_id).contracts == updated.contracts);
}

/// The owner's settings leave the contracts as they are.
pub proof fn law_settings_leave_contracts(
    registry: RegistryModel,
    caller: Seq<char>,
    address: Seq<u8>,
    fee: u128,
)
    ensures
        registry.register_tee_address(caller, address) is Ok ==> registry.register_tee_address(
            caller,
            address,
        )->Ok_0.0.contracts == registry.contracts,
        registry.remove_tee_address(caller, address) is Ok ==> registry.remove_tee_address(
            caller,
            address,
        )->Ok_0.0.contracts == registry.contracts,
        registry.set_ai_processing_fee(caller, fee) is Ok ==> registry.set_ai_processing_fee(
            caller,
            fee,
        )->Ok_0.0.contracts == registry.contracts,
        registry.register_tee_address(caller, address) is Ok <==> caller == registry.owner,
        registry.remove_tee_address(caller, address) is Ok <==> caller == registry.owner,
        registry.set_ai_processing_fee(caller, fee) is Ok <==> caller == registry.owner,
        registry.remove_tee_address(caller, address) is Ok ==> !registry.remove_tee_address(
            caller,
            address,
        )->Ok_0.0.trusted_tee_addresses.contains(address),
        registry.register_tee_address(caller, address) is Ok ==> registry.register_tee_address(
            caller,
            address,
        )->Ok_0.0.trusted_tee_addresses.contains(address),
{
    if caller == registry.owner {
        let kept = registry.trusted_tee_addresses.filter(|row: Seq<u8>| row != address);
        if kept.contains(address) {
            let k = choose|k: int| 0 <= k < kept.len() && kept[k] == address;
            registry.trusted_tee_addresses.lemma_filter_pred(|row: Seq<u8>| row != address, k);
        }
        if !registry.trusted_tee_addresses.contains(address) {
            let pushed = registry.trusted_tee_addresses.push(address);
            assert(pushed[pushed.len() - 1] == address);
        }
    }
}

/// The invariant after an operation, for use where the operation is made:
/// where the contract was well formed and the operation is accepted, the
/// contract is well formed afterwards.
pub proof fn lemma_wf_after(c: EscrowModel, op: Operation, policy: Policy, fee: u128)
    ensures
        c.wf() && apply(c, op, policy, fee) is Some ==> apply(c, op, policy, fee)->0.wf(),
{
    if c.wf() && apply(c, op, policy, fee) is Some {
        law_invariant_is_kept(c, op, policy, fee);
    }
}

/// The invariant of the registry after an operation on one of its
/// contracts, for use where the operation is made.
pub proof fn lemma_registry_wf_after(registry: RegistryModel, i: int, op: Operation)
    ensures
        registry.wf() && 0 <= i < registry.contracts.len() && apply(
            registry.contracts[i],
            op,
            registry.policy,
            registry.ai_processing_fee,
        ) is Some ==> (RegistryModel {
            contracts: registry.contracts.update(
                i,
                apply(
                    registry.contracts[i],
                    op,
                    registry.policy,
                    registry.ai_processing_fee,
                )->0,
            ),
            ..registry
        }).wf(),
{
    if registry.wf() && 0 <= i < registry.contracts.len() && apply(
        registry.contracts[i],
        op,
        registry.policy,
        registry.ai_processing_fee,
    ) is Some {
        law_registry_stays_well_formed(registry, i, op);
    }
}

/// The invariant of the registry after a creation, for use where it is made.
pub proof fn lemma_registry_wf_after_creation(
    registry: RegistryModel,
    ctx: CallModel,
    title: Seq<char>,
    description: Seq<char>,
    milestones: Seq<MilestoneInputModel>,
    freelancer: Option<Seq<char>>,
    security_deposit_pct: u8,
    prompt_hash: Seq<char>,
    model_id: Seq<char>,
)
    ensures
        registry.wf() && registry.create_contract(
            ctx,
            title,
            description,
            milestones,
            freelancer,
            security_deposit_pct,
            prompt_hash,
            model_id,
        ) is Ok ==> registry.create_contract(
            ctx,
            title,
            description,
            milestones,
            freelancer,
            security_deposit_pct,
            prompt_hash,
            model_id,
        )->Ok_0.0.wf(),
{
    if registry.wf() && registry.create_contract(
        ctx,
        title,
        description,
        milestones,
        freelancer,
        security_deposit_pct,
        prompt_hash,
        model_id,
    ) is Ok {
        law_new_contract_is_well_formed(
            registry,
            ctx,
            title,
            description,
            milestones,
            freelancer,
            security_deposit_pct,
            prompt_hash,
            model_id,
        );
    }
}

/// The invariant of the registry after a joining, for use where it is made.
pub proof fn lemma_registry_wf_after_joining(
    registry: RegistryModel,
    ctx: CallModel,
    contract_id: Seq<char>,
    invite_token: Seq<char>,
)
    ensures
        registry.wf() && registry.join_contract(ctx, contract_id, invite_token) is Ok
            ==> registry.join_contract(ctx, contract_id, invite_token)->Ok_0.0.wf(),
{
    if registry.wf() && registry.join_contract(ctx, contract_id, invite_token) is Ok {
        law_joining_keeps_registry_well_formed(registry, ctx, contract_id, invite_token);
    }
}

} // verus!
