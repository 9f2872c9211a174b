//! What every accepted operation keeps: the invariant of the contract, its
//! history, and the finality of its disputes.

use crate::amounts::lemma_scaled_bounds;
use crate::attestation::AttestationCheck;
use crate::dispute::{verdict_dispute, AttestationModel, RoundReport};
use crate::model::{
    all_completed, amounts_of, any_unsettled, dispute_wf, disputes_wf, in_order, is_unsettled,
    lemma_promoted_in_order, milestone_wf, unfunded, DisputeFilter,
};
use crate::types::{
    DisputeModel, DisputeStatus, EscrowModel, MilestoneModel, MilestoneStatus, Policy, Resolution,
};
use vstd::prelude::*;

verus! {

/// Whether two milestones have the same terms: id, title, description and amount.
pub open spec fn same_terms(a: MilestoneModel, b: MilestoneModel) -> bool {
    b.id == a.id && b.title == a.title && b.description == a.description && b.amount == a.amount
}

/// Whether the milestones `b` are the milestones `a` with their terms
/// unchanged.
pub open spec fn milestones_kept(a: Seq<MilestoneModel>, b: Seq<MilestoneModel>) -> bool {
    &&& b.len() == a.len()
    &&& forall|i: int| 0 <= i < a.len() ==> same_terms(a[i], #[trigger] b[i])
}

/// Whether the dispute `b` may follow the dispute `a`: it is over the same
/// milestone, raised by the same party for the same reason; and what is
/// final, released, an appeal, or charged the fee stays so.
pub open spec fn advanced(a: DisputeModel, b: DisputeModel) -> bool {
    &&& b.milestone_id == a.milestone_id && b.raised_by == a.raised_by && b.reason == a.reason
    &&& a.status == DisputeStatus::Finalized ==> b.status == DisputeStatus::Finalized
    &&& a.funds_released ==> b.funds_released
    &&& a.is_appeal ==> b.is_appeal
    &&& a.ai_fee_deducted ==> b.ai_fee_deducted
}

/// Whether the disputes `b` may follow the disputes `a`: none is deleted,
/// and each may follow what it was.
pub open spec fn disputes_kept(a: Seq<DisputeModel>, b: Seq<DisputeModel>) -> bool {
    &&& b.len() >= a.len()
    &&& forall|d: int| 0 <= d < a.len() ==> advanced(a[d], #[trigger] b[d])
}

/// Whether the contract `next` may follow the contract `c`: identity,
/// client, total and security percentage are fixed, a bound freelancer stays
/// bound, the funded amount does not shrink, the milestones keep their
/// terms, and the disputes are kept.
pub open spec fn history_kept(c: EscrowModel, next: EscrowModel) -> bool {
    &&& next.id == c.id && next.client == c.client && next.total_amount == c.total_amount
    &&& next.security_deposit_pct == c.security_deposit_pct && next.created_at == c.created_at
    &&& c.freelancer is Some ==> next.freelancer == c.freelancer
    &&& next.funded_amount >= c.funded_amount
    &&& milestones_kept(c.milestones, next.milestones)
    &&& disputes_kept(c.disputes, next.disputes)
}

/// Whether every dispute of `c` whose funds were released is in `next` as it was.
pub open spec fn settled_fixed(c: EscrowModel, next: EscrowModel) -> bool {
    forall|d: int|
        0 <= d < c.disputes.len() && d < next.disputes.len() && c.disputes[d].funds_released
            ==> #[trigger] next.disputes[d] == c.disputes[d]
}

/// Whether a dispute went from resolved to final.
pub open spec fn became_final(a: DisputeModel, b: DisputeModel) -> bool {
    (a.status == DisputeStatus::AiResolved || a.status == DisputeStatus::AppealResolved)
        && b.status == DisputeStatus::Finalized
}

/// Whether no dispute of `c` went from resolved to final in `next`.
pub open spec fn none_became_final(c: EscrowModel, next: EscrowModel) -> bool {
    forall|d: int|
        0 <= d < c.disputes.len() && d < next.disputes.len() ==> !became_final(
            c.disputes[d],
            #[trigger] next.disputes[d],
        )
}

/// What every accepted step keeps.
pub open spec fn step_kept(c: EscrowModel, next: EscrowModel) -> bool {
    &&& c.parts_wf() ==> next.parts_wf()
    &&& history_kept(c, next)
    &&& disputes_wf(c.disputes) ==> settled_fixed(c, next)
}

/// Replacing a funded milestone by one with the same terms that is funded
/// too keeps the amounts, the order of funding and the terms.
pub proof fn lemma_milestone_replaced(milestones: Seq<MilestoneModel>, i: int, m: MilestoneModel)
    requires
        0 <= i < milestones.len(),
        same_terms(milestones[i], m),
        !unfunded(milestones[i]),
        !unfunded(m),
    ensures
        amounts_of(milestones.update(i, m)) == amounts_of(milestones),
        in_order(milestones) ==> in_order(milestones.update(i, m)),
        milestones_kept(milestones, milestones.update(i, m)),
        m.status != MilestoneStatus::Completed ==> !all_completed(milestones.update(i, m)),
        milestones[i].status != MilestoneStatus::Completed ==> !all_completed(milestones),
{
    let after = milestones.update(i, m);
    assert(amounts_of(after) =~= amounts_of(milestones));
    if in_order(milestones) {
        assert forall|a: int, b: int|
            0 <= a <= b < after.len() && unfunded(#[trigger] after[a]) implies unfunded(
            #[trigger] after[b],
        ) by {
            assert(unfunded(milestones[a]));
            assert(unfunded(milestones[b]));
        }
    }
    assert(after[i] == m);
}

/// Replacing a dispute by one that may follow it keeps the disputes, their
/// invariant where the new one has it, and an unsettled dispute where the
/// new one is unsettled if the old one was.
pub proof fn lemma_dispute_replaced(disputes: Seq<DisputeModel>, d: int, x: DisputeModel)
    requires
        0 <= d < disputes.len(),
        advanced(disputes[d], x),
    ensures
        disputes_kept(disputes, disputes.update(d, x)),
        disputes_wf(disputes) && dispute_wf(x) ==> disputes_wf(disputes.update(d, x)),
        any_unsettled(disputes) && (is_unsettled(disputes[d]) ==> is_unsettled(x))
            ==> any_unsettled(disputes.update(d, x)),
        is_unsettled(x) ==> any_unsettled(disputes.update(d, x)),
        forall|j: int|
            0 <= j < disputes.len() && j != d ==> #[trigger] disputes.update(d, x)[j]
                == disputes[j],
{
    let after = disputes.update(d, x);
    assert(after[d] == x);
    if any_unsettled(disputes) && (is_unsettled(disputes[d]) ==> is_unsettled(x)) {
        let w = choose|w: int| 0 <= w < disputes.len() && is_unsettled(#[trigger] disputes[w]);
        assert(is_unsettled(after[w]));
    }
    if is_unsettled(x) {
        assert(is_unsettled(after[d]));
    }
}

/// Joining keeps what every step keeps, and makes no dispute final.
pub proof fn lemma_join_kept(c: EscrowModel, caller: Seq<char>, invite_token: Seq<char>)
    requires
        c.join(caller, invite_token) is Ok,
    ensures
        step_kept(c, c.join(caller, invite_token)->Ok_0.0),
        none_became_final(c, c.join(caller, invite_token)->Ok_0.0),
{
}

/// Funding keeps what every step keeps, and makes no dispute final.
pub proof fn lemma_fund_kept(c: EscrowModel, caller: Seq<char>, deposit: u128, policy: Policy)
    requires
        c.fund(caller, deposit, policy) is Ok,
    ensures
        step_kept(c, c.fund(caller, deposit, policy)->Ok_0.0),
        none_became_final(c, c.fund(caller, deposit, policy)->Ok_0.0),
{
    let next = c.fund(caller, deposit, policy)->Ok_0.0;
    lemma_scaled_bounds(
        deposit as int,
        c.security_deposit_pct as int,
        100 + c.security_deposit_pct as int,
    );
    if in_order(c.milestones) {
        lemma_promoted_in_order(c.milestones, c.deposited_after(deposit), policy.funding_target());
    }
    assert(amounts_of(next.milestones) =~= amounts_of(c.milestones));
    assert(milestones_kept(c.milestones, next.milestones));
}

/// Topping up the security pool keeps what every step keeps, and makes no
/// dispute final.
pub proof fn lemma_top_up_kept(c: EscrowModel, caller: Seq<char>, amount: u128)
    requires
        c.top_up_security(caller, amount) is Ok,
    ensures
        step_kept(c, c.top_up_security(caller, amount)->Ok_0.0),
        none_became_final(c, c.top_up_security(caller, amount)->Ok_0.0),
{
}

/// Paying a milestone under review keeps what every step keeps, and makes
/// no dispute final.
pub proof fn lemma_paid_kept(c: EscrowModel, i: int)
    requires
        0 <= i < c.milestones.len(),
        c.milestones[i].status == MilestoneStatus::SubmittedForReview,
    ensures
        step_kept(c, c.with_paid_milestone(i)),
        none_became_final(c, c.with_paid_milestone(i)),
{
    let m = MilestoneModel {
        status: MilestoneStatus::Completed,
        payment_request_deadline_ns: None,
        ..c.milestones[i]
    };
    lemma_milestone_replaced(c.milestones, i, m);
}

/// Approval keeps what every step keeps, and makes no dispute final.
pub proof fn lemma_approve_kept(c: EscrowModel, caller: Seq<char>, milestone_id: Seq<char>)
    requires
        c.approve_milestone(caller, milestone_id) is Ok,
    ensures
        step_kept(c, c.approve_milestone(caller, milestone_id)->Ok_0.0),
        none_became_final(c, c.approve_milestone(caller, milestone_id)->Ok_0.0),
{
    c.lemma_milestone_index(milestone_id);
    lemma_paid_kept(c, c.milestone_index(milestone_id)->0);
}

/// Approval by lapse of the deadline keeps what every step keeps, and makes
/// no dispute final.
pub proof fn lemma_auto_approve_kept(c: EscrowModel, now: u64, milestone_id: Seq<char>)
    requires
        c.auto_approve_payment(now, milestone_id) is Ok,
    ensures
        step_kept(c, c.auto_approve_payment(now, milestone_id)->Ok_0.0),
        none_became_final(c, c.auto_approve_payment(now, milestone_id)->Ok_0.0),
{
    c.lemma_milestone_index(milestone_id);
    lemma_paid_kept(c, c.milestone_index(milestone_id)->0);
}

/// Releasing the security pool keeps what every step keeps, and makes no
/// dispute final.
pub proof fn lemma_complete_security_kept(c: EscrowModel)
    requires
        c.complete_contract_security() is Ok,
    ensures
        step_kept(c, c.complete_contract_security()->Ok_0.0),
        none_became_final(c, c.complete_contract_security()->Ok_0.0),
{
}

/// Moving a milestone between two funded, uncompleted statuses keeps what
/// every step keeps, and makes no dispute final.
pub proof fn lemma_moved_kept(c: EscrowModel, i: int, m: MilestoneModel)
    requires
        0 <= i < c.milestones.len(),
        same_terms(c.milestones[i], m),
        !unfunded(c.milestones[i]),
        !unfunded(m),
        c.milestones[i].status != MilestoneStatus::Completed,
        m.status != MilestoneStatus::Completed,
        milestone_wf(m),
    ensures
        step_kept(c, c.with_milestone(i, m)),
        none_became_final(c, c.with_milestone(i, m)),
{
    lemma_milestone_replaced(c.milestones, i, m);
}

/// Starting a milestone keeps what every step keeps, and makes no dispute final.
pub proof fn lemma_start_kept(c: EscrowModel, caller: Seq<char>, milestone_id: Seq<char>)
    requires
        c.start_milestone(caller, milestone_id) is Ok,
    ensures
        step_kept(c, c.start_milestone(caller, milestone_id)->Ok_0.0),
        none_became_final(c, c.start_milestone(caller, milestone_id)->Ok_0.0),
{
    c.lemma_milestone_index(milestone_id);
    let i = c.milestone_index(milestone_id)->0;
    lemma_moved_kept(
        c,
        i,
        MilestoneModel { status: MilestoneStatus::InProgress, ..c.milestones[i] },
    );
}

/// Requesting payment keeps what every step keeps, and makes no dispute final.
pub proof fn lemma_request_payment_kept(
    c: EscrowModel,
    caller: Seq<char>,
    now: u64,
    milestone_id: Seq<char>,
)
    requires
        c.request_payment(caller, now, milestone_id) is Ok,
    ensures
        step_kept(c, c.request_payment(caller, now, milestone_id)->Ok_0.0),
        none_became_final(c, c.request_payment(caller, now, milestone_id)->Ok_0.0),
{
    c.lemma_milestone_index(milestone_id);
    let i = c.milestone_index(milestone_id)->0;
    lemma_moved_kept(c, i, c.request_payment(caller, now, milestone_id)->Ok_0.0.milestones[i]);
    assert(c.request_payment(caller, now, milestone_id)->Ok_0.0 == c.with_milestone(
        i,
        c.request_payment(caller, now, milestone_id)->Ok_0.0.milestones[i],
    ));
}

/// Cancelling a payment request keeps what every step keeps, and makes no
/// dispute final.
pub proof fn lemma_cancel_kept(c: EscrowModel, caller: Seq<char>, milestone_id: Seq<char>)
    requires
        c.cancel_payment_request(caller, milestone_id) is Ok,
    ensures
        step_kept(c, c.cancel_payment_request(caller, milestone_id)->Ok_0.0),
        none_became_final(c, c.cancel_payment_request(caller, milestone_id)->Ok_0.0),
{
    c.lemma_milestone_index(milestone_id);
    let i = c.milestone_index(milestone_id)->0;
    lemma_moved_kept(
        c,
        i,
        MilestoneModel {
            status: MilestoneStatus::InProgress,
            payment_request_deadline_ns: None,
            ..c.milestones[i]
        },
    );
}

/// Raising a dispute keeps what every step keeps, and makes no dispute final.
pub proof fn lemma_raise_kept(
    c: EscrowModel,
    caller: Seq<char>,
    milestone_id: Seq<char>,
    reason: Seq<char>,
    fee: u128,
    policy: Policy,
)
    requires
        c.raise_dispute(caller, milestone_id, reason, fee, policy) is Ok,
    ensures
        step_kept(c, c.raise_dispute(caller, milestone_id, reason, fee, policy)->Ok_0.0),
        none_became_final(c, c.raise_dispute(caller, milestone_id, reason, fee, policy)->Ok_0.0),
{
    let next = c.raise_dispute(caller, milestone_id, reason, fee, policy)->Ok_0.0;
    c.lemma_milestone_index(milestone_id);
    let i = c.milestone_index(milestone_id)->0;
    lemma_milestone_replaced(
        c.milestones,
        i,
        MilestoneModel { status: MilestoneStatus::Disputed, ..c.milestones[i] },
    );
    let opened = next.disputes[c.disputes.len() as int];
    assert(is_unsettled(opened));
    assert(dispute_wf(opened));
    if disputes_wf(c.disputes) {
        assert forall|d: int| 0 <= d < next.disputes.len() implies dispute_wf(
            #[trigger] next.disputes[d],
        ) by {
            if d < c.disputes.len() {
                assert(next.disputes[d] == c.disputes[d]);
            }
        }
    }
}

/// Settling a dispute over a disputed milestone keeps what every step
/// keeps, and makes no dispute final.
pub proof fn lemma_settlement_kept(c: EscrowModel, d: int, m: int, resolution: Resolution)
    requires
        0 <= d < c.disputes.len(),
        0 <= m < c.milestones.len(),
        c.disputes[d].status == DisputeStatus::Finalized,
        c.milestones[m].status == MilestoneStatus::Disputed,
    ensures
        step_kept(c, c.with_settlement(d, m, resolution)),
        none_became_final(c, c.with_settlement(d, m, resolution)),
{
    let next = c.with_settlement(d, m, resolution);
    lemma_milestone_replaced(
        c.milestones,
        m,
        crate::escrow::settled_milestone(resolution, c.milestones[m]),
    );
    lemma_dispute_replaced(
        c.disputes,
        d,
        DisputeModel { funds_released: true, ..c.disputes[d] },
    );
}

/// Releasing the funds of a dispute keeps what every step keeps, and makes
/// no dispute final.
pub proof fn lemma_release_kept(c: EscrowModel, milestone_id: Seq<char>)
    requires
        c.release_dispute_funds(milestone_id) is Ok,
    ensures
        step_kept(c, c.release_dispute_funds(milestone_id)->Ok_0.0),
        none_became_final(c, c.release_dispute_funds(milestone_id)->Ok_0.0),
{
    c.lemma_dispute_index(milestone_id, DisputeFilter::AwaitingSettlement);
    c.lemma_milestone_index(milestone_id);
    let d = c.dispute_index(milestone_id, DisputeFilter::AwaitingSettlement)->0;
    let m = c.milestone_index(milestone_id)->0;
    lemma_settlement_kept(c, d, m, c.disputes[d].resolution->0);
}

/// Recording a verdict on a dispute that awaits one keeps what every step
/// keeps, and makes no dispute final that was resolved.
pub proof fn lemma_verdict_kept(
    c: EscrowModel,
    d: int,
    resolution: Resolution,
    explanation: Seq<char>,
    attestation: AttestationModel,
    now: u64,
    fee: u128,
)
    requires
        0 <= d < c.disputes.len(),
        DisputeFilter::AwaitingVerdict.admits(c.disputes[d]),
        c.verdict_error(d, resolution, now, fee) is None,
    ensures
        step_kept(c, c.with_verdict(d, resolution, explanation, attestation, now, fee).0),
        none_became_final(c, c.with_verdict(d, resolution, explanation, attestation, now, fee).0),
{
    let next = c.with_verdict(d, resolution, explanation, attestation, now, fee).0;
    let x = verdict_dispute(c.disputes[d], resolution, explanation, attestation, now, fee);
    let recorded = EscrowModel {
        disputes: c.disputes.update(d, x),
        security_pool: (c.security_pool - c.fee_due(d, fee)) as u128,
        ..c
    };
    lemma_dispute_replaced(c.disputes, d, x);
    if resolution == Resolution::ContinueWork {
        c.lemma_milestone_index(c.disputes[d].milestone_id);
        let m = c.milestone_index(c.disputes[d].milestone_id)->0;
        lemma_settlement_kept(recorded, d, m, Resolution::ContinueWork);
        assert(next == recorded.with_settlement(d, m, Resolution::ContinueWork));
        if c.parts_wf() {
            assert(is_unsettled(x));
            assert(recorded.parts_wf());
        }
        if disputes_wf(c.disputes) {
            assert(disputes_wf(recorded.disputes));
            assert forall|j: int|
                0 <= j < c.disputes.len() && j < next.disputes.len()
                    && c.disputes[j].funds_released implies #[trigger] next.disputes[j]
                == c.disputes[j] by {
                assert(recorded.disputes[j] == c.disputes[j]);
            }
        }
        assert forall|j: int| 0 <= j < c.disputes.len() implies advanced(
            c.disputes[j],
            #[trigger] next.disputes[j],
        ) by {
            assert(advanced(c.disputes[j], recorded.disputes[j]));
            assert(advanced(recorded.disputes[j], next.disputes[j]));
        }
        assert forall|j: int| 0 <= j < c.disputes.len() && j < next.disputes.len() implies !became_final(
            c.disputes[j],
            #[trigger] next.disputes[j],
        ) by {
            if j != d {
                assert(recorded.disputes[j] == c.disputes[j]);
                assert(!became_final(recorded.disputes[j], next.disputes[j]));
            }
        }
    } else {
        assert(next == recorded);
        assert(is_unsettled(x));
    }
}

/// Taking in a verdict keeps what every step keeps, and makes no dispute
/// final that was resolved.
pub proof fn lemma_submit_resolution_kept(
    c: EscrowModel,
    milestone_id: Seq<char>,
    resolution: Resolution,
    explanation: Seq<char>,
    attestation: AttestationModel,
    check: AttestationCheck,
    now: u64,
    fee: u128,
)
    requires
        c.submit_ai_resolution(
            milestone_id,
            resolution,
            explanation,
            attestation,
            check,
            now,
            fee,
        ) is Ok,
    ensures
        step_kept(
            c,
            c.submit_ai_resolution(
                milestone_id,
                resolution,
                explanation,
                attestation,
                check,
                now,
                fee,
            )->Ok_0.0,
        ),
        none_became_final(
            c,
            c.submit_ai_resolution(
                milestone_id,
                resolution,
                explanation,
                attestation,
                check,
                now,
                fee,
            )->Ok_0.0,
        ),
{
    c.lemma_dispute_index(milestone_id, DisputeFilter::AwaitingVerdict);
    let d = c.dispute_index(milestone_id, DisputeFilter::AwaitingVerdict)->0;
    lemma_verdict_kept(c, d, resolution, explanation, attestation, now, fee);
}

/// Taking in an investigation round keeps what every step keeps, and makes
/// no dispute final that was resolved.
pub proof fn lemma_submit_round_kept(
    c: EscrowModel,
    milestone_id: Seq<char>,
    report: RoundReport,
    resolution: Option<Resolution>,
    explanation: Option<Seq<char>>,
    attestation: AttestationModel,
    check: AttestationCheck,
    now: u64,
    fee: u128,
)
    requires
        c.submit_investigation_round(
            milestone_id,
            report,
            resolution,
            explanation,
            attestation,
            check,
            now,
            fee,
        ) is Ok,
    ensures
        step_kept(
            c,
            c.submit_investigation_round(
                milestone_id,
                report,
                resolution,
                explanation,
                attestation,
                check,
                now,
                fee,
            )->Ok_0.0,
        ),
        none_became_final(
            c,
            c.submit_investigation_round(
                milestone_id,
                report,
                resolution,
                explanation,
                attestation,
                check,
                now,
                fee,
            )->Ok_0.0,
        ),
{
    let next = c.submit_investigation_round(
        milestone_id,
        report,
        resolution,
        explanation,
        attestation,
        check,
        now,
        fee,
    )->Ok_0.0;
    c.lemma_dispute_index(milestone_id, DisputeFilter::AwaitingVerdict);
    let d = c.dispute_index(milestone_id, DisputeFilter::AwaitingVerdict)->0;
    let logged = c.with_round(d, report, attestation, now);
    lemma_dispute_replaced(c.disputes, d, logged.disputes[d]);
    assert(is_unsettled(logged.disputes[d]));
    assert(step_kept(c, logged));
    assert(none_became_final(c, logged));
    if next != logged {
        lemma_verdict_kept(logged, d, resolution->0, explanation->0, attestation, now, fee);
        lemma_steps_compose(c, logged, next);
        assert forall|j: int| 0 <= j < c.disputes.len() && j < next.disputes.len() implies !became_final(
            c.disputes[j],
            #[trigger] next.disputes[j],
        ) by {
            if j != d {
                assert(logged.disputes[j] == c.disputes[j]);
                assert(!became_final(logged.disputes[j], next.disputes[j]));
            }
        }
    }
}

/// What every step keeps is kept over two steps.
pub proof fn lemma_steps_compose(a: EscrowModel, b: EscrowModel, c: EscrowModel)
    requires
        step_kept(a, b),
        step_kept(b, c),
        disputes_wf(a.disputes) ==> disputes_wf(b.disputes),
    ensures
        step_kept(a, c),
{
    assert forall|i: int| 0 <= i < a.milestones.len() implies same_terms(
        a.milestones[i],
        #[trigger] c.milestones[i],
    ) by {
        assert(same_terms(a.milestones[i], b.milestones[i]));
    }
    assert forall|d: int| 0 <= d < a.disputes.len() implies advanced(
        a.disputes[d],
        #[trigger] c.disputes[d],
    ) by {
        assert(advanced(a.disputes[d], b.disputes[d]));
    }
    if disputes_wf(a.disputes) {
        assert forall|d: int|
            0 <= d < a.disputes.len() && d < c.disputes.len()
                && a.disputes[d].funds_released implies #[trigger] c.disputes[d]
            == a.disputes[d] by {
            assert(b.disputes[d] == a.disputes[d]);
        }
    }
}

/// Acceptance keeps what every step keeps. A dispute that it makes final
/// has the acceptance of both parties, unless the policy lets the party
/// that raised it finalize alone.
pub proof fn lemma_accept_kept(
    c: EscrowModel,
    caller: Seq<char>,
    milestone_id: Seq<char>,
    policy: Policy,
)
    requires
        c.accept_resolution(caller, milestone_id, policy) is Ok,
    ensures
        step_kept(c, c.accept_resolution(caller, milestone_id, policy)->Ok_0.0),
        forall|d: int|
            0 <= d < c.disputes.len() && became_final(
                c.disputes[d],
                #[trigger] c.accept_resolution(caller, milestone_id, policy)->Ok_0.0.disputes[d],
            ) ==> policy.single_acceptance || (c.accept_resolution(
                caller,
                milestone_id,
                policy,
            )->Ok_0.0.disputes[d].client_accepted && c.accept_resolution(
                caller,
                milestone_id,
                policy,
            )->Ok_0.0.disputes[d].freelancer_accepted),
{
    let next = c.accept_resolution(caller, milestone_id, policy)->Ok_0.0;
    c.lemma_dispute_index(milestone_id, DisputeFilter::AwaitingFinality);
    let d = c.dispute_index(milestone_id, DisputeFilter::AwaitingFinality)->0;
    lemma_dispute_replaced(c.disputes, d, next.disputes[d]);
    if disputes_wf(c.disputes) {
        assert(dispute_wf(next.disputes[d]));
        assert(is_unsettled(next.disputes[d]));
    }
}

/// An appeal keeps what every step keeps, and makes no dispute final.
pub proof fn lemma_appeal_kept(c: EscrowModel, caller: Seq<char>, milestone_id: Seq<char>)
    requires
        c.appeal_resolution(caller, milestone_id) is Ok,
    ensures
        step_kept(c, c.appeal_resolution(caller, milestone_id)->Ok_0.0),
        none_became_final(c, c.appeal_resolution(caller, milestone_id)->Ok_0.0),
{
    let next = c.appeal_resolution(caller, milestone_id)->Ok_0.0;
    let filter = DisputeFilter::InStatus(DisputeStatus::AiResolved);
    c.lemma_dispute_index(milestone_id, filter);
    let d = c.dispute_index(milestone_id, filter)->0;
    lemma_dispute_replaced(c.disputes, d, next.disputes[d]);
    if disputes_wf(c.disputes) {
        assert(dispute_wf(next.disputes[d]));
        assert(is_unsettled(next.disputes[d]));
    }
}

/// Finalization keeps what every step keeps. A dispute that it makes final
/// has the acceptance of both parties, or its deadline has passed.
pub proof fn lemma_finalize_kept(c: EscrowModel, now: u64, milestone_id: Seq<char>)
    requires
        c.finalize_resolution(now, milestone_id) is Ok,
    ensures
        step_kept(c, c.finalize_resolution(now, milestone_id)->Ok_0.0),
        forall|d: int|
            0 <= d < c.disputes.len() && became_final(
                c.disputes[d],
                #[trigger] c.finalize_resolution(now, milestone_id)->Ok_0.0.disputes[d],
            ) ==> (c.disputes[d].client_accepted && c.disputes[d].freelancer_accepted) || (
            c.disputes[d].deadline_ns is Some && now >= c.disputes[d].deadline_ns->0),
{
    let next = c.finalize_resolution(now, milestone_id)->Ok_0.0;
    c.lemma_dispute_index(milestone_id, DisputeFilter::AwaitingFinality);
    let d = c.dispute_index(milestone_id, DisputeFilter::AwaitingFinality)->0;
    lemma_dispute_replaced(c.disputes, d, next.disputes[d]);
    if disputes_wf(c.disputes) {
        assert(dispute_wf(next.disputes[d]));
        assert(is_unsettled(next.disputes[d]));
    }
}

/// The client's override keeps what every step keeps.
pub proof fn lemma_override_kept(
    c: EscrowModel,
    caller: Seq<char>,
    now: u64,
    milestone_id: Seq<char>,
    policy: Policy,
)
    requires
        c.override_to_continue_work(caller, now, milestone_id, policy) is Ok,
    ensures
        step_kept(c, c.override_to_continue_work(caller, now, milestone_id, policy)->Ok_0.0),
{
    let next = c.override_to_continue_work(caller, now, milestone_id, policy)->Ok_0.0;
    c.lemma_dispute_index(milestone_id, DisputeFilter::Overridable);
    c.lemma_milestone_index(milestone_id);
    let d = c.dispute_index(milestone_id, DisputeFilter::Overridable)->0;
    let m = c.milestone_index(milestone_id)->0;
    let x = DisputeModel {
        status: DisputeStatus::Finalized,
        resolution: Some(Resolution::ContinueWork),
        deadline_ns: None,
        ..c.disputes[d]
    };
    let overridden = c.with_dispute(d, x);
    lemma_dispute_replaced(c.disputes, d, x);
    if disputes_wf(c.disputes) {
        assert(dispute_wf(x));
        assert(is_unsettled(x));
    }
    assert(step_kept(c, overridden));
    lemma_settlement_kept(overridden, d, m, Resolution::ContinueWork);
    let settled = overridden.with_settlement(d, m, Resolution::ContinueWork);
    lemma_steps_compose(c, overridden, settled);
    let blocked = MilestoneModel {
        payment_request_blocked_until_ns: Some((now + policy.override_cooldown_ns) as u64),
        ..settled.milestones[m]
    };
    lemma_milestone_replaced(settled.milestones, m, blocked);
    assert(next == settled.with_milestone(m, blocked));
    assert(step_kept(settled, next));
    lemma_steps_compose(c, settled, next);
}

} // verus!
