//! Every accepted operation keeps the link between disputes and milestones.

use crate::dispute::{verdict_dispute, AttestationModel};
use crate::escrow::settled_milestone;
use crate::model::{
    dispute_wf, disputes_wf, is_unsettled, linked, promoted, some_disputed, some_unsettled,
    DisputeFilter,
};
use crate::operations::{apply, Operation};
use crate::preservation::lemma_dispute_replaced;
use crate::types::{
    DisputeModel, DisputeStatus, EscrowModel, MilestoneModel, MilestoneStatus, Policy, Resolution,
};
use vstd::prelude::*;

verus! {

/// A milestone that is not disputed may move to a status that is not
/// disputed, under the same id.
pub proof fn lemma_linked_milestone_moved(
    milestones: Seq<MilestoneModel>,
    disputes: Seq<DisputeModel>,
    i: int,
    m: MilestoneModel,
)
    requires
        linked(milestones, disputes),
        0 <= i < milestones.len(),
        m.id == milestones[i].id,
        milestones[i].status != MilestoneStatus::Disputed,
        m.status != MilestoneStatus::Disputed,
    ensures
        linked(milestones.update(i, m), disputes),
{
    let after = milestones.update(i, m);
    assert forall|a: int, b: int| 0 <= a < b < after.len() implies (#[trigger] after[a]).id != (
    #[trigger] after[b]).id by {
        assert(milestones[a].id != milestones[b].id);
    }
    assert forall|d: int|
        0 <= d < disputes.len() && is_unsettled(#[trigger] disputes[d]) implies some_disputed(
        after,
        disputes[d].milestone_id,
    ) by {
        let id = disputes[d].milestone_id;
        assert(some_disputed(milestones, id));
        let w = choose|w: int|
            0 <= w < milestones.len() && (#[trigger] milestones[w]).id == id
                && milestones[w].status == MilestoneStatus::Disputed;
        assert(after[w] == milestones[w]);
    }
    assert forall|k: int|
        0 <= k < after.len() && (#[trigger] after[k]).status
            == MilestoneStatus::Disputed implies some_unsettled(disputes, after[k].id) by {
        assert(milestones[k] == after[k]);
    }
}

/// A dispute may advance under the same milestone id while it stays
/// unsettled, or stays settled.
pub proof fn lemma_linked_dispute_advanced(
    milestones: Seq<MilestoneModel>,
    disputes: Seq<DisputeModel>,
    d: int,
    x: DisputeModel,
)
    requires
        linked(milestones, disputes),
        0 <= d < disputes.len(),
        x.milestone_id == disputes[d].milestone_id,
        is_unsettled(x) == is_unsettled(disputes[d]),
    ensures
        linked(milestones, disputes.update(d, x)),
{
    let after = disputes.update(d, x);
    assert forall|e: int| 0 <= e < after.len() && is_unsettled(#[trigger] after[e]) implies some_disputed(
        milestones,
        after[e].milestone_id,
    ) by {
        assert(is_unsettled(disputes[e]));
    }
    assert forall|k: int|
        0 <= k < milestones.len() && (#[trigger] milestones[k]).status
            == MilestoneStatus::Disputed implies some_unsettled(after, milestones[k].id) by {
        let id = milestones[k].id;
        assert(some_unsettled(disputes, id));
        let w = choose|w: int|
            0 <= w < disputes.len() && is_unsettled(#[trigger] disputes[w])
                && disputes[w].milestone_id == id;
        assert(is_unsettled(after[w]) && after[w].milestone_id == id);
    }
    assert forall|a: int, b: int|
        0 <= a < b < after.len() && is_unsettled(#[trigger] after[a]) && is_unsettled(
            #[trigger] after[b],
        ) implies after[a].milestone_id != after[b].milestone_id by {
        assert(is_unsettled(disputes[a]) && is_unsettled(disputes[b]));
    }
}

/// A milestone that is not disputed may become disputed as an unsettled
/// dispute over it is opened.
pub proof fn lemma_linked_dispute_opened(
    milestones: Seq<MilestoneModel>,
    disputes: Seq<DisputeModel>,
    i: int,
    m: MilestoneModel,
    x: DisputeModel,
)
    requires
        linked(milestones, disputes),
        0 <= i < milestones.len(),
        m.id == milestones[i].id,
        milestones[i].status != MilestoneStatus::Disputed,
        m.status == MilestoneStatus::Disputed,
        x.milestone_id == milestones[i].id,
        is_unsettled(x),
    ensures
        linked(milestones.update(i, m), disputes.push(x)),
{
    let ms = milestones.update(i, m);
    let ds = disputes.push(x);
    let n = disputes.len() as int;
    assert forall|a: int, b: int| 0 <= a < b < ms.len() implies (#[trigger] ms[a]).id != (
    #[trigger] ms[b]).id by {
        assert(milestones[a].id != milestones[b].id);
    }
    assert forall|e: int| 0 <= e < ds.len() && is_unsettled(#[trigger] ds[e]) implies some_disputed(
        ms,
        ds[e].milestone_id,
    ) by {
        if e == n {
            assert(ms[i].id == ds[e].milestone_id && ms[i].status == MilestoneStatus::Disputed);
        } else {
            let id = disputes[e].milestone_id;
            assert(ds[e] == disputes[e]);
            assert(some_disputed(milestones, id));
            let w = choose|w: int|
                0 <= w < milestones.len() && (#[trigger] milestones[w]).id == id
                    && milestones[w].status == MilestoneStatus::Disputed;
            assert(ms[w] == milestones[w]);
        }
    }
    assert forall|k: int|
        0 <= k < ms.len() && (#[trigger] ms[k]).status
            == MilestoneStatus::Disputed implies some_unsettled(ds, ms[k].id) by {
        if k == i {
            assert(is_unsettled(ds[n]) && ds[n].milestone_id == ms[k].id);
        } else {
            let id = milestones[k].id;
            assert(ms[k] == milestones[k]);
            assert(some_unsettled(disputes, id));
            let w = choose|w: int|
                0 <= w < disputes.len() && is_unsettled(#[trigger] disputes[w])
                    && disputes[w].milestone_id == id;
            assert(ds[w] == disputes[w]);
        }
    }
    assert forall|a: int, b: int|
        0 <= a < b < ds.len() && is_unsettled(#[trigger] ds[a]) && is_unsettled(
            #[trigger] ds[b],
        ) implies ds[a].milestone_id != ds[b].milestone_id by {
        assert(ds[a] == disputes[a]);
        if b == n {
            if disputes[a].milestone_id == x.milestone_id {
                let id = disputes[a].milestone_id;
                assert(some_disputed(milestones, id));
                let w = choose|w: int|
                    0 <= w < milestones.len() && (#[trigger] milestones[w]).id == id
                        && milestones[w].status == MilestoneStatus::Disputed;
                if w < i {
                    assert(milestones[w].id != milestones[i].id);
                } else if i < w {
                    assert(milestones[i].id != milestones[w].id);
                }
            }
        } else {
            assert(ds[b] == disputes[b]);
        }
    }
}

/// An unsettled dispute over a disputed milestone may be settled as the
/// milestone leaves the dispute.
pub proof fn lemma_linked_dispute_settled(
    milestones: Seq<MilestoneModel>,
    disputes: Seq<DisputeModel>,
    d: int,
    i: int,
    x: DisputeModel,
    m: MilestoneModel,
)
    requires
        linked(milestones, disputes),
        0 <= d < disputes.len(),
        0 <= i < milestones.len(),
        is_unsettled(disputes[d]),
        disputes[d].milestone_id == milestones[i].id,
        x.milestone_id == disputes[d].milestone_id,
        !is_unsettled(x),
        m.id == milestones[i].id,
        m.status != MilestoneStatus::Disputed,
    ensures
        linked(milestones.update(i, m), disputes.update(d, x)),
{
    let ms = milestones.update(i, m);
    let ds = disputes.update(d, x);
    assert forall|a: int, b: int| 0 <= a < b < ms.len() implies (#[trigger] ms[a]).id != (
    #[trigger] ms[b]).id by {
        assert(milestones[a].id != milestones[b].id);
    }
    assert forall|e: int| 0 <= e < ds.len() && is_unsettled(#[trigger] ds[e]) implies some_disputed(
        ms,
        ds[e].milestone_id,
    ) by {
        let id = disputes[e].milestone_id;
        assert(ds[e] == disputes[e]);
        assert(some_disputed(milestones, id));
        let w = choose|w: int|
            0 <= w < milestones.len() && (#[trigger] milestones[w]).id == id
                && milestones[w].status == MilestoneStatus::Disputed;
        if w == i {
            // then two unsettled disputes were over one milestone
            if e < d {
                assert(disputes[e].milestone_id != disputes[d].milestone_id);
            } else {
                assert(disputes[d].milestone_id != disputes[e].milestone_id);
            }
        }
        assert(ms[w] == milestones[w]);
    }
    assert forall|k: int|
        0 <= k < ms.len() && (#[trigger] ms[k]).status
            == MilestoneStatus::Disputed implies some_unsettled(ds, ms[k].id) by {
        let id = milestones[k].id;
        assert(ms[k] == milestones[k]);
        assert(some_unsettled(disputes, id));
        let w = choose|w: int|
            0 <= w < disputes.len() && is_unsettled(#[trigger] disputes[w])
                && disputes[w].milestone_id == id;
        if w == d {
            // then two milestones had one id
            if k < i {
                assert(milestones[k].id != milestones[i].id);
            } else {
                assert(milestones[i].id != milestones[k].id);
            }
        }
        assert(ds[w] == disputes[w]);
    }
    assert forall|a: int, b: int|
        0 <= a < b < ds.len() && is_unsettled(#[trigger] ds[a]) && is_unsettled(
            #[trigger] ds[b],
        ) implies ds[a].milestone_id != ds[b].milestone_id by {
        assert(ds[a] == disputes[a] && ds[b] == disputes[b]);
    }
}

/// Promotion of unfunded milestones keeps the link.
pub proof fn lemma_linked_promoted(
    milestones: Seq<MilestoneModel>,
    disputes: Seq<DisputeModel>,
    deposited: int,
    target: MilestoneStatus,
)
    requires
        linked(milestones, disputes),
        target != MilestoneStatus::Disputed,
    ensures
        linked(promoted(milestones, deposited, target), disputes),
{
    let after = promoted(milestones, deposited, target);
    assert forall|a: int, b: int| 0 <= a < b < after.len() implies (#[trigger] after[a]).id != (
    #[trigger] after[b]).id by {
        assert(milestones[a].id != milestones[b].id);
    }
    assert forall|d: int|
        0 <= d < disputes.len() && is_unsettled(#[trigger] disputes[d]) implies some_disputed(
        after,
        disputes[d].milestone_id,
    ) by {
        let id = disputes[d].milestone_id;
        assert(some_disputed(milestones, id));
        let w = choose|w: int|
            0 <= w < milestones.len() && (#[trigger] milestones[w]).id == id
                && milestones[w].status == MilestoneStatus::Disputed;
        assert(after[w] == milestones[w]);
    }
    assert forall|k: int|
        0 <= k < after.len() && (#[trigger] after[k]).status
            == MilestoneStatus::Disputed implies some_unsettled(disputes, after[k].id) by {
        assert(milestones[k].status == MilestoneStatus::Disputed);
        assert(after[k].id == milestones[k].id);
    }
}

/// Paying a milestone under review keeps the link.
proof fn lemma_paid_links(c: EscrowModel, i: int)
    requires
        c.links_wf(),
        0 <= i < c.milestones.len(),
        c.milestones[i].status == MilestoneStatus::SubmittedForReview,
    ensures
        c.with_paid_milestone(i).links_wf(),
{
    lemma_linked_milestone_moved(
        c.milestones,
        c.disputes,
        i,
        MilestoneModel {
            status: MilestoneStatus::Completed,
            payment_request_deadline_ns: None,
            ..c.milestones[i]
        },
    );
}

/// Advancing a dispute that is not final, without releasing its funds,
/// keeps the link.
proof fn lemma_advanced_links(c: EscrowModel, d: int, x: DisputeModel)
    requires
        c.links_wf(),
        disputes_wf(c.disputes),
        0 <= d < c.disputes.len(),
        c.disputes[d].status != DisputeStatus::Finalized,
        x.milestone_id == c.disputes[d].milestone_id,
        x.funds_released == c.disputes[d].funds_released,
    ensures
        c.with_dispute(d, x).links_wf(),
{
    assert(dispute_wf(c.disputes[d]));
    lemma_linked_dispute_advanced(c.milestones, c.disputes, d, x);
}

/// Settling an unsettled final dispute over a disputed milestone keeps the link.
proof fn lemma_settlement_links(c: EscrowModel, d: int, m: int, resolution: Resolution)
    requires
        c.links_wf(),
        0 <= d < c.disputes.len(),
        0 <= m < c.milestones.len(),
        c.disputes[d].status == DisputeStatus::Finalized,
        !c.disputes[d].funds_released,
        c.disputes[d].milestone_id == c.milestones[m].id,
        c.milestones[m].status == MilestoneStatus::Disputed,
    ensures
        c.with_settlement(d, m, resolution).links_wf(),
{
    lemma_linked_dispute_settled(
        c.milestones,
        c.disputes,
        d,
        m,
        DisputeModel { funds_released: true, ..c.disputes[d] },
        settled_milestone(resolution, c.milestones[m]),
    );
}

/// Recording a verdict on a dispute that awaits one keeps the link.
proof fn lemma_verdict_links(
    c: EscrowModel,
    d: int,
    resolution: Resolution,
    explanation: Seq<char>,
    attestation: AttestationModel,
    now: u64,
    fee: u128,
)
    requires
        c.links_wf(),
        disputes_wf(c.disputes),
        0 <= d < c.disputes.len(),
        DisputeFilter::AwaitingVerdict.admits(c.disputes[d]),
        c.verdict_error(d, resolution, now, fee) is None,
    ensures
        c.with_verdict(d, resolution, explanation, attestation, now, fee).0.links_wf(),
{
    let x = verdict_dispute(c.disputes[d], resolution, explanation, attestation, now, fee);
    lemma_advanced_links(c, d, x);
    if resolution == Resolution::ContinueWork {
        let recorded = EscrowModel {
            disputes: c.disputes.update(d, x),
            security_pool: (c.security_pool - c.fee_due(d, fee)) as u128,
            ..c
        };
        assert(dispute_wf(c.disputes[d]));
        c.lemma_milestone_index(c.disputes[d].milestone_id);
        let m = c.milestone_index(c.disputes[d].milestone_id)->0;
        lemma_settlement_links(recorded, d, m, Resolution::ContinueWork);
    }
}

/// Every accepted operation keeps the link between disputes and milestones.
pub proof fn lemma_operation_links(c: EscrowModel, op: Operation, policy: Policy, fee: u128)
    requires
        c.links_wf(),
        disputes_wf(c.disputes),
        apply(c, op, policy, fee) is Some,
    ensures
        apply(c, op, policy, fee)->0.links_wf(),
{
    let next = apply(c, op, policy, fee)->0;
    match op {
        Operation::Join { .. } => {},
        Operation::Fund { caller, deposit } => {
            lemma_linked_promoted(
                c.milestones,
                c.disputes,
                c.deposited_after(deposit),
                policy.funding_target(),
            );
        },
        Operation::TopUpSecurity { .. } => {},
        Operation::ApproveMilestone { caller, milestone_id } => {
            c.lemma_milestone_index(milestone_id);
            lemma_paid_links(c, c.milestone_index(milestone_id)->0);
        },
        Operation::ReleaseDisputeFunds { milestone_id } => {
            c.lemma_dispute_index(milestone_id, DisputeFilter::AwaitingSettlement);
            c.lemma_milestone_index(milestone_id);
            let d = c.dispute_index(milestone_id, DisputeFilter::AwaitingSettlement)->0;
            lemma_settlement_links(
                c,
                d,
                c.milestone_index(milestone_id)->0,
                c.disputes[d].resolution->0,
            );
        },
        Operation::CompleteContractSecurity => {},
        Operation::StartMilestone { caller, milestone_id } => {
            c.lemma_milestone_index(milestone_id);
            let i = c.milestone_index(milestone_id)->0;
            lemma_linked_milestone_moved(c.milestones, c.disputes, i, next.milestones[i]);
            assert(next.milestones =~= c.milestones.update(i, next.milestones[i]));
        },
        Operation::RequestPayment { caller, now, milestone_id } => {
            c.lemma_milestone_index(milestone_id);
            let i = c.milestone_index(milestone_id)->0;
            lemma_linked_milestone_moved(c.milestones, c.disputes, i, next.milestones[i]);
            assert(next.milestones =~= c.milestones.update(i, next.milestones[i]));
        },
        Operation::AutoApprovePayment { now, milestone_id } => {
            c.lemma_milestone_index(milestone_id);
            lemma_paid_links(c, c.milestone_index(milestone_id)->0);
        },
        Operation::CancelPaymentRequest { caller, milestone_id } => {
            c.lemma_milestone_index(milestone_id);
            let i = c.milestone_index(milestone_id)->0;
            lemma_linked_milestone_moved(c.milestones, c.disputes, i, next.milestones[i]);
            assert(next.milestones =~= c.milestones.update(i, next.milestones[i]));
        },
        Operation::RaiseDispute { caller, milestone_id, reason } => {
            c.lemma_milestone_index(milestone_id);
            let i = c.milestone_index(milestone_id)->0;
            lemma_linked_dispute_opened(
                c.milestones,
                c.disputes,
                i,
                MilestoneModel { status: MilestoneStatus::Disputed, ..c.milestones[i] },
                crate::dispute::new_dispute(milestone_id, caller, reason),
            );
        },
        Operation::SubmitAiResolution {
            milestone_id,
            resolution,
            explanation,
            attestation,
            check,
            now,
        } => {
            c.lemma_dispute_index(milestone_id, DisputeFilter::AwaitingVerdict);
            let d = c.dispute_index(milestone_id, DisputeFilter::AwaitingVerdict)->0;
            lemma_verdict_links(c, d, resolution, explanation, attestation, now, fee);
        },
        Operation::SubmitInvestigationRound {
            milestone_id,
            report,
            resolution,
            explanation,
            attestation,
            check,
            now,
        } => {
            c.lemma_dispute_index(milestone_id, DisputeFilter::AwaitingVerdict);
            let d = c.dispute_index(milestone_id, DisputeFilter::AwaitingVerdict)->0;
            let logged = c.with_round(d, report, attestation, now);
            lemma_advanced_links(c, d, logged.disputes[d]);
            if next != logged {
                assert(dispute_wf(c.disputes[d]));
                lemma_dispute_replaced(c.disputes, d, logged.disputes[d]);
                lemma_verdict_links(
                    logged,
                    d,
                    resolution->0,
                    explanation->0,
                    attestation,
                    now,
                    fee,
                );
            }
        },
        Operation::AcceptResolution { caller, milestone_id } => {
            c.lemma_dispute_index(milestone_id, DisputeFilter::AwaitingFinality);
            let d = c.dispute_index(milestone_id, DisputeFilter::AwaitingFinality)->0;
            lemma_advanced_links(c, d, next.disputes[d]);
            assert(next.disputes =~= c.disputes.update(d, next.disputes[d]));
        },
        Operation::AppealResolution { caller, milestone_id } => {
            let filter = DisputeFilter::InStatus(DisputeStatus::AiResolved);
            c.lemma_dispute_index(milestone_id, filter);
            let d = c.dispute_index(milestone_id, filter)->0;
            lemma_advanced_links(c, d, next.disputes[d]);
            assert(next.disputes =~= c.disputes.update(d, next.disputes[d]));
        },
        Operation::FinalizeResolution { now, milestone_id } => {
            c.lemma_dispute_index(milestone_id, DisputeFilter::AwaitingFinality);
            let d = c.dispute_index(milestone_id, DisputeFilter::AwaitingFinality)->0;
            lemma_advanced_links(c, d, next.disputes[d]);
            assert(next.disputes =~= c.disputes.update(d, next.disputes[d]));
        },
        Operation::OverrideToContinueWork { caller, now, milestone_id } => {
            c.lemma_dispute_index(milestone_id, DisputeFilter::Overridable);
            c.lemma_milestone_index(milestone_id);
            let d = c.dispute_index(milestone_id, DisputeFilter::Overridable)->0;
            let m = c.milestone_index(milestone_id)->0;
            let x = DisputeModel {
                status: DisputeStatus::Finalized,
                resolution: Some(Resolution::ContinueWork),
                deadline_ns: None,
                ..c.disputes[d]
            };
            assert(dispute_wf(c.disputes[d]));
            lemma_linked_dispute_advanced(c.milestones, c.disputes, d, x);
            let overridden = c.with_dispute(d, x);
            lemma_settlement_links(overridden, d, m, Resolution::ContinueWork);
            let settled = overridden.with_settlement(d, m, Resolution::ContinueWork);
            lemma_linked_milestone_moved(
                settled.milestones,
                settled.disputes,
                m,
                next.milestones[m],
            );
            assert(next.milestones =~= settled.milestones.update(m, next.milestones[m]));
        },
    }
}

} // verus!
