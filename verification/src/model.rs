//! The state of one escrow contract as a mathematical value: lookups, the
//! derived facts the rules speak of, and what it means to be well formed.

use crate::amounts::sum_first;
use crate::types::{
    ContractStatus, DisputeModel, DisputeStatus, EscrowError, EscrowModel, MilestoneModel,
    MilestoneStatus, Payouts, Policy, Resolution,
};
use vstd::prelude::*;

verus! {

/// `i` is the first position of `s` whose item satisfies `p`.
pub open spec fn is_first<T>(s: Seq<T>, p: spec_fn(T) -> bool, i: int) -> bool {
    &&& 0 <= i < s.len()
    &&& p(s[i])
    &&& forall|j: int| 0 <= j < i ==> !p(#[trigger] s[j])
}

/// The first position of `s` whose item satisfies `p`, if there is one.
pub open spec fn first_index<T>(s: Seq<T>, p: spec_fn(T) -> bool) -> Option<int> {
    if exists|i: int| is_first(s, p, i) {
        Some(choose|i: int| is_first(s, p, i))
    } else {
        None
    }
}

/// A position that is first is the first index.
pub proof fn lemma_first_index_is<T>(s: Seq<T>, p: spec_fn(T) -> bool, i: int)
    requires
        is_first(s, p, i),
    ensures
        first_index(s, p) == Some(i),
{
    let k = choose|k: int| is_first(s, p, k);
    assert(is_first(s, p, k));
    if k < i {
        assert(!p(s[k]));
    } else if i < k {
        assert(!p(s[i]));
    }
}

/// Where no item satisfies `p`, there is no first index.
pub proof fn lemma_first_index_none<T>(s: Seq<T>, p: spec_fn(T) -> bool)
    requires
        forall|j: int| 0 <= j < s.len() ==> !p(#[trigger] s[j]),
    ensures
        first_index(s, p) is None,
{
}

/// What the first index says of the sequence.
pub proof fn lemma_first_index_means<T>(s: Seq<T>, p: spec_fn(T) -> bool)
    ensures
        match first_index(s, p) {
            Some(i) => is_first(s, p, i),
            None => forall|j: int| 0 <= j < s.len() ==> !p(#[trigger] s[j]),
        },
{
    if exists|i: int| is_first(s, p, i) {
    } else {
        assert forall|j: int| 0 <= j < s.len() implies !p(#[trigger] s[j]) by {
            if p(s[j]) {
                lemma_some_first(s, p, j);
            }
        }
    }
}

/// Where some item up to `n` satisfies `p`, some position is first.
proof fn lemma_some_first<T>(s: Seq<T>, p: spec_fn(T) -> bool, n: int)
    requires
        0 <= n < s.len(),
        p(s[n]),
    ensures
        exists|i: int| is_first(s, p, i),
    decreases n,
{
    if exists|j: int| 0 <= j < n && p(s[j]) {
        let j = choose|j: int| 0 <= j < n && p(s[j]);
        lemma_some_first(s, p, j);
    } else {
        assert(is_first(s, p, n));
    }
}

/// Which disputes of a milestone a lookup admits.
#[derive(Clone, Copy, PartialEq, Eq, Structural, Debug)]
pub enum DisputeFilter {
    /// All of them.
    Any,
    /// Those in exactly this status.
    InStatus(DisputeStatus),
    /// Those that await a resolution: `Pending` or `Appealed`.
    AwaitingVerdict,
    /// Those that hold a resolution not yet final: `AiResolved` or `AppealResolved`.
    AwaitingFinality,
    /// Those that are final and whose funds were not released.
    AwaitingSettlement,
    /// Those that the client may still turn into continued work.
    Overridable,
}

impl DisputeFilter {
    /// Whether the filter admits a dispute.
    pub open spec fn admits(self, d: DisputeModel) -> bool {
        match self {
            DisputeFilter::Any => true,
            DisputeFilter::InStatus(s) => d.status == s,
            DisputeFilter::AwaitingVerdict => d.status == DisputeStatus::Pending || d.status
                == DisputeStatus::Appealed,
            DisputeFilter::AwaitingFinality => d.status == DisputeStatus::AiResolved || d.status
                == DisputeStatus::AppealResolved,
            DisputeFilter::AwaitingSettlement => d.status == DisputeStatus::Finalized
                && !d.funds_released,
            DisputeFilter::Overridable => d.status == DisputeStatus::AiResolved || (d.status
                == DisputeStatus::Finalized && !d.funds_released && (d.resolution == Some(
                Resolution::Client,
            ) || d.resolution is Some && d.resolution->0 is Split)),
        }
    }
}

/// No transfer to anyone.
pub open spec fn no_payouts() -> Payouts {
    Payouts { to_freelancer: 0, to_client: 0, to_owner: 0, to_caller: 0 }
}

/// The amounts of a sequence of milestones, in order.
pub open spec fn amounts_of(milestones: Seq<MilestoneModel>) -> Seq<u128> {
    Seq::new(milestones.len(), |i: int| milestones[i].amount)
}

/// Whether every milestone is completed.
pub open spec fn all_completed(milestones: Seq<MilestoneModel>) -> bool {
    forall|i: int|
        0 <= i < milestones.len() ==> (#[trigger] milestones[i]).status
            == MilestoneStatus::Completed
}

/// Whether a dispute still awaits its resolution, its finality or its settlement.
pub open spec fn is_unsettled(d: DisputeModel) -> bool {
    d.status != DisputeStatus::Finalized || !d.funds_released
}

/// Whether some dispute is unsettled.
pub open spec fn any_unsettled(disputes: Seq<DisputeModel>) -> bool {
    exists|i: int| 0 <= i < disputes.len() && is_unsettled(#[trigger] disputes[i])
}

/// The invariant of a dispute: its log holds no more rounds than its cap,
/// its funds are released only once it is final, and an appeal is never
/// pending or under a first resolution again.
pub open spec fn dispute_wf(d: DisputeModel) -> bool {
    &&& d.investigation_rounds.len() <= d.max_rounds
    &&& d.funds_released ==> d.status == DisputeStatus::Finalized
    &&& d.is_appeal ==> d.status != DisputeStatus::Pending && d.status
        != DisputeStatus::AiResolved
    &&& is_resolved(d) || d.status == DisputeStatus::Finalized ==> d.resolution is Some
        && valid_resolution(d.resolution->0)
    &&& is_resolved(d) ==> d.deadline_ns is Some
}

/// Whether a dispute holds a resolution that is not yet final.
pub open spec fn is_resolved(d: DisputeModel) -> bool {
    d.status == DisputeStatus::AiResolved || d.status == DisputeStatus::AppealResolved
}

/// Whether a resolution is one that can be settled: a split is of no more
/// than 100 percent.
pub open spec fn valid_resolution(resolution: Resolution) -> bool {
    resolution is Split ==> resolution->freelancer_pct <= 100
}

/// The invariant of every dispute.
pub open spec fn disputes_wf(disputes: Seq<DisputeModel>) -> bool {
    forall|i: int| 0 <= i < disputes.len() ==> dispute_wf(#[trigger] disputes[i])
}

/// The invariant of a milestone: while it is under review, its review
/// deadline is set.
pub open spec fn milestone_wf(m: MilestoneModel) -> bool {
    m.status == MilestoneStatus::SubmittedForReview ==> m.payment_request_deadline_ns is Some
}

/// Whether the milestones have distinct ids.
pub open spec fn distinct_ids(milestones: Seq<MilestoneModel>) -> bool {
    forall|i: int, j: int|
        0 <= i < j < milestones.len() ==> (#[trigger] milestones[i]).id
            != (#[trigger] milestones[j]).id
}

/// Whether some milestone with this id is disputed.
pub open spec fn some_disputed(milestones: Seq<MilestoneModel>, id: Seq<char>) -> bool {
    exists|m: int|
        0 <= m < milestones.len() && (#[trigger] milestones[m]).id == id && milestones[m].status
            == MilestoneStatus::Disputed
}

/// Whether some unsettled dispute is over the milestone with this id.
pub open spec fn some_unsettled(disputes: Seq<DisputeModel>, id: Seq<char>) -> bool {
    exists|d: int|
        0 <= d < disputes.len() && is_unsettled(#[trigger] disputes[d])
            && disputes[d].milestone_id == id
}

/// Whether disputes and milestones are linked as they should be: the
/// milestones have distinct ids; every unsettled dispute is over a disputed
/// milestone; every disputed milestone has an unsettled dispute; and no two
/// unsettled disputes are over one milestone.
pub open spec fn linked(milestones: Seq<MilestoneModel>, disputes: Seq<DisputeModel>) -> bool {
    &&& distinct_ids(milestones)
    &&& forall|d: int|
        0 <= d < disputes.len() && is_unsettled(#[trigger] disputes[d]) ==> some_disputed(
            milestones,
            disputes[d].milestone_id,
        )
    &&& forall|m: int|
        0 <= m < milestones.len() && (#[trigger] milestones[m]).status
            == MilestoneStatus::Disputed ==> some_unsettled(disputes, milestones[m].id)
    &&& forall|d: int, e: int|
        0 <= d < e < disputes.len() && is_unsettled(#[trigger] disputes[d]) && is_unsettled(
            #[trigger] disputes[e],
        ) ==> disputes[d].milestone_id != disputes[e].milestone_id
}

/// Whether a milestone is unfunded.
pub open spec fn unfunded(m: MilestoneModel) -> bool {
    m.status == MilestoneStatus::NotFunded
}

/// Whether the milestones are funded in order: behind an unfunded one, all
/// are unfunded.
pub open spec fn in_order(milestones: Seq<MilestoneModel>) -> bool {
    forall|i: int, j: int|
        0 <= i <= j < milestones.len() && unfunded(#[trigger] milestones[i]) ==> unfunded(
            #[trigger] milestones[j],
        )
}

/// The milestones once every unfunded one whose cumulative amount is covered
/// by `deposited` has moved to `target`.
pub open spec fn promoted(
    milestones: Seq<MilestoneModel>,
    deposited: int,
    target: MilestoneStatus,
) -> Seq<MilestoneModel> {
    Seq::new(
        milestones.len(),
        |i: int|
            if milestones[i].status == MilestoneStatus::NotFunded && sum_first(
                amounts_of(milestones),
                i + 1,
            ) <= deposited {
                MilestoneModel { status: target, ..milestones[i] }
            } else {
                milestones[i]
            },
    )
}

/// Promotion keeps the order of funding, leaves every amount and every
/// funded milestone as it was, and promotes no milestone while one before
/// it stays unfunded.
pub proof fn lemma_promoted_in_order(
    milestones: Seq<MilestoneModel>,
    deposited: int,
    target: MilestoneStatus,
)
    requires
        in_order(milestones),
        target != MilestoneStatus::NotFunded,
    ensures
        in_order(promoted(milestones, deposited, target)),
        amounts_of(promoted(milestones, deposited, target)) == amounts_of(milestones),
        forall|i: int|
            0 <= i < milestones.len() && !unfunded(#[trigger] milestones[i]) ==> promoted(
                milestones,
                deposited,
                target,
            )[i] == milestones[i],
{
    let after = promoted(milestones, deposited, target);
    let amounts = amounts_of(milestones);
    assert forall|i: int, j: int|
        0 <= i <= j < after.len() && unfunded(#[trigger] after[i]) implies unfunded(
        #[trigger] after[j],
    ) by {
        assert(unfunded(milestones[i]));
        assert(unfunded(milestones[j]));
        crate::amounts::lemma_sum_first_monotonic(amounts, i + 1, j + 1);
    }
    assert(amounts_of(after) =~= amounts);
}

impl Policy {
    /// The status that funding gives a milestone.
    pub open spec fn funding_target(self) -> MilestoneStatus {
        if self.funding_starts_work {
            MilestoneStatus::InProgress
        } else {
            MilestoneStatus::Funded
        }
    }
}

impl EscrowModel {
    /// Whether `who` is the client or the bound freelancer.
    pub open spec fn is_party(self, who: Seq<char>) -> bool {
        who == self.client || self.freelancer == Some(who)
    }

    /// Whether `who` is the bound freelancer.
    pub open spec fn is_freelancer(self, who: Seq<char>) -> bool {
        self.freelancer == Some(who)
    }

    /// The position of the first milestone with this id.
    pub open spec fn milestone_index(self, id: Seq<char>) -> Option<int> {
        first_index(self.milestones, |m: MilestoneModel| m.id == id)
    }

    /// The position of the first dispute over this milestone that the filter admits.
    pub open spec fn dispute_index(self, id: Seq<char>, filter: DisputeFilter) -> Option<int> {
        first_index(self.disputes, |d: DisputeModel| d.milestone_id == id && filter.admits(d))
    }

    /// The contract with milestone `i` replaced.
    pub open spec fn with_milestone(self, i: int, m: MilestoneModel) -> EscrowModel {
        EscrowModel { milestones: self.milestones.update(i, m), ..self }
    }

    /// The contract with dispute `i` replaced.
    pub open spec fn with_dispute(self, i: int, d: DisputeModel) -> EscrowModel {
        EscrowModel { disputes: self.disputes.update(i, d), ..self }
    }

    /// The status of a contract once a dispute has been settled: `Disputed`
    /// while another dispute is unsettled, else `Resolved` when every
    /// milestone is completed, else `Active`.
    pub open spec fn settled_status(self) -> ContractStatus {
        if any_unsettled(self.disputes) {
            ContractStatus::Disputed
        } else if all_completed(self.milestones) {
            ContractStatus::Resolved
        } else {
            ContractStatus::Active
        }
    }

    /// Milestones are funded in order: behind an unfunded one, all are unfunded.
    pub open spec fn funded_in_order(self) -> bool {
        in_order(self.milestones)
    }

    /// The invariant of the amounts and the milestones: the security
    /// percentage lies between 5 and 30, the amounts of the milestones sum to
    /// the positive total, no more than the total is funded, the milestones
    /// are funded in order, and each has its invariant.
    pub open spec fn ledger_wf(self) -> bool {
        &&& 5 <= self.security_deposit_pct <= 30
        &&& self.milestones.len() > 0
        &&& sum_first(amounts_of(self.milestones), self.milestones.len() as int)
            == self.total_amount
        &&& self.total_amount > 0
        &&& self.funded_amount <= self.total_amount
        &&& self.funded_in_order()
        &&& forall|i: int|
            0 <= i < self.milestones.len() ==> milestone_wf(#[trigger] self.milestones[i])
    }

    /// The invariant of the status: a contract is a draft exactly while it
    /// has no freelancer, and then nothing is funded and nothing disputed;
    /// a completed or resolved contract has every milestone completed; and
    /// a disputed contract has an unsettled dispute.
    pub open spec fn status_wf(self) -> bool {
        &&& self.status == ContractStatus::Draft <==> self.freelancer is None
        &&& self.status == ContractStatus::Draft ==> self.disputes.len() == 0 && forall|i: int|
            0 <= i < self.milestones.len() ==> unfunded(#[trigger] self.milestones[i])
        &&& self.status == ContractStatus::Completed || self.status == ContractStatus::Resolved
            ==> all_completed(self.milestones)
        &&& self.status == ContractStatus::Disputed ==> any_unsettled(self.disputes)
    }

    /// The invariant that links disputes and milestones.
    pub open spec fn links_wf(self) -> bool {
        linked(self.milestones, self.disputes)
    }

    /// The invariant of the amounts, the status and each dispute.
    pub open spec fn parts_wf(self) -> bool {
        &&& self.ledger_wf()
        &&& self.status_wf()
        &&& disputes_wf(self.disputes)
    }

    /// The invariant of a contract.
    pub open spec fn wf(self) -> bool {
        &&& self.parts_wf()
        &&& self.links_wf()
    }
}

impl EscrowModel {
    /// What the index of a milestone says of the milestones.
    pub proof fn lemma_milestone_index(self, id: Seq<char>)
        ensures
            match self.milestone_index(id) {
                Some(i) => 0 <= i < self.milestones.len() && self.milestones[i].id == id,
                None => true,
            },
    {
        lemma_first_index_means(self.milestones, |m: MilestoneModel| m.id == id);
    }

    /// What the index of a dispute says of the disputes: it is the first
    /// over the milestone that the filter admits.
    pub proof fn lemma_dispute_index(self, id: Seq<char>, filter: DisputeFilter)
        ensures
            match self.dispute_index(id, filter) {
                Some(d) => 0 <= d < self.disputes.len() && self.disputes[d].milestone_id == id
                    && filter.admits(self.disputes[d]) && forall|j: int|
                    0 <= j < d ==> !((#[trigger] self.disputes[j]).milestone_id == id
                        && filter.admits(self.disputes[j])),
                None => forall|j: int|
                    0 <= j < self.disputes.len() ==> !((#[trigger] self.disputes[j]).milestone_id
                        == id && filter.admits(self.disputes[j])),
            },
    {
        let p = |d: DisputeModel| d.milestone_id == id && filter.admits(d);
        lemma_first_index_means(self.disputes, p);
        match self.dispute_index(id, filter) {
            Some(d) => {
                assert forall|j: int| 0 <= j < d implies !((#[trigger] self.disputes[j]).milestone_id
                    == id && filter.admits(self.disputes[j])) by {
                    assert(!p(self.disputes[j]));
                }
            },
            None => {
                assert forall|j: int| 0 <= j < self.disputes.len() implies !((
                #[trigger] self.disputes[j]).milestone_id == id && filter.admits(
                    self.disputes[j],
                )) by {
                    assert(!p(self.disputes[j]));
                }
            },
        }
    }
}

/// Whether an executable index is the index that the model gives.
pub open spec fn same_index(r: Option<usize>, i: Option<int>) -> bool {
    match r {
        Some(k) => i == Some(k as int),
        None => i is None,
    }
}

/// How an operation on one contract ends: on success the result and the new
/// state are those of `step`; on failure the error is that of `step` and the
/// state is as it was.
pub open spec fn outcome<T>(
    pre: EscrowModel,
    post: EscrowModel,
    r: Result<T, EscrowError>,
    step: Result<(EscrowModel, T), EscrowError>,
) -> bool {
    match step {
        Ok((next, out)) => r == Ok::<T, EscrowError>(out) && post == next,
        Err(e) => r == Err::<T, EscrowError>(e) && post == pre,
    }
}

} // verus!
