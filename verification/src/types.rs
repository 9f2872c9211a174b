//! Ledger types: the value objects of an escrow contract, the enumerations of
//! their legal states, and the mathematical model (`view`) of each.

use vstd::prelude::*;

verus! {

/// Where a milestone stands in its lifecycle.
#[derive(Clone, Copy, PartialEq, Eq, Structural, Debug)]
pub enum MilestoneStatus {
    NotFunded,
    Funded,
    InProgress,
    SubmittedForReview,
    Completed,
    Disputed,
}

/// Overall status of an escrow contract.
#[derive(Clone, Copy, PartialEq, Eq, Structural, Debug)]
pub enum ContractStatus {
    Draft,
    Active,
    Completed,
    Disputed,
    Resolved,
}

/// Where a dispute stands in arbitration.
#[derive(Clone, Copy, PartialEq, Eq, Structural, Debug)]
pub enum DisputeStatus {
    Pending,
    AiResolved,
    Appealed,
    AppealResolved,
    Finalized,
}

/// The oracle's verdict on a disputed milestone.
#[derive(Clone, Copy, PartialEq, Eq, Structural, Debug)]
pub enum Resolution {
    Freelancer,
    Client,
    ContinueWork,
    Split { freelancer_pct: u8 },
}

/// Why an operation was rejected. A rejected operation leaves the state as it was.
#[derive(Clone, Copy, PartialEq, Eq, Structural, Debug)]
pub enum EscrowError {
    ContractNotFound,
    MilestoneNotFound,
    DisputeNotFound,
    NotOwner,
    NotClient,
    NotFreelancer,
    NotParty,
    SelfHire,
    JoinOwnContract,
    InvalidSignature,
    UntrustedSigner,
    ContractNotActive,
    AlreadyFullyFunded,
    AlreadyHasFreelancer,
    InvalidInviteToken,
    NoFreelancer,
    MilestoneNotFunded,
    MilestoneNotInProgress,
    MilestoneNotInReview,
    MilestoneNotDisputable,
    MilestoneNotDisputed,
    MilestonesIncomplete,
    NoSecurityDeposit,
    NoResolution,
    NoDeadline,
    FundsAlreadyReleased,
    InvalidRoundNumber,
    RoundLimitReached,
    DeadlineNotReached,
    CooldownActive,
    ZeroDeposit,
    InvalidSecurityPct,
    NoMilestones,
    ZeroTotal,
    InvalidSplit,
    InsufficientSecurity,
    Overflow,
}

/// From which milestone states a dispute may be raised.
#[derive(Clone, Copy, PartialEq, Eq, Structural, Debug)]
pub enum DisputeWindow {
    /// Only while the milestone is submitted for review.
    UnderReview,
    /// Only while the milestone is funded or in progress.
    WhileWorking,
    /// In any of the three.
    Either,
}

/// The deployment's policy choices.
#[derive(Clone, Copy, PartialEq, Eq, Structural, Debug)]
pub struct Policy {
    /// Funding promotes a milestone straight to `InProgress` instead of `Funded`.
    pub funding_starts_work: bool,
    /// The freelancer may raise a dispute too; otherwise only the client may.
    pub either_party_may_dispute: bool,
    /// The milestone states from which a dispute may be raised.
    pub dispute_window: DisputeWindow,
    /// Acceptance by the party that raised the dispute finalizes it alone.
    pub single_acceptance: bool,
    /// How long payment requests stay blocked after a client override.
    pub override_cooldown_ns: u64,
}

/// What an operation asks the host to transfer, by recipient. An amount of
/// zero means that nothing is sent to that recipient.
#[derive(Clone, Copy, PartialEq, Eq, Structural, Debug)]
pub struct Payouts {
    pub to_freelancer: u128,
    pub to_client: u128,
    pub to_owner: u128,
    pub to_caller: u128,
}

/// The ambient facts of one call, as the host reports them.
#[derive(Debug)]
pub struct CallContext {
    pub predecessor: String,
    pub attached_deposit: u128,
    pub block_timestamp: u64,
    pub random_seed: Vec<u8>,
}

/// A milestone as the client describes it when creating a contract.
#[derive(Debug)]
pub struct MilestoneInput {
    pub title: String,
    pub description: String,
    pub amount: u128,
}

/// An ordered unit of payable work.
#[derive(Debug)]
pub struct Milestone {
    pub id: String,
    pub title: String,
    pub description: String,
    pub amount: u128,
    pub status: MilestoneStatus,
    pub payment_request_deadline_ns: Option<u64>,
    pub payment_request_blocked_until_ns: Option<u64>,
}

/// One attested oracle submission within a dispute's bounded deliberation.
#[derive(Debug)]
pub struct InvestigationRound {
    pub round_number: u8,
    pub analysis: String,
    pub findings: String,
    pub confidence: u8,
    pub needs_more_analysis: bool,
    pub tee_signature: Vec<u8>,
    pub tee_signing_address: Vec<u8>,
    pub tee_text: String,
    pub timestamp: u64,
}

/// One dispute over one milestone.
#[derive(Debug)]
pub struct Dispute {
    pub milestone_id: String,
    pub raised_by: String,
    pub reason: String,
    pub status: DisputeStatus,
    pub resolution: Option<Resolution>,
    pub explanation: Option<String>,
    pub deadline_ns: Option<u64>,
    pub client_accepted: bool,
    pub freelancer_accepted: bool,
    pub is_appeal: bool,
    pub investigation_rounds: Vec<InvestigationRound>,
    pub max_rounds: u8,
    pub ai_fee_deducted: bool,
    pub tee_signature: Option<Vec<u8>>,
    pub tee_signing_address: Option<Vec<u8>>,
    pub tee_text: Option<String>,
    pub funds_released: bool,
}

/// The unit of work between one client and at most one freelancer.
#[derive(Debug)]
pub struct EscrowContract {
    pub id: String,
    pub title: String,
    pub description: String,
    pub client: String,
    pub freelancer: Option<String>,
    pub total_amount: u128,
    pub funded_amount: u128,
    pub security_deposit_pct: u8,
    pub milestones: Vec<Milestone>,
    pub status: ContractStatus,
    pub created_at: u64,
    pub invite_token: Option<String>,
    pub prompt_hash: String,
    pub disputes: Vec<Dispute>,
    pub model_id: String,
    pub security_pool: u128,
}

/// Model of a [`CallContext`].
pub struct CallModel {
    pub predecessor: Seq<char>,
    pub attached_deposit: u128,
    pub block_timestamp: u64,
    pub random_seed: Seq<u8>,
}

/// Model of a [`MilestoneInput`].
pub struct MilestoneInputModel {
    pub title: Seq<char>,
    pub description: Seq<char>,
    pub amount: u128,
}

/// Model of a [`Milestone`].
pub struct MilestoneModel {
    pub id: Seq<char>,
    pub title: Seq<char>,
    pub description: Seq<char>,
    pub amount: u128,
    pub status: MilestoneStatus,
    pub payment_request_deadline_ns: Option<u64>,
    pub payment_request_blocked_until_ns: Option<u64>,
}

/// Model of an [`InvestigationRound`].
pub struct RoundModel {
    pub round_number: u8,
    pub analysis: Seq<char>,
    pub findings: Seq<char>,
    pub confidence: u8,
    pub needs_more_analysis: bool,
    pub tee_signature: Seq<u8>,
    pub tee_signing_address: Seq<u8>,
    pub tee_text: Seq<char>,
    pub timestamp: u64,
}

/// Model of a [`Dispute`].
pub struct DisputeModel {
    pub milestone_id: Seq<char>,
    pub raised_by: Seq<char>,
    pub reason: Seq<char>,
    pub status: DisputeStatus,
    pub resolution: Option<Resolution>,
    pub explanation: Option<Seq<char>>,
    pub deadline_ns: Option<u64>,
    pub client_accepted: bool,
    pub freelancer_accepted: bool,
    pub is_appeal: bool,
    pub investigation_rounds: Seq<RoundModel>,
    pub max_rounds: u8,
    pub ai_fee_deducted: bool,
    pub tee_signature: Option<Seq<u8>>,
    pub tee_signing_address: Option<Seq<u8>>,
    pub tee_text: Option<Seq<char>>,
    pub funds_released: bool,
}

/// Model of an [`EscrowContract`].
pub struct EscrowModel {
    pub id: Seq<char>,
    pub title: Seq<char>,
    pub description: Seq<char>,
    pub client: Seq<char>,
    pub freelancer: Option<Seq<char>>,
    pub total_amount: u128,
    pub funded_amount: u128,
    pub security_deposit_pct: u8,
    pub milestones: Seq<MilestoneModel>,
    pub status: ContractStatus,
    pub created_at: u64,
    pub invite_token: Option<Seq<char>>,
    pub prompt_hash: Seq<char>,
    pub disputes: Seq<DisputeModel>,
    pub model_id: Seq<char>,
    pub security_pool: u128,
}

/// The characters of an optional string.
pub open spec fn text_of(s: Option<String>) -> Option<Seq<char>> {
    match s {
        Some(t) => Some(t@),
        None => None,
    }
}

/// The bytes of an optional byte vector.
pub open spec fn bytes_of(b: Option<Vec<u8>>) -> Option<Seq<u8>> {
    match b {
        Some(v) => Some(v@),
        None => None,
    }
}

/// The models of a sequence of milestone inputs, in order.
pub open spec fn input_models(inputs: Seq<MilestoneInput>) -> Seq<MilestoneInputModel> {
    Seq::new(inputs.len(), |i: int| inputs[i]@)
}

/// The models of a sequence of milestones, in order.
pub open spec fn milestone_models(milestones: Seq<Milestone>) -> Seq<MilestoneModel> {
    Seq::new(milestones.len(), |i: int| milestones[i]@)
}

/// The models of a sequence of investigation rounds, in order.
pub open spec fn round_models(rounds: Seq<InvestigationRound>) -> Seq<RoundModel> {
    Seq::new(rounds.len(), |i: int| rounds[i]@)
}

/// The models of a sequence of disputes, in order.
pub open spec fn dispute_models(disputes: Seq<Dispute>) -> Seq<DisputeModel> {
    Seq::new(disputes.len(), |i: int| disputes[i]@)
}

/// The byte sequences that a list of byte vectors holds, in order.
pub open spec fn byte_rows(rows: Seq<Vec<u8>>) -> Seq<Seq<u8>> {
    Seq::new(rows.len(), |i: int| rows[i]@)
}

/// The character sequences that a list of strings holds, in order.
pub open spec fn text_rows(rows: Seq<String>) -> Seq<Seq<char>> {
    Seq::new(rows.len(), |i: int| rows[i]@)
}

impl View for CallContext {
    type V = CallModel;

    open spec fn view(&self) -> CallModel {
        CallModel {
            predecessor: self.predecessor@,
            attached_deposit: self.attached_deposit,
            block_timestamp: self.block_timestamp,
            random_seed: self.random_seed@,
        }
    }
}

impl View for MilestoneInput {
    type V = MilestoneInputModel;

    open spec fn view(&self) -> MilestoneInputModel {
        MilestoneInputModel {
            title: self.title@,
            description: self.description@,
            amount: self.amount,
        }
    }
}

impl View for Milestone {
    type V = MilestoneModel;

    open spec fn view(&self) -> MilestoneModel {
        MilestoneModel {
            id: self.id@,
            title: self.title@,
            description: self.description@,
            amount: self.amount,
            status: self.status,
            payment_request_deadline_ns: self.payment_request_deadline_ns,
            payment_request_blocked_until_ns: self.payment_request_blocked_until_ns,
        }
    }
}

impl View for InvestigationRound {
    type V = RoundModel;

    open spec fn view(&self) -> RoundModel {
        RoundModel {
            round_number: self.round_number,
            analysis: self.analysis@,
            findings: self.findings@,
            confidence: self.confidence,
            needs_more_analysis: self.needs_more_analysis,
            tee_signature: self.tee_signature@,
            tee_signing_address: self.tee_signing_address@,
            tee_text: self.tee_text@,
            timestamp: self.timestamp,
        }
    }
}

impl View for Dispute {
    type V = DisputeModel;

    open spec fn view(&self) -> DisputeModel {
        DisputeModel {
            milestone_id: self.milestone_id@,
            raised_by: self.raised_by@,
            reason: self.reason@,
            status: self.status,
            resolution: self.resolution,
            explanation: text_of(self.explanation),
            deadline_ns: self.deadline_ns,
            client_accepted: self.client_accepted,
            freelancer_accepted: self.freelancer_accepted,
            is_appeal: self.is_appeal,
            investigation_rounds: round_models(self.investigation_rounds@),
            max_rounds: self.max_rounds,
            ai_fee_deducted: self.ai_fee_deducted,
            tee_signature: bytes_of(self.tee_signature),
            tee_signing_address: bytes_of(self.tee_signing_address),
            tee_text: text_of(self.tee_text),
            funds_released: self.funds_released,
        }
    }
}

impl View for EscrowContract {
    type V = EscrowModel;

    open spec fn view(&self) -> EscrowModel {
        EscrowModel {
            id: self.id@,
            title: self.title@,
            description: self.description@,
            client: self.client@,
            freelancer: text_of(self.freelancer),
            total_amount: self.total_amount,
            funded_amount: self.funded_amount,
            security_deposit_pct: self.security_deposit_pct,
            milestones: milestone_models(self.milestones@),
            status: self.status,
            created_at: self.created_at,
            invite_token: text_of(self.invite_token),
            prompt_hash: self.prompt_hash@,
            disputes: dispute_models(self.disputes@),
            model_id: self.model_id@,
            security_pool: self.security_pool,
        }
    }
}

/// A copy of an optional string.
pub fn clone_text(s: &Option<String>) -> (r: Option<String>)
    ensures
        text_of(r) == text_of(*s),
{
    match s {
        Some(t) => Some(t.clone()),
        None => None,
    }
}

/// A copy of a byte vector.
pub fn clone_bytes(b: &Vec<u8>) -> (r: Vec<u8>)
    ensures
        r@ == b@,
{
    let r = b.clone();
    assert(r@ =~= b@);
    r
}

/// A copy of an optional byte vector.
pub fn clone_optional_bytes(b: &Option<Vec<u8>>) -> (r: Option<Vec<u8>>)
    ensures
        bytes_of(r) == bytes_of(*b),
{
    match b {
        Some(v) => Some(clone_bytes(v)),
        None => None,
    }
}

impl Clone for Milestone {
    fn clone(&self) -> (r: Self)
        ensures
            r@ == self@,
    {
        Milestone {
            id: self.id.clone(),
            title: self.title.clone(),
            description: self.description.clone(),
            amount: self.amount,
            status: self.status,
            payment_request_deadline_ns: self.payment_request_deadline_ns,
            payment_request_blocked_until_ns: self.payment_request_blocked_until_ns,
        }
    }
}

impl Clone for InvestigationRound {
    fn clone(&self) -> (r: Self)
        ensures
            r@ == self@,
    {
        InvestigationRound {
            round_number: self.round_number,
            analysis: self.analysis.clone(),
            findings: self.findings.clone(),
            confidence: self.confidence,
            needs_more_analysis: self.needs_more_analysis,
            tee_signature: clone_bytes(&self.tee_signature),
            tee_signing_address: clone_bytes(&self.tee_signing_address),
            tee_text: self.tee_text.clone(),
            timestamp: self.timestamp,
        }
    }
}

/// A copy of a list of investigation rounds.
pub fn clone_rounds(rounds: &Vec<InvestigationRound>) -> (r: Vec<InvestigationRound>)
    ensures
        round_models(r@) == round_models(rounds@),
{
    let mut out: Vec<InvestigationRound> = Vec::new();
    let mut i: usize = 0;
    while i < rounds.len()
        invariant
            i <= rounds@.len(),
            out@.len() == i,
            forall|j: int| 0 <= j < i ==> out@[j]@ == rounds@[j]@,
        decreases rounds@.len() - i,
    {
        out.push(rounds[i].clone());
        i += 1;
    }
    assert(round_models(out@) =~= round_models(rounds@));
    out
}

impl Clone for Dispute {
    fn clone(&self) -> (r: Self)
        ensures
            r@ == self@,
    {
        Dispute {
            milestone_id: self.milestone_id.clone(),
            raised_by: self.raised_by.clone(),
            reason: self.reason.clone(),
            status: self.status,
            resolution: self.resolution,
            explanation: clone_text(&self.explanation),
            deadline_ns: self.deadline_ns,
            client_accepted: self.client_accepted,
            freelancer_accepted: self.freelancer_accepted,
            is_appeal: self.is_appeal,
            investigation_rounds: clone_rounds(&self.investigation_rounds),
            max_rounds: self.max_rounds,
            ai_fee_deducted: self.ai_fee_deducted,
            tee_signature: clone_optional_bytes(&self.tee_signature),
            tee_signing_address: clone_optional_bytes(&self.tee_signing_address),
            tee_text: clone_text(&self.tee_text),
            funds_released: self.funds_released,
        }
    }
}

/// A copy of a list of milestones.
pub fn clone_milestones(milestones: &Vec<Milestone>) -> (r: Vec<Milestone>)
    ensures
        milestone_models(r@) == milestone_models(milestones@),
{
    let mut out: Vec<Milestone> = Vec::new();
    let mut i: usize = 0;
    while i < milestones.len()
        invariant
            i <= milestones@.len(),
            out@.len() == i,
            forall|j: int| 0 <= j < i ==> out@[j]@ == milestones@[j]@,
        decreases milestones@.len() - i,
    {
        out.push(milestones[i].clone());
        i += 1;
    }
    assert(milestone_models(out@) =~= milestone_models(milestones@));
    out
}

/// A copy of a list of disputes.
pub fn clone_disputes(disputes: &Vec<Dispute>) -> (r: Vec<Dispute>)
    ensures
        dispute_models(r@) == dispute_models(disputes@),
{
    let mut out: Vec<Dispute> = Vec::new();
    let mut i: usize = 0;
    while i < disputes.len()
        invariant
            i <= disputes@.len(),
            out@.len() == i,
            forall|j: int| 0 <= j < i ==> out@[j]@ == disputes@[j]@,
        decreases disputes@.len() - i,
    {
        out.push(disputes[i].clone());
        i += 1;
    }
    assert(dispute_models(out@) =~= dispute_models(disputes@));
    out
}

impl Clone for EscrowContract {
    fn clone(&self) -> (r: Self)
        ensures
            r@ == self@,
    {
        EscrowContract {
            id: self.id.clone(),
            title: self.title.clone(),
            description: self.description.clone(),
            client: self.client.clone(),
            freelancer: clone_text(&self.freelancer),
            total_amount: self.total_amount,
            funded_amount: self.funded_amount,
            security_deposit_pct: self.security_deposit_pct,
            milestones: clone_milestones(&self.milestones),
            status: self.status,
            created_at: self.created_at,
            invite_token: clone_text(&self.invite_token),
            prompt_hash: self.prompt_hash.clone(),
            disputes: clone_disputes(&self.disputes),
            model_id: self.model_id.clone(),
            security_pool: self.security_pool,
        }
    }
}

} // verus!
