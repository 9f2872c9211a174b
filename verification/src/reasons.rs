//! The rejection reasons: their kinds and their descriptions.

use crate::types::EscrowError;
use vstd::prelude::*;

verus! {

/// The kind of a rejection.
#[derive(Clone, Copy, PartialEq, Eq, Structural, Debug)]
pub enum ErrorKind {
    /// An unknown contract, milestone or dispute.
    NotFound,
    /// The wrong caller for an action that is restricted to a party.
    Authorization,
    /// A signature that does not verify, or a signer that is not trusted.
    Attestation,
    /// The wrong status for the requested transition.
    StatePrecondition,
    /// A deadline that is not reached, or a cooldown that is still active.
    Temporal,
    /// An amount, a percentage or a time that the rules do not admit.
    Policy,
}

impl EscrowError {
    /// The kind of the rejection.
    pub open spec fn kind_of(self) -> ErrorKind {
        match self {
            EscrowError::ContractNotFound
            | EscrowError::MilestoneNotFound
            | EscrowError::DisputeNotFound => ErrorKind::NotFound,
            EscrowError::NotOwner
            | EscrowError::NotClient
            | EscrowError::NotFreelancer
            | EscrowError::NotParty
            | EscrowError::SelfHire
            | EscrowError::JoinOwnContract => ErrorKind::Authorization,
            EscrowError::InvalidSignature
            | EscrowError::UntrustedSigner => ErrorKind::Attestation,
            EscrowError::ContractNotActive
            | EscrowError::AlreadyFullyFunded
            | EscrowError::AlreadyHasFreelancer
            | EscrowError::InvalidInviteToken
            | EscrowError::NoFreelancer
            | EscrowError::MilestoneNotFunded
            | EscrowError::MilestoneNotInProgress
            | EscrowError::MilestoneNotInReview
            | EscrowError::MilestoneNotDisputable
            | EscrowError::MilestoneNotDisputed
            | EscrowError::MilestonesIncomplete
            | EscrowError::NoSecurityDeposit
            | EscrowError::NoResolution
            | EscrowError::NoDeadline
            | EscrowError::FundsAlreadyReleased
            | EscrowError::InvalidRoundNumber
            | EscrowError::RoundLimitReached => ErrorKind::StatePrecondition,
            EscrowError::DeadlineNotReached
            | EscrowError::CooldownActive => ErrorKind::Temporal,
            EscrowError::ZeroDeposit
            | EscrowError::InvalidSecurityPct
            | EscrowError::NoMilestones
            | EscrowError::ZeroTotal
            | EscrowError::InvalidSplit
            | EscrowError::InsufficientSecurity
            | EscrowError::Overflow => ErrorKind::Policy,
        }
    }

    /// The description of the rejection.
    pub open spec fn message_text(self) -> Seq<char> {
        match self {
            EscrowError::ContractNotFound => "Contract not found"@,
            EscrowError::MilestoneNotFound => "Milestone not found"@,
            EscrowError::DisputeNotFound => "No such dispute for this milestone"@,
            EscrowError::NotOwner => "Only owner"@,
            EscrowError::NotClient => "Only the client can do this"@,
            EscrowError::NotFreelancer => "Only the freelancer can do this"@,
            EscrowError::NotParty => "Only contract parties can do this"@,
            EscrowError::SelfHire => "Cannot be your own freelancer"@,
            EscrowError::JoinOwnContract => "Cannot join your own contract"@,
            EscrowError::InvalidSignature => "Invalid TEE signature"@,
            EscrowError::UntrustedSigner => "Signing address not in trusted TEE list"@,
            EscrowError::ContractNotActive => "Contract must be active"@,
            EscrowError::AlreadyFullyFunded => "Contract is already fully funded"@,
            EscrowError::AlreadyHasFreelancer => "Contract already has a freelancer"@,
            EscrowError::InvalidInviteToken => "Invalid invite token"@,
            EscrowError::NoFreelancer => "No freelancer assigned"@,
            EscrowError::MilestoneNotFunded => "Milestone must be funded first"@,
            EscrowError::MilestoneNotInProgress => "Milestone must be in progress"@,
            EscrowError::MilestoneNotInReview => "Milestone must be submitted for review"@,
            EscrowError::MilestoneNotDisputable => "Cannot dispute this milestone"@,
            EscrowError::MilestoneNotDisputed => "Milestone is not under dispute"@,
            EscrowError::MilestonesIncomplete => "Not all milestones completed"@,
            EscrowError::NoSecurityDeposit => "No security deposit to release"@,
            EscrowError::NoResolution => "No resolution set"@,
            EscrowError::NoDeadline => "No payment request deadline set"@,
            EscrowError::FundsAlreadyReleased => "Funds already released"@,
            EscrowError::InvalidRoundNumber => "Invalid round number"@,
            EscrowError::RoundLimitReached => "Investigation round limit reached"@,
            EscrowError::DeadlineNotReached => "Deadline not reached"@,
            EscrowError::CooldownActive => "Payment requests are temporarily blocked (cooldown after dispute)"@,
            EscrowError::ZeroDeposit => "Must attach NEAR"@,
            EscrowError::InvalidSecurityPct => "Security deposit must be between 5% and 30%"@,
            EscrowError::NoMilestones => "At least one milestone required"@,
            EscrowError::ZeroTotal => "Total amount must be greater than zero"@,
            EscrowError::InvalidSplit => "Invalid split percentage"@,
            EscrowError::InsufficientSecurity => "Security pool does not cover the AI processing fee"@,
            EscrowError::Overflow => "Amount or time out of range"@,
        }
    }

    /// The kind of the rejection.
    pub fn kind(&self) -> (r: ErrorKind)
        ensures
            r == self.kind_of(),
    {
        match self {
            EscrowError::ContractNotFound
            | EscrowError::MilestoneNotFound
            | EscrowError::DisputeNotFound => ErrorKind::NotFound,
            EscrowError::NotOwner
            | EscrowError::NotClient
            | EscrowError::NotFreelancer
            | EscrowError::NotParty
            | EscrowError::SelfHire
            | EscrowError::JoinOwnContract => ErrorKind::Authorization,
            EscrowError::InvalidSignature
            | EscrowError::UntrustedSigner => ErrorKind::Attestation,
            EscrowError::ContractNotActive
            | EscrowError::AlreadyFullyFunded
            | EscrowError::AlreadyHasFreelancer
            | EscrowError::InvalidInviteToken
            | EscrowError::NoFreelancer
            | EscrowError::MilestoneNotFunded
            | EscrowError::MilestoneNotInProgress
            | EscrowError::MilestoneNotInReview
            | EscrowError::MilestoneNotDisputable
            | EscrowError::MilestoneNotDisputed
            | EscrowError::MilestonesIncomplete
            | EscrowError::NoSecurityDeposit
            | EscrowError::NoResolution
            | EscrowError::NoDeadline
            | EscrowError::FundsAlreadyReleased
            | EscrowError::InvalidRoundNumber
            | EscrowError::RoundLimitReached => ErrorKind::StatePrecondition,
            EscrowError::DeadlineNotReached
            | EscrowError::CooldownActive => ErrorKind::Temporal,
            EscrowError::ZeroDeposit
            | EscrowError::InvalidSecurityPct
            | EscrowError::NoMilestones
            | EscrowError::ZeroTotal
            | EscrowError::InvalidSplit
            | EscrowError::InsufficientSecurity
            | EscrowError::Overflow => ErrorKind::Policy,
        }
    }

    /// The description of the rejection.
    pub fn message(&self) -> (r: &'static str)
        ensures
            r@ == self.message_text(),
    {
        match self {
            EscrowError::ContractNotFound => "Contract not found",
            EscrowError::MilestoneNotFound => "Milestone not found",
            EscrowError::DisputeNotFound => "No such dispute for this milestone",
            EscrowError::NotOwner => "Only owner",
            EscrowError::NotClient => "Only the client can do this",
            EscrowError::NotFreelancer => "Only the freelancer can do this",
            EscrowError::NotParty => "Only contract parties can do this",
            EscrowError::SelfHire => "Cannot be your own freelancer",
            EscrowError::JoinOwnContract => "Cannot join your own contract",
            EscrowError::InvalidSignature => "Invalid TEE signature",
            EscrowError::UntrustedSigner => "Signing address not in trusted TEE list",
            EscrowError::ContractNotActive => "Contract must be active",
            EscrowError::AlreadyFullyFunded => "Contract is already fully funded",
            EscrowError::AlreadyHasFreelancer => "Contract already has a freelancer",
            EscrowError::InvalidInviteToken => "Invalid invite token",
            EscrowError::NoFreelancer => "No freelancer assigned",
            EscrowError::MilestoneNotFunded => "Milestone must be funded first",
            EscrowError::MilestoneNotInProgress => "Milestone must be in progress",
            EscrowError::MilestoneNotInReview => "Milestone must be submitted for review",
            EscrowError::MilestoneNotDisputable => "Cannot dispute this milestone",
            EscrowError::MilestoneNotDisputed => "Milestone is not under dispute",
            EscrowError::MilestonesIncomplete => "Not all milestones completed",
            EscrowError::NoSecurityDeposit => "No security deposit to release",
            EscrowError::NoResolution => "No resolution set",
            EscrowError::NoDeadline => "No payment request deadline set",
            EscrowError::FundsAlreadyReleased => "Funds already released",
            EscrowError::InvalidRoundNumber => "Invalid round number",
            EscrowError::RoundLimitReached => "Investigation round limit reached",
            EscrowError::DeadlineNotReached => "Deadline not reached",
            EscrowError::CooldownActive => "Payment requests are temporarily blocked (cooldown after dispute)",
            EscrowError::ZeroDeposit => "Must attach NEAR",
            EscrowError::InvalidSecurityPct => "Security deposit must be between 5% and 30%",
            EscrowError::NoMilestones => "At least one milestone required",
            EscrowError::ZeroTotal => "Total amount must be greater than zero",
            EscrowError::InvalidSplit => "Invalid split percentage",
            EscrowError::InsufficientSecurity => "Security pool does not cover the AI processing fee",
            EscrowError::Overflow => "Amount or time out of range",
        }
    }
}

} // verus!
