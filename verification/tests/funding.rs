use milestone_escrow::types::{
    CallContext, ContractStatus, DisputeWindow, EscrowContract, EscrowError, MilestoneStatus,
    Payouts, Policy,
};
use milestone_escrow::{Contract, MilestoneInput};

fn alice() -> String {
    "alice.testnet".to_string()
}

fn bob() -> String {
    "bob.testnet".to_string()
}

fn owner() -> String {
    "owner.testnet".to_string()
}

fn ctx(predecessor: &String, deposit: u128) -> CallContext {
    CallContext {
        predecessor: predecessor.clone(),
        attached_deposit: deposit,
        block_timestamp: 1_000,
        random_seed: vec![1, 2, 3],
    }
}

fn inputs(amounts: &[u128]) -> Vec<MilestoneInput> {
    amounts
        .iter()
        .enumerate()
        .map(|(i, a)| MilestoneInput {
            title: format!("Milestone {}", i + 1),
            description: "work".to_string(),
            amount: *a,
        })
        .collect()
}

/// A contract between alice and bob with these milestone amounts.
fn escrow(amounts: &[u128], pct: u8) -> EscrowContract {
    let mut registry = Contract::new(owner());
    let id = registry
        .create_contract(
            &ctx(&alice(), 0),
            "Project".into(),
            "Description".into(),
            inputs(amounts),
            Some(bob()),
            pct,
            "hash".into(),
            "model".into(),
        )
        .unwrap();
    registry.get_contract(id).unwrap()
}

fn no_payouts() -> Payouts {
    Payouts { to_freelancer: 0, to_client: 0, to_owner: 0, to_caller: 0 }
}

fn statuses(c: &EscrowContract) -> Vec<MilestoneStatus> {
    c.milestones.iter().map(|m| m.status).collect()
}

#[test]
fn funding_one_ten_unit_milestone_with_eleven_units() {
    let mut c = escrow(&[10], 10);
    let payouts = c.fund(&alice(), 11, &Policy::default()).unwrap();
    assert_eq!(payouts, no_payouts());
    assert_eq!(c.funded_amount, 10);
    assert_eq!(c.security_pool, 1);
    assert_eq!(c.milestones[0].status, MilestoneStatus::Funded);
}

#[test]
fn funding_conserves_the_deposit() {
    let mut c = escrow(&[40, 60], 30);
    let before = c.funded_amount + c.security_pool;
    // security = 100 * 30 / 130 = 23, main = 77
    let payouts = c.fund(&alice(), 100, &Policy::default()).unwrap();
    assert_eq!(c.security_pool, 23);
    assert_eq!(c.funded_amount, 77);
    assert_eq!(payouts.to_caller, 0);
    assert_eq!(c.funded_amount + c.security_pool, before + 100 - payouts.to_caller);
}

#[test]
fn funding_refunds_what_exceeds_the_total() {
    let mut c = escrow(&[10], 10);
    // security = 55 * 10 / 110 = 5, main = 50, of which 10 are applied
    let payouts = c.fund(&alice(), 55, &Policy::default()).unwrap();
    assert_eq!(payouts, Payouts { to_caller: 40, ..no_payouts() });
    assert_eq!(c.funded_amount, 10);
    assert_eq!(c.security_pool, 5);
    assert_eq!(c.funded_amount + c.security_pool, 55 - 40);
}

#[test]
fn funding_never_exceeds_the_total() {
    let mut c = escrow(&[10, 20], 5);
    c.fund(&alice(), 12, &Policy::default()).unwrap();
    c.fund(&bob(), 1_000, &Policy::default()).unwrap();
    assert_eq!(c.funded_amount, 30);
    assert_eq!(c.total_amount, 30);
}

#[test]
fn milestones_are_promoted_in_order() {
    let mut c = escrow(&[10, 20, 30], 10);
    assert_eq!(
        statuses(&c),
        vec![MilestoneStatus::NotFunded, MilestoneStatus::NotFunded, MilestoneStatus::NotFunded]
    );

    // 9 held: below the first threshold of 10
    c.fund(&alice(), 9, &Policy::default()).unwrap();
    assert_eq!(c.funded_amount + c.security_pool, 9);
    assert_eq!(
        statuses(&c),
        vec![MilestoneStatus::NotFunded, MilestoneStatus::NotFunded, MilestoneStatus::NotFunded]
    );

    // 11 held: the first threshold of 10 is met, the second of 30 is not
    c.fund(&alice(), 2, &Policy::default()).unwrap();
    assert_eq!(
        statuses(&c),
        vec![MilestoneStatus::Funded, MilestoneStatus::NotFunded, MilestoneStatus::NotFunded]
    );

    // 30 held: the second threshold is met exactly
    c.fund(&alice(), 19, &Policy::default()).unwrap();
    assert_eq!(c.funded_amount + c.security_pool, 30);
    assert_eq!(
        statuses(&c),
        vec![MilestoneStatus::Funded, MilestoneStatus::Funded, MilestoneStatus::NotFunded]
    );

    // 63 held: all thresholds are met
    c.fund(&alice(), 33, &Policy::default()).unwrap();
    assert_eq!(
        statuses(&c),
        vec![MilestoneStatus::Funded, MilestoneStatus::Funded, MilestoneStatus::Funded]
    );
}

#[test]
fn funding_leaves_started_milestones_as_they_are() {
    let mut c = escrow(&[10, 20], 10);
    c.fund(&alice(), 11, &Policy::default()).unwrap();
    c.start_milestone(&bob(), &"m1".to_string()).unwrap();
    c.fund(&alice(), 22, &Policy::default()).unwrap();
    assert_eq!(statuses(&c), vec![MilestoneStatus::InProgress, MilestoneStatus::Funded]);
}

#[test]
fn funding_can_start_work_at_once() {
    let policy = Policy { funding_starts_work: true, ..Policy::default() };
    let mut c = escrow(&[10, 20], 10);
    c.fund(&alice(), 11, &policy).unwrap();
    assert_eq!(statuses(&c), vec![MilestoneStatus::InProgress, MilestoneStatus::NotFunded]);
}

#[test]
fn funding_a_zero_amount_milestone_promotes_it_with_the_first_deposit() {
    let mut c = escrow(&[0, 10], 10);
    c.fund(&alice(), 1, &Policy::default()).unwrap();
    assert_eq!(statuses(&c), vec![MilestoneStatus::Funded, MilestoneStatus::NotFunded]);
}

#[test]
fn funding_rejects_a_stranger() {
    let mut c = escrow(&[10], 10);
    let r = c.fund(&"stranger.testnet".to_string(), 11, &Policy::default());
    assert_eq!(r, Err(EscrowError::NotParty));
    assert_eq!(c.funded_amount, 0);
    assert_eq!(c.security_pool, 0);
}

#[test]
fn funding_rejects_a_zero_deposit() {
    let mut c = escrow(&[10], 10);
    assert_eq!(c.fund(&alice(), 0, &Policy::default()), Err(EscrowError::ZeroDeposit));
}

#[test]
fn funding_rejects_a_draft() {
    let mut registry = Contract::new(owner());
    let id = registry
        .create_contract(
            &ctx(&alice(), 0),
            "Draft".into(),
            "Description".into(),
            inputs(&[10]),
            None,
            10,
            "hash".into(),
            "model".into(),
        )
        .unwrap();
    let r = registry.fund_contract(&ctx(&alice(), 11), id.clone());
    assert_eq!(r, Err(EscrowError::ContractNotActive));
    assert_eq!(registry.get_contract(id).unwrap().status, ContractStatus::Draft);
}

#[test]
fn funding_rejects_a_fully_funded_contract() {
    let mut c = escrow(&[10], 10);
    c.fund(&alice(), 11, &Policy::default()).unwrap();
    assert_eq!(c.fund(&alice(), 1, &Policy::default()), Err(EscrowError::AlreadyFullyFunded));
    assert_eq!(c.funded_amount, 10);
    assert_eq!(c.security_pool, 1);
}

#[test]
fn funding_rejects_what_the_pool_cannot_hold() {
    let mut c = escrow(&[10], 10);
    c.top_up_security(&alice(), u128::MAX).unwrap();
    assert_eq!(c.fund(&alice(), 11, &Policy::default()), Err(EscrowError::Overflow));
    assert_eq!(c.funded_amount, 0);
    assert_eq!(c.security_pool, u128::MAX);
}

#[test]
fn funding_an_unknown_contract_is_rejected() {
    let mut registry = Contract::new(owner());
    let r = registry.fund_contract(&ctx(&alice(), 11), "c1".to_string());
    assert_eq!(r, Err(EscrowError::ContractNotFound));
}

#[test]
fn top_up_adds_to_the_pool_alone() {
    let mut c = escrow(&[10], 10);
    c.top_up_security(&bob(), 7).unwrap();
    assert_eq!(c.security_pool, 7);
    assert_eq!(c.funded_amount, 0);
    assert_eq!(c.milestones[0].status, MilestoneStatus::NotFunded);
}

#[test]
fn top_up_rejects_zero_and_overflow() {
    let mut c = escrow(&[10], 10);
    assert_eq!(c.top_up_security(&alice(), 0), Err(EscrowError::ZeroDeposit));
    c.top_up_security(&alice(), u128::MAX).unwrap();
    assert_eq!(c.top_up_security(&alice(), 1), Err(EscrowError::Overflow));
    assert_eq!(c.security_pool, u128::MAX);
}

#[test]
fn security_pool_is_released_once_all_is_completed() {
    let mut c = escrow(&[10], 10);
    c.fund(&alice(), 11, &Policy::default()).unwrap();
    assert_eq!(c.complete_contract_security(), Err(EscrowError::MilestonesIncomplete));
    c.start_milestone(&bob(), &"m1".to_string()).unwrap();
    c.request_payment(&bob(), 5, &"m1".to_string()).unwrap();
    c.approve_milestone(&alice(), &"m1".to_string()).unwrap();

    let payouts = c.complete_contract_security().unwrap();
    assert_eq!(payouts, Payouts { to_freelancer: 1, ..no_payouts() });
    assert_eq!(c.security_pool, 0);
    assert_eq!(c.complete_contract_security(), Err(EscrowError::NoSecurityDeposit));
}

#[test]
fn security_pool_is_not_released_to_nobody() {
    let mut c = escrow(&[10], 10);
    c.freelancer = None;
    c.milestones[0].status = MilestoneStatus::Completed;
    c.security_pool = 3;
    assert_eq!(c.complete_contract_security(), Err(EscrowError::NoFreelancer));
    assert_eq!(c.security_pool, 3);
}

#[test]
fn default_policy_is_the_strict_one() {
    let policy = Policy::default();
    assert!(!policy.funding_starts_work);
    assert!(!policy.either_party_may_dispute);
    assert_eq!(policy.dispute_window, DisputeWindow::UnderReview);
    assert!(!policy.single_acceptance);
    assert_eq!(policy.override_cooldown_ns, 172_800_000_000_000);
}
