use milestone_escrow::milestone::PAYMENT_REQUEST_DEADLINE_NS;
use milestone_escrow::types::{
    CallContext, ContractStatus, EscrowContract, EscrowError, MilestoneStatus, Payouts, Policy,
};
use milestone_escrow::{Contract, MilestoneInput};

fn alice() -> String {
    "alice.testnet".to_string()
}

fn bob() -> String {
    "bob.testnet".to_string()
}

fn m1() -> String {
    "m1".to_string()
}

fn m2() -> String {
    "m2".to_string()
}

fn ctx_at(predecessor: &String, now: u64) -> CallContext {
    CallContext {
        predecessor: predecessor.clone(),
        attached_deposit: 0,
        block_timestamp: now,
        random_seed: vec![],
    }
}

/// A funded contract between alice and bob with milestones of 10 and 20.
fn funded() -> EscrowContract {
    let mut registry = Contract::new("owner.testnet".to_string());
    let id = registry
        .create_contract(
            &ctx_at(&alice(), 0),
            "Project".into(),
            "Description".into(),
            vec![
                MilestoneInput { title: "One".into(), description: "first".into(), amount: 10 },
                MilestoneInput { title: "Two".into(), description: "second".into(), amount: 20 },
            ],
            Some(bob()),
            10,
            "hash".into(),
            "model".into(),
        )
        .unwrap();
    let mut c = registry.get_contract(id).unwrap();
    c.fund(&alice(), 33, &Policy::default()).unwrap();
    c
}

#[test]
fn payment_deadline_is_forty_eight_hours() {
    assert_eq!(PAYMENT_REQUEST_DEADLINE_NS, 172_800_000_000_000);
}

#[test]
fn milestone_ids_are_numbered_from_one() {
    let c = funded();
    assert_eq!(c.milestones[0].id, "m1");
    assert_eq!(c.milestones[1].id, "m2");
    assert_eq!(c.find_milestone(&m1()), Some(0));
    assert_eq!(c.find_milestone(&m2()), Some(1));
    assert_eq!(c.find_milestone(&"m3".to_string()), None);
}

#[test]
fn a_milestone_goes_from_funded_to_completed() {
    let mut c = funded();
    c.start_milestone(&bob(), &m1()).unwrap();
    assert_eq!(c.milestones[0].status, MilestoneStatus::InProgress);

    c.request_payment(&bob(), 1_000, &m1()).unwrap();
    assert_eq!(c.milestones[0].status, MilestoneStatus::SubmittedForReview);
    assert_eq!(
        c.milestones[0].payment_request_deadline_ns,
        Some(1_000 + 172_800_000_000_000)
    );

    let payouts = c.approve_milestone(&alice(), &m1()).unwrap();
    assert_eq!(
        payouts,
        Payouts { to_freelancer: 10, to_client: 0, to_owner: 0, to_caller: 0 }
    );
    assert_eq!(c.milestones[0].status, MilestoneStatus::Completed);
    assert_eq!(c.milestones[0].payment_request_deadline_ns, None);
    // the second milestone is not completed yet
    assert_eq!(c.status, ContractStatus::Active);
    assert!(!c.all_milestones_completed());
}

#[test]
fn the_contract_is_completed_with_its_last_milestone() {
    let mut c = funded();
    for id in [m1(), m2()] {
        c.start_milestone(&bob(), &id).unwrap();
        c.request_payment(&bob(), 0, &id).unwrap();
        c.approve_milestone(&alice(), &id).unwrap();
    }
    assert!(c.all_milestones_completed());
    assert_eq!(c.status, ContractStatus::Completed);
}

#[test]
fn only_the_freelancer_starts_requests_and_cancels() {
    let mut c = funded();
    assert_eq!(c.start_milestone(&alice(), &m1()), Err(EscrowError::NotFreelancer));
    c.start_milestone(&bob(), &m1()).unwrap();
    assert_eq!(c.request_payment(&alice(), 0, &m1()), Err(EscrowError::NotFreelancer));
    c.request_payment(&bob(), 0, &m1()).unwrap();
    assert_eq!(c.cancel_payment_request(&alice(), &m1()), Err(EscrowError::NotFreelancer));
    assert_eq!(c.milestones[0].status, MilestoneStatus::SubmittedForReview);
}

#[test]
fn only_the_client_approves() {
    let mut c = funded();
    c.start_milestone(&bob(), &m1()).unwrap();
    c.request_payment(&bob(), 0, &m1()).unwrap();
    assert_eq!(c.approve_milestone(&bob(), &m1()), Err(EscrowError::NotClient));
    assert_eq!(c.milestones[0].status, MilestoneStatus::SubmittedForReview);
}

#[test]
fn transitions_need_the_right_status() {
    let mut c = funded();
    assert_eq!(c.request_payment(&bob(), 0, &m1()), Err(EscrowError::MilestoneNotInProgress));
    assert_eq!(c.approve_milestone(&alice(), &m1()), Err(EscrowError::MilestoneNotInReview));
    assert_eq!(c.cancel_payment_request(&bob(), &m1()), Err(EscrowError::MilestoneNotInReview));
    assert_eq!(c.auto_approve_payment(0, &m1()), Err(EscrowError::MilestoneNotInReview));
    c.start_milestone(&bob(), &m1()).unwrap();
    assert_eq!(c.start_milestone(&bob(), &m1()), Err(EscrowError::MilestoneNotFunded));
    assert_eq!(c.approve_milestone(&alice(), &m1()), Err(EscrowError::MilestoneNotInReview));
}

#[test]
fn an_unfunded_milestone_cannot_be_started() {
    let mut registry = Contract::new("owner.testnet".to_string());
    let id = registry
        .create_contract(
            &ctx_at(&alice(), 0),
            "Project".into(),
            "Description".into(),
            vec![MilestoneInput { title: "One".into(), description: "first".into(), amount: 10 }],
            Some(bob()),
            10,
            "hash".into(),
            "model".into(),
        )
        .unwrap();
    let r = registry.start_milestone(&ctx_at(&bob(), 0), id, m1());
    assert_eq!(r, Err(EscrowError::MilestoneNotFunded));
}

#[test]
fn an_unknown_milestone_is_rejected_first() {
    let mut c = funded();
    let unknown = "m9".to_string();
    // even for a caller who may not act at all
    assert_eq!(c.start_milestone(&alice(), &unknown), Err(EscrowError::MilestoneNotFound));
    assert_eq!(c.request_payment(&alice(), 0, &unknown), Err(EscrowError::MilestoneNotFound));
    assert_eq!(c.cancel_payment_request(&alice(), &unknown), Err(EscrowError::MilestoneNotFound));
    assert_eq!(c.approve_milestone(&bob(), &unknown), Err(EscrowError::MilestoneNotFound));
    assert_eq!(c.auto_approve_payment(0, &unknown), Err(EscrowError::MilestoneNotFound));
}

#[test]
fn cancelling_clears_the_deadline() {
    let mut c = funded();
    c.start_milestone(&bob(), &m1()).unwrap();
    c.request_payment(&bob(), 7, &m1()).unwrap();
    c.cancel_payment_request(&bob(), &m1()).unwrap();
    assert_eq!(c.milestones[0].status, MilestoneStatus::InProgress);
    assert_eq!(c.milestones[0].payment_request_deadline_ns, None);
}

#[test]
fn auto_approval_waits_for_the_deadline() {
    let mut c = funded();
    c.start_milestone(&bob(), &m1()).unwrap();
    c.request_payment(&bob(), 1_000, &m1()).unwrap();
    let deadline = 1_000 + PAYMENT_REQUEST_DEADLINE_NS;

    assert_eq!(c.auto_approve_payment(deadline - 1, &m1()), Err(EscrowError::DeadlineNotReached));
    assert_eq!(c.milestones[0].status, MilestoneStatus::SubmittedForReview);

    let payouts = c.auto_approve_payment(deadline, &m1()).unwrap();
    assert_eq!(payouts.to_freelancer, 10);
    assert_eq!(c.milestones[0].status, MilestoneStatus::Completed);
}

#[test]
fn auto_approval_needs_a_deadline() {
    let mut c = funded();
    c.milestones[0].status = MilestoneStatus::SubmittedForReview;
    c.milestones[0].payment_request_deadline_ns = None;
    assert_eq!(c.auto_approve_payment(u64::MAX, &m1()), Err(EscrowError::NoDeadline));
}

#[test]
fn payment_needs_a_freelancer() {
    let mut c = funded();
    c.milestones[0].status = MilestoneStatus::SubmittedForReview;
    c.milestones[0].payment_request_deadline_ns = Some(0);
    c.freelancer = None;
    assert_eq!(c.approve_milestone(&alice(), &m1()), Err(EscrowError::NoFreelancer));
    assert_eq!(c.auto_approve_payment(1, &m1()), Err(EscrowError::NoFreelancer));
    assert_eq!(c.require_freelancer(), Err(EscrowError::NoFreelancer));
}

#[test]
fn a_payment_request_at_the_end_of_time_is_rejected() {
    let mut c = funded();
    c.start_milestone(&bob(), &m1()).unwrap();
    assert_eq!(c.request_payment(&bob(), u64::MAX, &m1()), Err(EscrowError::Overflow));
    assert_eq!(
        c.request_payment(&bob(), u64::MAX - PAYMENT_REQUEST_DEADLINE_NS + 1, &m1()),
        Err(EscrowError::Overflow)
    );
    assert_eq!(c.milestones[0].status, MilestoneStatus::InProgress);
    c.request_payment(&bob(), u64::MAX - PAYMENT_REQUEST_DEADLINE_NS, &m1()).unwrap();
    assert_eq!(c.milestones[0].payment_request_deadline_ns, Some(u64::MAX));
}

#[test]
fn a_cooldown_blocks_payment_requests_until_it_ends() {
    let mut c = funded();
    c.start_milestone(&bob(), &m1()).unwrap();
    c.milestones[0].payment_request_blocked_until_ns = Some(500);
    assert_eq!(c.request_payment(&bob(), 499, &m1()), Err(EscrowError::CooldownActive));
    c.request_payment(&bob(), 500, &m1()).unwrap();
    assert_eq!(c.milestones[0].payment_request_blocked_until_ns, None);
    assert_eq!(c.milestones[0].status, MilestoneStatus::SubmittedForReview);
}

#[test]
fn parties_are_the_client_and_the_freelancer() {
    let c = funded();
    assert!(c.is_party(&alice()));
    assert!(c.is_party(&bob()));
    assert!(!c.is_party(&"carol.testnet".to_string()));
    assert!(c.is_client(&alice()));
    assert!(!c.is_client(&bob()));
    assert!(c.is_freelancer(&bob()));
    assert!(!c.is_freelancer(&alice()));
    assert_eq!(c.require_freelancer(), Ok(bob()));
}
