use milestone_escrow::types::{
    CallContext, ContractStatus, DisputeStatus, EscrowError, MilestoneStatus,
};
use milestone_escrow::{Contract, MilestoneInput};

fn alice() -> String {
    "alice.testnet".to_string()
}

fn bob() -> String {
    "bob.testnet".to_string()
}

fn owner() -> String {
    "owner.testnet".to_string()
}

fn setup_context(predecessor: &String, deposit: u128) -> CallContext {
    CallContext {
        predecessor: predecessor.clone(),
        attached_deposit: deposit,
        block_timestamp: 0,
        random_seed: vec![7u8; 32],
    }
}

fn create_test_contract() -> Contract {
    Contract::new(owner())
}

fn create_escrow_with_milestone(contract: &mut Contract) -> String {
    contract
        .create_contract(
            &setup_context(&alice(), 0),
            "Test Project".into(),
            "Description".into(),
            vec![MilestoneInput {
                title: "Milestone 1".into(),
                description: "Build feature".into(),
                amount: 10_000_000_000_000_000_000_000_000, // 10 NEAR
            }],
            Some(bob()),
            10,
            "abc123hash".into(),
            "Qwen/Qwen3-30B-A3B".into(),
        )
        .unwrap()
}

fn one_milestone(title: &str, description: &str) -> Vec<MilestoneInput> {
    vec![MilestoneInput {
        title: title.into(),
        description: description.into(),
        amount: 1_000_000_000_000_000_000_000_000,
    }]
}

#[test]
fn test_create_contract() {
    let mut contract = create_test_contract();
    let id = create_escrow_with_milestone(&mut contract);

    let escrow = contract.get_contract(id.clone()).unwrap();
    assert_eq!(escrow.client, alice());
    assert_eq!(escrow.freelancer, Some(bob()));
    assert_eq!(escrow.status, ContractStatus::Active);
    assert_eq!(escrow.milestones.len(), 1);
    assert_eq!(escrow.milestones[0].status, MilestoneStatus::NotFunded);
    assert_eq!(escrow.security_deposit_pct, 10);
}

#[test]
fn test_create_contract_draft_without_freelancer() {
    let mut contract = create_test_contract();
    let id = contract
        .create_contract(
            &setup_context(&alice(), 0),
            "Draft".into(),
            "Desc".into(),
            one_milestone("M1", "D1"),
            None,
            10,
            "hash".into(),
            "model".into(),
        )
        .unwrap();

    let escrow = contract.get_contract(id).unwrap();
    assert_eq!(escrow.status, ContractStatus::Draft);
    assert!(escrow.invite_token.is_some());
}

#[test]
fn test_invalid_security_pct() {
    let mut contract = create_test_contract();
    let r = contract.create_contract(
        &setup_context(&alice(), 0),
        "Bad".into(),
        "Desc".into(),
        one_milestone("M", "D"),
        Some(bob()),
        50,
        "hash".into(),
        "model".into(),
    );
    assert_eq!(r, Err(EscrowError::InvalidSecurityPct));
}

#[test]
fn test_cannot_self_hire() {
    let mut contract = create_test_contract();
    let r = contract.create_contract(
        &setup_context(&alice(), 0),
        "Self".into(),
        "Desc".into(),
        one_milestone("M", "D"),
        Some(alice()),
        10,
        "hash".into(),
        "model".into(),
    );
    assert_eq!(r, Err(EscrowError::SelfHire));
}

#[test]
fn test_fund_contract_marks_milestones_funded() {
    let mut contract = create_test_contract();
    let id = create_escrow_with_milestone(&mut contract);

    // 10 NEAR milestone at 10% security: 11 NEAR deposit gives
    // security = 11 * 10/110 = 1 NEAR, main = 10 NEAR
    contract
        .fund_contract(&setup_context(&alice(), 11_000_000_000_000_000_000_000_000), id.clone())
        .unwrap();

    let escrow = contract.get_contract(id).unwrap();
    assert_eq!(escrow.milestones[0].status, MilestoneStatus::Funded);
    assert_eq!(escrow.funded_amount, 10_000_000_000_000_000_000_000_000);
    assert_eq!(escrow.security_pool, 1_000_000_000_000_000_000_000_000);
}

#[test]
fn test_cannot_overfund() {
    let mut contract = create_test_contract();
    let id = create_escrow_with_milestone(&mut contract);

    contract
        .fund_contract(&setup_context(&alice(), 11_000_000_000_000_000_000_000_000), id.clone())
        .unwrap();

    let r = contract.fund_contract(&setup_context(&alice(), 11_000_000_000_000_000_000_000_000), id);
    assert_eq!(r, Err(EscrowError::AlreadyFullyFunded));
}

#[test]
fn test_top_up_security() {
    let mut contract = create_test_contract();
    let id = create_escrow_with_milestone(&mut contract);

    contract
        .fund_contract(&setup_context(&alice(), 11_000_000_000_000_000_000_000_000), id.clone())
        .unwrap();

    let pool_before = contract.get_contract(id.clone()).unwrap().security_pool;

    contract
        .top_up_security(&setup_context(&alice(), 5_000_000_000_000_000_000_000_000), id.clone())
        .unwrap();

    let pool_after = contract.get_contract(id).unwrap().security_pool;
    assert_eq!(pool_after - pool_before, 5_000_000_000_000_000_000_000_000);
}

#[test]
fn test_top_up_security_stranger_rejected() {
    let mut contract = create_test_contract();
    let id = create_escrow_with_milestone(&mut contract);

    let stranger: String = "stranger.testnet".to_string();
    let r = contract.top_up_security(&setup_context(&stranger, 1_000_000_000_000_000_000_000_000), id);
    assert_eq!(r, Err(EscrowError::NotParty));
}

#[test]
fn test_milestone_lifecycle() {
    let mut contract = create_test_contract();
    let id = create_escrow_with_milestone(&mut contract);

    contract
        .fund_contract(&setup_context(&alice(), 11_000_000_000_000_000_000_000_000), id.clone())
        .unwrap();

    // Freelancer starts
    contract.start_milestone(&setup_context(&bob(), 0), id.clone(), "m1".into()).unwrap();
    assert_eq!(
        contract.get_contract(id.clone()).unwrap().milestones[0].status,
        MilestoneStatus::InProgress
    );

    // Freelancer requests payment
    contract.request_payment(&setup_context(&bob(), 0), id.clone(), "m1".into()).unwrap();
    assert_eq!(
        contract.get_contract(id.clone()).unwrap().milestones[0].status,
        MilestoneStatus::SubmittedForReview
    );

    // Client approves
    contract.approve_milestone(&setup_context(&alice(), 0), id.clone(), "m1".into()).unwrap();

    let escrow = contract.get_contract(id).unwrap();
    assert_eq!(escrow.milestones[0].status, MilestoneStatus::Completed);
    assert_eq!(escrow.status, ContractStatus::Completed);
}

#[test]
fn test_client_cannot_start_milestone() {
    let mut contract = create_test_contract();
    let id = create_escrow_with_milestone(&mut contract);

    contract
        .fund_contract(&setup_context(&alice(), 11_000_000_000_000_000_000_000_000), id.clone())
        .unwrap();

    let r = contract.start_milestone(&setup_context(&alice(), 0), id, "m1".into());
    assert_eq!(r, Err(EscrowError::NotFreelancer));
}

#[test]
fn test_cancel_payment_request() {
    let mut contract = create_test_contract();
    let id = create_escrow_with_milestone(&mut contract);

    contract
        .fund_contract(&setup_context(&alice(), 11_000_000_000_000_000_000_000_000), id.clone())
        .unwrap();

    let ctx = setup_context(&bob(), 0);
    contract.start_milestone(&ctx, id.clone(), "m1".into()).unwrap();
    contract.request_payment(&ctx, id.clone(), "m1".into()).unwrap();
    contract.cancel_payment_request(&ctx, id.clone(), "m1".into()).unwrap();

    assert_eq!(
        contract.get_contract(id).unwrap().milestones[0].status,
        MilestoneStatus::InProgress
    );
}

#[test]
fn test_raise_dispute() {
    let mut contract = create_test_contract();

    contract
        .set_ai_processing_fee(&setup_context(&owner(), 0), 50_000_000_000_000_000_000_000) // 0.05 NEAR
        .unwrap();

    let id = create_escrow_with_milestone(&mut contract);

    contract
        .fund_contract(&setup_context(&alice(), 11_000_000_000_000_000_000_000_000), id.clone())
        .unwrap();

    let ctx = setup_context(&bob(), 0);
    contract.start_milestone(&ctx, id.clone(), "m1".into()).unwrap();
    contract.request_payment(&ctx, id.clone(), "m1".into()).unwrap();

    contract
        .raise_dispute(&setup_context(&alice(), 0), id.clone(), "m1".into(), "Work incomplete".into())
        .unwrap();

    let escrow = contract.get_contract(id.clone()).unwrap();
    assert_eq!(escrow.milestones[0].status, MilestoneStatus::Disputed);
    assert_eq!(escrow.status, ContractStatus::Disputed);
    assert_eq!(escrow.disputes.len(), 1);
    assert_eq!(escrow.disputes[0].status, DisputeStatus::Pending);
}

#[test]
fn test_freelancer_cannot_raise_dispute() {
    let mut contract = create_test_contract();
    let id = create_escrow_with_milestone(&mut contract);

    contract
        .fund_contract(&setup_context(&alice(), 11_000_000_000_000_000_000_000_000), id.clone())
        .unwrap();

    let ctx = setup_context(&bob(), 0);
    contract.start_milestone(&ctx, id.clone(), "m1".into()).unwrap();
    contract.request_payment(&ctx, id.clone(), "m1".into()).unwrap();

    let r = contract.raise_dispute(&setup_context(&bob(), 0), id, "m1".into(), "Reason".into());
    assert_eq!(r, Err(EscrowError::NotClient));
}

#[test]
fn test_account_contract_linking() {
    let mut contract = create_test_contract();
    let id = create_escrow_with_milestone(&mut contract);

    let alice_contracts = contract.get_contracts_by_account(alice());
    let bob_contracts = contract.get_contracts_by_account(bob());

    assert_eq!(alice_contracts.len(), 1);
    assert_eq!(alice_contracts[0].id, id);
    assert_eq!(bob_contracts.len(), 1);
    assert_eq!(bob_contracts[0].id, id);
}

#[test]
fn test_join_contract() {
    let mut contract = create_test_contract();
    let id = contract
        .create_contract(
            &setup_context(&alice(), 0),
            "Open".into(),
            "Desc".into(),
            one_milestone("M", "D"),
            None,
            10,
            "hash".into(),
            "model".into(),
        )
        .unwrap();

    let token = contract.get_contract(id.clone()).unwrap().invite_token.unwrap();

    contract.join_contract(&setup_context(&bob(), 0), id.clone(), token).unwrap();

    let escrow = contract.get_contract(id).unwrap();
    assert_eq!(escrow.freelancer, Some(bob()));
    assert_eq!(escrow.status, ContractStatus::Active);
    assert!(escrow.invite_token.is_none());
}

#[test]
fn test_get_prompt_hash() {
    let mut contract = create_test_contract();
    let id = create_escrow_with_milestone(&mut contract);

    assert_eq!(contract.get_prompt_hash(id), Some("abc123hash".into()));
    assert_eq!(contract.get_prompt_hash("nonexistent".into()), None);
}
