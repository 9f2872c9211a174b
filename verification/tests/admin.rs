use milestone_escrow::reasons::ErrorKind;
use milestone_escrow::registry::{build_milestones, sum_inputs};
use milestone_escrow::types::{
    CallContext, ContractStatus, DisputeWindow, EscrowError, MilestoneStatus, Policy,
};
use milestone_escrow::{Contract, MilestoneInput};

fn alice() -> String {
    "alice.testnet".to_string()
}

fn bob() -> String {
    "bob.testnet".to_string()
}

fn carol() -> String {
    "carol.testnet".to_string()
}

fn owner() -> String {
    "owner.testnet".to_string()
}

fn ctx(predecessor: &String) -> CallContext {
    CallContext {
        predecessor: predecessor.clone(),
        attached_deposit: 0,
        block_timestamp: 77,
        random_seed: vec![1, 2],
    }
}

fn input(amount: u128) -> MilestoneInput {
    MilestoneInput { title: "T".into(), description: "D".into(), amount }
}

fn create(
    registry: &mut Contract,
    client: &String,
    freelancer: Option<String>,
    amounts: &[u128],
) -> Result<String, EscrowError> {
    registry.create_contract(
        &ctx(client),
        "Title".into(),
        "Description".into(),
        amounts.iter().map(|a| input(*a)).collect(),
        freelancer,
        10,
        "prompt".into(),
        "model".into(),
    )
}

#[test]
fn a_new_registry_is_empty() {
    let registry = Contract::new(owner());
    assert_eq!(registry.owner, owner());
    assert_eq!(registry.next_id, 0);
    assert!(registry.contracts.is_empty());
    assert!(registry.account_contracts.is_empty());
    assert!(registry.get_trusted_tee_addresses().is_empty());
    assert_eq!(registry.get_ai_processing_fee(), 0);
    assert_eq!(registry.policy, Policy::default());
    assert_eq!(registry.get_contract("c1".into()).map(|c| c.id), None);
    assert!(registry.get_contracts_by_account(alice()).is_empty());
    assert!(registry.get_dispute("c1".into(), "m1".into()).is_none());
}

#[test]
fn a_registry_keeps_its_policy() {
    let policy = Policy {
        funding_starts_work: true,
        either_party_may_dispute: true,
        dispute_window: DisputeWindow::WhileWorking,
        single_acceptance: false,
        override_cooldown_ns: 9,
    };
    let mut registry = Contract::with_policy(owner(), policy);
    assert_eq!(registry.policy, policy);
    let id = create(&mut registry, &alice(), Some(bob()), &[10]).unwrap();
    let mut funding = ctx(&alice());
    funding.attached_deposit = 11;
    registry.fund_contract(&funding, id.clone()).unwrap();
    assert_eq!(
        registry.get_contract(id.clone()).unwrap().milestones[0].status,
        MilestoneStatus::InProgress
    );
    registry.raise_dispute(&ctx(&bob()), id.clone(), "m1".into(), "late pay".into()).unwrap();
    assert_eq!(registry.get_dispute(id, "m1".into()).unwrap().raised_by, bob());
}

#[test]
fn only_the_owner_changes_the_settings() {
    let mut registry = Contract::new(owner());
    assert_eq!(registry.require_owner(&ctx(&owner())), Ok(()));
    assert_eq!(registry.require_owner(&ctx(&alice())), Err(EscrowError::NotOwner));
    assert_eq!(registry.set_ai_processing_fee(&ctx(&alice()), 5), Err(EscrowError::NotOwner));
    assert_eq!(
        registry.register_tee_address(&ctx(&alice()), vec![1; 32]),
        Err(EscrowError::NotOwner)
    );
    assert_eq!(
        registry.remove_tee_address(&ctx(&alice()), vec![1; 32]),
        Err(EscrowError::NotOwner)
    );
    assert_eq!(registry.get_ai_processing_fee(), 0);
    assert!(registry.get_trusted_tee_addresses().is_empty());

    registry.set_ai_processing_fee(&ctx(&owner()), 5).unwrap();
    assert_eq!(registry.get_ai_processing_fee(), 5);
}

#[test]
fn the_allow_list_holds_each_key_once() {
    let mut registry = Contract::new(owner());
    let o = ctx(&owner());
    registry.register_tee_address(&o, vec![1; 32]).unwrap();
    registry.register_tee_address(&o, vec![2; 32]).unwrap();
    registry.register_tee_address(&o, vec![1; 32]).unwrap();
    registry.register_tee_address(&o, vec![3; 32]).unwrap();
    assert_eq!(
        registry.get_trusted_tee_addresses().to_vec(),
        vec![vec![1; 32], vec![2; 32], vec![3; 32]]
    );

    registry.remove_tee_address(&o, vec![2; 32]).unwrap();
    assert_eq!(registry.get_trusted_tee_addresses().to_vec(), vec![vec![1; 32], vec![3; 32]]);
    // removing a key that is not listed changes nothing
    registry.remove_tee_address(&o, vec![9; 32]).unwrap();
    assert_eq!(registry.get_trusted_tee_addresses().to_vec(), vec![vec![1; 32], vec![3; 32]]);
    registry.remove_tee_address(&o, vec![1; 32]).unwrap();
    registry.remove_tee_address(&o, vec![3; 32]).unwrap();
    assert!(registry.get_trusted_tee_addresses().is_empty());
}

#[test]
fn contracts_are_numbered_from_one() {
    let mut registry = Contract::new(owner());
    assert_eq!(create(&mut registry, &alice(), Some(bob()), &[1]), Ok("c1".to_string()));
    assert_eq!(create(&mut registry, &bob(), Some(alice()), &[1]), Ok("c2".to_string()));
    // a rejected creation takes no number
    assert_eq!(create(&mut registry, &bob(), Some(bob()), &[1]), Err(EscrowError::SelfHire));
    assert_eq!(create(&mut registry, &carol(), None, &[1]), Ok("c3".to_string()));
    assert_eq!(registry.next_id, 3);
    assert_eq!(registry.find_contract(&"c2".to_string()), Some(1));
    assert_eq!(registry.find_contract(&"c4".to_string()), None);
}

#[test]
fn a_new_contract_holds_what_was_given() {
    let mut registry = Contract::new(owner());
    let id = registry
        .create_contract(
            &ctx(&alice()),
            "Website".into(),
            "A site".into(),
            vec![
                MilestoneInput { title: "Design".into(), description: "mockups".into(), amount: 3 },
                MilestoneInput { title: "Build".into(), description: "code".into(), amount: 4 },
            ],
            Some(bob()),
            30,
            "prompt hash".into(),
            "model id".into(),
        )
        .unwrap();
    let c = registry.get_contract(id).unwrap();
    assert_eq!(c.id, "c1");
    assert_eq!(c.title, "Website");
    assert_eq!(c.description, "A site");
    assert_eq!(c.client, alice());
    assert_eq!(c.freelancer, Some(bob()));
    assert_eq!(c.total_amount, 7);
    assert_eq!(c.funded_amount, 0);
    assert_eq!(c.security_pool, 0);
    assert_eq!(c.security_deposit_pct, 30);
    assert_eq!(c.status, ContractStatus::Active);
    assert_eq!(c.created_at, 77);
    assert_eq!(c.invite_token, None);
    assert_eq!(c.prompt_hash, "prompt hash");
    assert_eq!(c.model_id, "model id");
    assert!(c.disputes.is_empty());
    assert_eq!(c.milestones.len(), 2);
    assert_eq!(c.milestones[0].id, "m1");
    assert_eq!(c.milestones[0].title, "Design");
    assert_eq!(c.milestones[0].description, "mockups");
    assert_eq!(c.milestones[0].amount, 3);
    assert_eq!(c.milestones[1].id, "m2");
    assert_eq!(c.milestones[1].title, "Build");
    assert_eq!(c.milestones[1].amount, 4);
    for m in &c.milestones {
        assert_eq!(m.status, MilestoneStatus::NotFunded);
        assert_eq!(m.payment_request_deadline_ns, None);
        assert_eq!(m.payment_request_blocked_until_ns, None);
    }
}

#[test]
fn creation_rejects_what_the_rules_do_not_admit() {
    let mut registry = Contract::new(owner());
    for pct in [0u8, 4, 31, 255] {
        let r = registry.create_contract(
            &ctx(&alice()),
            "T".into(),
            "D".into(),
            vec![input(1)],
            Some(bob()),
            pct,
            "p".into(),
            "m".into(),
        );
        assert_eq!(r, Err(EscrowError::InvalidSecurityPct));
    }
    for pct in [5u8, 30] {
        let r = registry.create_contract(
            &ctx(&alice()),
            "T".into(),
            "D".into(),
            vec![input(1)],
            Some(bob()),
            pct,
            "p".into(),
            "m".into(),
        );
        assert!(r.is_ok());
    }
    assert_eq!(create(&mut registry, &alice(), Some(bob()), &[]), Err(EscrowError::NoMilestones));
    assert_eq!(create(&mut registry, &alice(), Some(bob()), &[0, 0]), Err(EscrowError::ZeroTotal));
    assert_eq!(
        create(&mut registry, &alice(), Some(bob()), &[u128::MAX, 1]),
        Err(EscrowError::Overflow)
    );
    assert_eq!(create(&mut registry, &alice(), Some(bob()), &[u128::MAX, 0]).is_ok(), true);
    registry.next_id = u64::MAX;
    assert_eq!(create(&mut registry, &alice(), Some(bob()), &[1]), Err(EscrowError::Overflow));
    assert_eq!(registry.contracts.len(), 3);
}

#[test]
fn amounts_are_summed_and_milestones_built() {
    assert_eq!(sum_inputs(&vec![]), Some(0));
    assert_eq!(sum_inputs(&vec![input(1), input(2), input(3)]), Some(6));
    assert_eq!(sum_inputs(&vec![input(u128::MAX - 1), input(1)]), Some(u128::MAX));
    assert_eq!(sum_inputs(&vec![input(u128::MAX), input(1)]), None);
    assert_eq!(sum_inputs(&vec![input(1), input(u128::MAX), input(0)]), None);
    let built = build_milestones(&(1..=11).map(|a| input(a)).collect());
    assert_eq!(built.len(), 11);
    assert_eq!(built[9].id, "m10");
    assert_eq!(built[10].id, "m11");
    assert_eq!(built[10].amount, 11);
}

#[test]
fn a_freelancer_joins_with_the_invite_token() {
    let mut registry = Contract::new(owner());
    let id = create(&mut registry, &alice(), None, &[10]).unwrap();
    let token = registry.get_contract(id.clone()).unwrap().invite_token.unwrap();
    // the seed [1, 2] folds to 0x102
    assert_eq!(token, "102");

    assert_eq!(
        registry.join_contract(&ctx(&bob()), "c9".into(), token.clone()),
        Err(EscrowError::ContractNotFound)
    );
    assert_eq!(
        registry.join_contract(&ctx(&bob()), id.clone(), "103".into()),
        Err(EscrowError::InvalidInviteToken)
    );
    assert_eq!(
        registry.join_contract(&ctx(&alice()), id.clone(), token.clone()),
        Err(EscrowError::JoinOwnContract)
    );
    assert_eq!(registry.get_contract(id.clone()).unwrap().status, ContractStatus::Draft);
    assert!(registry.get_contracts_by_account(bob()).is_empty());

    registry.join_contract(&ctx(&bob()), id.clone(), token.clone()).unwrap();
    let c = registry.get_contract(id.clone()).unwrap();
    assert_eq!(c.freelancer, Some(bob()));
    assert_eq!(c.status, ContractStatus::Active);
    assert_eq!(c.invite_token, None);

    // the token is spent and the freelancer is bound for good
    assert_eq!(
        registry.join_contract(&ctx(&carol()), id.clone(), token),
        Err(EscrowError::AlreadyHasFreelancer)
    );
    assert_eq!(registry.get_contract(id).unwrap().freelancer, Some(bob()));
}

#[test]
fn accounts_are_linked_in_the_order_they_became_parties() {
    let mut registry = Contract::new(owner());
    let c1 = create(&mut registry, &alice(), None, &[10]).unwrap();
    let c2 = create(&mut registry, &bob(), Some(alice()), &[10]).unwrap();
    let c3 = create(&mut registry, &alice(), Some(bob()), &[10]).unwrap();
    let token = registry.get_contract(c1.clone()).unwrap().invite_token.unwrap();
    registry.join_contract(&ctx(&bob()), c1.clone(), token).unwrap();

    let ids = |account: String| -> Vec<String> {
        registry.get_contracts_by_account(account).into_iter().map(|c| c.id).collect()
    };
    assert_eq!(ids(alice()), vec![c1.clone(), c2.clone(), c3.clone()]);
    // bob joined the first contract last
    assert_eq!(ids(bob()), vec![c2, c3, c1]);
    assert!(ids(carol()).is_empty());
}

#[test]
fn lookups_by_id() {
    let mut registry = Contract::new(owner());
    let id = create(&mut registry, &alice(), Some(bob()), &[10]).unwrap();
    assert_eq!(registry.get_prompt_hash(id.clone()), Some("prompt".to_string()));
    assert_eq!(registry.get_prompt_hash("c2".into()), None);
    assert!(registry.get_contract("".into()).is_none());
    assert!(registry.get_dispute(id.clone(), "m1".into()).is_none());
    assert!(registry.get_dispute("c2".into(), "m1".into()).is_none());
}

#[test]
fn operations_on_an_unknown_contract_are_rejected() {
    let mut registry = Contract::new(owner());
    let c = ctx(&alice());
    let id = || "c1".to_string();
    let m = || "m1".to_string();
    assert_eq!(registry.top_up_security(&c, id()), Err(EscrowError::ContractNotFound));
    assert_eq!(registry.approve_milestone(&c, id(), m()), Err(EscrowError::ContractNotFound));
    assert_eq!(registry.release_dispute_funds(id(), m()), Err(EscrowError::ContractNotFound));
    assert_eq!(registry.complete_contract_security(id()), Err(EscrowError::ContractNotFound));
    assert_eq!(registry.start_milestone(&c, id(), m()), Err(EscrowError::ContractNotFound));
    assert_eq!(registry.request_payment(&c, id(), m()), Err(EscrowError::ContractNotFound));
    assert_eq!(registry.auto_approve_payment(&c, id(), m()), Err(EscrowError::ContractNotFound));
    assert_eq!(registry.cancel_payment_request(&c, id(), m()), Err(EscrowError::ContractNotFound));
    assert_eq!(
        registry.raise_dispute(&c, id(), m(), "r".into()),
        Err(EscrowError::ContractNotFound)
    );
    assert_eq!(registry.accept_resolution(&c, id(), m()), Err(EscrowError::ContractNotFound));
    assert_eq!(registry.appeal_resolution(&c, id(), m()), Err(EscrowError::ContractNotFound));
    assert_eq!(registry.finalize_resolution(&c, id(), m()), Err(EscrowError::ContractNotFound));
    assert_eq!(
        registry.override_to_continue_work(&c, id(), m()),
        Err(EscrowError::ContractNotFound)
    );
    assert_eq!(
        registry.submit_investigation_round(
            &c,
            id(),
            m(),
            1,
            "a".into(),
            "f".into(),
            1,
            true,
            None,
            None,
            vec![0; 64],
            vec![0; 32],
            "t".into()
        ),
        Err(EscrowError::ContractNotFound)
    );
}

#[test]
fn an_operation_on_one_contract_leaves_the_others() {
    let mut registry = Contract::new(owner());
    let c1 = create(&mut registry, &alice(), Some(bob()), &[10]).unwrap();
    let c2 = create(&mut registry, &alice(), Some(bob()), &[10]).unwrap();
    let mut funding = ctx(&alice());
    funding.attached_deposit = 11;
    registry.fund_contract(&funding, c2.clone()).unwrap();
    assert_eq!(registry.get_contract(c1).unwrap().funded_amount, 0);
    assert_eq!(registry.get_contract(c2).unwrap().funded_amount, 10);
}

#[test]
fn rejections_have_a_kind_and_a_description() {
    assert_eq!(EscrowError::ContractNotFound.kind(), ErrorKind::NotFound);
    assert_eq!(EscrowError::DisputeNotFound.kind(), ErrorKind::NotFound);
    assert_eq!(EscrowError::NotClient.kind(), ErrorKind::Authorization);
    assert_eq!(EscrowError::SelfHire.kind(), ErrorKind::Authorization);
    assert_eq!(EscrowError::InvalidSignature.kind(), ErrorKind::Attestation);
    assert_eq!(EscrowError::UntrustedSigner.kind(), ErrorKind::Attestation);
    assert_eq!(EscrowError::MilestoneNotInReview.kind(), ErrorKind::StatePrecondition);
    assert_eq!(EscrowError::FundsAlreadyReleased.kind(), ErrorKind::StatePrecondition);
    assert_eq!(EscrowError::DeadlineNotReached.kind(), ErrorKind::Temporal);
    assert_eq!(EscrowError::CooldownActive.kind(), ErrorKind::Temporal);
    assert_eq!(EscrowError::ZeroDeposit.kind(), ErrorKind::Policy);
    assert_eq!(EscrowError::InvalidSplit.kind(), ErrorKind::Policy);
    assert_eq!(EscrowError::Overflow.kind(), ErrorKind::Policy);

    assert_eq!(EscrowError::ContractNotFound.message(), "Contract not found");
    assert_eq!(
        EscrowError::InvalidSecurityPct.message(),
        "Security deposit must be between 5% and 30%"
    );
    assert_eq!(EscrowError::SelfHire.message(), "Cannot be your own freelancer");
    assert_eq!(EscrowError::AlreadyFullyFunded.message(), "Contract is already fully funded");
    assert_eq!(EscrowError::InvalidSignature.message(), "Invalid TEE signature");
    assert_eq!(
        EscrowError::UntrustedSigner.message(),
        "Signing address not in trusted TEE list"
    );
    assert_eq!(EscrowError::FundsAlreadyReleased.message(), "Funds already released");
    assert_eq!(EscrowError::DeadlineNotReached.message(), "Deadline not reached");
}
