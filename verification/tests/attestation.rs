use ed25519_dalek::{Signer, SigningKey};
use milestone_escrow::attestation::{
    bytes_equal, check_attestation, is_trusted, verify_signature, AttestationCheck,
};
use milestone_escrow::dispute::{attestation_failure, DISPUTE_DEADLINE_NS};
use milestone_escrow::types::{
    CallContext, DisputeStatus, EscrowError, MilestoneStatus, Payouts, Resolution,
};
use milestone_escrow::{Contract, MilestoneInput};

fn signer(seed: u8) -> SigningKey {
    SigningKey::from_bytes(&[seed; 32])
}

fn sign(key: &SigningKey, text: &str) -> Vec<u8> {
    key.sign(text.as_bytes()).to_bytes().to_vec()
}

fn public(key: &SigningKey) -> Vec<u8> {
    key.verifying_key().to_bytes().to_vec()
}

fn alice() -> String {
    "alice.testnet".to_string()
}

fn bob() -> String {
    "bob.testnet".to_string()
}

fn owner() -> String {
    "owner.testnet".to_string()
}

fn ctx_at(predecessor: &String, deposit: u128, now: u64) -> CallContext {
    CallContext {
        predecessor: predecessor.clone(),
        attached_deposit: deposit,
        block_timestamp: now,
        random_seed: vec![5; 32],
    }
}

/// A registry that trusts `key`, with a contract whose only milestone, of
/// 100 units, is disputed. The processing fee is 2.
fn registry_with_dispute(key: &SigningKey) -> (Contract, String) {
    let mut registry = Contract::new(owner());
    registry.register_tee_address(&ctx_at(&owner(), 0, 0), public(key)).unwrap();
    registry.set_ai_processing_fee(&ctx_at(&owner(), 0, 0), 2).unwrap();
    let id = registry
        .create_contract(
            &ctx_at(&alice(), 0, 0),
            "Project".into(),
            "Description".into(),
            vec![MilestoneInput { title: "One".into(), description: "first".into(), amount: 100 }],
            Some(bob()),
            10,
            "hash".into(),
            "model".into(),
        )
        .unwrap();
    registry.fund_contract(&ctx_at(&alice(), 110, 0), id.clone()).unwrap();
    registry.start_milestone(&ctx_at(&bob(), 0, 0), id.clone(), "m1".into()).unwrap();
    registry.request_payment(&ctx_at(&bob(), 0, 0), id.clone(), "m1".into()).unwrap();
    registry
        .raise_dispute(&ctx_at(&alice(), 0, 0), id.clone(), "m1".into(), "Work incomplete".into())
        .unwrap();
    (registry, id)
}

#[test]
fn valid_signature_is_accepted() {
    let key = signer(42);
    let text = "award the milestone to the freelancer".to_string();
    let signature = sign(&key, &text);
    assert!(verify_signature(&signature, &text, &public(&key)));
    assert_eq!(
        check_attestation(&vec![public(&key)], &signature, &text, &public(&key)),
        AttestationCheck::Accepted
    );
}

#[test]
fn signature_over_the_empty_text_is_accepted() {
    let key = signer(1);
    let text = String::new();
    assert!(verify_signature(&sign(&key, &text), &text, &public(&key)));
}

#[test]
fn signature_over_text_beyond_ascii_is_accepted() {
    let key = signer(3);
    let text = "r\u{e9}solution \u{2713}".to_string();
    assert!(verify_signature(&sign(&key, &text), &text, &public(&key)));
}

#[test]
fn any_flipped_bit_of_the_signature_is_rejected() {
    let key = signer(42);
    let text = "split sixty to forty".to_string();
    let signature = sign(&key, &text);
    for byte in 0..64 {
        for bit in 0..8 {
            let mut flipped = signature.clone();
            flipped[byte] ^= 1 << bit;
            assert!(!verify_signature(&flipped, &text, &public(&key)), "byte {} bit {}", byte, bit);
        }
    }
}

#[test]
fn any_flipped_bit_of_the_text_is_rejected() {
    let key = signer(42);
    let text = "split sixty to forty".to_string();
    let signature = sign(&key, &text);
    let bytes = text.as_bytes();
    for byte in 0..bytes.len() {
        for bit in 0..7 {
            let mut flipped = bytes.to_vec();
            flipped[byte] ^= 1 << bit;
            let changed = String::from_utf8(flipped).unwrap();
            assert!(!verify_signature(&signature, &changed, &public(&key)));
        }
    }
    assert!(!verify_signature(&signature, &"split sixty to forty ".to_string(), &public(&key)));
    assert!(!verify_signature(&signature, &"Split sixty to forty".to_string(), &public(&key)));
}

#[test]
fn any_flipped_bit_of_the_key_is_rejected() {
    let key = signer(42);
    let text = "split sixty to forty".to_string();
    let signature = sign(&key, &text);
    let trusted = vec![public(&key)];
    for byte in 0..32 {
        for bit in 0..8 {
            let mut flipped = public(&key);
            flipped[byte] ^= 1 << bit;
            assert!(!verify_signature(&signature, &text, &flipped));
            assert_ne!(
                check_attestation(&trusted, &signature, &text, &flipped),
                AttestationCheck::Accepted
            );
        }
    }
}

#[test]
fn signature_of_another_signer_is_rejected() {
    let text = "award".to_string();
    let signature = sign(&signer(1), &text);
    assert!(!verify_signature(&signature, &text, &public(&signer(2))));
}

#[test]
fn signature_and_key_must_have_their_lengths() {
    let key = signer(42);
    let text = "award".to_string();
    let signature = sign(&key, &text);
    assert!(!verify_signature(&signature[..63].to_vec(), &text, &public(&key)));
    assert!(!verify_signature(&[signature.clone(), vec![0]].concat(), &text, &public(&key)));
    assert!(!verify_signature(&signature, &text, &public(&key)[..31].to_vec()));
    assert!(!verify_signature(&signature, &text, &[public(&key), vec![0]].concat()));
    assert!(!verify_signature(&vec![], &text, &vec![]));
}

#[test]
fn a_valid_signature_by_an_unlisted_signer_is_untrusted() {
    let key = signer(42);
    let text = "award".to_string();
    let signature = sign(&key, &text);
    assert_eq!(
        check_attestation(&vec![], &signature, &text, &public(&key)),
        AttestationCheck::UntrustedSigner
    );
    assert_eq!(
        check_attestation(&vec![public(&signer(1))], &signature, &text, &public(&key)),
        AttestationCheck::UntrustedSigner
    );
    assert_eq!(
        check_attestation(
            &vec![public(&signer(1)), public(&key)],
            &signature,
            &text,
            &public(&key)
        ),
        AttestationCheck::Accepted
    );
}

#[test]
fn an_invalid_signature_is_reported_before_an_unlisted_signer() {
    let key = signer(42);
    let text = "award".to_string();
    let mut signature = sign(&key, &text);
    signature[0] ^= 1;
    assert_eq!(
        check_attestation(&vec![], &signature, &text, &public(&key)),
        AttestationCheck::InvalidSignature
    );
    assert_eq!(
        check_attestation(&vec![public(&key)], &signature, &text, &public(&key)),
        AttestationCheck::InvalidSignature
    );
}

#[test]
fn failed_checks_stand_for_their_errors() {
    assert_eq!(attestation_failure(AttestationCheck::Accepted), None);
    assert_eq!(
        attestation_failure(AttestationCheck::InvalidSignature),
        Some(EscrowError::InvalidSignature)
    );
    assert_eq!(
        attestation_failure(AttestationCheck::UntrustedSigner),
        Some(EscrowError::UntrustedSigner)
    );
}

#[test]
fn byte_vectors_are_compared_by_content() {
    assert!(bytes_equal(&vec![], &vec![]));
    assert!(bytes_equal(&vec![1, 2, 3], &vec![1, 2, 3]));
    assert!(!bytes_equal(&vec![1, 2, 3], &vec![1, 2, 4]));
    assert!(!bytes_equal(&vec![1, 2, 3], &vec![1, 2]));
    assert!(is_trusted(&vec![vec![1], vec![2, 3]], &vec![2, 3]));
    assert!(!is_trusted(&vec![vec![1], vec![2, 3]], &vec![3, 2]));
    assert!(!is_trusted(&vec![], &vec![]));
}

#[test]
fn an_attested_verdict_is_taken_in() {
    let key = signer(7);
    let (mut registry, id) = registry_with_dispute(&key);
    let text = "resolution: client".to_string();
    let payouts = registry
        .submit_ai_resolution(
            &ctx_at(&"oracle.testnet".to_string(), 0, 1_000),
            id.clone(),
            "m1".into(),
            Resolution::Client,
            "The work was not delivered".into(),
            sign(&key, &text),
            public(&key),
            text.clone(),
        )
        .unwrap();
    // the processing fee goes to the owner
    assert_eq!(payouts, Payouts { to_freelancer: 0, to_client: 0, to_owner: 2, to_caller: 0 });
    let escrow = registry.get_contract(id.clone()).unwrap();
    assert_eq!(escrow.security_pool, 8);
    let dispute = registry.get_dispute(id, "m1".into()).unwrap();
    assert_eq!(dispute.status, DisputeStatus::AiResolved);
    assert_eq!(dispute.resolution, Some(Resolution::Client));
    assert_eq!(dispute.deadline_ns, Some(1_000 + DISPUTE_DEADLINE_NS));
    assert_eq!(dispute.tee_text, Some(text));
    assert_eq!(dispute.tee_signing_address, Some(public(&key)));
    assert!(dispute.ai_fee_deducted);
}

#[test]
fn a_verdict_with_a_forged_signature_is_rejected() {
    let key = signer(7);
    let (mut registry, id) = registry_with_dispute(&key);
    let text = "resolution: client".to_string();
    let mut signature = sign(&key, &text);
    signature[10] ^= 0x40;
    let r = registry.submit_ai_resolution(
        &ctx_at(&"oracle.testnet".to_string(), 0, 1_000),
        id.clone(),
        "m1".into(),
        Resolution::Client,
        "explanation".into(),
        signature,
        public(&key),
        text,
    );
    assert_eq!(r, Err(EscrowError::InvalidSignature));
    let dispute = registry.get_dispute(id.clone(), "m1".into()).unwrap();
    assert_eq!(dispute.status, DisputeStatus::Pending);
    assert_eq!(registry.get_contract(id).unwrap().security_pool, 10);
}

#[test]
fn a_verdict_over_another_text_is_rejected() {
    let key = signer(7);
    let (mut registry, id) = registry_with_dispute(&key);
    let r = registry.submit_ai_resolution(
        &ctx_at(&"oracle.testnet".to_string(), 0, 1_000),
        id,
        "m1".into(),
        Resolution::Freelancer,
        "explanation".into(),
        sign(&key, "resolution: client"),
        public(&key),
        "resolution: freelancer".into(),
    );
    assert_eq!(r, Err(EscrowError::InvalidSignature));
}

#[test]
fn a_verdict_by_an_untrusted_signer_is_rejected() {
    let key = signer(7);
    let other = signer(8);
    let (mut registry, id) = registry_with_dispute(&key);
    let text = "resolution: client".to_string();
    let r = registry.submit_ai_resolution(
        &ctx_at(&"oracle.testnet".to_string(), 0, 1_000),
        id.clone(),
        "m1".into(),
        Resolution::Client,
        "explanation".into(),
        sign(&other, &text),
        public(&other),
        text.clone(),
    );
    assert_eq!(r, Err(EscrowError::UntrustedSigner));

    // once the owner removes the signer, its verdicts are rejected too
    registry.remove_tee_address(&ctx_at(&owner(), 0, 0), public(&key)).unwrap();
    let r = registry.submit_ai_resolution(
        &ctx_at(&"oracle.testnet".to_string(), 0, 1_000),
        id,
        "m1".into(),
        Resolution::Client,
        "explanation".into(),
        sign(&key, &text),
        public(&key),
        text,
    );
    assert_eq!(r, Err(EscrowError::UntrustedSigner));
}

#[test]
fn an_unknown_contract_is_reported_before_a_forged_signature() {
    let key = signer(7);
    let (mut registry, _) = registry_with_dispute(&key);
    let r = registry.submit_ai_resolution(
        &ctx_at(&"oracle.testnet".to_string(), 0, 1_000),
        "c9".into(),
        "m1".into(),
        Resolution::Client,
        "explanation".into(),
        vec![0; 64],
        public(&key),
        "text".into(),
    );
    assert_eq!(r, Err(EscrowError::ContractNotFound));
}

#[test]
fn attested_rounds_lead_to_a_settlement() {
    let key = signer(9);
    let (mut registry, id) = registry_with_dispute(&key);
    let oracle = "oracle.testnet".to_string();

    let text = "round one".to_string();
    registry
        .submit_investigation_round(
            &ctx_at(&oracle, 0, 10),
            id.clone(),
            "m1".into(),
            1,
            "analysis".into(),
            "findings".into(),
            40,
            true,
            None,
            None,
            sign(&key, &text),
            public(&key),
            text,
        )
        .unwrap();

    // a round whose signature is over another text
    let r = registry.submit_investigation_round(
        &ctx_at(&oracle, 0, 20),
        id.clone(),
        "m1".into(),
        2,
        "analysis".into(),
        "findings".into(),
        90,
        false,
        Some(Resolution::Split { freelancer_pct: 60 }),
        Some("partly done".into()),
        sign(&key, "round two"),
        public(&key),
        "round 2".into(),
    );
    assert_eq!(r, Err(EscrowError::InvalidSignature));

    let text = "round two".to_string();
    let payouts = registry
        .submit_investigation_round(
            &ctx_at(&oracle, 0, 20),
            id.clone(),
            "m1".into(),
            2,
            "analysis".into(),
            "findings".into(),
            90,
            false,
            Some(Resolution::Split { freelancer_pct: 60 }),
            Some("partly done".into()),
            sign(&key, &text),
            public(&key),
            text,
        )
        .unwrap();
    assert_eq!(payouts.to_owner, 2);

    let dispute = registry.get_dispute(id.clone(), "m1".into()).unwrap();
    assert_eq!(dispute.status, DisputeStatus::AiResolved);
    assert_eq!(dispute.investigation_rounds.len(), 2);
    assert_eq!(dispute.explanation, Some("partly done".to_string()));

    // before the deadline, without acceptance
    assert_eq!(
        registry.finalize_resolution(&ctx_at(&oracle, 0, 21), id.clone(), "m1".into()),
        Err(EscrowError::DeadlineNotReached)
    );
    assert_eq!(
        registry.accept_resolution(&ctx_at(&alice(), 0, 22), id.clone(), "m1".into()),
        Ok(false)
    );
    assert_eq!(
        registry.accept_resolution(&ctx_at(&bob(), 0, 23), id.clone(), "m1".into()),
        Ok(true)
    );
    let payouts =
        registry.release_dispute_funds(id.clone(), "m1".into()).unwrap();
    assert_eq!(payouts, Payouts { to_freelancer: 60, to_client: 40, to_owner: 0, to_caller: 0 });
    assert_eq!(
        registry.release_dispute_funds(id.clone(), "m1".into()),
        Err(EscrowError::FundsAlreadyReleased)
    );
    let escrow = registry.get_contract(id.clone()).unwrap();
    assert_eq!(escrow.milestones[0].status, MilestoneStatus::Completed);
    let payouts = registry.complete_contract_security(id).unwrap();
    assert_eq!(payouts.to_freelancer, 8);
}

#[test]
fn appeal_and_override_through_the_registry() {
    let key = signer(11);
    let (mut registry, id) = registry_with_dispute(&key);
    let oracle = "oracle.testnet".to_string();
    let text = "first".to_string();
    registry
        .submit_ai_resolution(
            &ctx_at(&oracle, 0, 0),
            id.clone(),
            "m1".into(),
            Resolution::Freelancer,
            "done".into(),
            sign(&key, &text),
            public(&key),
            text,
        )
        .unwrap();
    registry.appeal_resolution(&ctx_at(&alice(), 0, 1), id.clone(), "m1".into()).unwrap();
    let text = "second".to_string();
    registry
        .submit_ai_resolution(
            &ctx_at(&oracle, 0, 2),
            id.clone(),
            "m1".into(),
            Resolution::Client,
            "not done".into(),
            sign(&key, &text),
            public(&key),
            text,
        )
        .unwrap();
    let dispute = registry.get_dispute(id.clone(), "m1".into()).unwrap();
    assert_eq!(dispute.status, DisputeStatus::AppealResolved);
    registry
        .finalize_resolution(&ctx_at(&oracle, 0, 2 + DISPUTE_DEADLINE_NS), id.clone(), "m1".into())
        .unwrap();
    registry
        .override_to_continue_work(&ctx_at(&alice(), 0, 5), id.clone(), "m1".into())
        .unwrap();
    let escrow = registry.get_contract(id.clone()).unwrap();
    assert_eq!(escrow.milestones[0].status, MilestoneStatus::InProgress);
    assert_eq!(
        escrow.milestones[0].payment_request_blocked_until_ns,
        Some(5 + 172_800_000_000_000)
    );
    assert_eq!(
        registry.request_payment(&ctx_at(&bob(), 0, 6), id.clone(), "m1".into()),
        Err(EscrowError::CooldownActive)
    );
    registry.cancel_payment_request(&ctx_at(&bob(), 0, 6), id.clone(), "m1".into()).unwrap_err();
    let later = 5 + 172_800_000_000_000;
    registry.request_payment(&ctx_at(&bob(), 0, later), id.clone(), "m1".into()).unwrap();
    registry.cancel_payment_request(&ctx_at(&bob(), 0, later), id.clone(), "m1".into()).unwrap();
    registry.request_payment(&ctx_at(&bob(), 0, later), id.clone(), "m1".into()).unwrap();
    let payouts = registry
        .auto_approve_payment(
            &ctx_at(&"anyone.testnet".to_string(), 0, later + 172_800_000_000_000),
            id,
            "m1".into(),
        )
        .unwrap();
    assert_eq!(payouts.to_freelancer, 100);
}
