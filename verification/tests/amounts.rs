use milestone_escrow::amounts::{security_part, split_part};
use milestone_escrow::text::{contract_id, invite_token, milestone_id};

#[test]
fn security_part_of_eleven_at_ten_percent_is_one() {
    assert_eq!(security_part(11, 10), 1);
}

#[test]
fn security_part_rounds_down() {
    // 1000 * 30 / 130 = 230.76...
    assert_eq!(security_part(1000, 30), 230);
    // 104 * 5 / 105 = 4.95...
    assert_eq!(security_part(104, 5), 4);
    assert_eq!(security_part(105, 5), 5);
    assert_eq!(security_part(0, 10), 0);
    assert_eq!(security_part(1, 30), 0);
}

#[test]
fn security_part_of_the_largest_deposit_does_not_overflow() {
    assert_eq!(security_part(u128::MAX, 30), 78526700058678106953086447868869587258);
    assert_eq!(security_part(u128::MAX, 5), 16203922234330403022065457496750867212);
}

#[test]
fn security_part_in_token_units() {
    // 11 NEAR at 10%: 1 NEAR of security, 10 NEAR for the milestones.
    assert_eq!(
        security_part(11_000_000_000_000_000_000_000_000, 10),
        1_000_000_000_000_000_000_000_000
    );
}

#[test]
fn split_part_is_the_percentage_rounded_down() {
    assert_eq!(split_part(100, 60), Some(60));
    assert_eq!(split_part(101, 33), Some(33));
    assert_eq!(split_part(99, 50), Some(49));
    assert_eq!(split_part(7, 0), Some(0));
    assert_eq!(split_part(7, 100), Some(7));
    assert_eq!(split_part(0, 60), Some(0));
}

#[test]
fn split_part_of_the_largest_amount_does_not_overflow() {
    assert_eq!(split_part(u128::MAX, 50), Some(170141183460469231731687303715884105727));
    assert_eq!(split_part(u128::MAX, 99), Some(336879543251729078828740861357450529340));
    assert_eq!(split_part(u128::MAX, 1), Some(3402823669209384634633746074317682114));
    assert_eq!(split_part(u128::MAX, 100), Some(u128::MAX));
}

#[test]
fn split_part_rejects_more_than_a_hundred_percent() {
    assert_eq!(split_part(100, 101), None);
    assert_eq!(split_part(100, 255), None);
}

#[test]
fn split_parts_make_the_amount() {
    let amounts: [u128; 5] = [0, 1, 99, 12345, u128::MAX];
    for amount in amounts {
        for pct in 0..=100u8 {
            let freelancer = split_part(amount, pct).unwrap();
            let client = amount - freelancer;
            assert_eq!(freelancer + client, amount);
            assert!(freelancer <= amount);
        }
    }
}

#[test]
fn ids_are_a_letter_and_the_number_in_decimal() {
    assert_eq!(contract_id(1), "c1");
    assert_eq!(contract_id(0), "c0");
    assert_eq!(contract_id(10), "c10");
    assert_eq!(contract_id(u64::MAX), "c18446744073709551615");
    assert_eq!(milestone_id(1), "m1");
    assert_eq!(milestone_id(12), "m12");
    assert_eq!(milestone_id(909), "m909");
}

#[test]
fn invite_token_is_the_folded_seed_in_hexadecimal() {
    assert_eq!(invite_token(&vec![]), "0");
    assert_eq!(invite_token(&vec![0xab]), "ab");
    assert_eq!(invite_token(&vec![1, 2]), "102");
    assert_eq!(invite_token(&vec![7u8; 32]), "707070707070707");
    assert_eq!(invite_token(&vec![1, 2, 3, 4, 5, 6, 7, 8, 9, 10]), "30405060708090a");
    assert_eq!(invite_token(&vec![0xff; 8]), "ffffffffffffffff");
}

#[test]
fn invite_token_agrees_with_wrapping_arithmetic() {
    let seeds: Vec<Vec<u8>> = vec![
        vec![],
        vec![0],
        vec![255, 0, 17],
        (0..=255u8).collect(),
        vec![0x80, 0, 0, 0, 0, 0, 0, 0, 1],
    ];
    for seed in seeds {
        let folded = seed
            .iter()
            .fold(0u64, |acc, &b| acc.wrapping_mul(256).wrapping_add(b as u64));
        assert_eq!(invite_token(&seed), format!("{:x}", folded));
    }
}
