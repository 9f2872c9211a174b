//! Identifiers and tokens as text: numbers written in decimal and in
//! lower-case hexadecimal, without leading zeros.

use vstd::prelude::*;

verus! {

/// The character that writes the digit `d`, for `d` below 16.
pub open spec fn digit_char(d: int) -> char {
    if d == 0 {
        '0'
    } else if d == 1 {
        '1'
    } else if d == 2 {
        '2'
    } else if d == 3 {
        '3'
    } else if d == 4 {
        '4'
    } else if d == 5 {
        '5'
    } else if d == 6 {
        '6'
    } else if d == 7 {
        '7'
    } else if d == 8 {
        '8'
    } else if d == 9 {
        '9'
    } else if d == 10 {
        'a'
    } else if d == 11 {
        'b'
    } else if d == 12 {
        'c'
    } else if d == 13 {
        'd'
    } else if d == 14 {
        'e'
    } else {
        'f'
    }
}

/// The digits of `n` in base `radix`, most significant first.
pub open spec fn radix_text(n: nat, radix: nat) -> Seq<char>
    decreases n,
    via radix_text_terminates
{
    if radix < 2 || n < radix {
        seq![digit_char(n as int)]
    } else {
        radix_text(n / radix, radix).push(digit_char((n % radix) as int))
    }
}

#[via_fn]
proof fn radix_text_terminates(n: nat, radix: nat) {
    if !(radix < 2 || n < radix) {
        lemma_quotient_smaller(n, radix);
    }
}

/// Dividing by two or more makes a positive number smaller.
proof fn lemma_quotient_smaller(n: nat, radix: nat)
    requires
        2 <= radix <= n,
    ensures
        n / radix < n,
{
    assert(n / radix < n) by (nonlinear_arith)
        requires
            2 <= radix <= n,
    ;
}

/// `n` in decimal.
pub open spec fn decimal_text(n: nat) -> Seq<char> {
    radix_text(n, 10)
}

/// `n` in lower-case hexadecimal.
pub open spec fn hex_text(n: nat) -> Seq<char> {
    radix_text(n, 16)
}

/// The id of the `n`-th contract: `c` and the number in decimal.
pub open spec fn contract_id_text(n: nat) -> Seq<char> {
    seq!['c'] + decimal_text(n)
}

/// The id of the `n`-th milestone of a contract: `m` and the number in decimal.
pub open spec fn milestone_id_text(n: nat) -> Seq<char> {
    seq!['m'] + decimal_text(n)
}

/// The number that a seed folds to: each byte shifts the number by eight
/// bits, keeping 64, and adds itself.
pub open spec fn seed_value(seed: Seq<u8>) -> nat
    decreases seed.len(),
{
    if seed.len() == 0 {
        0
    } else {
        ((seed_value(seed.drop_last()) * 256 + seed.last()) % 0x1_0000_0000_0000_0000) as nat
    }
}

/// The invite token that a seed gives: its folded number in hexadecimal.
pub open spec fn invite_token_text(seed: Seq<u8>) -> Seq<char> {
    hex_text(seed_value(seed))
}

/// A number has at least one digit.
pub proof fn lemma_radix_text_nonempty(n: nat, radix: nat)
    ensures
        radix_text(n, radix).len() >= 1,
    decreases n,
{
    if !(radix < 2 || n < radix) {
        lemma_quotient_smaller(n, radix);
        lemma_radix_text_nonempty(n / radix, radix);
    }
}

/// Different decimal digits are written differently.
proof fn lemma_digit_char_injective(x: int, y: int)
    requires
        0 <= x < 10,
        0 <= y < 10,
        digit_char(x) == digit_char(y),
    ensures
        x == y,
{
}

/// Different numbers are written differently in decimal.
pub proof fn lemma_decimal_text_injective(a: nat, b: nat)
    requires
        decimal_text(a) == decimal_text(b),
    ensures
        a == b,
    decreases a,
{
    if a < 10 && b < 10 {
        assert(decimal_text(a)[0] == digit_char(a as int));
        assert(decimal_text(b)[0] == digit_char(b as int));
        lemma_digit_char_injective(a as int, b as int);
    } else if a < 10 {
        lemma_quotient_smaller(b, 10);
        lemma_radix_text_nonempty(b / 10, 10);
        assert(decimal_text(a).len() == 1);
        assert(decimal_text(b).len() >= 2);
    } else if b < 10 {
        lemma_quotient_smaller(a, 10);
        lemma_radix_text_nonempty(a / 10, 10);
        assert(decimal_text(b).len() == 1);
        assert(decimal_text(a).len() >= 2);
    } else {
        lemma_quotient_smaller(a, 10);
        let ta = radix_text(a / 10, 10);
        let tb = radix_text(b / 10, 10);
        let da = digit_char((a % 10) as int);
        let db = digit_char((b % 10) as int);
        assert(decimal_text(a) == ta.push(da));
        assert(decimal_text(b) == tb.push(db));
        assert(ta.push(da).drop_last() =~= ta);
        assert(tb.push(db).drop_last() =~= tb);
        assert(ta.push(da).last() == da);
        assert(tb.push(db).last() == db);
        assert(ta == tb);
        assert(da == db);
        lemma_decimal_text_injective(a / 10, b / 10);
        lemma_digit_char_injective((a % 10) as int, (b % 10) as int);
        assert(a % 10 == b % 10);
        assert(a == 10 * (a / 10) + a % 10);
        assert(b == 10 * (b / 10) + b % 10);
    }
}

/// Different milestones of a contract have different ids.
pub proof fn lemma_milestone_ids_differ(a: nat, b: nat)
    requires
        a != b,
    ensures
        milestone_id_text(a) != milestone_id_text(b),
{
    if milestone_id_text(a) == milestone_id_text(b) {
        assert(milestone_id_text(a).subrange(1, milestone_id_text(a).len() as int)
            =~= decimal_text(a));
        assert(milestone_id_text(b).subrange(1, milestone_id_text(b).len() as int)
            =~= decimal_text(b));
        lemma_decimal_text_injective(a, b);
    }
}

/// Different contracts have different ids.
pub proof fn lemma_contract_ids_differ(a: nat, b: nat)
    requires
        a != b,
    ensures
        contract_id_text(a) != contract_id_text(b),
{
    if contract_id_text(a) == contract_id_text(b) {
        assert(contract_id_text(a).subrange(1, contract_id_text(a).len() as int)
            =~= decimal_text(a));
        assert(contract_id_text(b).subrange(1, contract_id_text(b).len() as int)
            =~= decimal_text(b));
        lemma_decimal_text_injective(a, b);
    }
}

/// The text of one digit.
fn digit_str(d: u64) -> (r: &'static str)
    requires
        d < 16,
    ensures
        r@ == seq![digit_char(d as int)],
{
    proof {
        reveal_strlit("0");
        reveal_strlit("1");
        reveal_strlit("2");
        reveal_strlit("3");
        reveal_strlit("4");
        reveal_strlit("5");
        reveal_strlit("6");
        reveal_strlit("7");
        reveal_strlit("8");
        reveal_strlit("9");
        reveal_strlit("a");
        reveal_strlit("b");
        reveal_strlit("c");
        reveal_strlit("d");
        reveal_strlit("e");
        reveal_strlit("f");
    }
    let r = if d == 0 {
        "0"
    } else if d == 1 {
        "1"
    } else if d == 2 {
        "2"
    } else if d == 3 {
        "3"
    } else if d == 4 {
        "4"
    } else if d == 5 {
        "5"
    } else if d == 6 {
        "6"
    } else if d == 7 {
        "7"
    } else if d == 8 {
        "8"
    } else if d == 9 {
        "9"
    } else if d == 10 {
        "a"
    } else if d == 11 {
        "b"
    } else if d == 12 {
        "c"
    } else if d == 13 {
        "d"
    } else if d == 14 {
        "e"
    } else {
        "f"
    };
    assert(r@ =~= seq![digit_char(d as int)]);
    r
}

/// Appends the digits of `n` in base `radix` to `out`.
fn append_radix(out: &mut String, n: u64, radix: u64)
    requires
        2 <= radix <= 16,
    ensures
        final(out)@ == old(out)@ + radix_text(n as nat, radix as nat),
    decreases n,
{
    if n < radix {
        out.append(digit_str(n));
    } else {
        proof {
            lemma_quotient_smaller(n as nat, radix as nat);
        }
        append_radix(out, n / radix, radix);
        out.append(digit_str(n % radix));
        assert(out@ =~= old(out)@ + radix_text(n as nat, radix as nat));
    }
}

/// The id of the `n`-th contract.
pub fn contract_id(n: u64) -> (r: String)
    ensures
        r@ == contract_id_text(n as nat),
{
    proof {
        reveal_strlit("c");
    }
    let mut r = String::from_str("c");
    append_radix(&mut r, n, 10);
    assert(r@ =~= contract_id_text(n as nat));
    r
}

/// The id of the `n`-th milestone of a contract.
pub fn milestone_id(n: u64) -> (r: String)
    ensures
        r@ == milestone_id_text(n as nat),
{
    proof {
        reveal_strlit("m");
    }
    let mut r = String::from_str("m");
    append_radix(&mut r, n, 10);
    assert(r@ =~= milestone_id_text(n as nat));
    r
}

/// Folding one more byte into a number of 64 bits.
proof fn lemma_fold_byte(acc: u64, b: u8)
    ensures
        (acc % 0x100_0000_0000_0000) * 256 + b == (acc * 256 + b) % 0x1_0000_0000_0000_0000,
        (acc % 0x100_0000_0000_0000) * 256 + b <= u64::MAX,
{
    let low = acc % 0x100_0000_0000_0000;
    let high = acc / 0x100_0000_0000_0000;
    assert(acc == high * 0x100_0000_0000_0000 + low) by (nonlinear_arith)
        requires
            low == acc % 0x100_0000_0000_0000,
            high == acc / 0x100_0000_0000_0000,
    ;
    assert(acc * 256 + b == high * 0x1_0000_0000_0000_0000 + (low * 256 + b)) by (nonlinear_arith)
        requires
            acc == high * 0x100_0000_0000_0000 + low,
    ;
    assert(0 <= low * 256 + b < 0x1_0000_0000_0000_0000) by (nonlinear_arith)
        requires
            0 <= low < 0x100_0000_0000_0000,
            0 <= b < 256,
    ;
    vstd::arithmetic::div_mod::lemma_fundamental_div_mod_converse(
        acc * 256 + b,
        0x1_0000_0000_0000_0000,
        high as int,
        low * 256 + b,
    );
}

/// The invite token that a seed gives.
pub fn invite_token(seed: &Vec<u8>) -> (r: String)
    ensures
        r@ == invite_token_text(seed@),
{
    let mut acc: u64 = 0;
    let mut i: usize = 0;
    while i < seed.len()
        invariant
            i <= seed@.len(),
            acc == seed_value(seed@.subrange(0, i as int)),
        decreases seed@.len() - i,
    {
        proof {
            lemma_fold_byte(acc, seed@[i as int]);
            let next = seed@.subrange(0, i + 1);
            assert(next.drop_last() =~= seed@.subrange(0, i as int));
            assert(next.last() == seed@[i as int]);
        }
        acc = (acc % 0x100_0000_0000_0000) * 256 + seed[i] as u64;
        i += 1;
    }
    assert(seed@.subrange(0, i as int) =~= seed@);
    let mut r = String::new();
    append_radix(&mut r, acc, 16);
    assert(r@ =~= invite_token_text(seed@));
    r
}

} // verus!
