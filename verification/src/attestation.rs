//! Authentication of the oracle's submissions: an Ed25519 signature over the
//! attested text, by a signer on the owner's allow-list.

use crate::types::byte_rows;
use vstd::prelude::*;

verus! {

/// What `near_sdk::env::ed25519_verify` returns for a signature of 64 bytes,
/// the UTF-8 encoding of a text and a public key of 32 bytes.
pub uninterp spec fn ed25519_accepts(signature: Seq<u8>, text: Seq<char>, public_key: Seq<u8>) -> bool;

/// What the check of an attestation found.
#[derive(Clone, Copy, PartialEq, Eq, Structural, Debug)]
pub enum AttestationCheck {
    /// The signature is valid and the signer is trusted.
    Accepted,
    /// The signature or the key has the wrong length, or the signature does
    /// not verify.
    InvalidSignature,
    /// The signature verifies, but the signer is not on the allow-list.
    UntrustedSigner,
}

/// Whether a signature over a text verifies against a key.
pub open spec fn signature_valid(signature: Seq<u8>, text: Seq<char>, public_key: Seq<u8>) -> bool {
    signature.len() == 64 && public_key.len() == 32 && ed25519_accepts(
        signature,
        text,
        public_key,
    )
}

/// The check of an attestation against an allow-list of signer keys.
pub open spec fn attestation_check(
    trusted: Seq<Seq<u8>>,
    signature: Seq<u8>,
    text: Seq<char>,
    public_key: Seq<u8>,
) -> AttestationCheck {
    if !signature_valid(signature, text, public_key) {
        AttestationCheck::InvalidSignature
    } else if !trusted.contains(public_key) {
        AttestationCheck::UntrustedSigner
    } else {
        AttestationCheck::Accepted
    }
}

/// Calls `near_sdk::env::ed25519_verify` on the signature, the UTF-8 bytes of
/// the text and the public key. Nothing is proved of the verification itself:
/// the result is taken to be what that function returns on these three values.
#[verifier::external_body]
fn ed25519_verify(signature: &Vec<u8>, text: &String, public_key: &Vec<u8>) -> (ok: bool)
    requires
        signature@.len() == 64,
        public_key@.len() == 32,
    ensures
        ok == ed25519_accepts(signature@, text@, public_key@),
{
    let signature: &[u8; 64] = signature.as_slice().try_into().unwrap();
    let public_key: &[u8; 32] = public_key.as_slice().try_into().unwrap();
    near_sdk::env::ed25519_verify(signature, text.as_bytes(), public_key)
}

/// Whether a signature over a text verifies against a key.
pub fn verify_signature(signature: &Vec<u8>, text: &String, public_key: &Vec<u8>) -> (ok: bool)
    ensures
        ok == signature_valid(signature@, text@, public_key@),
{
    if signature.len() != 64 || public_key.len() != 32 {
        false
    } else {
        ed25519_verify(signature, text, public_key)
    }
}

/// Whether two byte vectors hold the same bytes.
pub fn bytes_equal(a: &Vec<u8>, b: &Vec<u8>) -> (r: bool)
    ensures
        r == (a@ == b@),
{
    if a.len() != b.len() {
        return false;
    }
    let mut i: usize = 0;
    while i < a.len()
        invariant
            i <= a@.len(),
            a@.len() == b@.len(),
            forall|j: int| 0 <= j < i ==> a@[j] == b@[j],
        decreases a@.len() - i,
    {
        if a[i] != b[i] {
            return false;
        }
        i += 1;
    }
    assert(a@ =~= b@);
    true
}

/// Whether a key is on the allow-list.
pub fn is_trusted(trusted: &Vec<Vec<u8>>, public_key: &Vec<u8>) -> (r: bool)
    ensures
        r == byte_rows(trusted@).contains(public_key@),
{
    let mut i: usize = 0;
    while i < trusted.len()
        invariant
            i <= trusted@.len(),
            forall|j: int| 0 <= j < i ==> byte_rows(trusted@)[j] != public_key@,
        decreases trusted@.len() - i,
    {
        if bytes_equal(&trusted[i], public_key) {
            assert(byte_rows(trusted@)[i as int] == public_key@);
            return true;
        }
        i += 1;
    }
    false
}

/// Checks an attestation against an allow-list of signer keys.
pub fn check_attestation(
    trusted: &Vec<Vec<u8>>,
    signature: &Vec<u8>,
    text: &String,
    public_key: &Vec<u8>,
) -> (r: AttestationCheck)
    ensures
        r == attestation_check(byte_rows(trusted@), signature@, text@, public_key@),
{
    if !verify_signature(signature, text, public_key) {
        AttestationCheck::InvalidSignature
    } else if !is_trusted(trusted, public_key) {
        AttestationCheck::UntrustedSigner
    } else {
        AttestationCheck::Accepted
    }
}

} // verus!
