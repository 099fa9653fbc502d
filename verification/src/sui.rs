use vstd::prelude::*;

use crate::digest::blake2b256_of;
use crate::intent::Address;

verus! {

/// The id of the dynamic field of `parent` whose key has Move type
/// `key_type` (its canonical text, such as `u64`) and BCS bytes `key`.
pub uninterp spec fn dynamic_child_id(parent: Seq<u8>, key_type: Seq<char>, key: Seq<u8>) -> Seq<u8>;

/// The id of the object derived from `parent` under a key of Move type
/// `key_type` and BCS bytes `key`.
pub uninterp spec fn derived_object_id(parent: Seq<u8>, key_type: Seq<char>, key: Seq<u8>) -> Seq<u8>;

/// The Ed25519 public key of a 32-byte secret seed.
pub uninterp spec fn ed25519_public_of(seed: Seq<u8>) -> Seq<u8>;

/// The Ed25519 signature of `msg` under a secret seed (Ed25519 signing is
/// deterministic).
pub uninterp spec fn ed25519_signature_of(seed: Seq<u8>, msg: Seq<u8>) -> Seq<u8>;

/// Whether `sig` is a valid Ed25519 signature of `msg` under public key `pk`
/// (false when `pk` is no curve point or `sig` has the wrong length).
pub uninterp spec fn ed25519_verifies(pk: Seq<u8>, msg: Seq<u8>, sig: Seq<u8>) -> bool;

/// `Address::derive_dynamic_child_id` with a `u64` key type.
#[verifier::external_body]
pub(crate) fn child_id_u64_key(parent: &Address, key: &[u8]) -> (r: Address)
    ensures
        r@ == dynamic_child_id(parent@, "u64"@, key@),
{
    sui_sdk_types::Address::new(*parent)
        .derive_dynamic_child_id(&sui_sdk_types::TypeTag::U64, key)
        .into_inner()
}

/// `Address::derive_dynamic_child_id` with an `address` key type.
#[verifier::external_body]
pub(crate) fn child_id_address_key(parent: &Address, key: &[u8]) -> (r: Address)
    ensures
        r@ == dynamic_child_id(parent@, "address"@, key@),
{
    sui_sdk_types::Address::new(*parent)
        .derive_dynamic_child_id(&sui_sdk_types::TypeTag::Address, key)
        .into_inner()
}

/// `Address::derive_object_id` with a `u64` key type.
#[verifier::external_body]
pub(crate) fn derived_id_u64_key(parent: &Address, key: &[u8]) -> (r: Address)
    ensures
        r@ == derived_object_id(parent@, "u64"@, key@),
{
    sui_sdk_types::Address::new(*parent)
        .derive_object_id(&sui_sdk_types::TypeTag::U64, key)
        .into_inner()
}

/// `Ed25519PublicKey::derive_address`: the BLAKE2b-256 hash of the Ed25519
/// scheme flag (0) followed by the public key.
#[verifier::external_body]
pub(crate) fn ed25519_address(pk: &Address) -> (r: Address)
    ensures
        r@ == blake2b256_of(seq![0u8] + pk@),
{
    sui_sdk_types::Ed25519PublicKey::new(*pk).derive_address().into_inner()
}

/// `ed25519_dalek::SigningKey::from_bytes(seed).verifying_key().to_bytes()`.
#[verifier::external_body]
pub(crate) fn ed25519_public_key(seed: &Address) -> (r: Address)
    ensures
        r@ == ed25519_public_of(seed@),
{
    ed25519_dalek::SigningKey::from_bytes(seed).verifying_key().to_bytes()
}

/// `ed25519_dalek::SigningKey::sign` on `msg` with the key of `seed`.
#[verifier::external_body]
pub(crate) fn ed25519_sign(seed: &Address, msg: &[u8]) -> (r: [u8; 64])
    ensures
        r@ == ed25519_signature_of(seed@, msg@),
{
    <ed25519_dalek::SigningKey as ed25519_dalek::Signer<ed25519_dalek::Signature>>::sign(
        &ed25519_dalek::SigningKey::from_bytes(seed),
        msg,
    ).to_bytes()
}

/// Whether 32 bytes are the compressed form of a curve point, so that
/// `VerifyingKey::from_bytes` accepts them as a public key.
pub uninterp spec fn ed25519_key_valid(pk: Seq<u8>) -> bool;

/// Why an Ed25519 check failed, with the outside error's message: the public
/// key is no curve point, the signature is not 64 bytes, or it does not
/// verify.
pub enum Ed25519Refusal {
    Key(String),
    Signature(String),
    Mismatch(String),
}

/// `VerifyingKey::from_bytes(pk)`, then `Signature::from_slice(sig)`, then
/// `VerifyingKey::verify`: the first that fails says why; all succeed exactly
/// when the signature verifies. `from_slice` fails exactly on a length other
/// than 64.
#[verifier::external_body]
pub(crate) fn ed25519_check(pk: &Address, msg: &[u8], sig: &[u8]) -> (r: Result<(), Ed25519Refusal>)
    ensures
        r is Ok <==> ed25519_verifies(pk@, msg@, sig@),
        r matches Err(Ed25519Refusal::Key(_)) <==> !ed25519_key_valid(pk@),
        ed25519_key_valid(pk@) ==> (r matches Err(Ed25519Refusal::Signature(_)) <==> sig@.len() != 64),
{
    let key = match ed25519_dalek::VerifyingKey::from_bytes(pk) {
        Ok(k) => k,
        Err(e) => return Err(Ed25519Refusal::Key(e.to_string())),
    };
    let s = match ed25519_dalek::Signature::from_slice(sig) {
        Ok(s) => s,
        Err(e) => return Err(Ed25519Refusal::Signature(e.to_string())),
    };
    match <ed25519_dalek::VerifyingKey as ed25519_dalek::Verifier<ed25519_dalek::Signature>>::verify(&key, msg, &s) {
        Ok(()) => Ok(()),
        Err(e) => Err(Ed25519Refusal::Mismatch(e.to_string())),
    }
}

} // verus!
