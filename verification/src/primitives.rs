//! The two cryptographic primitives a price update rests on: keccak256 and
//! recoverable ECDSA over secp256k1.
//!
//! The arithmetic itself belongs to `tiny-keccak` and `k256`. Every function
//! here takes and returns plain bytes, so that the rest of the library can be
//! stated and proved without knowing how either crate represents a key, a
//! signature or a curve point. Which byte strings are signatures, recovery ids
//! and signing keys is stated exactly; what a hash, a signature or a recovered
//! key *is* only gets a name.

use k256::ecdsa::{RecoveryId, Signature, SigningKey, VerifyingKey};
use tiny_keccak::{Hasher, Keccak};
use vstd::prelude::*;

verus! {

/// The number a byte string denotes, most significant byte first.
pub open spec fn big_endian(bytes: Seq<u8>) -> nat
    decreases bytes.len(),
{
    if bytes.len() == 0 {
        0
    } else {
        256 * big_endian(bytes.drop_last()) + bytes.last() as nat
    }
}

/// The order of the secp256k1 group.
pub open spec fn curve_order() -> nat {
    0xFFFF_FFFF_FFFF_FFFF_FFFF_FFFF_FFFF_FFFE_BAAE_DCE6_AF48_A03B_BFD2_5E8C_D036_4141nat
}

/// Whether a byte string denotes a non-zero element of the scalar field.
pub open spec fn is_scalar(bytes: Seq<u8>) -> bool {
    0 < big_endian(bytes) < curve_order()
}

/// A fixed-width signature: `r` then `s`, 32 bytes each, both non-zero scalars.
pub open spec fn well_formed_signature(signature: Seq<u8>) -> bool {
    &&& signature.len() == 64
    &&& is_scalar(signature.subrange(0, 32))
    &&& is_scalar(signature.subrange(32, 64))
}

/// A recovery id is two bits.
pub open spec fn valid_recovery_id(recovery_id: u8) -> bool {
    recovery_id <= 3
}

/// A signing key is a 32-byte non-zero scalar.
pub open spec fn valid_signing_key(scalar: Seq<u8>) -> bool {
    scalar.len() == 32 && is_scalar(scalar)
}

/// The keccak256 digest of a byte string, as `tiny_keccak::Keccak::v256`
/// computes it.
pub uninterp spec fn keccak256_digest(data: Seq<u8>) -> Seq<u8>;

/// The signature and recovery id that `SigningKey::sign_prehash_recoverable`
/// gives for a signing key and a digest, if it gives one.
pub uninterp spec fn recoverable_signature(scalar: Seq<u8>, digest: Seq<u8>) -> Option<
    (Seq<u8>, u8),
>;

/// The public key that `VerifyingKey::recover_from_prehash` recovers from a
/// digest, a signature and a recovery id, in uncompressed SEC1 form, if it
/// recovers one.
pub uninterp spec fn recovered_key(digest: Seq<u8>, signature: Seq<u8>, recovery_id: u8) -> Option<
    Seq<u8>,
>;

/// The public key of a signing key, in uncompressed SEC1 form: the
/// `SigningKey::verifying_key` that is recovered from whatever the key signs.
pub uninterp spec fn public_key(scalar: Seq<u8>) -> Seq<u8>;

/// The error that `k256` reports for signatures and keys alike. It carries
/// nothing that a caller could act on.
#[verifier::external_type_specification]
#[verifier::external_body]
pub struct ExEcdsaError(k256::ecdsa::Error);

/// `tiny_keccak::Keccak::v256`, fed once and finalized into 32 bytes.
///
/// Claims only that the digest is a function of the data, which
/// [`keccak256_digest`] names.
#[verifier::external_body]
pub(crate) fn hash_keccak256(data: &[u8]) -> (digest: [u8; 32])
    ensures
        digest@ == keccak256_digest(data@),
{
    let mut hasher = Keccak::v256();
    hasher.update(data);
    let mut out = [0u8; 32];
    hasher.finalize(&mut out);
    out
}

/// `k256::ecdsa::SigningKey::from_bytes`, asked only whether it accepts.
///
/// Claims that it accepts exactly the non-zero scalars.
#[verifier::external_body]
pub(crate) fn is_valid_signing_key(scalar: &[u8; 32]) -> (accepted: bool)
    ensures
        accepted == valid_signing_key(scalar@),
{
    SigningKey::from_bytes(&(*scalar).into()).is_ok()
}

/// `k256::ecdsa::SigningKey::sign_prehash_recoverable`.
///
/// Signing is deterministic (RFC 6979), so the result is a function of the key
/// and the digest, which [`recoverable_signature`] names. Claims besides that
/// what comes out is a well-formed signature with a valid recovery id, and that
/// recovering from it gives back the signer's own public key. Whether signing
/// succeeds is not claimed: the crate refuses a signature with a zero component.
#[verifier::external_body]
pub(crate) fn sign_recoverable(scalar: &[u8; 32], digest: &[u8; 32]) -> (signed: Result<
    (Vec<u8>, u8),
    k256::ecdsa::Error,
>)
    requires
        valid_signing_key(scalar@),
    ensures
        signed is Ok <==> recoverable_signature(scalar@, digest@) is Some,
        signed matches Ok((signature, recovery_id)) ==> {
            &&& recoverable_signature(scalar@, digest@) == Some((signature@, recovery_id))
            &&& well_formed_signature(signature@)
            &&& valid_recovery_id(recovery_id)
            &&& recovered_key(digest@, signature@, recovery_id) == Some(public_key(scalar@))
        },
{
    let key = SigningKey::from_bytes(&(*scalar).into())?;
    let (signature, recovery_id) = key.sign_prehash_recoverable(digest)?;
    Ok((signature.to_bytes().to_vec(), recovery_id.to_byte()))
}

/// `k256::ecdsa::VerifyingKey::recover_from_prehash` on a signature that
/// `Signature::from_slice` parses and a recovery id that `RecoveryId::from_byte`
/// reads, with the recovered key written out uncompressed by
/// `to_encoded_point(false)`. The three stand together so that a signature is
/// parsed once: what parsing gives has no form outside the crate.
///
/// Claims that the parser refuses, with the outer error, exactly what is not a
/// [`well_formed_signature`]; that the recovery id is refused, with `None`,
/// exactly when it is not below four; that the outcome of the recovery itself is
/// a function of the digest, the signature and the recovery id, which
/// [`recovered_key`] names; and that an uncompressed key is 65 bytes long.
#[verifier::external_body]
pub(crate) fn recover_key(digest: &[u8; 32], signature: &[u8], recovery_id: u8) -> (parsed: Result<
    Option<Result<Vec<u8>, k256::ecdsa::Error>>,
    k256::ecdsa::Error,
>)
    ensures
        parsed is Ok <==> well_formed_signature(signature@),
        parsed matches Ok(identified) ==> (identified is Some <==> valid_recovery_id(recovery_id)),
        parsed matches Ok(Some(recovered)) ==> (recovered is Ok <==> recovered_key(
            digest@,
            signature@,
            recovery_id,
        ) is Some),
        parsed matches Ok(Some(Ok(key))) ==> {
            &&& recovered_key(digest@, signature@, recovery_id) == Some(key@)
            &&& key@.len() == 65
        },
{
    let signature = Signature::from_slice(signature)?;
    let recovery_id = match RecoveryId::from_byte(recovery_id) {
        Some(recovery_id) => recovery_id,
        None => return Ok(None),
    };
    match VerifyingKey::recover_from_prehash(digest, &signature, recovery_id) {
        Ok(key) => Ok(Some(Ok(key.to_encoded_point(false).as_bytes().to_vec()))),
        Err(error) => Ok(Some(Err(error))),
    }
}

/// A byte string is read as a number from its front: one more byte is one more
/// digit to the base 256.
pub proof fn law_big_endian(bytes: Seq<u8>, byte: u8)
    ensures
        big_endian(Seq::empty()) == 0,
        big_endian(bytes.push(byte)) == 256 * big_endian(bytes) + byte,
{
    assert(bytes.push(byte).drop_last() =~= bytes);
}

/// A signature is 64 bytes, two numbers of 32 each, and both are above zero and
/// below the order of the group.
pub proof fn law_well_formed_signature(r: Seq<u8>, s: Seq<u8>)
    requires
        r.len() == 32,
        s.len() == 32,
    ensures
        well_formed_signature(r + s) <==> 0 < big_endian(r) < curve_order() && 0 < big_endian(s)
            < curve_order(),
        forall|signature: Seq<u8>| #[trigger]
            well_formed_signature(signature) ==> signature.len() == 64,
{
    assert((r + s).subrange(0, 32) =~= r);
    assert((r + s).subrange(32, 64) =~= s);
}

} // verus!
