//! Deterministic signers, so that every measurement is reproducible.
//!
//! Signer `i` holds the 32-byte scalar whose only non-zero byte is its last,
//! the low byte of `i + 1`, and signs its own message: a single-feed data
//! package in which two bytes stand in for the signer's value and timestamp.

use crate::bench::{
    found_keys, key_checksum, package_faults, package_keys, package_views, recovered_count,
    shared_digest_fault, shared_digest_keys, signature_faults, xor_bytes, Package, PackageView,
};
use crate::first::{first_error, law_first_error};
use crate::primitives::{
    big_endian, is_valid_signing_key, keccak256_digest, public_key, recoverable_signature,
    recovered_key, sign_recoverable, valid_recovery_id, valid_signing_key, well_formed_signature,
};
use vstd::prelude::*;

verus! {

/// The signed byte range of one data package with a single data point and a
/// 32-byte value: `1 * (32 + 32) + 4 + 6 + 3`.
pub const SIGNED_BYTES: usize = 77;

/// Why a signer could not sign.
#[derive(Clone, Copy, Debug, PartialEq, Eq, Structural)]
pub enum SigningError {
    /// The signer's scalar is zero, so it is no signing key.
    InvalidKey { signer: usize },
    /// The signature scheme refused to sign this digest with this key.
    Refused { signer: usize },
}

impl SigningError {
    /// The error in words. The signature scheme has the same words for a key it
    /// does not take and for a digest it does not sign.
    pub fn message(&self) -> (text: &'static str)
        ensures
            text@ == "signature error"@,
    {
        "signature error"
    }
}

/// The bytes signer `signer` signs.
pub open spec fn signed_message(signer: nat) -> Seq<u8> {
    Seq::new(
        77,
        |j: int|
            if j == 76 {
                (signer % 256 * 7 % 256) as u8
            } else if j == 32 {
                (signer % 256) as u8
            } else {
                0x5au8
            },
    )
}

/// The scalar signer `signer` signs with.
pub open spec fn signer_scalar(signer: nat) -> Seq<u8> {
    Seq::new(
        32,
        |j: int|
            if j == 31 {
                ((signer + 1) % 256) as u8
            } else {
                0u8
            },
    )
}

/// Why signer `signer` cannot sign `digest`, if it cannot.
pub open spec fn signing_error(signer: nat, digest: Seq<u8>) -> Option<SigningError> {
    if (signer + 1) % 256 == 0 {
        Some(SigningError::InvalidKey { signer: signer as usize })
    } else if recoverable_signature(signer_scalar(signer), digest) is None {
        Some(SigningError::Refused { signer: signer as usize })
    } else {
        None
    }
}

/// What keeps each of the first `n` signers from signing `digest`, if anything.
pub open spec fn signing_errors(n: nat, digest: Seq<u8>) -> Seq<Option<SigningError>> {
    Seq::new(n, |i: int| signing_error(i as nat, digest))
}

/// What keeps each of the first `n` signers from signing its own message, if
/// anything.
pub open spec fn publishing_errors(n: nat) -> Seq<Option<SigningError>> {
    Seq::new(n, |i: int| signing_error(i as nat, keccak256_digest(signed_message(i as nat))))
}

/// A signature and recovery id that signer `signer` made over `digest`, from
/// which the signer's public key is recovered.
pub open spec fn signed_by(
    signer: nat,
    digest: Seq<u8>,
    signature: Seq<u8>,
    recovery_id: u8,
) -> bool {
    let scalar = signer_scalar(signer);
    &&& valid_signing_key(scalar)
    &&& recoverable_signature(scalar, digest) == Some((signature, recovery_id))
    &&& well_formed_signature(signature)
    &&& valid_recovery_id(recovery_id)
    &&& recovered_key(digest, signature, recovery_id) == Some(public_key(scalar))
}

/// The package signer `signer` publishes.
pub open spec fn published_by(signer: nat, package: PackageView) -> bool {
    &&& package.message == signed_message(signer)
    &&& package.digest == keccak256_digest(package.message)
    &&& package.digest.len() == 32
    &&& signed_by(signer, package.digest, package.signature, package.recovery_id)
}

/// One package from each of the first `n` signers, in order.
pub open spec fn published_by_first(n: nat, packages: Seq<PackageView>) -> bool {
    &&& packages.len() == n
    &&& forall|i: int| 0 <= i < n ==> published_by(i as nat, #[trigger] packages[i])
}

/// One signature over `digest` from each of the first `n` signers, in order.
pub open spec fn signed_by_first(n: nat, digest: Seq<u8>, sigs: Seq<(Vec<u8>, u8)>) -> bool {
    &&& sigs.len() == n
    &&& forall|i: int|
        0 <= i < n ==> signed_by(i as nat, digest, (#[trigger] sigs[i]).0@, sigs[i].1)
}

/// What one recovery per signer finds: the public keys of the first `n` signers.
pub open spec fn signer_keys(n: nat) -> Seq<Option<Seq<u8>>> {
    Seq::new(n, |i: int| Some(public_key(signer_scalar(i as nat))))
}

proof fn lemma_big_endian_zeros(bytes: Seq<u8>)
    requires
        forall|j: int| 0 <= j < bytes.len() ==> bytes[j] == 0,
    ensures
        big_endian(bytes) == 0,
    decreases bytes.len(),
{
    if bytes.len() > 0 {
        lemma_big_endian_zeros(bytes.drop_last());
    }
}

/// A signer has a signing key unless its number is one short of a multiple of
/// 256, where the scalar wraps round to zero.
proof fn lemma_signer_has_key(signer: nat)
    ensures
        valid_signing_key(signer_scalar(signer)) <==> (signer + 1) % 256 != 0,
{
    let scalar = signer_scalar(signer);
    lemma_big_endian_zeros(scalar.drop_last());
    assert(big_endian(scalar) == ((signer + 1) % 256) as nat);
}

/// The bytes signer `signer` signs.
pub fn signed_bytes(signer: usize) -> (message: Vec<u8>)
    ensures
        message@ == signed_message(signer as nat),
{
    let mut message: Vec<u8> = vec![0x5au8; SIGNED_BYTES];
    let low: u8 = signer as u8;
    proof {
        assert(low == signer % 256) by (bit_vector)
            requires
                low == signer as u8,
        ;
    }
    // Stand-ins for the per-signer value and timestamp fields.
    message[32] = low;
    message[SIGNED_BYTES - 1] = low.wrapping_mul(7);
    proof {
        assert(message@ =~= signed_message(signer as nat));
    }
    message
}

/// Signs `digest` as signer `signer`.
pub fn sign_as(signer: usize, digest: &[u8; 32]) -> (signed: Result<(Vec<u8>, u8), SigningError>)
    requires
        signer < usize::MAX,
    ensures
        signed is Ok <==> signing_error(signer as nat, digest@) is None,
        signed matches Ok((signature, recovery_id)) ==> signed_by(
            signer as nat,
            digest@,
            signature@,
            recovery_id,
        ),
        signed matches Err(error) ==> signing_error(signer as nat, digest@) == Some(error),
{
    let mut scalar: [u8; 32] = [0u8; 32];
    let next: usize = signer + 1;
    scalar[31] = next as u8;
    proof {
        assert(next as u8 == next % 256) by (bit_vector);
        assert(scalar@ =~= signer_scalar(signer as nat));
        lemma_signer_has_key(signer as nat);
    }
    if !is_valid_signing_key(&scalar) {
        return Err(SigningError::InvalidKey { signer });
    }
    match sign_recoverable(&scalar, digest) {
        Ok(signed) => Ok(signed),
        Err(_) => Err(SigningError::Refused { signer }),
    }
}

/// Signers 256 apart sign the same bytes, and no others do. So any 256 signers
/// in a row sign distinct messages, and each needs a hash of its own.
pub proof fn law_messages_distinct(i: nat, k: nat)
    ensures
        signed_message(i) == signed_message(k) <==> i % 256 == k % 256,
{
    if i % 256 != k % 256 {
        assert(signed_message(i)[32] != signed_message(k)[32]);
    } else {
        assert(signed_message(i) =~= signed_message(k));
    }
}

/// There are signing keys for 255 signers and for no more: the 256th scalar is
/// zero, whatever is to be signed, and none before it is.
pub proof fn law_signer_limit(signer: nat, digest: Seq<u8>)
    ensures
        signing_error(255, digest) == Some(SigningError::InvalidKey { signer: 255 }),
        signer < 255 ==> !(signing_error(signer, digest) matches Some(
            SigningError::InvalidKey { .. },
        )),
{
}

/// The first `n` signers all sign one digest exactly when there are keys for them
/// all and the signature scheme refuses none of them. So more than 255 signers
/// always fail, and fewer only by a refusal.
pub proof fn law_signing_fails_by_refusal_alone(n: nat, digest: Seq<u8>)
    ensures
        first_error(signing_errors(n, digest)) is None <==> n <= 255 && forall|i: nat|
            i < n ==> (#[trigger] recoverable_signature(signer_scalar(i), digest)) is Some,
{
    let errors = signing_errors(n, digest);
    law_first_error(errors);
    if first_error(errors) is None {
        if n > 255 {
            assert(errors[255] is None);
        }
        assert forall|i: nat| i < n implies (#[trigger] recoverable_signature(
            signer_scalar(i),
            digest,
        )) is Some by {
            assert(errors[i as int] is None);
        }
    } else if n <= 255 {
        let i = choose|i: int| 0 <= i < n && #[trigger] errors[i] == first_error(errors);
        assert(recoverable_signature(signer_scalar(i as nat), digest) is None);
    }
}

/// The same of packages, over the digests of the signers' own messages.
pub proof fn law_publishing_fails_by_refusal_alone(n: nat)
    ensures
        first_error(publishing_errors(n)) is None <==> n <= 255 && forall|i: nat|
            i < n ==> (#[trigger] recoverable_signature(
                signer_scalar(i),
                keccak256_digest(signed_message(i)),
            )) is Some,
{
    let errors = publishing_errors(n);
    law_first_error(errors);
    if first_error(errors) is None {
        if n > 255 {
            assert(errors[255] is None);
        }
        assert forall|i: nat| i < n implies (#[trigger] recoverable_signature(
            signer_scalar(i),
            keccak256_digest(signed_message(i)),
        )) is Some by {
            assert(errors[i as int] is None);
        }
    } else if n <= 255 {
        let i = choose|i: int| 0 <= i < n && #[trigger] errors[i] == first_error(errors);
        assert(recoverable_signature(
            signer_scalar(i as nat),
            keccak256_digest(signed_message(i as nat)),
        ) is None);
    }
}

/// So neither packages nor signatures ever come from more than 255 signers.
pub proof fn law_at_most_255_signers(n: nat, digest: Seq<u8>)
    ensures
        forall|packages: Seq<PackageView>| #[trigger]
            published_by_first(n, packages) ==> n <= 255,
        forall|sigs: Seq<(Vec<u8>, u8)>| #[trigger]
            signed_by_first(n, digest, sigs) ==> n <= 255,
{
    lemma_signer_has_key(255);
    assert forall|packages: Seq<PackageView>| #[trigger]
        published_by_first(n, packages) implies n <= 255 by {
        if n > 255 {
            assert(published_by(255, packages[255]));
        }
    }
    assert forall|sigs: Seq<(Vec<u8>, u8)>| #[trigger]
        signed_by_first(n, digest, sigs) implies n <= 255 by {
        if n > 255 {
            assert(signed_by(255, digest, sigs[255].0@, sigs[255].1));
        }
    }
}

/// Signers 256 apart share a key, and no others do. So the signers there are all
/// sign with keys of their own.
pub proof fn law_keys_distinct(i: nat, k: nat)
    ensures
        signer_scalar(i) == signer_scalar(k) <==> (i + 1) % 256 == (k + 1) % 256,
{
    if (i + 1) % 256 != (k + 1) % 256 {
        assert(signer_scalar(i)[31] != signer_scalar(k)[31]);
    } else {
        assert(signer_scalar(i) =~= signer_scalar(k));
    }
}

/// Signatures over one digest are deterministic: a list from fewer signers is the
/// beginning of a list from more, two lists from as many are equal, and each
/// entry is a 64-byte signature and a two-bit recovery id that give back the key
/// of its own signer.
pub proof fn law_signatures_reproduce(
    digest: Seq<u8>,
    n: nat,
    sigs: Seq<(Vec<u8>, u8)>,
    m: nat,
    others: Seq<(Vec<u8>, u8)>,
)
    requires
        n <= m,
        signed_by_first(n, digest, sigs),
        signed_by_first(m, digest, others),
    ensures
        n <= 255,
        forall|i: int|
            0 <= i < n ==> {
                &&& (#[trigger] sigs[i]).0@ == others[i].0@
                &&& sigs[i].1 == others[i].1
                &&& sigs[i].0@.len() == 64
                &&& sigs[i].1 <= 3
                &&& recovered_key(digest, sigs[i].0@, sigs[i].1) == Some(
                    public_key(signer_scalar(i as nat)),
                )
            },
{
    law_at_most_255_signers(n, digest);
    assert forall|i: int| 0 <= i < n implies {
        &&& (#[trigger] sigs[i]).0@ == others[i].0@
        &&& sigs[i].1 == others[i].1
        &&& sigs[i].0@.len() == 64
        &&& sigs[i].1 <= 3
        &&& recovered_key(digest, sigs[i].0@, sigs[i].1) == Some(
            public_key(signer_scalar(i as nat)),
        )
    } by {
        assert(signed_by(i as nat, digest, sigs[i].0@, sigs[i].1));
        assert(signed_by(i as nat, digest, others[i].0@, others[i].1));
    }
}

/// The packages are deterministic: two lists made for the same number of
/// signers are equal, and a shorter one is the beginning of a longer one.
pub proof fn law_packages_reproduce(
    n: nat,
    packages: Seq<PackageView>,
    m: nat,
    others: Seq<PackageView>,
)
    requires
        n <= m,
        published_by_first(n, packages),
        published_by_first(m, others),
    ensures
        packages == others.take(n as int),
{
    assert forall|i: int| 0 <= i < n implies packages[i] == others[i] by {
        assert(published_by(i as nat, packages[i]));
        assert(published_by(i as nat, others[i]));
    }
    assert(packages =~= others.take(n as int));
}

proof fn lemma_signer_keys_found(n: nat)
    ensures
        found_keys(signer_keys(n)) == Seq::new(n, |i: int| public_key(signer_scalar(i as nat))),
    decreases n,
{
    let keys = Seq::new(n, |i: int| public_key(signer_scalar(i as nat)));
    if n > 0 {
        let m = (n - 1) as nat;
        lemma_signer_keys_found(m);
        assert(signer_keys(n).drop_last() =~= signer_keys(m));
    }
    assert(found_keys(signer_keys(n)) =~= keys);
}

/// The checksum of the first `n` signers' public keys.
pub open spec fn signer_checksum(n: nat) -> u8 {
    xor_bytes(Seq::new(n, |i: int| public_key(signer_scalar(i as nat))[1]))
}

proof fn lemma_signer_keys_tally(n: nat)
    ensures
        recovered_count(signer_keys(n)) == n,
        key_checksum(signer_keys(n)) == signer_checksum(n),
{
    lemma_signer_keys_found(n);
    assert(found_keys(signer_keys(n)).map_values(|key: Seq<u8>| key[1]) =~= Seq::new(
        n,
        |i: int| public_key(signer_scalar(i as nat))[1],
    ));
}

/// Every package that the signers publish is sound input, and verifying them
/// recovers each signer's own public key, whether the digests are computed or
/// taken from the packages.
pub proof fn law_published_packages_verify(hash: bool, n: nat, packages: Seq<PackageView>)
    requires
        published_by_first(n, packages),
    ensures
        first_error(package_faults(hash, packages)) is None,
        package_keys(hash, packages) == signer_keys(n),
        recovered_count(package_keys(hash, packages)) == n,
        key_checksum(package_keys(hash, packages)) == signer_checksum(n),
{
    let faults = package_faults(hash, packages);
    assert forall|i: int| 0 <= i < n implies (#[trigger] faults[i]) is None && package_keys(
        hash,
        packages,
    )[i] == signer_keys(n)[i] by {
        assert(published_by(i as nat, packages[i]));
    }
    law_first_error(faults);
    assert(package_keys(hash, packages) =~= signer_keys(n));
    lemma_signer_keys_tally(n);
}

/// Signatures over one shared digest are sound input too, and recover the very
/// same keys: what is recovered depends on who signed, not on what was signed.
pub proof fn law_shared_signatures_verify(n: nat, digest: Seq<u8>, sigs: Seq<(Vec<u8>, u8)>)
    requires
        digest.len() == 32,
        signed_by_first(n, digest, sigs),
    ensures
        shared_digest_fault(digest, sigs) is None,
        shared_digest_keys(digest, sigs) == signer_keys(n),
        recovered_count(shared_digest_keys(digest, sigs)) == n,
        key_checksum(shared_digest_keys(digest, sigs)) == signer_checksum(n),
{
    let faults = signature_faults(sigs);
    assert forall|i: int| 0 <= i < n implies (#[trigger] faults[i]) is None && shared_digest_keys(
        digest,
        sigs,
    )[i] == signer_keys(n)[i] by {
        assert(signed_by(i as nat, digest, sigs[i].0@, sigs[i].1));
    }
    law_first_error(faults);
    assert(shared_digest_keys(digest, sigs) =~= signer_keys(n));
    lemma_signer_keys_tally(n);
}

/// How many bytes a package takes on the wire: the signed bytes, the signature
/// and its recovery id.
pub open spec fn wire_bytes(package: PackageView) -> nat {
    package.message.len() + package.signature.len() + 1
}

/// How many bytes a list of packages takes on the wire.
pub open spec fn total_wire_bytes(packages: Seq<PackageView>) -> nat
    decreases packages.len(),
{
    if packages.len() == 0 {
        0
    } else {
        total_wire_bytes(packages.drop_last()) + wire_bytes(packages.last())
    }
}

/// Every published package takes 142 bytes, 77 of them signed, so the payload
/// grows by the same amount with every signer.
pub proof fn law_payload_is_linear(n: nat, packages: Seq<PackageView>)
    requires
        published_by_first(n, packages),
    ensures
        forall|i: int| 0 <= i < n ==> (#[trigger] packages[i]).message.len() == SIGNED_BYTES,
        total_wire_bytes(packages) == 142 * n,
    decreases n,
{
    if n > 0 {
        let init = packages.drop_last();
        assert forall|i: int| 0 <= i < n - 1 implies published_by(
            i as nat,
            #[trigger] init[i],
        ) by {
            assert(published_by(i as nat, packages[i]));
        }
        law_payload_is_linear((n - 1) as nat, init);
        assert(published_by((n - 1) as nat, packages[n - 1]));
    }
    assert forall|i: int| 0 <= i < n implies (#[trigger] packages[i]).message.len()
        == SIGNED_BYTES by {
        assert(published_by(i as nat, packages[i]));
    }
}

/// What a signer signs, byte by byte: 77 bytes of filler, but for the signer's low
/// byte in one place and seven times that byte, wrapping, in the last.
pub proof fn law_signed_message_bytes(signer: nat)
    ensures
        signed_message(signer).len() == 77,
        signed_message(signer)[32] == signer as int % 256,
        signed_message(signer)[76] == 7 * (signer as int % 256) % 256,
        forall|j: int| 0 <= j < 76 && j != 32 ==> #[trigger] signed_message(signer)[j] == 0x5a,
{
}

/// The key a signer signs with is, as a number, the low byte of one more than the
/// signer.
pub proof fn law_signer_key_number(signer: nat)
    ensures
        signer_scalar(signer).len() == 32,
        big_endian(signer_scalar(signer)) == (signer + 1) % 256,
{
    let scalar = signer_scalar(signer);
    lemma_big_endian_zeros(scalar.drop_last());
}

/// A signer fails to sign for one of two reasons, and the error names the signer:
/// its key is zero, or the signature scheme refuses.
pub proof fn law_why_a_signer_fails(signer: usize, digest: Seq<u8>)
    ensures
        big_endian(signer_scalar(signer as nat)) == 0 ==> signing_error(signer as nat, digest)
            == Some(SigningError::InvalidKey { signer }),
        big_endian(signer_scalar(signer as nat)) != 0 && recoverable_signature(
            signer_scalar(signer as nat),
            digest,
        ) is None ==> signing_error(signer as nat, digest) == Some(
            SigningError::Refused { signer },
        ),
        big_endian(signer_scalar(signer as nat)) != 0 && recoverable_signature(
            signer_scalar(signer as nat),
            digest,
        ) is Some ==> signing_error(signer as nat, digest) is None,
{
    law_signer_key_number(signer as nat);
}

/// Signers are asked one after the other, each for itself: over one digest, or
/// each over the hash of its own message.
pub proof fn law_every_signer_is_asked(n: nat, digest: Seq<u8>, i: nat)
    requires
        i < n,
    ensures
        signing_errors(n, digest).len() == n,
        signing_errors(n, digest)[i as int] == signing_error(i, digest),
        publishing_errors(n).len() == n,
        publishing_errors(n)[i as int] == signing_error(i, keccak256_digest(signed_message(i))),
{
}

/// A signature that a signer made is the one its key gives for the digest, and
/// the signer's public key is recovered from it.
pub proof fn law_signature_of_a_signer(
    signer: nat,
    digest: Seq<u8>,
    signature: Seq<u8>,
    recovery_id: u8,
)
    requires
        signed_by(signer, digest, signature, recovery_id),
    ensures
        recoverable_signature(signer_scalar(signer), digest) == Some((signature, recovery_id)),
        recovered_key(digest, signature, recovery_id) == Some(public_key(signer_scalar(signer))),
        well_formed_signature(signature),
        recovery_id <= 3,
{
}

/// Made packages hold what their signers sign: in place `i` the message of signer
/// `i`, its hash, and the signature that the signer's key gives for that hash.
pub proof fn law_made_packages(n: nat, packages: Seq<Package>, i: int)
    requires
        published_by_first(n, package_views(packages)),
        0 <= i < n,
    ensures
        packages.len() == n,
        packages[i].0@ == signed_message(i as nat),
        packages[i].1@ == keccak256_digest(signed_message(i as nat)),
        recoverable_signature(
            signer_scalar(i as nat),
            keccak256_digest(signed_message(i as nat)),
        ) == Some((packages[i].2@, packages[i].3)),
{
    assert(published_by(i as nat, package_views(packages)[i]));
}

/// Made signatures stand in the order of their signers, and each is the one that
/// its signer's key gives for the shared digest.
pub proof fn law_made_signatures(n: nat, digest: Seq<u8>, sigs: Seq<(Vec<u8>, u8)>, i: int)
    requires
        signed_by_first(n, digest, sigs),
        0 <= i < n,
    ensures
        sigs.len() == n,
        recoverable_signature(signer_scalar(i as nat), digest) == Some((sigs[i].0@, sigs[i].1)),
{
    assert(signed_by(i as nat, digest, sigs[i].0@, sigs[i].1));
}

/// No signers, no packages and no signatures: the lists are exactly as long as
/// there are signers.
pub proof fn law_as_many_as_signers(
    n: nat,
    packages: Seq<Package>,
    digest: Seq<u8>,
    sigs: Seq<(Vec<u8>, u8)>,
)
    ensures
        published_by_first(n, package_views(packages)) ==> packages.len() == n,
        signed_by_first(n, digest, sigs) ==> sigs.len() == n,
{
}

} // verus!
