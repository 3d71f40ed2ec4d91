//! The guest workloads whose cycle counts are compared.

use crate::first::{
    first_error, law_first_error, lemma_first_error_at, lemma_first_error_skip,
};
use crate::primitives::{
    hash_keccak256, keccak256_digest, recover_key, recovered_key, valid_recovery_id,
    well_formed_signature,
};
use vstd::prelude::*;

verus! {

/// The exclusive or of a sequence of bytes.
pub open spec fn xor_bytes(bytes: Seq<u8>) -> u8
    decreases bytes.len(),
{
    if bytes.len() == 0 {
        0
    } else {
        xor_bytes(bytes.drop_last()) ^ bytes.last()
    }
}

/// The column-wise exclusive or of a sequence of 32-byte blocks.
pub open spec fn xor_blocks(blocks: Seq<Seq<u8>>) -> Seq<u8> {
    Seq::new(32, |j: int| xor_bytes(blocks.map_values(|block: Seq<u8>| block[j])))
}

/// The message that the hashing loop hashes in iteration `i`: filler, with the
/// low byte of `i` in front where there is room for it.
pub open spec fn bench_message(i: int, msg_len: nat) -> Seq<u8> {
    Seq::new(msg_len, |j: int| if j == 0 { (i % 256) as u8 } else { 0xa5u8 })
}

/// The digests of the first `iters` messages of the hashing loop.
pub open spec fn bench_digests(iters: nat, msg_len: nat) -> Seq<Seq<u8>> {
    Seq::new(iters, |i: int| keccak256_digest(bench_message(i, msg_len)))
}

/// What stands in for the digests when the loop's own bookkeeping is measured:
/// blocks filled with the low byte of the iteration.
pub open spec fn stand_in_digests(iters: nat) -> Seq<Seq<u8>> {
    Seq::new(iters, |i: int| Seq::new(32, |j: int| (i % 256) as u8))
}

proof fn lemma_xor_blocks_push(blocks: Seq<Seq<u8>>, block: Seq<u8>)
    ensures
        xor_blocks(blocks.push(block)) == Seq::new(
            32,
            |j: int| xor_blocks(blocks)[j] ^ block[j],
        ),
{
    assert forall|j: int| 0 <= j < 32 implies #[trigger] xor_blocks(blocks.push(block))[j]
        == xor_blocks(blocks)[j] ^ block[j] by {
        let column = |b: Seq<u8>| b[j];
        let columns = blocks.push(block).map_values(column);
        assert(columns.drop_last() =~= blocks.map_values(column));
        assert(columns.last() == block[j]);
    }
}

/// Folds `block` into `acc`, byte by byte.
pub fn xor_into(acc: &mut [u8; 32], block: &[u8; 32])
    ensures
        final(acc)@ == Seq::new(32, |j: int| old(acc)@[j] ^ block@[j]),
{
    let ghost before = acc@;
    let mut j: usize = 0;
    while j < 32
        invariant
            j <= 32,
            before.len() == 32,
            acc@.len() == 32,
            forall|k: int| 0 <= k < j ==> acc@[k] == before[k] ^ block@[k],
            forall|k: int| j <= k < 32 ==> acc@[k] == before[k],
        decreases 32 - j,
    {
        acc[j] = acc[j] ^ block[j];
        j = j + 1;
    }
}

/// `iters` keccak256 hashes over a `msg_len`-byte message, folded into one
/// block; a zero block when `do_work` is off.
///
/// The first byte of the message is perturbed per iteration so the hashes are
/// genuinely distinct.
pub fn keccak_bench(do_work: bool, iters: u32, msg_len: u32) -> (acc: [u8; 32])
    ensures
        acc@ == if do_work {
            xor_blocks(bench_digests(iters as nat, msg_len as nat))
        } else {
            Seq::new(32, |j: int| 0u8)
        },
{
    let mut msg: Vec<u8> = vec![0xa5u8; msg_len as usize];
    let mut acc: [u8; 32] = [0u8; 32];
    if !do_work {
        return acc;
    }
    let ghost len = msg_len as nat;
    proof {
        assert(acc@ =~= xor_blocks(bench_digests(0, len)));
    }
    let mut i: u32 = 0;
    while i < iters
        invariant
            i <= iters,
            len == msg_len,
            msg@.len() == len,
            forall|j: int| 1 <= j < len ==> msg@[j] == 0xa5u8,
            acc@ == xor_blocks(bench_digests(i as nat, len)),
        decreases iters - i,
    {
        if !msg.is_empty() {
            msg[0] = (i & 0xff) as u8;
        }
        let out = hash_keccak256(msg.as_slice());
        xor_into(&mut acc, &out);
        proof {
            assert((i & 0xff) as u8 == (i % 256) as u8) by (bit_vector);
            assert(msg@ =~= bench_message(i as int, len));
            lemma_xor_blocks_push(bench_digests(i as nat, len), out@);
            assert(bench_digests((i + 1) as nat, len) =~= bench_digests(i as nat, len).push(out@));
        }
        i = i + 1;
    }
    acc
}

/// [`keccak_bench`]'s loop with the hash removed.
pub fn keccak_loop_overhead(do_work: bool, iters: u32, msg_len: u32) -> (acc: [u8; 32])
    ensures
        acc@ == if do_work {
            xor_blocks(stand_in_digests(iters as nat))
        } else {
            Seq::new(32, |j: int| 0u8)
        },
{
    let mut msg: Vec<u8> = vec![0xa5u8; msg_len as usize];
    let mut acc: [u8; 32] = [0u8; 32];
    if !do_work {
        return acc;
    }
    proof {
        assert(acc@ =~= xor_blocks(stand_in_digests(0)));
    }
    let mut i: u32 = 0;
    while i < iters
        invariant
            i <= iters,
            acc@ == xor_blocks(stand_in_digests(i as nat)),
        decreases iters - i,
    {
        if !msg.is_empty() {
            msg[0] = (i & 0xff) as u8;
        }
        let out: [u8; 32] = [(i & 0xff) as u8; 32];
        xor_into(&mut acc, &out);
        proof {
            assert((i & 0xff) as u8 == (i % 256) as u8) by (bit_vector);
            lemma_xor_blocks_push(stand_in_digests(i as nat), out@);
            assert(out@ =~= Seq::new(32, |j: int| (i as int % 256) as u8));
            assert(stand_in_digests((i + 1) as nat) =~= stand_in_digests(i as nat).push(out@));
        }
        i = i + 1;
    }
    acc
}

/// One data package per signer: `(signed_bytes, digest, signature, recovery_id)`.
pub type Package = (Vec<u8>, Vec<u8>, Vec<u8>, u8);

/// A data package as a mathematical value.
pub struct PackageView {
    pub message: Seq<u8>,
    pub digest: Seq<u8>,
    pub signature: Seq<u8>,
    pub recovery_id: u8,
}

/// What a package holds.
pub open spec fn package_view(package: Package) -> PackageView {
    PackageView {
        message: package.0@,
        digest: package.1@,
        signature: package.2@,
        recovery_id: package.3,
    }
}

/// What a list of packages holds.
pub open spec fn package_views(packages: Seq<Package>) -> Seq<PackageView> {
    packages.map_values(|package: Package| package_view(package))
}

/// Why an input is no measurement of recoveries at all.
#[derive(Clone, Copy, Debug, PartialEq, Eq, Structural)]
pub enum Fault {
    /// A supplied digest is not 32 bytes long.
    DigestLength,
    /// The signature bytes are not a signature.
    MalformedSignature,
    /// The recovery id is not one.
    BadRecoveryId,
}

impl Fault {
    /// The fault in words.
    pub open spec fn text(self) -> Seq<char> {
        match self {
            Fault::DigestLength => "digest must be 32 bytes"@,
            Fault::MalformedSignature => "malformed signature"@,
            Fault::BadRecoveryId => "bad recovery id"@,
        }
    }

    /// The fault in words.
    pub fn message(&self) -> (text: &'static str)
        ensures
            text@ == self.text(),
    {
        match self {
            Fault::DigestLength => "digest must be 32 bytes",
            Fault::MalformedSignature => "malformed signature",
            Fault::BadRecoveryId => "bad recovery id",
        }
    }
}

/// The fault of a signature and recovery id, if they have one.
pub open spec fn signature_fault(signature: Seq<u8>, recovery_id: u8) -> Option<Fault> {
    if !well_formed_signature(signature) {
        Some(Fault::MalformedSignature)
    } else if !valid_recovery_id(recovery_id) {
        Some(Fault::BadRecoveryId)
    } else {
        None
    }
}

/// The fault of a package, if it has one. A digest that is computed rather
/// than supplied cannot be at fault.
pub open spec fn package_fault(hash: bool, package: PackageView) -> Option<Fault> {
    if !hash && package.digest.len() != 32 {
        Some(Fault::DigestLength)
    } else {
        signature_fault(package.signature, package.recovery_id)
    }
}

/// The faults of a list of packages.
pub open spec fn package_faults(hash: bool, packages: Seq<PackageView>) -> Seq<Option<Fault>> {
    packages.map_values(|package: PackageView| package_fault(hash, package))
}

/// The faults of a list of signatures.
pub open spec fn signature_faults(sigs: Seq<(Vec<u8>, u8)>) -> Seq<Option<Fault>> {
    sigs.map_values(|sig: (Vec<u8>, u8)| signature_fault(sig.0@, sig.1))
}

/// The fault of a digest and the signatures over it, if there is one. The digest
/// is looked at first.
pub open spec fn shared_digest_fault(digest: Seq<u8>, sigs: Seq<(Vec<u8>, u8)>) -> Option<Fault> {
    if digest.len() != 32 {
        Some(Fault::DigestLength)
    } else {
        first_error(signature_faults(sigs))
    }
}

/// The digest a package's signature is recovered against.
pub open spec fn signed_digest(hash: bool, package: PackageView) -> Seq<u8> {
    if hash {
        keccak256_digest(package.message)
    } else {
        package.digest
    }
}

/// The outcome of the recovery of each package.
pub open spec fn package_keys(hash: bool, packages: Seq<PackageView>) -> Seq<Option<Seq<u8>>> {
    packages.map_values(
        |package: PackageView|
            recovered_key(signed_digest(hash, package), package.signature, package.recovery_id),
    )
}

/// The outcome of the recovery of each signature over one shared digest.
pub open spec fn shared_digest_keys(digest: Seq<u8>, sigs: Seq<(Vec<u8>, u8)>) -> Seq<
    Option<Seq<u8>>,
> {
    sigs.map_values(|sig: (Vec<u8>, u8)| recovered_key(digest, sig.0@, sig.1))
}

/// The keys that were recovered, in order, with the failures left out.
pub open spec fn found_keys(keys: Seq<Option<Seq<u8>>>) -> Seq<Seq<u8>>
    decreases keys.len(),
{
    if keys.len() == 0 {
        Seq::empty()
    } else {
        match keys.last() {
            Some(key) => found_keys(keys.drop_last()).push(key),
            None => found_keys(keys.drop_last()),
        }
    }
}

/// How many recoveries succeeded.
pub open spec fn recovered_count(keys: Seq<Option<Seq<u8>>>) -> nat {
    found_keys(keys).len()
}

/// The exclusive or of the second byte of every recovered key, which is the
/// leading byte of the key's x coordinate.
pub open spec fn key_checksum(keys: Seq<Option<Seq<u8>>>) -> u8 {
    xor_bytes(found_keys(keys).map_values(|key: Seq<u8>| key[1]))
}

/// Failures leave a tally alone; a key counts once and folds its second byte
/// into the checksum.
pub(crate) proof fn lemma_tally_push(keys: Seq<Option<Seq<u8>>>, key: Option<Seq<u8>>)
    ensures
        recovered_count(keys.push(key)) == recovered_count(keys) + if key is Some {
            1nat
        } else {
            0nat
        },
        key_checksum(keys.push(key)) == match key {
            Some(bytes) => key_checksum(keys) ^ bytes[1],
            None => key_checksum(keys),
        },
{
    assert(keys.push(key).drop_last() =~= keys);
    if let Some(bytes) = key {
        let second = |k: Seq<u8>| k[1];
        let column = found_keys(keys.push(key)).map_values(second);
        assert(column.drop_last() =~= found_keys(keys).map_values(second));
    }
}

/// Counts one recovery outcome: `tally` is the number of keys recovered so far
/// and their checksum.
pub fn tally_key(tally: (u32, u8), key: Option<&Vec<u8>>) -> (next: (u32, u8))
    requires
        key is Some ==> tally.0 < u32::MAX && key->0@.len() >= 2,
    ensures
        next == match key {
            Some(bytes) => ((tally.0 + 1) as u32, tally.1 ^ bytes@[1]),
            None => tally,
        },
{
    match key {
        Some(bytes) => (tally.0 + 1, tally.1 ^ bytes[1]),
        None => tally,
    }
}

/// The 32 bytes of a digest that arrives as a slice.
fn digest_array(bytes: &[u8]) -> (digest: [u8; 32])
    requires
        bytes@.len() == 32,
    ensures
        digest@ == bytes@,
{
    let mut digest: [u8; 32] = [0u8; 32];
    let mut j: usize = 0;
    while j < 32
        invariant
            j <= 32,
            bytes@.len() == 32,
            forall|k: int| 0 <= k < j ==> digest@[k] == bytes@[k],
        decreases 32 - j,
    {
        digest[j] = bytes[j];
        j = j + 1;
    }
    proof {
        assert(digest@ =~= bytes@);
    }
    digest
}

/// Recovers one key and counts the outcome, unless the signature or its recovery
/// id is at fault.
pub(crate) fn recover_into(
    tally: (u32, u8),
    digest: &[u8; 32],
    signature: &[u8],
    recovery_id: u8,
) -> (next: Result<(u32, u8), Fault>)
    requires
        tally.0 < u32::MAX,
    ensures
        next == match signature_fault(signature@, recovery_id) {
            Some(fault) => Err(fault),
            None => Ok(
                match recovered_key(digest@, signature@, recovery_id) {
                    Some(key) => ((tally.0 + 1) as u32, tally.1 ^ key[1]),
                    None => tally,
                },
            ),
        },
{
    match recover_key(digest, signature, recovery_id) {
        Ok(Some(Ok(key))) => Ok(tally_key(tally, Some(&key))),
        Ok(Some(Err(_))) => Ok(tally_key(tally, None)),
        Ok(None) => Err(Fault::BadRecoveryId),
        Err(_) => Err(Fault::MalformedSignature),
    }
}

/// What verifying packages comes to: their first fault if there is one, else how
/// many recoveries succeeded and the checksum of the recovered keys.
pub open spec fn verified_tally(hash: bool, packages: Seq<PackageView>) -> Result<
    (u32, u8),
    Fault,
> {
    let keys = package_keys(hash, packages);
    match first_error(package_faults(hash, packages)) {
        Some(fault) => Err(fault),
        None => Ok((recovered_count(keys) as u32, key_checksum(keys))),
    }
}

/// What recovering signatures over one digest comes to, likewise. Switched off it
/// looks at nothing and recovers nothing.
pub open spec fn recovered_tally(do_work: bool, digest: Seq<u8>, sigs: Seq<(Vec<u8>, u8)>) -> Result<
    (u32, u8),
    Fault,
> {
    let keys = shared_digest_keys(digest, sigs);
    if !do_work {
        Ok((0, 0))
    } else {
        match shared_digest_fault(digest, sigs) {
            Some(fault) => Err(fault),
            None => Ok((recovered_count(keys) as u32, key_checksum(keys))),
        }
    }
}

/// [`verify_bench`] on any packages, in one pass: the first fault ends it.
pub fn try_verify_bench(hash: bool, packages: &[Package]) -> (outcome: Result<(u32, u8), Fault>)
    requires
        packages@.len() <= u32::MAX,
    ensures
        outcome == verified_tally(hash, package_views(packages@)),
        outcome matches Ok(tally) ==> tally.0 == recovered_count(
            package_keys(hash, package_views(packages@)),
        ),
{
    let mut tally: (u32, u8) = (0, 0);
    let ghost keys = package_keys(hash, package_views(packages@));
    let ghost faults = package_faults(hash, package_views(packages@));
    proof {
        assert(faults.skip(0) =~= faults);
        assert(keys.take(0) =~= Seq::empty());
        assert(found_keys(keys.take(0)).map_values(|key: Seq<u8>| key[1]) =~= Seq::empty());
    }
    let mut i: usize = 0;
    while i < packages.len()
        invariant
            i <= packages@.len() <= u32::MAX,
            keys == package_keys(hash, package_views(packages@)),
            faults == package_faults(hash, package_views(packages@)),
            first_error(faults) == first_error(faults.skip(i as int)),
            tally.0 == recovered_count(keys.take(i as int)),
            tally.1 == key_checksum(keys.take(i as int)),
        decreases packages@.len() - i,
    {
        let package = &packages[i];
        proof {
            lemma_first_error_skip(faults, i as int);
            assert(faults[i as int] == package_fault(hash, package_view(*package)));
            law_full_count(keys.take(i as int));
            lemma_tally_push(keys.take(i as int), keys[i as int]);
            assert(keys.take(i + 1) =~= keys.take(i as int).push(keys[i as int]));
        }
        let digest: [u8; 32] = if hash {
            hash_keccak256(package.0.as_slice())
        } else if package.1.len() == 32 {
            digest_array(package.1.as_slice())
        } else {
            return Err(Fault::DigestLength);
        };
        match recover_into(tally, &digest, package.2.as_slice(), package.3) {
            Ok(next) => {
                tally = next;
            },
            Err(fault) => {
                return Err(fault);
            },
        }
        i = i + 1;
    }
    proof {
        assert(keys.take(i as int) =~= keys);
    }
    Ok(tally)
}

/// [`recover_bench`] on any signatures, in one pass: the first fault ends it.
pub fn try_recover_bench(do_work: bool, digest: &[u8], sigs: &[(Vec<u8>, u8)]) -> (outcome: Result<
    (u32, u8),
    Fault,
>)
    requires
        do_work ==> sigs@.len() <= u32::MAX,
    ensures
        outcome == recovered_tally(do_work, digest@, sigs@),
        do_work ==> (outcome matches Ok(tally) ==> tally.0 == recovered_count(
            shared_digest_keys(digest@, sigs@),
        )),
{
    if !do_work {
        return Ok((0, 0));
    }
    if digest.len() != 32 {
        return Err(Fault::DigestLength);
    }
    let shared: [u8; 32] = digest_array(digest);
    let mut tally: (u32, u8) = (0, 0);
    let ghost keys = shared_digest_keys(digest@, sigs@);
    let ghost faults = signature_faults(sigs@);
    proof {
        assert(faults.skip(0) =~= faults);
        assert(keys.take(0) =~= Seq::empty());
        assert(found_keys(keys.take(0)).map_values(|key: Seq<u8>| key[1]) =~= Seq::empty());
    }
    let mut i: usize = 0;
    while i < sigs.len()
        invariant
            i <= sigs@.len() <= u32::MAX,
            do_work,
            shared@ == digest@,
            keys == shared_digest_keys(digest@, sigs@),
            faults == signature_faults(sigs@),
            first_error(faults) == first_error(faults.skip(i as int)),
            tally.0 == recovered_count(keys.take(i as int)),
            tally.1 == key_checksum(keys.take(i as int)),
        decreases sigs@.len() - i,
    {
        proof {
            lemma_first_error_skip(faults, i as int);
            assert(faults[i as int] == signature_fault(sigs@[i as int].0@, sigs@[i as int].1));
            law_full_count(keys.take(i as int));
            lemma_tally_push(keys.take(i as int), keys[i as int]);
            assert(keys.take(i + 1) =~= keys.take(i as int).push(keys[i as int]));
        }
        match recover_into(tally, &shared, sigs[i].0.as_slice(), sigs[i].1) {
            Ok(next) => {
                tally = next;
            },
            Err(fault) => {
                return Err(fault);
            },
        }
        i = i + 1;
    }
    proof {
        assert(keys.take(i as int) =~= keys);
    }
    Ok(tally)
}

/// One data package per signer: hash that signer's own signed byte range, then
/// recover that signer.
///
/// `hash` toggles only whether each digest is computed here or taken from the
/// package. Returns how many recoveries succeeded and the checksum of the
/// recovered keys.
pub fn verify_bench(hash: bool, packages: &[Package]) -> (tally: (u32, u8))
    requires
        packages@.len() <= u32::MAX,
        first_error(package_faults(hash, package_views(packages@))) is None,
    ensures
        tally.0 == recovered_count(package_keys(hash, package_views(packages@))),
        tally.1 == key_checksum(package_keys(hash, package_views(packages@))),
{
    try_verify_bench(hash, packages).unwrap()
}

/// One secp256k1 public-key recovery per entry in `sigs`, all over the same
/// digest; nothing at all when `do_work` is off.
///
/// Returns how many recoveries succeeded and the checksum of the recovered
/// keys.
pub fn recover_bench(do_work: bool, digest: &[u8], sigs: &[(Vec<u8>, u8)]) -> (tally: (u32, u8))
    requires
        do_work ==> sigs@.len() <= u32::MAX && shared_digest_fault(digest@, sigs@) is None,
    ensures
        !do_work ==> tally == (0u32, 0u8),
        do_work ==> tally.0 == recovered_count(shared_digest_keys(digest@, sigs@)),
        do_work ==> tally.1 == key_checksum(shared_digest_keys(digest@, sigs@)),
{
    try_recover_bench(do_work, digest, sigs).unwrap()
}

/// Two iterations hash the same message exactly when there is no byte to tell
/// them apart, or their numbers agree in their low byte. So up to 256 iterations
/// over a non-empty message hash genuinely distinct messages.
pub proof fn law_bench_messages_distinct(i: int, k: int, msg_len: nat)
    requires
        0 <= i,
        0 <= k,
    ensures
        bench_message(i, msg_len) == bench_message(k, msg_len) <==> msg_len == 0 || i % 256 == k
            % 256,
{
    if msg_len > 0 && i % 256 != k % 256 {
        assert(bench_message(i, msg_len)[0] != bench_message(k, msg_len)[0]);
    } else {
        assert(bench_message(i, msg_len) =~= bench_message(k, msg_len));
    }
}

/// The bookkeeping loop leaves the same byte everywhere: the exclusive or of the
/// low bytes of its iterations.
pub proof fn law_overhead_is_flat(iters: nat)
    ensures
        xor_blocks(stand_in_digests(iters)) == Seq::new(
            32,
            |j: int| xor_bytes(Seq::new(iters, |i: int| (i % 256) as u8)),
        ),
{
    let flat = Seq::new(iters, |i: int| (i % 256) as u8);
    assert forall|j: int| 0 <= j < 32 implies #[trigger] xor_blocks(stand_in_digests(iters))[j]
        == xor_bytes(flat) by {
        assert(stand_in_digests(iters).map_values(|block: Seq<u8>| block[j]) =~= flat);
    }
    assert(xor_blocks(stand_in_digests(iters)) =~= Seq::new(32, |j: int| xor_bytes(flat)));
}

/// Taking the digests from the input rather than computing them changes nothing
/// but the hashing, as long as they are the right ones.
pub proof fn law_hash_toggle(packages: Seq<PackageView>)
    requires
        forall|i: int|
            0 <= i < packages.len() ==> (#[trigger] packages[i]).digest == keccak256_digest(
                packages[i].message,
            ),
    ensures
        package_keys(true, packages) == package_keys(false, packages),
{
    assert(package_keys(true, packages) =~= package_keys(false, packages));
}

/// Every recovery counts at most once, and the count is full exactly when none
/// failed.
pub proof fn law_full_count(keys: Seq<Option<Seq<u8>>>)
    ensures
        recovered_count(keys) <= keys.len(),
        recovered_count(keys) == keys.len() <==> forall|i: int|
            0 <= i < keys.len() ==> (#[trigger] keys[i]) is Some,
    decreases keys.len(),
{
    if keys.len() > 0 {
        let init = keys.drop_last();
        law_full_count(init);
        lemma_tally_push(init, keys.last());
        assert(init.push(keys.last()) =~= keys);
        if recovered_count(keys) == keys.len() {
            assert forall|i: int| 0 <= i < keys.len() implies (#[trigger] keys[i]) is Some by {
                if i < init.len() {
                    assert(init[i] is Some);
                }
            }
        } else if forall|i: int| 0 <= i < keys.len() ==> (#[trigger] keys[i]) is Some {
            assert forall|i: int| 0 <= i < init.len() implies (#[trigger] init[i]) is Some by {
                assert(keys[i] is Some);
            }
            assert(keys[keys.len() - 1] is Some);
        }
    }
}

proof fn lemma_xor_bytes_concat(a: Seq<u8>, b: Seq<u8>)
    ensures
        xor_bytes(a + b) == xor_bytes(a) ^ xor_bytes(b),
    decreases b.len(),
{
    let x = xor_bytes(a);
    if b.len() == 0 {
        assert(a + b =~= a);
        assert(x ^ 0u8 == x) by (bit_vector);
    } else {
        lemma_xor_bytes_concat(a, b.drop_last());
        assert((a + b).drop_last() =~= a + b.drop_last());
        let y = xor_bytes(b.drop_last());
        let z = b.last();
        assert((x ^ y) ^ z == x ^ (y ^ z)) by (bit_vector);
    }
}

proof fn lemma_found_keys_concat(a: Seq<Option<Seq<u8>>>, b: Seq<Option<Seq<u8>>>)
    ensures
        found_keys(a + b) == found_keys(a) + found_keys(b),
    decreases b.len(),
{
    if b.len() == 0 {
        assert(a + b =~= a);
        assert(found_keys(a) + found_keys(b) =~= found_keys(a));
    } else {
        lemma_found_keys_concat(a, b.drop_last());
        assert((a + b).drop_last() =~= a + b.drop_last());
        assert(found_keys(a + b) =~= found_keys(a) + found_keys(b));
    }
}

proof fn lemma_tally_concat(left: Seq<Option<Seq<u8>>>, right: Seq<Option<Seq<u8>>>)
    ensures
        recovered_count(left + right) == recovered_count(left) + recovered_count(right),
        key_checksum(left + right) == key_checksum(left) ^ key_checksum(right),
{
    let second = |key: Seq<u8>| key[1];
    lemma_found_keys_concat(left, right);
    assert((found_keys(left) + found_keys(right)).map_values(second) =~= found_keys(
        left,
    ).map_values(second) + found_keys(right).map_values(second));
    lemma_xor_bytes_concat(
        found_keys(left).map_values(second),
        found_keys(right).map_values(second),
    );
}

/// Nothing is shared between packages: verifying two lists as one adds their
/// counts and folds their checksums, and neither list changes what the other
/// contributes.
pub proof fn law_nothing_shared(hash: bool, a: Seq<PackageView>, b: Seq<PackageView>)
    ensures
        package_keys(hash, a + b) == package_keys(hash, a) + package_keys(hash, b),
        recovered_count(package_keys(hash, a + b)) == recovered_count(package_keys(hash, a))
            + recovered_count(package_keys(hash, b)),
        key_checksum(package_keys(hash, a + b)) == key_checksum(package_keys(hash, a))
            ^ key_checksum(package_keys(hash, b)),
{
    assert(package_keys(hash, a + b) =~= package_keys(hash, a) + package_keys(hash, b));
    lemma_tally_concat(package_keys(hash, a), package_keys(hash, b));
}

/// Nor is anything shared between recoveries over one digest.
pub proof fn law_nothing_shared_over_one_digest(
    digest: Seq<u8>,
    a: Seq<(Vec<u8>, u8)>,
    b: Seq<(Vec<u8>, u8)>,
)
    ensures
        shared_digest_keys(digest, a + b) == shared_digest_keys(digest, a) + shared_digest_keys(
            digest,
            b,
        ),
        recovered_count(shared_digest_keys(digest, a + b)) == recovered_count(
            shared_digest_keys(digest, a),
        ) + recovered_count(shared_digest_keys(digest, b)),
        key_checksum(shared_digest_keys(digest, a + b)) == key_checksum(
            shared_digest_keys(digest, a),
        ) ^ key_checksum(shared_digest_keys(digest, b)),
{
    assert(shared_digest_keys(digest, a + b) =~= shared_digest_keys(digest, a)
        + shared_digest_keys(digest, b));
    lemma_tally_concat(shared_digest_keys(digest, a), shared_digest_keys(digest, b));
}

/// Folding bytes starts from zero and takes in every one of them.
pub proof fn law_xor_bytes(bytes: Seq<u8>, byte: u8)
    ensures
        xor_bytes(Seq::empty()) == 0,
        xor_bytes(bytes.push(byte)) == xor_bytes(bytes) ^ byte,
{
    assert(bytes.push(byte).drop_last() =~= bytes);
}

/// Folding blocks starts from 32 zeros and takes in every byte of every block.
pub proof fn law_xor_blocks(blocks: Seq<Seq<u8>>, block: Seq<u8>)
    ensures
        xor_blocks(Seq::empty()) == Seq::new(32, |j: int| 0u8),
        xor_blocks(blocks).len() == 32,
        forall|j: int|
            0 <= j < 32 ==> #[trigger] xor_blocks(blocks.push(block))[j] == xor_blocks(blocks)[j]
                ^ block[j],
{
    lemma_xor_blocks_push(blocks, block);
    assert(xor_blocks(Seq::empty()) =~= Seq::new(32, |j: int| 0u8)) by {
        assert forall|j: int| 0 <= j < 32 implies xor_blocks(Seq::empty())[j] == 0u8 by {
            assert(Seq::<Seq<u8>>::empty().map_values(|b: Seq<u8>| b[j]) =~= Seq::empty());
        }
    }
}

/// Every iteration hashes the whole message: its first byte is the low byte of
/// the iteration, and all the others are filler, however long it is.
pub proof fn law_whole_message_is_hashed(iters: nat, msg_len: nat, i: int, message: Seq<u8>)
    requires
        0 <= i < iters,
        message.len() == msg_len,
        msg_len > 0 ==> message[0] == i % 256,
        forall|j: int| 1 <= j < msg_len ==> message[j] == 0xa5u8,
    ensures
        bench_digests(iters, msg_len).len() == iters,
        bench_digests(iters, msg_len)[i] == keccak256_digest(message),
{
    assert(message =~= bench_message(i, msg_len));
}

/// One more iteration of the hashing loop folds in one more digest, that of its
/// own message, and no iterations leave zeros.
pub proof fn law_one_more_hash(iters: nat, msg_len: nat, message: Seq<u8>)
    requires
        message.len() == msg_len,
        msg_len > 0 ==> message[0] == iters as int % 256,
        forall|j: int| 1 <= j < msg_len ==> message[j] == 0xa5u8,
    ensures
        xor_blocks(bench_digests(0, msg_len)) == Seq::new(32, |j: int| 0u8),
        xor_blocks(bench_digests(iters + 1, msg_len)) == Seq::new(
            32,
            |j: int| xor_blocks(bench_digests(iters, msg_len))[j] ^ keccak256_digest(message)[j],
        ),
{
    law_whole_message_is_hashed(iters + 1, msg_len, iters as int, message);
    law_xor_blocks(bench_digests(iters, msg_len), keccak256_digest(message));
    assert(bench_digests(0, msg_len) =~= Seq::empty());
    assert(bench_digests(iters + 1, msg_len) =~= bench_digests(iters, msg_len).push(
        keccak256_digest(message),
    ));
    lemma_xor_blocks_push(bench_digests(iters, msg_len), keccak256_digest(message));
}

/// One more iteration of the bookkeeping loop folds its low byte into every
/// place, and no iterations leave zeros.
pub proof fn law_one_more_iteration(iters: nat)
    ensures
        xor_blocks(stand_in_digests(0)) == Seq::new(32, |j: int| 0u8),
        xor_blocks(stand_in_digests(iters + 1)) == Seq::new(
            32,
            |j: int| xor_blocks(stand_in_digests(iters))[j] ^ (iters as int % 256) as u8,
        ),
{
    let block = Seq::new(32, |j: int| (iters as int % 256) as u8);
    law_xor_blocks(stand_in_digests(iters), block);
    lemma_xor_blocks_push(stand_in_digests(iters), block);
    assert(stand_in_digests(0) =~= Seq::empty());
    assert(stand_in_digests(iters + 1) =~= stand_in_digests(iters).push(block));
    assert(xor_blocks(stand_in_digests(iters + 1)) =~= Seq::new(
        32,
        |j: int| xor_blocks(stand_in_digests(iters))[j] ^ (iters as int % 256) as u8,
    ));
}

/// A tally starts from nothing; a recovered key counts once and folds in its
/// second byte, and a failed recovery changes nothing.
pub proof fn law_tally(keys: Seq<Option<Seq<u8>>>, key: Seq<u8>)
    ensures
        recovered_count(Seq::empty()) == 0,
        key_checksum(Seq::empty()) == 0,
        recovered_count(keys.push(Some(key))) == recovered_count(keys) + 1,
        key_checksum(keys.push(Some(key))) == key_checksum(keys) ^ key[1],
        recovered_count(keys.push(None)) == recovered_count(keys),
        key_checksum(keys.push(None)) == key_checksum(keys),
{
    lemma_tally_push(keys, Some(key));
    lemma_tally_push(keys, None);
    assert(found_keys(Seq::empty()).map_values(|k: Seq<u8>| k[1]) =~= Seq::empty());
}

/// Every package is recovered, whatever it signs: against the hash of its whole
/// message, or against the digest it carries.
pub proof fn law_every_package_is_recovered(hash: bool, packages: Seq<Package>, i: int)
    requires
        0 <= i < packages.len(),
    ensures
        package_keys(hash, package_views(packages)).len() == packages.len(),
        package_keys(hash, package_views(packages))[i] == if hash {
            recovered_key(keccak256_digest(packages[i].0@), packages[i].2@, packages[i].3)
        } else {
            recovered_key(packages[i].1@, packages[i].2@, packages[i].3)
        },
{
}

/// Every signature over a shared digest is recovered against that digest.
pub proof fn law_every_signature_is_recovered(digest: Seq<u8>, sigs: Seq<(Vec<u8>, u8)>, i: int)
    requires
        0 <= i < sigs.len(),
    ensures
        shared_digest_keys(digest, sigs).len() == sigs.len(),
        shared_digest_keys(digest, sigs)[i] == recovered_key(digest, sigs[i].0@, sigs[i].1),
{
}

/// One more package counts by its own recovery alone: a key that is recovered
/// from it adds one and its second byte, and a failed recovery adds nothing.
pub proof fn law_one_more_package(hash: bool, packages: Seq<Package>, package: Package)
    ensures
        recovered_count(package_keys(hash, package_views(Seq::<Package>::empty()))) == 0,
        key_checksum(package_keys(hash, package_views(Seq::<Package>::empty()))) == 0,
        ({
            let digest = if hash {
                keccak256_digest(package.0@)
            } else {
                package.1@
            };
            let before = package_keys(hash, package_views(packages));
            let after = package_keys(hash, package_views(packages.push(package)));
            match recovered_key(digest, package.2@, package.3) {
                Some(key) => recovered_count(after) == recovered_count(before) + 1
                    && key_checksum(after) == key_checksum(before) ^ key[1],
                None => recovered_count(after) == recovered_count(before) && key_checksum(after)
                    == key_checksum(before),
            }
        }),
{
    let digest = if hash {
        keccak256_digest(package.0@)
    } else {
        package.1@
    };
    let before = package_keys(hash, package_views(packages));
    let key = recovered_key(digest, package.2@, package.3);
    assert(package_keys(hash, package_views(packages.push(package))) =~= before.push(key));
    assert(package_keys(hash, package_views(Seq::<Package>::empty())) =~= Seq::empty());
    law_tally(before, Seq::empty());
    if let Some(bytes) = key {
        law_tally(before, bytes);
    }
}

/// Verifying comes to a tally exactly when every package is sound: a signature,
/// a recovery id of two bits and, where it is not computed, a digest of 32
/// bytes. The tally is then that of all the recoveries.
pub proof fn law_sound_packages_are_tallied(hash: bool, packages: Seq<Package>)
    ensures
        verified_tally(hash, package_views(packages)) is Ok <==> forall|i: int|
            0 <= i < packages.len() ==> {
                &&& well_formed_signature((#[trigger] packages[i]).2@)
                &&& packages[i].3 <= 3
                &&& hash || packages[i].1@.len() == 32
            },
        verified_tally(hash, package_views(packages)) matches Ok(tally) ==> {
            &&& tally.0 == recovered_count(package_keys(hash, package_views(packages))) as u32
            &&& tally.1 == key_checksum(package_keys(hash, package_views(packages)))
        },
{
    let faults = package_faults(hash, package_views(packages));
    law_first_error(faults);
    assert forall|i: int| 0 <= i < packages.len() implies ((#[trigger] faults[i]) is None <==> {
        &&& well_formed_signature(packages[i].2@)
        &&& packages[i].3 <= 3
        &&& hash || packages[i].1@.len() == 32
    }) by {}
    if forall|i: int|
        0 <= i < packages.len() ==> {
            &&& well_formed_signature((#[trigger] packages[i]).2@)
            &&& packages[i].3 <= 3
            &&& hash || packages[i].1@.len() == 32
        } {
        assert forall|i: int| 0 <= i < faults.len() implies (#[trigger] faults[i]) is None by {
            assert(well_formed_signature(packages[i].2@));
        }
    } else {
        let i = choose|i: int|
            0 <= i < packages.len() && !(well_formed_signature((#[trigger] packages[i]).2@)
                && packages[i].3 <= 3 && (hash || packages[i].1@.len() == 32));
        assert(faults[i] is Some);
    }
}

/// The first package that is not sound decides the fault: its digest is looked
/// at first, then its signature, then its recovery id. What follows it does not
/// matter.
pub proof fn law_first_unsound_package_decides(hash: bool, packages: Seq<Package>, i: int)
    requires
        0 <= i < packages.len(),
        forall|k: int|
            0 <= k < i ==> {
                &&& well_formed_signature((#[trigger] packages[k]).2@)
                &&& packages[k].3 <= 3
                &&& hash || packages[k].1@.len() == 32
            },
    ensures
        !hash && packages[i].1@.len() != 32 ==> verified_tally(hash, package_views(packages))
            == Err::<(u32, u8), Fault>(Fault::DigestLength),
        (hash || packages[i].1@.len() == 32) && !well_formed_signature(packages[i].2@)
            ==> verified_tally(hash, package_views(packages)) == Err::<(u32, u8), Fault>(
            Fault::MalformedSignature,
        ),
        (hash || packages[i].1@.len() == 32) && well_formed_signature(packages[i].2@)
            && packages[i].3 > 3 ==> verified_tally(hash, package_views(packages)) == Err::<
            (u32, u8),
            Fault,
        >(Fault::BadRecoveryId),
{
    let faults = package_faults(hash, package_views(packages));
    assert forall|k: int| 0 <= k < i implies (#[trigger] faults[k]) is None by {
        assert(well_formed_signature(packages[k].2@));
    }
    assert(faults[i] == package_fault(hash, package_view(packages[i])));
    law_first_error(faults);
    if faults[i] is Some {
        lemma_first_error_at(faults, i);
    }
}

/// Recovering over a shared digest does nothing when it is switched off. Switched
/// on, it comes to a tally exactly when the digest has 32 bytes and every
/// signature and recovery id is sound.
pub proof fn law_sound_signatures_are_tallied(digest: Seq<u8>, sigs: Seq<(Vec<u8>, u8)>)
    ensures
        recovered_tally(false, digest, sigs) == Ok::<(u32, u8), Fault>((0u32, 0u8)),
        recovered_tally(true, digest, sigs) is Ok <==> digest.len() == 32 && forall|i: int|
            0 <= i < sigs.len() ==> well_formed_signature((#[trigger] sigs[i]).0@) && sigs[i].1
                <= 3,
        recovered_tally(true, digest, sigs) matches Ok(tally) ==> {
            &&& tally.0 == recovered_count(shared_digest_keys(digest, sigs)) as u32
            &&& tally.1 == key_checksum(shared_digest_keys(digest, sigs))
        },
        digest.len() != 32 ==> recovered_tally(true, digest, sigs) == Err::<(u32, u8), Fault>(
            Fault::DigestLength,
        ),
{
    let faults = signature_faults(sigs);
    law_first_error(faults);
    if forall|i: int|
        0 <= i < sigs.len() ==> well_formed_signature((#[trigger] sigs[i]).0@) && sigs[i].1 <= 3 {
        assert forall|i: int| 0 <= i < faults.len() implies (#[trigger] faults[i]) is None by {
            assert(well_formed_signature(sigs[i].0@));
        }
    } else {
        let i = choose|i: int|
            0 <= i < sigs.len() && !(well_formed_signature((#[trigger] sigs[i]).0@) && sigs[i].1
                <= 3);
        assert(faults[i] is Some);
    }
}

/// The first signature that is not sound decides the fault, its bytes before its
/// recovery id.
pub proof fn law_first_unsound_signature_decides(
    digest: Seq<u8>,
    sigs: Seq<(Vec<u8>, u8)>,
    i: int,
)
    requires
        digest.len() == 32,
        0 <= i < sigs.len(),
        forall|k: int|
            0 <= k < i ==> well_formed_signature((#[trigger] sigs[k]).0@) && sigs[k].1 <= 3,
    ensures
        !well_formed_signature(sigs[i].0@) ==> recovered_tally(true, digest, sigs) == Err::<
            (u32, u8),
            Fault,
        >(Fault::MalformedSignature),
        well_formed_signature(sigs[i].0@) && sigs[i].1 > 3 ==> recovered_tally(true, digest, sigs)
            == Err::<(u32, u8), Fault>(Fault::BadRecoveryId),
{
    let faults = signature_faults(sigs);
    assert forall|k: int| 0 <= k < i implies (#[trigger] faults[k]) is None by {
        assert(well_formed_signature(sigs[k].0@));
    }
    assert(faults[i] == signature_fault(sigs[i].0@, sigs[i].1));
    if faults[i] is Some {
        lemma_first_error_at(faults, i);
    }
}

/// What each fault is called.
pub proof fn law_fault_texts()
    ensures
        Fault::DigestLength.text() == "digest must be 32 bytes"@,
        Fault::MalformedSignature.text() == "malformed signature"@,
        Fault::BadRecoveryId.text() == "bad recovery id"@,
{
}

} // verus!
