//! The baseline: what the primitives cost on the bare zkVM.
//!
//! Every workload runs twice against byte-identical input, once with the
//! cryptographic work enabled and once with it skipped. The difference is the
//! cost of the primitive; startup, input deserialization and the journal commit
//! cancel out. That difference is a [`Delta`](crate::delta::Delta).
//!
//! Running a guest is not done here. This module says what to run, with which
//! options and on which input, and what to conclude from the runs.

pub use crate::bench::Package;
use crate::bench::package_views;
use crate::first::{first_error, lemma_first_error_skip};
use crate::primitives::{hash_keccak256, keccak256_digest};
use crate::samples::{fastest, is_fastest, is_slowest, spread};
use crate::signers::{
    law_publishing_fails_by_refusal_alone, law_signing_fails_by_refusal_alone, published_by,
    published_by_first, publishing_errors, sign_as, signed_by_first, signed_bytes, signing_errors,
    SigningError,
};
use crate::wire::{decode_journal, journal_error, tally_of, words_of, BadJournal};
use vstd::prelude::*;

verus! {

/// Message sizes to hash, in bytes.
///
/// 77 is the size that actually matters: it is what is signed per data package
/// for a single data point. 32 is the single-permutation floor, 141 is the
/// two-data-point package, and 512 extends the curve far enough to show how cost
/// scales with size.
pub const KECCAK_MSG_LENS: [u32; 4] = [32, 77, 141, 512];

/// Hashes per run. Enough that the per-hash figure is not dominated by loop
/// setup, small enough that the software baseline still finishes quickly.
pub const KECCAK_ITERS: u32 = 16;

/// Signer counts to recover. 3 is the default threshold; 1 is the unit cost; 5
/// shows whether the cost is linear in the signer count.
pub const RECOVER_SIGNER_COUNTS: [usize; 3] = [1, 3, 5];

/// The signed byte range of one data package carrying a single data point with
/// a 32-byte value: `1 * (32 + 32) + 4 + 6 + 3`.
pub const REDSTONE_SIGNED_BYTES: u32 = 77;

/// The default threshold.
pub const VERIFY_SIGNERS: usize = 3;

/// The message whose digest the recovery workload signs: `kanon m0 cost
/// baseline` in ASCII. Fixed so the measurement is reproducible run to run.
pub const RECOVER_MESSAGE: [u8; 22] = [
    0x6b, 0x61, 0x6e, 0x6f, 0x6e, 0x20, 0x6d, 0x30, 0x20, 0x63, 0x6f, 0x73, 0x74, 0x20, 0x62, 0x61,
    0x73, 0x65, 0x6c, 0x69, 0x6e, 0x65,
];

/// The guest images of one build.
#[derive(Clone, Copy)]
pub struct GuestImages {
    pub noop: &'static [u8],
    pub keccak: &'static [u8],
    pub keccak_overhead: &'static [u8],
    pub recover: &'static [u8],
    pub verify: &'static [u8],
}

/// The guest images of one configuration. The three configurations differ only
/// in which accelerators their guests were built with.
pub struct Elfs {
    pub name: &'static str,
    pub noop: &'static [u8],
    pub keccak: &'static [u8],
    pub keccak_overhead: &'static [u8],
    pub recover: &'static [u8],
    pub verify: &'static [u8],
}

impl Elfs {
    /// Whether this is the configuration `name` with exactly these images.
    pub open spec fn is_build(self, name: Seq<char>, images: GuestImages) -> bool {
        &&& self.name@ == name
        &&& self.noop == images.noop
        &&& self.keccak == images.keccak
        &&& self.keccak_overhead == images.keccak_overhead
        &&& self.recover == images.recover
        &&& self.verify == images.verify
    }
}

/// No accelerators.
#[must_use]
pub fn software(images: GuestImages) -> (elfs: Elfs)
    ensures
        elfs.is_build("software"@, images),
{
    Elfs {
        name: "software",
        noop: images.noop,
        keccak: images.keccak,
        keccak_overhead: images.keccak_overhead,
        recover: images.recover,
        verify: images.verify,
    }
}

/// Both accelerators, including the keccak256 coprocessor.
#[must_use]
pub fn accelerated(images: GuestImages) -> (elfs: Elfs)
    ensures
        elfs.is_build("accelerated"@, images),
{
    Elfs {
        name: "accelerated",
        noop: images.noop,
        keccak: images.keccak,
        keccak_overhead: images.keccak_overhead,
        recover: images.recover,
        verify: images.verify,
    }
}

/// Accelerated recovery, software keccak.
#[must_use]
pub fn mixed(images: GuestImages) -> (elfs: Elfs)
    ensures
        elfs.is_build("mixed"@, images),
{
    Elfs {
        name: "mixed",
        noop: images.noop,
        keccak: images.keccak,
        keccak_overhead: images.keccak_overhead,
        recover: images.recover,
        verify: images.verify,
    }
}

/// All three, in the order they are reported.
#[must_use]
pub fn variants(
    software_images: GuestImages,
    accelerated_images: GuestImages,
    mixed_images: GuestImages,
) -> (all: [Elfs; 3])
    ensures
        all[0].is_build("software"@, software_images),
        all[1].is_build("accelerated"@, accelerated_images),
        all[2].is_build("mixed"@, mixed_images),
{
    [software(software_images), accelerated(accelerated_images), mixed(mixed_images)]
}

/// How to run a measurement.
#[derive(Clone, Copy, Debug, PartialEq, Eq)]
pub struct Opts {
    /// Cap the cycles per segment at 2^N. Comparisons are only valid between
    /// runs that used the same value.
    pub segment_po2: Option<u32>,
    /// Generate real proofs, for proving wall-clock and proof size.
    pub prove: bool,
    /// Prove this many times and keep every sample. Only meaningful with
    /// `prove`.
    pub repeat: usize,
}

impl Default for Opts {
    fn default() -> (opts: Self)
        ensures
            opts == (Opts { segment_po2: None, prove: false, repeat: 0 }),
    {
        Opts { segment_po2: None, prove: false, repeat: 0 }
    }
}

/// How often to prove: never unless asked to, and at least once if asked to.
pub open spec fn proving_rounds(prove: bool, repeat: usize) -> nat {
    if !prove {
        0
    } else if repeat == 0 {
        1
    } else {
        repeat as nat
    }
}

/// How often to prove.
pub fn rounds(prove: bool, repeat: usize) -> (rounds: usize)
    ensures
        rounds == proving_rounds(prove, repeat),
{
    if !prove {
        0
    } else if repeat == 0 {
        1
    } else {
        repeat
    }
}

impl Opts {
    /// Execution only: cycles and segments, no proving.
    #[must_use]
    pub fn execute_only() -> (opts: Self)
        ensures
            opts == (Opts { segment_po2: None, prove: false, repeat: 0 }),
    {
        Opts::default()
    }

    /// The same options, with proving switched off.
    pub fn without_proving(self) -> (opts: Self)
        ensures
            opts == (Opts { prove: false, ..self }),
    {
        Opts { segment_po2: self.segment_po2, prove: false, repeat: self.repeat }
    }
}

/// What one guest run cost.
pub struct Run {
    pub cycles: u64,
    pub segments: usize,
    /// The bytes the guest committed.
    pub journal_words: Vec<u8>,
    /// Every proving sample, in nanoseconds.
    pub prove_samples: Vec<u128>,
    pub proof_bytes: Option<usize>,
    /// Receipt flavour, and how many assumptions it carries.
    pub receipt_kind: Option<String>,
}

/// A run as a mathematical value.
#[verifier::ext_equal]
pub struct RunView {
    pub cycles: u64,
    pub segments: usize,
    pub journal: Seq<u8>,
    pub prove_samples: Seq<u128>,
    pub proof_bytes: Option<usize>,
    pub receipt_kind: Option<Seq<char>>,
}

impl View for Run {
    type V = RunView;

    open spec fn view(&self) -> RunView {
        RunView {
            cycles: self.cycles,
            segments: self.segments,
            journal: self.journal_words@,
            prove_samples: self.prove_samples@,
            proof_bytes: self.proof_bytes,
            receipt_kind: match self.receipt_kind {
                Some(text) => Some(text@),
                None => None,
            },
        }
    }
}

impl Run {
    /// The count and checksum the guest committed.
    pub fn journal_decode(&self) -> (decoded: Result<(u32, u8), BadJournal>)
        requires
            self@.journal.len() % 4 == 0,
        ensures
            decoded is Ok <==> tally_of(words_of(self@.journal)) is Some,
            decoded matches Ok(tally) ==> tally_of(words_of(self@.journal)) == Some(tally),
            decoded matches Err(error) ==> error.text@ == journal_error(words_of(self@.journal)),
    {
        decode_journal(self.journal_words.as_slice())
    }

    /// The fastest proving sample. Noise on a shared machine only ever adds
    /// time, so the minimum is the best estimate of the underlying cost.
    #[must_use]
    pub fn prove_nanos(&self) -> (found: Option<u128>)
        ensures
            found is Some <==> self@.prove_samples.len() > 0,
            found matches Some(sample) ==> is_fastest(self@.prove_samples, sample),
    {
        fastest(self.prove_samples.as_slice())
    }

    /// The fastest and the slowest proving sample, when there are several.
    #[must_use]
    pub fn prove_spread(&self) -> (found: Option<(u128, u128)>)
        ensures
            found is Some <==> self@.prove_samples.len() > 1,
            found matches Some((low, high)) ==> {
                &&& is_fastest(self@.prove_samples, low)
                &&& is_slowest(self@.prove_samples, high)
            },
    {
        spread(self.prove_samples.as_slice())
    }
}

/// keccak256 of `data`.
#[must_use]
pub fn keccak256(data: &[u8]) -> (digest: [u8; 32])
    ensures
        digest@ == keccak256_digest(data@),
{
    hash_keccak256(data)
}

/// One data package per signer, each carrying its own signed bytes and its own
/// signature, which is how an M-of-N update is actually published. The
/// per-signer bytes differ, so each package needs its own hash.
pub fn make_packages(n: usize) -> (made: Result<Vec<Package>, SigningError>)
    ensures
        made is Ok <==> first_error(publishing_errors(n as nat)) is None,
        n > 255 ==> made is Err,
        made matches Ok(packages) ==> published_by_first(n as nat, package_views(packages@)),
        made matches Err(error) ==> first_error(publishing_errors(n as nat)) == Some(error),
{
    let mut packages: Vec<Package> = Vec::new();
    let ghost errors = publishing_errors(n as nat);
    proof {
        assert(errors.skip(0) =~= errors);
    }
    let mut i: usize = 0;
    while i < n
        invariant
            i <= n,
            published_by_first(i as nat, package_views(packages@)),
            errors == publishing_errors(n as nat),
            first_error(errors) == first_error(errors.skip(i as int)),
        decreases n - i,
    {
        proof {
            lemma_first_error_skip(errors, i as int);
        }
        let message = signed_bytes(i);
        let digest = keccak256(message.as_slice());
        match sign_as(i, &digest) {
            Ok((signature, recovery_id)) => {
                let ghost before = package_views(packages@);
                let digest = vstd::slice::slice_to_vec(&digest);
                packages.push((message, digest, signature, recovery_id));
                assert forall|k: int| 0 <= k <= i implies published_by(
                    k as nat,
                    #[trigger] package_views(packages@)[k],
                ) by {
                    if k < i {
                        assert(package_views(packages@)[k] == before[k]);
                    }
                }
            },
            Err(error) => {
                return Err(error);
            },
        }
        i = i + 1;
    }
    proof {
        law_publishing_fails_by_refusal_alone(n as nat);
    }
    Ok(packages)
}

/// Deterministic signing keys over one shared digest.
pub fn sign_with_n_signers(digest: &[u8; 32], n: usize) -> (made: Result<
    Vec<(Vec<u8>, u8)>,
    SigningError,
>)
    ensures
        made is Ok <==> first_error(signing_errors(n as nat, digest@)) is None,
        n > 255 ==> made is Err,
        made matches Ok(sigs) ==> signed_by_first(n as nat, digest@, sigs@),
        made matches Err(error) ==> first_error(signing_errors(n as nat, digest@)) == Some(error),
{
    let mut sigs: Vec<(Vec<u8>, u8)> = Vec::new();
    let ghost errors = signing_errors(n as nat, digest@);
    proof {
        assert(errors.skip(0) =~= errors);
    }
    let mut i: usize = 0;
    while i < n
        invariant
            i <= n,
            signed_by_first(i as nat, digest@, sigs@),
            errors == signing_errors(n as nat, digest@),
            first_error(errors) == first_error(errors.skip(i as int)),
        decreases n - i,
    {
        proof {
            lemma_first_error_skip(errors, i as int);
        }
        match sign_as(i, digest) {
            Ok((signature, recovery_id)) => {
                sigs.push((signature, recovery_id));
            },
            Err(error) => {
                return Err(error);
            },
        }
        i = i + 1;
    }
    proof {
        law_signing_fails_by_refusal_alone(n as nat, digest@);
    }
    Ok(sigs)
}

/// A configuration is exactly the images it was built from, each in its place.
pub proof fn law_build_is_exact(elfs: Elfs, name: Seq<char>, images: GuestImages)
    requires
        elfs.is_build(name, images),
    ensures
        elfs.name@ == name,
        elfs.noop@ == images.noop@,
        elfs.keccak@ == images.keccak@,
        elfs.keccak_overhead@ == images.keccak_overhead@,
        elfs.recover@ == images.recover@,
        elfs.verify@ == images.verify@,
{
}

/// Without proving there are no rounds; with it there are as many as asked for,
/// and one where none were asked for.
pub proof fn law_rounds(repeat: usize)
    ensures
        proving_rounds(false, repeat) == 0,
        repeat > 0 ==> proving_rounds(true, repeat) == repeat,
        proving_rounds(true, 0) == 1,
{
}

/// A run is stated by all that it holds.
pub proof fn law_run_view(run: Run)
    ensures
        run@.cycles == run.cycles,
        run@.segments == run.segments,
        run@.journal == run.journal_words@,
        run@.prove_samples == run.prove_samples@,
        run@.proof_bytes == run.proof_bytes,
        run@.receipt_kind is Some <==> run.receipt_kind is Some,
        run.receipt_kind matches Some(text) ==> run@.receipt_kind == Some(text@),
{
}

} // verus!
