//! What to run for a measurement, and what to conclude from the runs.

use crate::baseline::{
    keccak256, make_packages, sign_with_n_signers, Opts, Package, Run, RECOVER_MESSAGE,
};
use crate::bench::{
    key_checksum, package_keys, package_views, recovered_count, shared_digest_keys, PackageView,
};
use crate::decimal::{decimal, decimal_text};
use crate::first::first_error;
use crate::primitives::{keccak256_digest, recoverable_signature};
use crate::signers::{
    law_at_most_255_signers, law_made_signatures, law_published_packages_verify,
    law_shared_signatures_verify, published_by_first, publishing_errors, signed_by,
    signed_by_first, signer_scalar, signing_errors, SigningError,
};
use crate::wire::{
    journal_error, law_journal_bytes, law_journal_round_trip, tally_journal, tally_of, words_of,
};
use vstd::prelude::*;

verus! {

/// One guest run to make: its input and its options.
pub struct Job<T> {
    pub input: T,
    pub opts: Opts,
}

/// The two runs of a delta, to be made in this order.
pub struct DeltaPlan<T> {
    pub idle: Job<T>,
    pub busy: Job<T>,
}

/// A workload measured twice, with the cryptographic work enabled and skipped.
///
/// `work` is the quantity that is reported: the cost of the primitive with the
/// fixed costs around it subtracted out.
pub struct Delta {
    /// `busy.cycles - idle.cycles`, saturating.
    pub work: u64,
    pub busy: Run,
    pub idle: Run,
}

/// A difference of cycle counts that does not go below zero.
pub open spec fn cycles_above(cycles: u64, base: u64) -> u64 {
    if cycles > base {
        (cycles - base) as u64
    } else {
        0
    }
}

/// Plans a delta. Only the busy run is ever proved; the idle run exists to be
/// subtracted, and proving it would cost minutes for a number nothing reads.
pub fn plan_delta<T>(idle_input: T, busy_input: T, opts: Opts) -> (plan: DeltaPlan<T>)
    ensures
        plan.idle.input == idle_input,
        plan.idle.opts == (Opts { prove: false, ..opts }),
        plan.busy.input == busy_input,
        plan.busy.opts == opts,
{
    DeltaPlan {
        idle: Job { input: idle_input, opts: opts.without_proving() },
        busy: Job { input: busy_input, opts },
    }
}

/// Subtracts the idle run from the busy one.
pub fn conclude_delta(idle: Run, busy: Run) -> (delta: Delta)
    ensures
        delta.work == cycles_above(busy.cycles, idle.cycles),
        delta.busy == busy,
        delta.idle == idle,
{
    Delta { work: busy.cycles.saturating_sub(idle.cycles), busy, idle }
}

/// `iters` hashes of a `msg_len`-byte message, measured against the same loop
/// with hashing skipped.
///
/// The guest of the loop's own bookkeeping takes the same `(do_work, iters, len)`
/// input, which is what makes one subtractable from the other: see
/// [`plan_bookkeeping_delta`].
pub fn plan_keccak_delta(iters: u32, msg_len: u32, opts: Opts) -> (plan: DeltaPlan<
    (bool, u32, u32),
>)
    ensures
        plan.idle.input == (false, iters, msg_len),
        plan.idle.opts == (Opts { prove: false, ..opts }),
        plan.busy.input == (true, iters, msg_len),
        plan.busy.opts == opts,
{
    plan_delta((false, iters, msg_len), (true, iters, msg_len), opts)
}

/// The loop's own bookkeeping, for the same hashes: never proved and never
/// capped, whatever the options of the hashing delta, because only its cycle
/// count is subtracted.
pub fn plan_bookkeeping_delta(iters: u32, msg_len: u32) -> (plan: DeltaPlan<(bool, u32, u32)>)
    ensures
        plan.idle.input == (false, iters, msg_len),
        plan.idle.opts == (Opts { segment_po2: None, prove: false, repeat: 0 }),
        plan.busy.input == (true, iters, msg_len),
        plan.busy.opts == (Opts { segment_po2: None, prove: false, repeat: 0 }),
{
    plan_keccak_delta(iters, msg_len, Opts::execute_only())
}

/// The input of the recovery workload: `(do_work, digest, signatures)`.
pub type RecoverInput = (bool, Vec<u8>, Vec<(Vec<u8>, u8)>);

/// The digest every signer of the recovery workload signs.
pub open spec fn recover_digest() -> Seq<u8> {
    keccak256_digest(RECOVER_MESSAGE@)
}

/// The recovery workload of the first `signers` signers, switched on or off.
pub open spec fn is_recover_input(input: RecoverInput, do_work: bool, signers: nat) -> bool {
    &&& input.0 == do_work
    &&& input.1@ == recover_digest()
    &&& input.1@.len() == 32
    &&& signed_by_first(signers, recover_digest(), input.2@)
}

fn copy_signatures(sigs: &Vec<(Vec<u8>, u8)>) -> (copy: Vec<(Vec<u8>, u8)>)
    ensures
        copy@.len() == sigs@.len(),
        forall|i: int|
            0 <= i < sigs@.len() ==> (#[trigger] copy@[i]).0@ == sigs@[i].0@ && copy@[i].1
                == sigs@[i].1,
{
    let mut copy: Vec<(Vec<u8>, u8)> = Vec::new();
    let mut i: usize = 0;
    while i < sigs.len()
        invariant
            i <= sigs@.len(),
            copy@.len() == i,
            forall|k: int|
                0 <= k < i ==> (#[trigger] copy@[k]).0@ == sigs@[k].0@ && copy@[k].1 == sigs@[k].1,
        decreases sigs@.len() - i,
    {
        copy.push((vstd::slice::slice_to_vec(sigs[i].0.as_slice()), sigs[i].1));
        i = i + 1;
    }
    copy
}

/// One secp256k1 recovery per signer over a single shared digest: the shape of
/// an M-of-N check.
pub fn plan_recover_delta(signers: usize, opts: Opts) -> (planned: Result<
    DeltaPlan<RecoverInput>,
    SigningError,
>)
    ensures
        planned is Ok <==> first_error(signing_errors(signers as nat, recover_digest())) is None,
        planned matches Ok(plan) ==> {
            &&& is_recover_input(plan.idle.input, false, signers as nat)
            &&& plan.idle.opts == (Opts { prove: false, ..opts })
            &&& is_recover_input(plan.busy.input, true, signers as nat)
            &&& plan.busy.opts == opts
        },
        planned matches Err(error) ==> first_error(
            signing_errors(signers as nat, recover_digest()),
        ) == Some(error),
{
    let message: [u8; 22] = RECOVER_MESSAGE;
    let digest = keccak256(&message);
    match sign_with_n_signers(&digest, signers) {
        Ok(sigs) => {
            let idle_sigs = copy_signatures(&sigs);
            let idle_digest = vstd::slice::slice_to_vec(&digest);
            let busy_digest = vstd::slice::slice_to_vec(&digest);
            Ok(plan_delta((false, idle_digest, idle_sigs), (true, busy_digest, sigs), opts))
        },
        Err(error) => Err(error),
    }
}

/// The input of the full update: whether to hash, and the packages.
pub type VerifyInput = (bool, Vec<Package>);

/// The full M-of-N update: one data package per signer, each hashed over its own
/// signed bytes and then recovered.
///
/// `hash` toggles only whether the digests are computed in the guest or taken
/// from the input, so two runs differing in it isolate keccak256's marginal cost
/// inside a real verification rather than in a synthetic loop.
pub fn plan_verify_run(signers: usize, hash: bool, opts: Opts) -> (planned: Result<
    Job<VerifyInput>,
    SigningError,
>)
    ensures
        planned is Ok <==> first_error(publishing_errors(signers as nat)) is None,
        planned matches Ok(job) ==> {
            &&& job.input.0 == hash
            &&& published_by_first(signers as nat, package_views(job.input.1@))
            &&& job.opts == opts
        },
        planned matches Err(error) ==> first_error(publishing_errors(signers as nat)) == Some(
            error,
        ),
{
    match make_packages(signers) {
        Ok(packages) => Ok(Job { input: (hash, packages), opts }),
        Err(error) => Err(error),
    }
}

/// Why a run is not a measurement of the recoveries it was meant to make.
#[derive(Clone, Debug, PartialEq, Eq)]
pub enum RecoveryError {
    /// The journal does not begin with a count and a checksum; the serializer
    /// says why.
    BadJournal { text: String },
    /// The guest recovered another number of keys than there were signers.
    Shortfall { expected: usize, recovered: u32 },
}

/// The same, as a mathematical value.
pub enum RecoveryErrorView {
    BadJournal { text: Seq<char> },
    Shortfall { expected: usize, recovered: u32 },
}

impl View for RecoveryError {
    type V = RecoveryErrorView;

    open spec fn view(&self) -> RecoveryErrorView {
        match self {
            RecoveryError::BadJournal { text } => RecoveryErrorView::BadJournal { text: text@ },
            RecoveryError::Shortfall { expected, recovered } => RecoveryErrorView::Shortfall {
                expected: *expected,
                recovered: *recovered,
            },
        }
    }
}

impl RecoveryErrorView {
    /// The error in words: the serializer's own, or both counts.
    pub open spec fn text(self) -> Seq<char> {
        match self {
            RecoveryErrorView::BadJournal { text } => text,
            RecoveryErrorView::Shortfall { expected, recovered } => "expected "@ + decimal(
                expected as nat,
            ) + " successful recoveries, guest reported "@ + decimal(recovered as nat),
        }
    }
}

impl RecoveryError {
    /// The error in words.
    pub fn message(&self) -> (message: String)
        ensures
            message@ == self@.text(),
    {
        let mut message = String::new();
        match self {
            RecoveryError::BadJournal { text } => {
                message.append(text.as_str());
            },
            RecoveryError::Shortfall { expected, recovered } => {
                message.append("expected ");
                message.append(decimal_text(*expected as u64).as_str());
                message.append(" successful recoveries, guest reported ");
                message.append(decimal_text(*recovered as u64).as_str());
            },
        }
        proof {
            assert(message@ =~= self@.text());
        }
        message
    }
}

/// What a journal says about the recoveries it reports: nothing wrong, or why
/// they do not count.
pub open spec fn recovery_error(journal: Seq<u8>, expected: usize) -> Option<RecoveryErrorView> {
    match tally_of(words_of(journal)) {
        None => Some(RecoveryErrorView::BadJournal { text: journal_error(words_of(journal)) }),
        Some((recovered, checksum)) => if recovered == expected {
            None
        } else {
            Some(RecoveryErrorView::Shortfall { expected, recovered })
        },
    }
}

/// The guest reports how many recoveries succeeded; a shortfall means the cycle
/// count measures error paths rather than the work.
pub fn ensure_recovered(run: &Run, expected: usize) -> (checked: Result<(), RecoveryError>)
    requires
        run@.journal.len() % 4 == 0,
    ensures
        checked is Ok <==> recovery_error(run@.journal, expected) is None,
        checked matches Err(error) ==> recovery_error(run@.journal, expected) == Some(error@),
{
    match run.journal_decode() {
        Ok((recovered, _checksum)) => {
            if recovered as usize == expected {
                Ok(())
            } else {
                Err(RecoveryError::Shortfall { expected, recovered })
            }
        },
        Err(error) => Err(RecoveryError::BadJournal { text: error.text }),
    }
}

/// Concludes the recovery workload.
///
/// Fails rather than reporting if the guest did not recover exactly `signers`
/// keys, because a run that silently took the cheap error path is not a
/// measurement of `signers` recoveries.
pub fn conclude_recover_delta(signers: usize, idle: Run, busy: Run) -> (concluded: Result<
    Delta,
    RecoveryError,
>)
    requires
        busy@.journal.len() % 4 == 0,
    ensures
        concluded is Ok <==> recovery_error(busy@.journal, signers) is None,
        concluded matches Ok(delta) ==> {
            &&& delta.work == cycles_above(busy.cycles, idle.cycles)
            &&& delta.busy == busy
            &&& delta.idle == idle
        },
        concluded matches Err(error) ==> recovery_error(busy@.journal, signers) == Some(error@),
{
    match ensure_recovered(&busy, signers) {
        Ok(()) => Ok(conclude_delta(idle, busy)),
        Err(error) => Err(error),
    }
}

/// Concludes the full update, failing on the same grounds.
pub fn conclude_verify_run(signers: usize, run: Run) -> (concluded: Result<Run, RecoveryError>)
    requires
        run@.journal.len() % 4 == 0,
    ensures
        concluded is Ok <==> recovery_error(run@.journal, signers) is None,
        concluded matches Ok(accepted) ==> accepted == run,
        concluded matches Err(error) ==> recovery_error(run@.journal, signers) == Some(error@),
{
    match ensure_recovered(&run, signers) {
        Ok(()) => Ok(run),
        Err(error) => Err(error),
    }
}

/// The two runs of a recovery delta get the same input but for the switch: the
/// same digest and, signer by signer, the same signature and recovery id.
pub proof fn law_same_recover_input(idle: RecoverInput, busy: RecoverInput, signers: nat)
    requires
        is_recover_input(idle, false, signers),
        is_recover_input(busy, true, signers),
    ensures
        idle.1@ == busy.1@,
        idle.2@.len() == busy.2@.len(),
        forall|i: int|
            0 <= i < signers ==> (#[trigger] idle.2@[i]).0@ == busy.2@[i].0@ && idle.2@[i].1
                == busy.2@[i].1,
{
    assert forall|i: int| 0 <= i < signers implies (#[trigger] idle.2@[i]).0@ == busy.2@[i].0@
        && idle.2@[i].1 == busy.2@[i].1 by {
        assert(signed_by(i as nat, recover_digest(), idle.2@[i].0@, idle.2@[i].1));
        assert(signed_by(i as nat, recover_digest(), busy.2@[i].0@, busy.2@[i].1));
    }
}

/// A journal is judged by its count alone: it is accepted exactly when the
/// guest recovered as many keys as there were signers, and a refusal names both
/// numbers.
pub proof fn law_journal_is_judged_by_count(tally: (u32, u8), rest: Seq<u8>, expected: usize)
    ensures
        recovery_error(tally_journal(tally) + rest, expected) == if tally.0 == expected {
            None::<RecoveryErrorView>
        } else {
            Some(RecoveryErrorView::Shortfall { expected, recovered: tally.0 })
        },
{
    law_journal_round_trip(tally, rest);
}

/// A planned update is accepted when the guest commits what the workload
/// returns on it, with or without hashing.
pub proof fn law_planned_update_is_accepted(
    hash: bool,
    signers: usize,
    packages: Seq<PackageView>,
    rest: Seq<u8>,
)
    requires
        published_by_first(signers as nat, packages),
    ensures
        ({
            let keys = package_keys(hash, packages);
            let tally = (recovered_count(keys) as u32, key_checksum(keys));
            recovery_error(tally_journal(tally) + rest, signers) is None
        }),
{
    let keys = package_keys(hash, packages);
    law_at_most_255_signers(signers as nat, Seq::empty());
    law_published_packages_verify(hash, signers as nat, packages);
    law_journal_is_judged_by_count(
        (recovered_count(keys) as u32, key_checksum(keys)),
        rest,
        signers,
    );
}

/// A planned recovery is accepted when the guest commits what the workload
/// returns on it; the idle run's journal, which reports none, is not.
pub proof fn law_planned_recovery_is_accepted(input: RecoverInput, signers: usize, rest: Seq<u8>)
    requires
        is_recover_input(input, true, signers as nat),
    ensures
        ({
            let keys = shared_digest_keys(input.1@, input.2@);
            let tally = (recovered_count(keys) as u32, key_checksum(keys));
            recovery_error(tally_journal(tally) + rest, signers) is None
        }),
        signers > 0 ==> recovery_error(tally_journal((0u32, 0u8)) + rest, signers) is Some,
{
    let keys = shared_digest_keys(input.1@, input.2@);
    law_at_most_255_signers(signers as nat, recover_digest());
    law_shared_signatures_verify(signers as nat, recover_digest(), input.2@);
    law_journal_is_judged_by_count(
        (recovered_count(keys) as u32, key_checksum(keys)),
        rest,
        signers,
    );
    law_journal_is_judged_by_count((0u32, 0u8), rest, signers);
}

/// The work of a delta is what the base lacks of the larger of the two counts:
/// added to the base it gives the other count, unless that is the smaller one.
pub proof fn law_work_is_the_difference(cycles: u64, base: u64)
    ensures
        cycles >= base ==> base + cycles_above(cycles, base) == cycles,
        cycles <= base ==> cycles_above(cycles, base) == 0,
{
}

/// The digest of the recovery workload is that of its message in ASCII.
pub proof fn law_recover_digest(message: Seq<u8>)
    requires
        message.len() == "kanon m0 cost baseline"@.len(),
        forall|j: int|
            0 <= j < message.len() ==> #[trigger] message[j] as char
                == "kanon m0 cost baseline"@[j],
    ensures
        recover_digest() == keccak256_digest(message),
{
    reveal_strlit("kanon m0 cost baseline");
    assert forall|j: int| 0 <= j < message.len() implies #[trigger] message[j]
        == RECOVER_MESSAGE@[j] by {
        assert(message[j] as char == "kanon m0 cost baseline"@[j]);
    }
    assert(message =~= RECOVER_MESSAGE@);
}

/// The input of the recovery workload: the switch, the digest of its message, and
/// a signature over it from each signer in order.
pub proof fn law_recover_input(input: RecoverInput, do_work: bool, signers: nat, i: int)
    requires
        is_recover_input(input, do_work, signers),
    ensures
        input.0 == do_work,
        input.1@ == recover_digest(),
        input.1@.len() == 32,
        input.2@.len() == signers,
        0 <= i < signers ==> recoverable_signature(signer_scalar(i as nat), recover_digest())
            == Some((input.2@[i].0@, input.2@[i].1)),
{
    if 0 <= i < signers {
        law_made_signatures(signers, recover_digest(), input.2@, i);
    }
}

/// How a journal is judged, byte by byte: by the count in its first four bytes if
/// it decodes, and by what the serializer says of it if it does not.
pub proof fn law_judgement(journal: Seq<u8>, expected: usize)
    requires
        journal.len() % 4 == 0,
    ensures
        ({
            let decodes = journal.len() >= 8 && journal[5] == 0 && journal[6] == 0 && journal[7]
                == 0;
            let count = journal[0] + 256 * journal[1] + 65536 * journal[2] + 16777216 * journal[3];
            &&& decodes && count == expected ==> recovery_error(journal, expected) is None
            &&& decodes && count != expected ==> recovery_error(journal, expected) == Some(
                RecoveryErrorView::Shortfall { expected, recovered: count as u32 },
            )
            &&& !decodes ==> recovery_error(journal, expected) == Some(
                RecoveryErrorView::BadJournal { text: journal_error(words_of(journal)) },
            )
        }),
{
    law_journal_bytes(journal);
}

/// A recovery error and what it is called.
pub proof fn law_recovery_error_texts(error: RecoveryError)
    ensures
        match error {
            RecoveryError::BadJournal { text } => error@ == (RecoveryErrorView::BadJournal {
                text: text@,
            }) && error@.text() == text@,
            RecoveryError::Shortfall { expected, recovered } => error@
                == (RecoveryErrorView::Shortfall { expected, recovered }) && error@.text()
                == "expected "@ + decimal(expected as nat)
                + " successful recoveries, guest reported "@ + decimal(recovered as nat),
        },
{
}

} // verus!
