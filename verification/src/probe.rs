//! The probe: what the same verification costs inside a real program, against
//! the budget its platform sets.
//!
//! Public execution is capped in cycles at [`LEZ_CYCLE_BUDGET`] and is not
//! proven, so there cycles are the cost. Private execution proves the same
//! program with no session limit, so there proving time and proof size are.
//!
//! As in the baseline, nothing is run here: [`Probe`] says what to run and under
//! which limit, and takes in what happened.

use crate::baseline::{proving_rounds, rounds};
use crate::delta::cycles_above;
use crate::first::{first_error, lemma_first_error_skip};
use crate::primitives::{hash_keccak256, keccak256_digest, recoverable_signature};
use crate::samples::{fastest, is_fastest, is_slowest, spread};
use crate::signers::{
    law_publishing_fails_by_refusal_alone, publishing_errors, sign_as, signed_by, signed_bytes,
    signed_message, signer_scalar, SigningError,
};
pub use crate::wire::Package;
use crate::wire::{
    encode_instruction, image_id, instruction_words, lengths_fit, program_id, BadBinary,
};
use vstd::prelude::*;

verus! {

/// The platform's cap on a public execution, in cycles.
pub const LEZ_CYCLE_BUDGET: u64 = 1024 * 1024 * 32;

/// The signed byte range of one data package with a single data point and a
/// 32-byte value: `1 * (32 + 32) + 4 + 6 + 3`.
pub const REDSTONE_SIGNED_BYTES: usize = 77;

/// The program images of one build.
#[derive(Clone, Copy)]
pub struct ProgramImages {
    pub noop: &'static [u8],
    pub plumbing: &'static [u8],
    pub verify: &'static [u8],
}

/// A program configuration. The two differ only in whether keccak256 is routed
/// to the coprocessor; secp256k1 is accelerated in both.
pub struct Variant {
    pub name: &'static str,
    pub noop: &'static [u8],
    /// `noop` carrying the same instruction as `verify`, so that the framework's
    /// per-package instruction handling can be separated from the cryptography
    /// rather than folded into it.
    pub plumbing: &'static [u8],
    pub verify: &'static [u8],
}

impl Variant {
    /// Whether this is the configuration `name` with exactly these images.
    pub open spec fn is_build(self, name: Seq<char>, images: ProgramImages) -> bool {
        &&& self.name@ == name
        &&& self.noop == images.noop
        &&& self.plumbing == images.plumbing
        &&& self.verify == images.verify
    }
}

/// The recommended configuration: secp256k1 accelerated, keccak256 in software.
#[must_use]
pub fn mixed(images: ProgramImages) -> (variant: Variant)
    ensures
        variant.is_build("mixed"@, images),
{
    Variant {
        name: "mixed",
        noop: images.noop,
        plumbing: images.plumbing,
        verify: images.verify,
    }
}

/// Both accelerators, including the keccak256 coprocessor.
#[must_use]
pub fn accelerated(images: ProgramImages) -> (variant: Variant)
    ensures
        variant.is_build("accelerated"@, images),
{
    Variant {
        name: "accelerated",
        noop: images.noop,
        plumbing: images.plumbing,
        verify: images.verify,
    }
}

/// What one program run cost.
pub struct Run {
    pub cycles: u64,
    /// Every proving sample, in nanoseconds.
    pub prove_samples: Vec<u128>,
    pub proof_bytes: Option<usize>,
}

/// A run as a mathematical value.
#[verifier::ext_equal]
pub struct RunView {
    pub cycles: u64,
    pub prove_samples: Seq<u128>,
    pub proof_bytes: Option<usize>,
}

impl View for Run {
    type V = RunView;

    open spec fn view(&self) -> RunView {
        RunView {
            cycles: self.cycles,
            prove_samples: self.prove_samples@,
            proof_bytes: self.proof_bytes,
        }
    }
}

impl Run {
    /// The fastest sample: contention only ever adds time, so the minimum is the
    /// cleanest estimate of the underlying cost.
    #[must_use]
    pub fn prove_nanos(&self) -> (found: Option<u128>)
        ensures
            found is Some <==> self@.prove_samples.len() > 0,
            found matches Some(sample) ==> is_fastest(self@.prove_samples, sample),
    {
        fastest(self.prove_samples.as_slice())
    }

    /// The fastest and the slowest sample, when there are several.
    #[must_use]
    pub fn prove_spread(&self) -> (found: Option<(u128, u128)>)
        ensures
            found is Some <==> self@.prove_samples.len() > 1,
            found matches Some((low, high)) ==> {
                &&& is_fastest(self@.prove_samples, low)
                &&& is_slowest(self@.prove_samples, high)
            },
    {
        spread(self.prove_samples.as_slice())
    }
}

/// What to do next.
#[derive(Clone, Copy, Debug, PartialEq, Eq)]
pub enum Action {
    /// Execute the program under a session limit.
    Execute { session_limit: Option<u64> },
    /// Prove the program under a session limit.
    Prove { session_limit: Option<u64> },
    /// There is nothing left to do.
    Finish,
}

/// What happened.
#[derive(Clone, Copy, Debug)]
pub enum Event {
    Executed { cycles: u64 },
    Proved { nanos: u128, bytes: usize },
}

/// An execution that used the whole budget.
#[derive(Clone, Copy, Debug, PartialEq, Eq, Structural)]
pub struct BudgetExhausted;

impl BudgetExhausted {
    /// The error in words.
    pub fn message(&self) -> (text: &'static str)
        ensures
            text@ == "execution hit the LEZ public budget"@,
    {
        "execution hit the LEZ public budget"
    }
}

/// A measurement under way: how often to prove, and the run so far once the
/// program has been executed.
pub struct Probe {
    prove: bool,
    repeat: usize,
    run: Option<Run>,
}

/// A measurement under way, as a mathematical value.
#[verifier::ext_equal]
pub struct ProbeView {
    pub prove: bool,
    pub repeat: usize,
    pub run: Option<RunView>,
}

impl View for Probe {
    type V = ProbeView;

    closed spec fn view(&self) -> ProbeView {
        ProbeView {
            prove: self.prove,
            repeat: self.repeat,
            run: match self.run {
                Some(run) => Some(run@),
                None => None,
            },
        }
    }
}

impl ProbeView {
    /// A run is within budget, never holds more samples than were asked for, and
    /// holds a proof size exactly when it holds a sample.
    pub open spec fn valid(self) -> bool {
        self.run matches Some(run) ==> {
            &&& run.cycles < LEZ_CYCLE_BUDGET
            &&& run.prove_samples.len() <= proving_rounds(self.prove, self.repeat)
            &&& run.proof_bytes is Some <==> run.prove_samples.len() > 0
        }
    }

    /// What to do next: execute under the public budget first, then prove, with
    /// no limit at all, until there are enough samples.
    pub open spec fn action(self) -> Action {
        match self.run {
            None => Action::Execute { session_limit: Some(LEZ_CYCLE_BUDGET) },
            Some(run) => if run.prove_samples.len() < proving_rounds(self.prove, self.repeat) {
                Action::Prove { session_limit: None }
            } else {
                Action::Finish
            },
        }
    }

    /// Whether an event answers the action that is due.
    pub open spec fn expects(self, event: Event) -> bool {
        match event {
            Event::Executed { .. } => self.action() is Execute,
            Event::Proved { .. } => self.action() is Prove,
        }
    }

    /// The measurement after an event, unless the event is an execution that
    /// used the whole budget.
    pub open spec fn after(self, event: Event) -> Result<ProbeView, BudgetExhausted> {
        match event {
            Event::Executed { cycles } => if cycles < LEZ_CYCLE_BUDGET {
                Ok(
                    ProbeView {
                        run: Some(
                            RunView { cycles, prove_samples: Seq::empty(), proof_bytes: None },
                        ),
                        ..self
                    },
                )
            } else {
                Err(BudgetExhausted)
            },
            Event::Proved { nanos, bytes } => Ok(
                ProbeView {
                    run: match self.run {
                        Some(run) => Some(
                            RunView {
                                prove_samples: run.prove_samples.push(nanos),
                                proof_bytes: Some(bytes),
                                ..run
                            },
                        ),
                        None => None,
                    },
                    ..self
                },
            ),
        }
    }
}

impl Probe {
    /// A measurement that has not begun.
    pub fn begin(prove: bool, repeat: usize) -> (probe: Probe)
        ensures
            probe@ == (ProbeView { prove, repeat, run: None }),
            probe@.valid(),
    {
        Probe { prove, repeat, run: None }
    }

    /// What to do next.
    pub fn action(&self) -> (action: Action)
        ensures
            action == self@.action(),
    {
        match &self.run {
            None => Action::Execute { session_limit: Some(LEZ_CYCLE_BUDGET) },
            Some(run) => {
                if run.prove_samples.len() < rounds(self.prove, self.repeat) {
                    Action::Prove { session_limit: None }
                } else {
                    Action::Finish
                }
            },
        }
    }

    /// Takes in what happened.
    pub fn step(self, event: Event) -> (next: Result<Probe, BudgetExhausted>)
        requires
            self@.valid(),
            self@.expects(event),
        ensures
            next is Ok <==> self@.after(event) is Ok,
            next matches Ok(probe) ==> self@.after(event) == Ok::<ProbeView, BudgetExhausted>(
                probe@,
            ) && probe@.valid(),
            next matches Err(error) ==> self@.after(event) == Err::<ProbeView, BudgetExhausted>(
                error,
            ),
    {
        let ghost before = self@;
        let next = match event {
            Event::Executed { cycles } => {
                if cycles >= LEZ_CYCLE_BUDGET {
                    return Err(BudgetExhausted);
                }
                Probe {
                    prove: self.prove,
                    repeat: self.repeat,
                    run: Some(Run { cycles, prove_samples: Vec::new(), proof_bytes: None }),
                }
            },
            Event::Proved { nanos, bytes } => match self.run {
                Some(run) => {
                    let mut samples = run.prove_samples;
                    samples.push(nanos);
                    Probe {
                        prove: self.prove,
                        repeat: self.repeat,
                        run: Some(
                            Run {
                                cycles: run.cycles,
                                prove_samples: samples,
                                proof_bytes: Some(bytes),
                            },
                        ),
                    }
                },
                None => Probe { prove: self.prove, repeat: self.repeat, run: None },
            },
        };
        proof {
            assert(next@ =~~= before.after(event)->Ok_0);
        }
        Ok(next)
    }

    /// The finished run.
    pub fn finish(self) -> (run: Run)
        requires
            self@.valid(),
            self@.action() is Finish,
        ensures
            Some(run@) == self@.run,
            run.cycles < LEZ_CYCLE_BUDGET,
    {
        self.run.unwrap()
    }
}

/// The package signer `signer` publishes, without its digest: the program
/// hashes for itself.
pub open spec fn carried_by(signer: nat, package: Package) -> bool {
    &&& package.0@ == signed_message(signer)
    &&& keccak256_digest(package.0@).len() == 32
    &&& signed_by(signer, keccak256_digest(package.0@), package.1@, package.2)
}

/// One package from each of the first `n` signers, in order.
pub open spec fn carried_by_first(n: nat, packages: Seq<Package>) -> bool {
    &&& packages.len() == n
    &&& forall|i: int| 0 <= i < n ==> carried_by(i as nat, #[trigger] packages[i])
}

/// One data package per signer, each over its own signed bytes. Keys are
/// deterministic so runs reproduce.
pub fn make_packages(n: usize) -> (made: Result<Vec<Package>, SigningError>)
    ensures
        made is Ok <==> first_error(publishing_errors(n as nat)) is None,
        n > 255 ==> made is Err,
        made matches Ok(packages) ==> carried_by_first(n as nat, packages@),
        made matches Err(error) ==> first_error(publishing_errors(n as nat)) == Some(error),
{
    let mut packages: Vec<Package> = Vec::new();
    let ghost errors = publishing_errors(n as nat);
    proof {
        assert(errors.skip(0) =~= errors);
    }
    let mut i: usize = 0;
    while i < n
        invariant
            i <= n,
            carried_by_first(i as nat, packages@),
            errors == publishing_errors(n as nat),
            first_error(errors) == first_error(errors.skip(i as int)),
        decreases n - i,
    {
        proof {
            lemma_first_error_skip(errors, i as int);
        }
        let message = signed_bytes(i);
        let digest = hash_keccak256(message.as_slice());
        match sign_as(i, &digest) {
            Ok((signature, recovery_id)) => {
                packages.push((message, signature, recovery_id));
            },
            Err(error) => {
                return Err(error);
            },
        }
        i = i + 1;
    }
    proof {
        law_publishing_fails_by_refusal_alone(n as nat);
    }
    Ok(packages)
}

/// An account as a program finds it, in the state in which accounts begin.
#[derive(Clone, Copy, Debug, PartialEq, Eq)]
pub struct PreState {
    /// Whether the transaction speaks for the account.
    pub authorized: bool,
    pub id: [u8; 32],
}

/// An account as a program finds it, as a mathematical value.
pub struct PreStateView {
    pub authorized: bool,
    pub id: Seq<u8>,
}

impl View for PreState {
    type V = PreStateView;

    open spec fn view(&self) -> PreStateView {
        PreStateView { authorized: self.authorized, id: self.id@ }
    }
}

/// The account that every measured program is given.
pub open spec fn measured_account() -> PreStateView {
    PreStateView { authorized: true, id: Seq::new(32, |j: int| 7u8) }
}

/// The account that every measured program is given: one it may claim.
pub fn pre_state() -> (state: PreState)
    ensures
        state.authorized,
        state.id@ == Seq::new(32, |j: int| 7u8),
        state@ == measured_account(),
{
    let id: [u8; 32] = [7u8; 32];
    proof {
        assert(id@ =~= Seq::new(32, |j: int| 7u8));
    }
    PreState { authorized: true, id }
}

/// One of the values a program reads before it runs.
pub enum Write {
    /// The program's own id.
    ProgramId([u32; 8]),
    /// That no other program called it.
    NoCaller,
    /// Its accounts as they are before it runs.
    PreStates(Vec<PreState>),
    /// The words of its instruction.
    Instruction(Vec<u32>),
}

/// One of the values a program reads, as a mathematical value.
pub enum WriteView {
    ProgramId(Seq<u32>),
    NoCaller,
    PreStates(Seq<PreStateView>),
    Instruction(Seq<u32>),
}

impl View for Write {
    type V = WriteView;

    open spec fn view(&self) -> WriteView {
        match self {
            Write::ProgramId(id) => WriteView::ProgramId(id@),
            Write::NoCaller => WriteView::NoCaller,
            Write::PreStates(states) => WriteView::PreStates(
                states@.map_values(|state: PreState| state@),
            ),
            Write::Instruction(words) => WriteView::Instruction(words@),
        }
    }
}

/// What a program is given, in the order in which it reads it: its id, that
/// nothing called it, one account, and its instruction.
pub open spec fn program_input(id: Seq<u32>, packages: Seq<Package>) -> Seq<WriteView> {
    seq![
        WriteView::ProgramId(id),
        WriteView::NoCaller,
        WriteView::PreStates(seq![measured_account()]),
        WriteView::Instruction(instruction_words(packages)),
    ]
}

/// What to write for a program that is to carry `packages`. The order is the
/// one the platform writes in; a program that is given another cannot read it.
pub fn plan_input(binary: &[u8], packages: &[Package]) -> (planned: Result<Vec<Write>, BadBinary>)
    requires
        binary@.len() <= u32::MAX,
        lengths_fit(packages@),
    ensures
        planned is Ok <==> image_id(binary@) is Ok,
        planned matches Ok(writes) ==> writes@.map_values(|write: Write| write@) == program_input(
            image_id(binary@)->Ok_0,
            packages@,
        ),
        planned matches Err(error) ==> error.text@ == image_id(binary@)->Err_0,
{
    match program_id(binary) {
        Ok(id) => {
            let instruction = encode_instruction(packages);
            let mut states: Vec<PreState> = Vec::new();
            states.push(pre_state());
            proof {
                assert(states@.map_values(|state: PreState| state@) =~= seq![measured_account()]);
            }
            let mut writes: Vec<Write> = Vec::new();
            writes.push(Write::ProgramId(id));
            writes.push(Write::NoCaller);
            writes.push(Write::PreStates(states));
            writes.push(Write::Instruction(instruction));
            proof {
                assert(writes@.map_values(|write: Write| write@) =~= program_input(
                    image_id(binary@)->Ok_0,
                    packages@,
                ));
            }
            Ok(writes)
        },
        Err(error) => Err(error),
    }
}

/// The two measurements of one update, to be made in this order: the program
/// without the cryptography, and the program itself.
pub struct UpdatePlan {
    /// What both programs carry.
    pub packages: Vec<Package>,
    pub plumbing: Probe,
    pub verify: Probe,
}

/// Plans the measurement of an update by `signers` signers. Only the verifying
/// program is ever proved; of the plumbing nothing but its cycles is used.
pub fn plan_update(signers: usize, prove: bool, repeat: usize) -> (planned: Result<
    UpdatePlan,
    SigningError,
>)
    ensures
        planned is Ok <==> first_error(publishing_errors(signers as nat)) is None,
        planned matches Ok(plan) ==> {
            &&& carried_by_first(signers as nat, plan.packages@)
            &&& plan.plumbing@ == (ProbeView { prove: false, repeat: 1, run: None })
            &&& plan.plumbing@.valid()
            &&& plan.verify@ == (ProbeView { prove, repeat, run: None })
            &&& plan.verify@.valid()
        },
        planned matches Err(error) ==> first_error(publishing_errors(signers as nat)) == Some(
            error,
        ),
{
    match make_packages(signers) {
        Ok(packages) => Ok(
            UpdatePlan {
                packages,
                plumbing: Probe::begin(false, 1),
                verify: Probe::begin(prove, repeat),
            },
        ),
        Err(error) => Err(error),
    }
}

/// Where the cycles of a run went.
#[derive(Clone, Copy, Debug, PartialEq, Eq)]
pub struct Breakdown {
    /// What the run costs above the framework's floor.
    pub above_floor: Option<u64>,
    /// What is left once the same program without the cryptography is taken
    /// away.
    pub crypto_alone: Option<u64>,
    /// What that program costs above the floor: the framework's own handling of
    /// the instruction.
    pub instruction_handling: Option<u64>,
}

/// Breaks a run down, as far as there is something to compare it with. Without a
/// floor the instruction handling counts as nothing.
pub fn break_down(run: &Run, floor: Option<&Run>, plumbing: Option<&Run>) -> (parts: Breakdown)
    ensures
        parts.above_floor == match floor {
            Some(f) => Some(cycles_above(run.cycles, f.cycles)),
            None => None,
        },
        parts.crypto_alone == match plumbing {
            Some(p) => Some(cycles_above(run.cycles, p.cycles)),
            None => None,
        },
        parts.instruction_handling == match (plumbing, floor) {
            (Some(p), Some(f)) => Some(cycles_above(p.cycles, f.cycles)),
            (Some(_), None) => Some(0u64),
            (None, _) => None,
        },
{
    let above_floor: Option<u64> = match floor {
        Some(f) => Some(run.cycles.saturating_sub(f.cycles)),
        None => None,
    };
    let crypto_alone: Option<u64> = match plumbing {
        Some(p) => Some(run.cycles.saturating_sub(p.cycles)),
        None => None,
    };
    let instruction_handling: Option<u64> = match plumbing {
        Some(p) => match floor {
            Some(f) => Some(p.cycles.saturating_sub(f.cycles)),
            None => Some(0),
        },
        None => None,
    };
    Breakdown { above_floor, crypto_alone, instruction_handling }
}

/// The parts of a run add up: floor, instruction handling and cryptography make
/// the total, as long as each program costs no less than the one it extends.
pub proof fn law_parts_add_up(total: u64, plumbing: u64, floor: u64)
    requires
        floor <= plumbing <= total,
    ensures
        floor + cycles_above(plumbing, floor) + cycles_above(total, plumbing) == total,
        cycles_above(plumbing, floor) + cycles_above(total, plumbing) == cycles_above(
            total,
            floor,
        ),
{
}

/// The measurement after the program was executed and then proved as listed,
/// each proof given by its time and its size.
pub open spec fn after_proofs(
    prove: bool,
    repeat: usize,
    cycles: u64,
    proofs: Seq<(u128, usize)>,
) -> Result<ProbeView, BudgetExhausted>
    decreases proofs.len(),
{
    if proofs.len() == 0 {
        ProbeView { prove, repeat, run: None }.after(Event::Executed { cycles })
    } else {
        match after_proofs(prove, repeat, cycles, proofs.drop_last()) {
            Ok(probe) => probe.after(
                Event::Proved { nanos: proofs.last().0, bytes: proofs.last().1 },
            ),
            Err(error) => Err(error),
        }
    }
}

/// The whole course of a measurement: the program is executed once under the
/// public budget, and proved exactly as often as asked under no limit. A run
/// that used the whole budget is refused, whatever follows; any other keeps its
/// cycles, every sample in order, and the size of the last proof.
pub proof fn law_course_of_a_probe(
    prove: bool,
    repeat: usize,
    cycles: u64,
    proofs: Seq<(u128, usize)>,
)
    requires
        proofs.len() <= proving_rounds(prove, repeat),
    ensures
        (ProbeView { prove, repeat, run: None }).action() == (Action::Execute {
            session_limit: Some(LEZ_CYCLE_BUDGET),
        }),
        cycles >= LEZ_CYCLE_BUDGET ==> after_proofs(prove, repeat, cycles, proofs) == Err::<
            ProbeView,
            BudgetExhausted,
        >(BudgetExhausted),
        cycles < LEZ_CYCLE_BUDGET ==> {
            let done = after_proofs(prove, repeat, cycles, proofs)->Ok_0;
            &&& after_proofs(prove, repeat, cycles, proofs) is Ok
            &&& done.valid()
            &&& done.prove == prove && done.repeat == repeat
            &&& done.run == Some(
                RunView {
                    cycles,
                    prove_samples: proofs.map_values(|proved: (u128, usize)| proved.0),
                    proof_bytes: if proofs.len() == 0 {
                        None
                    } else {
                        Some(proofs.last().1)
                    },
                },
            )
            &&& done.action() == if proofs.len() < proving_rounds(prove, repeat) {
                Action::Prove { session_limit: None }
            } else {
                Action::Finish
            }
        },
    decreases proofs.len(),
{
    let nanos = |proved: (u128, usize)| proved.0;
    if proofs.len() == 0 {
        assert(proofs.map_values(nanos) =~= Seq::empty());
    } else {
        law_course_of_a_probe(prove, repeat, cycles, proofs.drop_last());
        assert(proofs.map_values(nanos) =~= proofs.drop_last().map_values(nanos).push(
            proofs.last().0,
        ));
    }
}

/// A configuration is exactly the images it was built from, each in its place.
pub proof fn law_variant_is_exact(variant: Variant, name: Seq<char>, images: ProgramImages)
    requires
        variant.is_build(name, images),
    ensures
        variant.name@ == name,
        variant.noop@ == images.noop@,
        variant.plumbing@ == images.plumbing@,
        variant.verify@ == images.verify@,
{
}

/// A run is stated by all that it holds.
pub proof fn law_probe_run_view(run: Run)
    ensures
        run@.cycles == run.cycles,
        run@.prove_samples == run.prove_samples@,
        run@.proof_bytes == run.proof_bytes,
{
}

/// What is due next: to execute under the public budget of 32 Mi cycles as long
/// as there is no run, then to prove without any limit as long as samples are
/// missing; and only the answer to that is taken in.
pub proof fn law_what_a_probe_is_due(probe: ProbeView, cycles: u64, nanos: u128, bytes: usize)
    ensures
        probe.run is None ==> probe.action() == (Action::Execute {
            session_limit: Some(33_554_432u64),
        }),
        probe.run matches Some(run) ==> probe.action() == if run.prove_samples.len()
            < proving_rounds(probe.prove, probe.repeat) {
            Action::Prove { session_limit: None }
        } else {
            Action::Finish
        },
        probe.expects(Event::Executed { cycles }) <==> probe.run is None,
        probe.expects(Event::Proved { nanos, bytes }) <==> (probe.run matches Some(run)
            && run.prove_samples.len() < proving_rounds(probe.prove, probe.repeat)),
{
}

/// An execution is refused exactly when it used the whole budget. Any other
/// starts a run with its cycles and nothing proved, and leaves alone how often to
/// prove.
pub proof fn law_the_budget_decides(probe: ProbeView, cycles: u64)
    ensures
        cycles >= 33_554_432 ==> probe.after(Event::Executed { cycles }) == Err::<
            ProbeView,
            BudgetExhausted,
        >(BudgetExhausted),
        cycles < 33_554_432 ==> (probe.after(Event::Executed { cycles }) matches Ok(next) && {
            &&& next.prove == probe.prove
            &&& next.repeat == probe.repeat
            &&& next.run matches Some(run) && {
                &&& run.cycles == cycles
                &&& run.prove_samples.len() == 0
                &&& run.proof_bytes is None
            }
        }),
{
}

/// Proving is never refused. It adds one sample behind the others, replaces the
/// proof size by that of the new proof, and leaves the rest alone.
pub proof fn law_proving_adds_to_a_probe(
    probe: ProbeView,
    before: RunView,
    nanos: u128,
    bytes: usize,
)
    requires
        probe.run == Some(before),
    ensures
        probe.after(Event::Proved { nanos, bytes }) matches Ok(next) && {
            &&& next.prove == probe.prove
            &&& next.repeat == probe.repeat
            &&& next.run matches Some(run) && {
                &&& run.cycles == before.cycles
                &&& run.prove_samples == before.prove_samples.push(nanos)
                &&& run.proof_bytes == Some(bytes)
            }
        },
{
}

/// A probe is valid exactly when its run is within the budget, holds no more
/// samples than were asked for, and a proof size with the first of them.
pub proof fn law_valid_probes(probe: ProbeView)
    ensures
        probe.run is None ==> probe.valid(),
        probe.run matches Some(run) ==> (probe.valid() <==> {
            &&& run.cycles < 33_554_432
            &&& run.prove_samples.len() <= proving_rounds(probe.prove, probe.repeat)
            &&& run.proof_bytes is Some <==> run.prove_samples.len() > 0
        }),
{
}

/// What is carried: in place `i` the message of signer `i` and the signature that
/// the signer's key gives for the hash of it.
pub proof fn law_carried_packages(n: nat, packages: Seq<Package>, i: int)
    requires
        carried_by_first(n, packages),
    ensures
        packages.len() == n,
        0 <= i < n ==> {
            &&& packages[i].0@ == signed_message(i as nat)
            &&& recoverable_signature(
                signer_scalar(i as nat),
                keccak256_digest(signed_message(i as nat)),
            ) == Some((packages[i].1@, packages[i].2))
        },
{
    if 0 <= i < n {
        assert(carried_by(i as nat, packages[i]));
    }
}

/// What a program is given, value by value: its id, that nothing called it, one
/// authorized account whose id is 32 sevens, and its instruction.
pub proof fn law_program_input(writes: Seq<Write>, id: Seq<u32>, packages: Seq<Package>)
    requires
        writes.map_values(|write: Write| write@) == program_input(id, packages),
    ensures
        writes.len() == 4,
        writes[0] matches Write::ProgramId(own) && own@ == id,
        writes[1] is NoCaller,
        writes[2] matches Write::PreStates(states) && {
            &&& states@.len() == 1
            &&& states@[0].authorized
            &&& forall|j: int| 0 <= j < 32 ==> #[trigger] states@[0].id@[j] == 7
        },
        writes[3] matches Write::Instruction(words) && words@ == instruction_words(packages),
{
    let views = writes.map_values(|write: Write| write@);
    assert(views.len() == 4);
    assert(views[0] == writes[0]@ && views[1] == writes[1]@ && views[2] == writes[2]@ && views[3]
        == writes[3]@);
    if let Write::PreStates(states) = writes[2] {
        let accounts = states@.map_values(|state: PreState| state@);
        assert(accounts == seq![measured_account()]);
        assert(accounts.len() == 1);
        assert(accounts[0] == states@[0]@);
    }
}

} // verus!
