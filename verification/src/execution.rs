//! The course of one measurement on the bare zkVM: execute once, then prove as
//! often as asked, and keep what came out.
//!
//! Executing and proving are slow, external and may fail, so they are not done
//! here. An [`Execution`] says what to do next and takes in what happened:
//! whoever drives it performs [`Execution::action`] and reports back with
//! [`Execution::step`] until the action is [`Action::Finish`].

use crate::baseline::{proving_rounds, rounds, Opts, Run, RunView};
use crate::decimal::{decimal, decimal_text};
use vstd::prelude::*;

verus! {

/// The kinds of receipt.
#[derive(Clone, Copy, Debug, PartialEq, Eq, Structural)]
pub enum Flavour {
    Composite,
    Succinct,
    Groth16,
    Other,
}

/// What executing a guest reports.
pub struct Session {
    pub cycles: u64,
    pub segments: usize,
    /// The bytes the guest committed.
    pub journal: Vec<u8>,
}

/// What proving a guest reports.
#[derive(Clone, Copy, Debug)]
pub struct Proved {
    /// Wall-clock time, in nanoseconds.
    pub nanos: u128,
    /// Size of the serialized receipt.
    pub bytes: usize,
    pub flavour: Flavour,
    /// How many assumptions the receipt carries.
    pub assumptions: usize,
}

/// What to do next.
#[derive(Clone, Copy, Debug, PartialEq, Eq)]
pub enum Action {
    /// Execute the guest, with segments capped as said.
    Execute { segment_po2: Option<u32> },
    /// Prove the guest, with segments capped as said.
    Prove { segment_po2: Option<u32> },
    /// There is nothing left to do.
    Finish,
}

/// What happened.
pub enum Event {
    Executed(Session),
    Proved(Proved),
}

/// What happened, as a mathematical value.
pub enum EventView {
    Executed { cycles: u64, segments: usize, journal: Seq<u8> },
    Proved(Proved),
}

impl View for Event {
    type V = EventView;

    open spec fn view(&self) -> EventView {
        match self {
            Event::Executed(session) => EventView::Executed {
                cycles: session.cycles,
                segments: session.segments,
                journal: session.journal@,
            },
            Event::Proved(proved) => EventView::Proved(*proved),
        }
    }
}

/// The name of a receipt flavour.
pub open spec fn flavour_name(flavour: Flavour) -> Seq<char> {
    match flavour {
        Flavour::Composite => "composite"@,
        Flavour::Succinct => "succinct"@,
        Flavour::Groth16 => "groth16"@,
        Flavour::Other => "other"@,
    }
}

/// A receipt in words.
pub open spec fn receipt_words(flavour: Flavour, assumptions: usize) -> Seq<char> {
    flavour_name(flavour) + ", "@ + decimal(assumptions as nat) + " assumption(s)"@
}

/// Describes a receipt. An accelerator that yields a receipt with unresolved
/// assumptions changes what a verifier has to do, so it is not a free swap.
pub fn receipt_text(flavour: Flavour, assumptions: usize) -> (text: String)
    ensures
        text@ == receipt_words(flavour, assumptions),
{
    let mut text = String::new();
    match flavour {
        Flavour::Composite => text.append("composite"),
        Flavour::Succinct => text.append("succinct"),
        Flavour::Groth16 => text.append("groth16"),
        Flavour::Other => text.append("other"),
    }
    text.append(", ");
    text.append(decimal_text(assumptions as u64).as_str());
    text.append(" assumption(s)");
    proof {
        assert(text@ =~= receipt_words(flavour, assumptions));
    }
    text
}

/// A measurement under way: its options, and the run so far once the guest has
/// been executed.
pub struct Execution {
    opts: Opts,
    run: Option<Run>,
}

/// A measurement under way, as a mathematical value.
#[verifier::ext_equal]
pub struct ExecutionView {
    pub opts: Opts,
    pub run: Option<RunView>,
}

impl View for Execution {
    type V = ExecutionView;

    closed spec fn view(&self) -> ExecutionView {
        ExecutionView {
            opts: self.opts,
            run: match self.run {
                Some(run) => Some(run@),
                None => None,
            },
        }
    }
}

impl ExecutionView {
    /// A measurement never holds more samples than were asked for, and holds a
    /// proof size and a receipt exactly when it holds a sample.
    pub open spec fn valid(self) -> bool {
        self.run matches Some(run) ==> {
            &&& run.prove_samples.len() <= proving_rounds(self.opts.prove, self.opts.repeat)
            &&& run.proof_bytes is Some <==> run.prove_samples.len() > 0
            &&& run.receipt_kind is Some <==> run.prove_samples.len() > 0
        }
    }

    /// What to do next: execute first, then prove until there are enough
    /// samples.
    pub open spec fn action(self) -> Action {
        match self.run {
            None => Action::Execute { segment_po2: self.opts.segment_po2 },
            Some(run) => if run.prove_samples.len() < proving_rounds(
                self.opts.prove,
                self.opts.repeat,
            ) {
                Action::Prove { segment_po2: self.opts.segment_po2 }
            } else {
                Action::Finish
            },
        }
    }

    /// Whether an event answers the action that is due.
    pub open spec fn expects(self, event: EventView) -> bool {
        match event {
            EventView::Executed { .. } => self.action() is Execute,
            EventView::Proved(_) => self.action() is Prove,
        }
    }

    /// The measurement after an event: an execution starts the run, and a proof
    /// adds a sample and replaces proof size and receipt.
    pub open spec fn after(self, event: EventView) -> ExecutionView {
        match event {
            EventView::Executed { cycles, segments, journal } => ExecutionView {
                run: Some(
                    RunView {
                        cycles,
                        segments,
                        journal,
                        prove_samples: Seq::empty(),
                        proof_bytes: None,
                        receipt_kind: None,
                    },
                ),
                ..self
            },
            EventView::Proved(proved) => ExecutionView {
                run: match self.run {
                    Some(run) => Some(
                        RunView {
                            prove_samples: run.prove_samples.push(proved.nanos),
                            proof_bytes: Some(proved.bytes),
                            receipt_kind: Some(receipt_words(proved.flavour, proved.assumptions)),
                            ..run
                        },
                    ),
                    None => None,
                },
                ..self
            },
        }
    }
}

impl Execution {
    /// A measurement that has not begun.
    pub fn begin(opts: Opts) -> (execution: Execution)
        ensures
            execution@ == (ExecutionView { opts, run: None }),
            execution@.valid(),
    {
        Execution { opts, run: None }
    }

    /// What to do next.
    pub fn action(&self) -> (action: Action)
        ensures
            action == self@.action(),
    {
        match &self.run {
            None => Action::Execute { segment_po2: self.opts.segment_po2 },
            Some(run) => {
                if run.prove_samples.len() < rounds(self.opts.prove, self.opts.repeat) {
                    Action::Prove { segment_po2: self.opts.segment_po2 }
                } else {
                    Action::Finish
                }
            },
        }
    }

    /// Takes in what happened.
    pub fn step(self, event: Event) -> (next: Execution)
        requires
            self@.valid(),
            self@.expects(event@),
        ensures
            next@ == self@.after(event@),
            next@.valid(),
    {
        let ghost before = self@;
        let ghost event_view = event@;
        let next = match event {
            Event::Executed(session) => Execution {
                opts: self.opts,
                run: Some(
                    Run {
                        cycles: session.cycles,
                        segments: session.segments,
                        journal_words: session.journal,
                        prove_samples: Vec::new(),
                        proof_bytes: None,
                        receipt_kind: None,
                    },
                ),
            },
            Event::Proved(proved) => match self.run {
                Some(run) => {
                    let mut samples = run.prove_samples;
                    samples.push(proved.nanos);
                    Execution {
                        opts: self.opts,
                        run: Some(
                            Run {
                                cycles: run.cycles,
                                segments: run.segments,
                                journal_words: run.journal_words,
                                prove_samples: samples,
                                proof_bytes: Some(proved.bytes),
                                receipt_kind: Some(
                                    receipt_text(proved.flavour, proved.assumptions),
                                ),
                            },
                        ),
                    }
                },
                None => Execution { opts: self.opts, run: None },
            },
        };
        proof {
            assert(next@ =~~= before.after(event_view));
        }
        next
    }

    /// The finished run.
    pub fn finish(self) -> (run: Run)
        requires
            self@.action() is Finish,
        ensures
            Some(run@) == self@.run,
    {
        self.run.unwrap()
    }
}

/// The measurement after the guest was executed and then proved as listed.
pub open spec fn after_proofs(
    opts: Opts,
    cycles: u64,
    segments: usize,
    journal: Seq<u8>,
    proofs: Seq<Proved>,
) -> ExecutionView
    decreases proofs.len(),
{
    if proofs.len() == 0 {
        ExecutionView { opts, run: None }.after(
            EventView::Executed { cycles, segments, journal },
        )
    } else {
        after_proofs(opts, cycles, segments, journal, proofs.drop_last()).after(
            EventView::Proved(proofs.last()),
        )
    }
}

/// The run that an execution and a list of proofs amount to.
pub open spec fn run_of(
    cycles: u64,
    segments: usize,
    journal: Seq<u8>,
    proofs: Seq<Proved>,
) -> RunView {
    RunView {
        cycles,
        segments,
        journal,
        prove_samples: proofs.map_values(|proved: Proved| proved.nanos),
        proof_bytes: if proofs.len() == 0 {
            None
        } else {
            Some(proofs.last().bytes)
        },
        receipt_kind: if proofs.len() == 0 {
            None
        } else {
            Some(receipt_words(proofs.last().flavour, proofs.last().assumptions))
        },
    }
}

/// The whole course of a measurement: the guest is executed once, then proved
/// exactly as often as asked, under the same segment cap throughout; the run
/// keeps every sample in order, the size and receipt of the last proof, and what
/// the one execution reported.
pub proof fn law_course_of_a_measurement(
    opts: Opts,
    cycles: u64,
    segments: usize,
    journal: Seq<u8>,
    proofs: Seq<Proved>,
)
    requires
        proofs.len() <= proving_rounds(opts.prove, opts.repeat),
    ensures
        (ExecutionView { opts, run: None }).action() == (Action::Execute {
            segment_po2: opts.segment_po2,
        }),
        after_proofs(opts, cycles, segments, journal, proofs).valid(),
        after_proofs(opts, cycles, segments, journal, proofs).run == Some(
            run_of(cycles, segments, journal, proofs),
        ),
        after_proofs(opts, cycles, segments, journal, proofs).action() == if proofs.len()
            < proving_rounds(opts.prove, opts.repeat) {
            Action::Prove { segment_po2: opts.segment_po2 }
        } else {
            Action::Finish
        },
    decreases proofs.len(),
{
    let state = after_proofs(opts, cycles, segments, journal, proofs);
    let nanos = |proved: Proved| proved.nanos;
    if proofs.len() == 0 {
        assert(proofs.map_values(nanos) =~= Seq::empty());
    } else {
        law_course_of_a_measurement(opts, cycles, segments, journal, proofs.drop_last());
        assert(proofs.map_values(nanos) =~= proofs.drop_last().map_values(nanos).push(
            proofs.last().nanos,
        ));
    }
    assert(state.opts == opts) by {
        lemma_opts_kept(opts, cycles, segments, journal, proofs);
    }
}

proof fn lemma_opts_kept(
    opts: Opts,
    cycles: u64,
    segments: usize,
    journal: Seq<u8>,
    proofs: Seq<Proved>,
)
    ensures
        after_proofs(opts, cycles, segments, journal, proofs).opts == opts,
    decreases proofs.len(),
{
    if proofs.len() > 0 {
        lemma_opts_kept(opts, cycles, segments, journal, proofs.drop_last());
    }
}

/// What is due next: to execute as long as there is no run, then to prove as long
/// as samples are missing, always under the cap that was asked for; and only the
/// answer to that is taken in.
pub proof fn law_what_is_due(
    execution: ExecutionView,
    cycles: u64,
    segments: usize,
    journal: Seq<u8>,
    proved: Proved,
)
    ensures
        execution.run is None ==> execution.action() == (Action::Execute {
            segment_po2: execution.opts.segment_po2,
        }),
        execution.run matches Some(run) ==> execution.action() == if run.prove_samples.len()
            < proving_rounds(execution.opts.prove, execution.opts.repeat) {
            Action::Prove { segment_po2: execution.opts.segment_po2 }
        } else {
            Action::Finish
        },
        execution.expects(EventView::Executed { cycles, segments, journal }) <==> execution.run
            is None,
        execution.expects(EventView::Proved(proved)) <==> (execution.run matches Some(run)
            && run.prove_samples.len() < proving_rounds(
            execution.opts.prove,
            execution.opts.repeat,
        )),
{
}

/// Executing starts a run with what the guest reported and nothing proved, and
/// leaves the options alone.
pub proof fn law_executing_starts_a_run(
    execution: ExecutionView,
    cycles: u64,
    segments: usize,
    journal: Seq<u8>,
)
    ensures
        ({
            let next = execution.after(EventView::Executed { cycles, segments, journal });
            &&& next.opts == execution.opts
            &&& next.run matches Some(run) && {
                &&& run.cycles == cycles
                &&& run.segments == segments
                &&& run.journal == journal
                &&& run.prove_samples.len() == 0
                &&& run.proof_bytes is None
                &&& run.receipt_kind is None
            }
        }),
{
}

/// Proving adds one sample behind the others, replaces proof size and receipt by
/// those of the new proof, and leaves the rest of the run and the options alone.
pub proof fn law_proving_adds_a_sample(execution: ExecutionView, before: RunView, proved: Proved)
    requires
        execution.run == Some(before),
    ensures
        ({
            let next = execution.after(EventView::Proved(proved));
            &&& next.opts == execution.opts
            &&& next.run matches Some(run) && {
                &&& run.cycles == before.cycles
                &&& run.segments == before.segments
                &&& run.journal == before.journal
                &&& run.prove_samples == before.prove_samples.push(proved.nanos)
                &&& run.proof_bytes == Some(proved.bytes)
                &&& run.receipt_kind == Some(receipt_words(proved.flavour, proved.assumptions))
            }
        }),
{
}

/// A measurement is valid exactly when it holds no more samples than were asked
/// for, and a proof size and a receipt with the first of them.
pub proof fn law_valid_measurements(execution: ExecutionView)
    ensures
        execution.run is None ==> execution.valid(),
        execution.run matches Some(run) ==> (execution.valid() <==> {
            &&& run.prove_samples.len() <= proving_rounds(
                execution.opts.prove,
                execution.opts.repeat,
            )
            &&& run.proof_bytes is Some <==> run.prove_samples.len() > 0
            &&& run.receipt_kind is Some <==> run.prove_samples.len() > 0
        }),
{
}

/// How receipts read.
pub proof fn law_receipts_in_words(assumptions: usize)
    ensures
        receipt_words(Flavour::Composite, assumptions) == "composite"@ + ", "@ + decimal(
            assumptions as nat,
        ) + " assumption(s)"@,
        receipt_words(Flavour::Succinct, assumptions) == "succinct"@ + ", "@ + decimal(
            assumptions as nat,
        ) + " assumption(s)"@,
        receipt_words(Flavour::Groth16, assumptions) == "groth16"@ + ", "@ + decimal(
            assumptions as nat,
        ) + " assumption(s)"@,
        receipt_words(Flavour::Other, assumptions) == "other"@ + ", "@ + decimal(
            assumptions as nat,
        ) + " assumption(s)"@,
{
}

/// An event is stated by all that it reports.
pub proof fn law_event_view(session: Session, proved: Proved)
    ensures
        Event::Executed(session)@ == (EventView::Executed {
            cycles: session.cycles,
            segments: session.segments,
            journal: session.journal@,
        }),
        Event::Proved(proved)@ == EventView::Proved(proved),
{
}

} // verus!
