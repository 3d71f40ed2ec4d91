use kanon_cost::baseline::{
    accelerated, keccak256, make_packages, mixed, rounds, sign_with_n_signers, software, variants,
    GuestImages, Opts, Run, KECCAK_ITERS, KECCAK_MSG_LENS, RECOVER_MESSAGE, RECOVER_SIGNER_COUNTS,
    VERIFY_SIGNERS,
};
use kanon_cost::bench::{recover_bench, verify_bench};
use kanon_cost::delta::{
    conclude_delta, conclude_recover_delta, conclude_verify_run, ensure_recovered,
    plan_bookkeeping_delta, plan_delta, plan_keccak_delta, plan_recover_delta, plan_verify_run, RecoveryError,
};
use kanon_cost::execution::{
    receipt_text, Action, Event, Execution, Flavour, Proved, Session,
};
use kanon_cost::signers::SigningError;
use kanon_cost::wire::BadJournal;

fn run(cycles: u64, tally: (u32, u8)) -> Run {
    let mut journal_words = tally.0.to_le_bytes().to_vec();
    journal_words.extend(u32::from(tally.1).to_le_bytes());
    Run {
        cycles,
        segments: 1,
        journal_words,
        prove_samples: Vec::new(),
        proof_bytes: None,
        receipt_kind: None,
    }
}

fn images(tag: &'static [u8; 5]) -> GuestImages {
    GuestImages {
        noop: &tag[0..1],
        keccak: &tag[1..2],
        keccak_overhead: &tag[2..3],
        recover: &tag[3..4],
        verify: &tag[4..5],
    }
}

const PROVING: Opts = Opts { segment_po2: Some(19), prove: true, repeat: 2 };

#[test]
fn constants() {
    assert_eq!(KECCAK_MSG_LENS, [32, 77, 141, 512]);
    assert_eq!(KECCAK_ITERS, 16);
    assert_eq!(RECOVER_SIGNER_COUNTS, [1, 3, 5]);
    assert_eq!(VERIFY_SIGNERS, 3);
    assert_eq!(&RECOVER_MESSAGE, b"kanon m0 cost baseline");
}

#[test]
fn configurations_keep_their_images_apart() {
    let all = variants(images(b"abcde"), images(b"fghij"), images(b"klmno"));
    let names: Vec<&str> = all.iter().map(|v| v.name).collect();
    assert_eq!(names, ["software", "accelerated", "mixed"]);
    assert_eq!(all[0].noop, b"a");
    assert_eq!(all[1].keccak, b"g");
    assert_eq!(all[1].keccak_overhead, b"h");
    assert_eq!(all[2].recover, b"n");
    assert_eq!(all[2].verify, b"o");
    assert_eq!(software(images(b"abcde")).verify, b"e");
    assert_eq!(accelerated(images(b"abcde")).name, "accelerated");
    assert_eq!(mixed(images(b"abcde")).recover, b"d");
}

#[test]
fn options_default_to_execution_only() {
    let plain = Opts { segment_po2: None, prove: false, repeat: 0 };
    assert_eq!(Opts::default(), plain);
    assert_eq!(Opts::execute_only(), plain);
    assert_eq!(
        PROVING.without_proving(),
        Opts { segment_po2: Some(19), prove: false, repeat: 2 }
    );
}

#[test]
fn proving_happens_at_least_once_if_asked_for() {
    assert_eq!(rounds(false, 7), 0);
    assert_eq!(rounds(true, 0), 1);
    assert_eq!(rounds(true, 1), 1);
    assert_eq!(rounds(true, 7), 7);
}

#[test]
fn only_the_busy_run_of_a_delta_is_proved() {
    let plan = plan_delta("idle", "busy", PROVING);
    assert_eq!((plan.idle.input, plan.busy.input), ("idle", "busy"));
    assert_eq!(plan.idle.opts, PROVING.without_proving());
    assert_eq!(plan.busy.opts, PROVING);
}

#[test]
fn a_hashing_delta_differs_in_the_switch_alone() {
    let plan = plan_keccak_delta(16, 77, PROVING);
    assert_eq!(plan.idle.input, (false, 16, 77));
    assert_eq!(plan.busy.input, (true, 16, 77));
    assert_eq!(plan.idle.opts, PROVING.without_proving());
    assert_eq!(plan.busy.opts, PROVING);
}

#[test]
fn bookkeeping_is_never_proved() {
    let plan = plan_bookkeeping_delta(16, 77);
    assert_eq!(plan.idle.input, (false, 16, 77));
    assert_eq!(plan.busy.input, (true, 16, 77));
    assert_eq!(plan.idle.opts, Opts::execute_only());
    assert_eq!(plan.busy.opts, Opts::execute_only());
}

#[test]
fn a_delta_saturates() {
    let delta = conclude_delta(run(2_940, (0, 0)), run(568_491, (1, 0x79)));
    assert_eq!(delta.work, 565_551);
    assert_eq!((delta.idle.cycles, delta.busy.cycles), (2_940, 568_491));
    assert_eq!(conclude_delta(run(5, (0, 0)), run(3, (0, 0))).work, 0);
}

#[test]
fn a_recovery_delta_differs_in_the_switch_alone() {
    let plan = plan_recover_delta(3, PROVING).ok().unwrap();
    let digest = keccak256(b"kanon m0 cost baseline");
    assert!(!plan.idle.input.0);
    assert!(plan.busy.input.0);
    assert_eq!(plan.busy.input.1, digest.to_vec());
    assert_eq!(plan.busy.input.2, sign_with_n_signers(&digest, 3).unwrap());
    assert_eq!(plan.idle.input.1, plan.busy.input.1);
    assert_eq!(plan.idle.input.2, plan.busy.input.2);
    assert_eq!(plan.idle.opts, PROVING.without_proving());
    assert_eq!(plan.busy.opts, PROVING);
    assert!(matches!(
        plan_recover_delta(256, PROVING),
        Err(SigningError::InvalidKey { signer: 255 })
    ));
}

#[test]
fn a_planned_recovery_is_accepted() {
    let plan = plan_recover_delta(5, Opts::default()).ok().unwrap();
    let (do_work, digest, sigs) = plan.busy.input;
    let busy = run(9, recover_bench(do_work, &digest, &sigs));
    let (do_work, digest, sigs) = plan.idle.input;
    let idle = run(2, recover_bench(do_work, &digest, &sigs));
    assert_eq!(
        ensure_recovered(&idle, 5),
        Err(RecoveryError::Shortfall { expected: 5, recovered: 0 })
    );
    let delta = conclude_recover_delta(5, idle, busy).ok().unwrap();
    assert_eq!(delta.work, 7);
}

#[test]
fn a_planned_update_is_accepted() {
    for hash in [false, true] {
        let job = plan_verify_run(3, hash, PROVING).ok().unwrap();
        assert_eq!(job.opts, PROVING);
        assert_eq!(job.input.0, hash);
        assert_eq!(job.input.1, make_packages(3).unwrap());
        let done = run(100, verify_bench(job.input.0, &job.input.1));
        assert_eq!(conclude_verify_run(3, done).ok().unwrap().cycles, 100);
    }
    assert!(matches!(
        plan_verify_run(1000, true, PROVING),
        Err(SigningError::InvalidKey { signer: 255 })
    ));
}

#[test]
fn another_count_is_refused() {
    let error = RecoveryError::Shortfall { expected: 3, recovered: 2 };
    assert_eq!(ensure_recovered(&run(1, (2, 9)), 3), Err(error.clone()));
    assert_eq!(conclude_verify_run(3, run(1, (2, 9))).err(), Some(error.clone()));
    assert_eq!(
        conclude_recover_delta(3, run(1, (0, 0)), run(1, (2, 9))).err(),
        Some(error.clone())
    );
    assert_eq!(
        error.message(),
        "expected 3 successful recoveries, guest reported 2"
    );
    assert_eq!(ensure_recovered(&run(1, (3, 9)), 3), Ok(()));
    assert_eq!(
        ensure_recovered(&run(1, (4, 9)), 3),
        Err(RecoveryError::Shortfall { expected: 3, recovered: 4 })
    );
}

#[test]
fn a_journal_without_a_tally_is_refused() {
    let mut empty = run(1, (3, 0));
    empty.journal_words.clear();
    let text = "Unexpected end during deserialization".to_string();
    assert_eq!(empty.journal_decode(), Err(BadJournal { text: text.clone() }));
    let error = ensure_recovered(&empty, 3).unwrap_err();
    assert_eq!(error, RecoveryError::BadJournal { text: text.clone() });
    assert_eq!(error.message(), text);
    let mut large = run(1, (3, 0));
    large.journal_words[5] = 1;
    let error = conclude_verify_run(3, large).err().unwrap();
    assert_eq!(error.message(), "invalid value: integer `256`, expected u8");
    assert_eq!(run(1, (7, 8)).journal_decode(), Ok((7, 8)));
}

#[test]
fn receipts_in_words() {
    assert_eq!(receipt_text(Flavour::Composite, 0), "composite, 0 assumption(s)");
    assert_eq!(receipt_text(Flavour::Succinct, 1), "succinct, 1 assumption(s)");
    assert_eq!(receipt_text(Flavour::Groth16, 10), "groth16, 10 assumption(s)");
    assert_eq!(receipt_text(Flavour::Other, 1234), "other, 1234 assumption(s)");
}

fn session() -> Event {
    Event::Executed(Session { cycles: 77, segments: 2, journal: vec![1, 2, 3, 4] })
}

fn proved(nanos: u128, bytes: usize) -> Event {
    Event::Proved(Proved { nanos, bytes, flavour: Flavour::Composite, assumptions: 3 })
}

#[test]
fn an_execution_without_proving_executes_once() {
    let start = Execution::begin(Opts { segment_po2: Some(18), prove: false, repeat: 9 });
    assert_eq!(start.action(), Action::Execute { segment_po2: Some(18) });
    let done = start.step(session());
    assert_eq!(done.action(), Action::Finish);
    let run = done.finish();
    assert_eq!((run.cycles, run.segments), (77, 2));
    assert_eq!(run.journal_words, [1, 2, 3, 4]);
    assert!(run.prove_samples.is_empty());
    assert_eq!(run.proof_bytes, None);
    assert_eq!(run.receipt_kind, None);
    assert_eq!(run.prove_nanos(), None);
    assert_eq!(run.prove_spread(), None);
}

#[test]
fn an_execution_keeps_every_sample_and_the_last_proof() {
    let prove = Action::Prove { segment_po2: None };
    let opts = Opts { segment_po2: None, prove: true, repeat: 3 };
    let mut state = Execution::begin(opts).step(session());
    for (nanos, bytes) in [(30, 100), (10, 101), (20, 102)] {
        assert_eq!(state.action(), prove);
        state = state.step(proved(nanos, bytes));
    }
    assert_eq!(state.action(), Action::Finish);
    let run = state.finish();
    assert_eq!(run.prove_samples, [30, 10, 20]);
    assert_eq!(run.proof_bytes, Some(102));
    assert_eq!(run.receipt_kind.as_deref(), Some("composite, 3 assumption(s)"));
    assert_eq!(run.prove_nanos(), Some(10));
    assert_eq!(run.prove_spread(), Some((10, 30)));
    assert_eq!(run.cycles, 77);
}

#[test]
fn zero_repeats_prove_once() {
    let opts = Opts { segment_po2: None, prove: true, repeat: 0 };
    let state = Execution::begin(opts).step(session());
    assert_eq!(state.action(), Action::Prove { segment_po2: None });
    let state = state.step(proved(5, 6));
    assert_eq!(state.action(), Action::Finish);
    let run = state.finish();
    assert_eq!(run.prove_nanos(), Some(5));
    assert_eq!(run.prove_spread(), None);
}
