use kanon_cost::baseline;
use kanon_cost::decimal::decimal_text;
use kanon_cost::delta::Delta;
use kanon_cost::probe::{
    accelerated, break_down, make_packages, mixed, plan_update, Action, BudgetExhausted, Event,
    Probe, ProgramImages, Run, LEZ_CYCLE_BUDGET, REDSTONE_SIGNED_BYTES,
};
use kanon_cost::report::{cycle_delta, net_work, proof_bytes_delta};
use kanon_cost::samples::{fastest, spread};
use kanon_cost::select::{selected, selected_workloads, Workload};
use kanon_cost::signers::SigningError;

fn run(cycles: u64) -> Run {
    Run { cycles, prove_samples: Vec::new(), proof_bytes: None }
}

fn guest_run(cycles: u64, proof_bytes: Option<usize>) -> baseline::Run {
    baseline::Run {
        cycles,
        segments: 1,
        journal_words: Vec::new(),
        prove_samples: Vec::new(),
        proof_bytes,
        receipt_kind: None,
    }
}

#[test]
fn platform_constants() {
    assert_eq!(LEZ_CYCLE_BUDGET, 33_554_432);
    assert_eq!(REDSTONE_SIGNED_BYTES, 77);
    assert_eq!(REDSTONE_SIGNED_BYTES, baseline::REDSTONE_SIGNED_BYTES as usize);
}

#[test]
fn program_configurations() {
    let images = ProgramImages { noop: b"n", plumbing: b"p", verify: b"v" };
    let m = mixed(images);
    assert_eq!((m.name, m.noop, m.plumbing, m.verify), ("mixed", &b"n"[..], &b"p"[..], &b"v"[..]));
    let a = accelerated(images);
    assert_eq!((a.name, a.noop, a.plumbing, a.verify), ("accelerated", m.noop, m.plumbing, m.verify));
}

#[test]
fn a_probe_executes_under_the_budget_and_proves_without_one() {
    let start = Probe::begin(true, 2);
    assert_eq!(start.action(), Action::Execute { session_limit: Some(33_554_432) });
    let state = start.step(Event::Executed { cycles: 1_906_737 }).ok().unwrap();
    assert_eq!(state.action(), Action::Prove { session_limit: None });
    let state = state.step(Event::Proved { nanos: 9, bytes: 100 }).ok().unwrap();
    assert_eq!(state.action(), Action::Prove { session_limit: None });
    let state = state.step(Event::Proved { nanos: 7, bytes: 101 }).ok().unwrap();
    assert_eq!(state.action(), Action::Finish);
    let run = state.finish();
    assert_eq!(run.cycles, 1_906_737);
    assert_eq!(run.prove_samples, [9, 7]);
    assert_eq!(run.proof_bytes, Some(101));
    assert_eq!(run.prove_nanos(), Some(7));
    assert_eq!(run.prove_spread(), Some((7, 9)));
}

#[test]
fn a_probe_without_proving_only_executes() {
    let state = Probe::begin(false, 5).step(Event::Executed { cycles: 39_103 }).ok().unwrap();
    assert_eq!(state.action(), Action::Finish);
    let run = state.finish();
    assert_eq!((run.cycles, run.proof_bytes), (39_103, None));
    assert_eq!(run.prove_nanos(), None);
    assert_eq!(run.prove_spread(), None);
}

#[test]
fn only_the_verifying_program_of_an_update_is_proved() {
    let plan = plan_update(3, true, 2).ok().unwrap();
    assert_eq!(plan.packages, make_packages(3).unwrap());
    let plumbing = plan.plumbing.step(Event::Executed { cycles: 158_290 }).ok().unwrap();
    assert_eq!(plumbing.action(), Action::Finish);
    let verify = plan.verify.step(Event::Executed { cycles: 1_906_737 }).ok().unwrap();
    assert_eq!(verify.action(), Action::Prove { session_limit: None });
    assert_eq!(
        plan_update(256, false, 1).err(),
        Some(SigningError::InvalidKey { signer: 255 })
    );
}

#[test]
fn the_whole_budget_is_too_much() {
    let refused = Probe::begin(false, 1).step(Event::Executed { cycles: LEZ_CYCLE_BUDGET });
    assert_eq!(refused.err(), Some(BudgetExhausted));
    assert_eq!(BudgetExhausted.message(), "execution hit the LEZ public budget");
    let most = Probe::begin(false, 1).step(Event::Executed { cycles: LEZ_CYCLE_BUDGET - 1 });
    assert_eq!(most.ok().unwrap().finish().cycles, LEZ_CYCLE_BUDGET - 1);
}

#[test]
fn the_parts_of_a_program_add_up() {
    let (total, plumbing, floor) = (run(1_906_737), run(158_290), run(39_103));
    let parts = break_down(&total, Some(&floor), Some(&plumbing));
    assert_eq!(parts.above_floor, Some(1_867_634));
    assert_eq!(parts.crypto_alone, Some(1_748_447));
    assert_eq!(parts.instruction_handling, Some(119_187));
    assert_eq!(39_103 + 119_187 + 1_748_447, 1_906_737);
}

#[test]
fn a_breakdown_needs_something_to_compare_with() {
    let alone = break_down(&run(10), None, None);
    assert_eq!(
        (alone.above_floor, alone.crypto_alone, alone.instruction_handling),
        (None, None, None)
    );
    let no_floor = break_down(&run(10), None, Some(&run(4)));
    assert_eq!(no_floor.crypto_alone, Some(6));
    assert_eq!(no_floor.instruction_handling, Some(0));
    let no_plumbing = break_down(&run(10), Some(&run(12)), None);
    assert_eq!(no_plumbing.above_floor, Some(0));
    assert_eq!(no_plumbing.instruction_handling, None);
}

#[test]
fn the_fastest_sample_and_the_spread() {
    assert_eq!(fastest(&[]), None);
    assert_eq!(fastest(&[4]), Some(4));
    assert_eq!(fastest(&[4, 2, 9, 2]), Some(2));
    assert_eq!(spread(&[]), None);
    assert_eq!(spread(&[4]), None);
    assert_eq!(spread(&[4, 2, 9, 2]), Some((2, 9)));
    assert_eq!(spread(&[3, 3]), Some((3, 3)));
}

#[test]
fn what_hashing_adds() {
    let with = guest_run(1_813_434, Some(562_764));
    let without = guest_run(1_761_478, Some(562_000));
    assert_eq!(cycle_delta(&with, &without), 51_956);
    assert_eq!(cycle_delta(&without, &with), -51_956);
    assert_eq!(proof_bytes_delta(&with, &without), 764);
    assert_eq!(proof_bytes_delta(&guest_run(1, None), &without), -562_000);
}

#[test]
fn cycle_counts_are_read_as_signed() {
    let huge = guest_run(u64::MAX, None);
    assert_eq!(cycle_delta(&huge, &guest_run(0, None)), -1);
    assert_eq!(cycle_delta(&guest_run(5, None), &huge), 6);
}

#[test]
fn hashing_net_of_its_bookkeeping() {
    let delta = |work: u64| Delta {
        work,
        busy: guest_run(work, None),
        idle: guest_run(0, None),
    };
    assert_eq!(net_work(&delta(281_472), &delta(1_504)), 279_968);
    assert_eq!(net_work(&delta(0), &delta(u64::MAX)), -i128::from(u64::MAX));
}

#[test]
fn prefixes_select() {
    assert!(selected(None, "software"));
    assert!(selected(Some("soft"), "software"));
    assert!(selected(Some("software"), "software"));
    assert!(selected(Some(""), "mixed"));
    assert!(selected(Some("acc"), "accelerated"));
    assert!(!selected(Some("acc"), "software"));
    assert!(!selected(Some("softwares"), "software"));
    assert!(!selected(Some("oft"), "software"));
    assert!(!selected(Some("Soft"), "software"));
}

#[test]
fn workloads_are_selected_in_order() {
    let all = [Workload::Noop, Workload::Keccak, Workload::Recover, Workload::Verify];
    assert_eq!(selected_workloads(None), all);
    assert_eq!(selected_workloads(Some("")), all);
    assert_eq!(selected_workloads(Some("k")), [Workload::Keccak]);
    assert_eq!(selected_workloads(Some("verify")), [Workload::Verify]);
    assert_eq!(selected_workloads(Some("hash")), []);
    for workload in all {
        assert_eq!(selected_workloads(Some(workload.name())), [workload]);
    }
}

#[test]
fn numbers_in_decimal() {
    for n in [0u64, 7, 10, 99, 100, 12_345, u64::MAX] {
        assert_eq!(decimal_text(n), format!("{n}"));
    }
}
