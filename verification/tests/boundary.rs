use kanon_cost::bench::Fault;
use kanon_cost::probe::{make_packages, plan_input, pre_state, Package, PreState, Write};
use kanon_cost::program::{
    read_packages, run_noop, run_plumbing, run_verify, verify_packages, Rejection,
};
use kanon_cost::wire::{decode_journal, encode_instruction, program_id, to_words, BadJournal};

/// A 32-bit RISC-V executable with one loaded segment.
fn elf(entry: u32, address: u32, code: &[u8]) -> Vec<u8> {
    let mut out = vec![0x7f, b'E', b'L', b'F', 1, 1, 1, 0, 0, 0, 0, 0, 0, 0, 0, 0];
    let word = |out: &mut Vec<u8>, w: u32| out.extend(w.to_le_bytes());
    let half = |out: &mut Vec<u8>, h: u16| out.extend(h.to_le_bytes());
    half(&mut out, 2); // executable
    half(&mut out, 243); // RISC-V
    word(&mut out, 1);
    word(&mut out, entry);
    word(&mut out, 52); // program headers
    word(&mut out, 0); // no sections
    word(&mut out, 0);
    half(&mut out, 52);
    half(&mut out, 32);
    half(&mut out, 1);
    half(&mut out, 40);
    half(&mut out, 0);
    half(&mut out, 0);
    word(&mut out, 1); // loaded
    word(&mut out, 84);
    word(&mut out, address);
    word(&mut out, address);
    word(&mut out, code.len() as u32);
    word(&mut out, code.len() as u32);
    word(&mut out, 5);
    word(&mut out, 4);
    out.extend(code);
    out
}

/// A program binary: header, user ELF and kernel ELF.
fn binary(code: &[u8]) -> Vec<u8> {
    let user = elf(0x0002_0000, 0x0002_0000, code);
    let kernel = elf(0xc000_0000, 0xc000_0000, &[0x13, 0, 0, 0]);
    let version = [0u8, 0, 5, b'1', b'.', b'0', b'.', b'0'];
    let mut out = b"R0BF".to_vec();
    out.extend(1u32.to_le_bytes());
    out.extend((8 + version.len() as u32).to_le_bytes());
    out.extend(1u32.to_le_bytes());
    out.extend((version.len() as u32).to_le_bytes());
    out.extend(version);
    out.extend((user.len() as u32).to_le_bytes());
    out.extend(user);
    out.extend(kernel);
    out
}

#[test]
fn bytes_become_little_endian_words() {
    assert_eq!(to_words(&[]), Vec::<u32>::new());
    assert_eq!(to_words(&[1, 2, 3, 4, 0xff, 0, 0, 0x80]), vec![0x0403_0201, 0x8000_00ff]);
}

#[test]
fn a_committed_tally_decodes() {
    let words = risc0_zkvm::serde::to_vec(&(3u32, 0x46u8)).unwrap();
    let journal: Vec<u8> = words.iter().flat_map(|w| w.to_le_bytes()).collect();
    assert_eq!(journal, vec![3, 0, 0, 0, 0x46, 0, 0, 0]);
    assert_eq!(decode_journal(&journal), Ok((3, 0x46)));
}

#[test]
fn later_words_are_not_looked_at() {
    assert_eq!(
        decode_journal(&[0, 1, 0, 0, 255, 0, 0, 0, 9, 9, 9, 9]),
        Ok((256, 255))
    );
}

/// What the serializer says of words that are no tally.
fn complaint(words: &[u32]) -> String {
    let read: Result<(u32, u8), _> = risc0_zkvm::serde::from_slice(words);
    read.unwrap_err().to_string()
}

#[test]
fn a_short_journal_is_refused() {
    let error = BadJournal { text: "Unexpected end during deserialization".to_string() };
    assert_eq!(error.text, complaint(&[]));
    assert_eq!(error.text, complaint(&[3]));
    assert_eq!(decode_journal(&[]), Err(error.clone()));
    assert_eq!(decode_journal(&[3, 0, 0, 0]), Err(error));
}

#[test]
fn a_checksum_has_to_fit_a_byte() {
    let error = BadJournal { text: "invalid value: integer `256`, expected u8".to_string() };
    assert_eq!(error.text, complaint(&[3, 256]));
    assert_eq!(decode_journal(&[3, 0, 0, 0, 0, 1, 0, 0]), Err(error));
    let largest = decode_journal(&[3, 0, 0, 0, 255, 255, 255, 255]).unwrap_err();
    assert_eq!(largest.text, complaint(&[3, u32::MAX]));
    assert_eq!(largest.text, "invalid value: integer `4294967295`, expected u8");
}

#[test]
fn instructions_are_written_word_by_word() {
    let packages: Vec<Package> = vec![(vec![7, 8], vec![0xff], 1), (vec![], vec![], 0)];
    let expected = vec![2u32, 2, 7, 8, 1, 0xff, 1, 0, 0, 0];
    assert_eq!(encode_instruction(&packages), expected);
    assert_eq!(risc0_zkvm::serde::to_vec(&packages).unwrap(), expected);
}

#[test]
fn an_instruction_without_packages_is_an_empty_list() {
    assert_eq!(encode_instruction(&[]), vec![0u32]);
    assert_eq!(
        risc0_zkvm::serde::to_vec(&Vec::<u8>::new()).unwrap(),
        vec![0u32]
    );
}

#[test]
fn instructions_grow_by_144_words_per_signer() {
    for n in [0usize, 1, 3, 5] {
        let packages = make_packages(n).unwrap();
        assert_eq!(encode_instruction(&packages).len(), 1 + 144 * n);
    }
}

#[test]
fn programs_are_known_by_their_image() {
    let first = binary(&[0x13, 0, 0, 0]);
    let second = binary(&[0x93, 0, 0, 0]);
    let id = program_id(&first).unwrap();
    let digest = risc0_zkvm::compute_image_id(&first).unwrap();
    assert_eq!(digest.as_words(), &id[..]);
    assert_eq!(program_id(&first).unwrap(), id);
    assert_ne!(program_id(&second).unwrap(), id);
}

#[test]
fn junk_is_no_program() {
    let mut cut = binary(&[0x13, 0, 0, 0]);
    cut.truncate(40);
    for junk in [&b""[..], &b"not a program at all"[..], &cut] {
        let outside = risc0_zkvm::compute_image_id(junk).unwrap_err();
        let error = program_id(junk).unwrap_err();
        assert_eq!(error.cause.to_string(), outside.to_string());
        assert_eq!(error.text, format!("{outside:#}"));
    }
}

#[test]
fn a_program_reads_its_id_first_and_its_instruction_last() {
    let image = binary(&[0x13, 0, 0, 0]);
    let packages = make_packages(2).unwrap();
    let writes = plan_input(&image, &packages).ok().unwrap();
    assert_eq!(writes.len(), 4);
    assert!(matches!(&writes[0], Write::ProgramId(id) if *id == program_id(&image).unwrap()));
    assert!(matches!(writes[1], Write::NoCaller));
    assert!(matches!(&writes[2], Write::PreStates(states) if *states == [pre_state()]));
    assert!(
        matches!(&writes[3], Write::Instruction(words) if *words == encode_instruction(&packages))
    );
}

#[test]
fn there_is_no_input_for_junk() {
    let error = plan_input(b"junk", &[]).err().unwrap();
    assert_eq!(error.text, "Malformed ProgramBinary");
    let error = plan_input(b"R0", &[]).err().unwrap();
    assert_eq!(error.text, "Malformed ProgramBinary: unexpected end of file");
}

#[test]
fn a_program_is_given_one_account_it_may_claim() {
    assert_eq!(pre_state(), PreState { authorized: true, id: [7u8; 32] });
}

#[test]
fn the_empty_program_echoes_its_account() {
    assert_eq!(run_noop(vec![vec![]]), Ok(vec![]));
    assert_eq!(run_noop(vec![vec![1, 2]]), Ok(vec![1, 2]));
}

#[test]
fn a_program_wants_exactly_one_account() {
    let error = Err(Rejection::AccountCount);
    assert_eq!(run_noop(vec![]), error);
    assert_eq!(run_noop(vec![vec![], vec![]]), error);
    assert_eq!(run_plumbing(&[], vec![]), error);
    assert_eq!(run_verify(&[], vec![vec![], vec![]]), error);
    assert_eq!(
        Rejection::AccountCount.message(),
        "expected exactly one input account"
    );
}

#[test]
fn plumbing_folds_lengths_and_recovery_ids() {
    let packages: Vec<Package> = vec![(vec![0; 77], vec![0; 64], 1), (vec![0; 300], vec![], 0)];
    let expected = 77 ^ 64 ^ 1 ^ (300 % 256) as u8;
    assert_eq!(read_packages(&packages), expected);
    assert_eq!(read_packages(&[]), 0);
    assert_eq!(run_plumbing(&packages, vec![vec![9]]), Ok(vec![9, expected]));
}

#[test]
fn verification_leaves_the_checksum_of_the_keys() {
    let packages = make_packages(3).unwrap();
    let checksum = 0x79 ^ 0xc6 ^ 0xf9;
    assert_eq!(verify_packages(&packages), Ok(checksum));
    assert_eq!(run_verify(&packages, vec![vec![5]]), Ok(vec![5, checksum]));
    assert_eq!(run_verify(&[], vec![vec![]]), Ok(vec![0]));
}

#[test]
fn programs_differ_in_the_last_byte_alone() {
    let packages = make_packages(2).unwrap();
    let account = vec![1u8, 2, 3];
    let echoed = run_noop(vec![account.clone()]).unwrap();
    let plumbed = run_plumbing(&packages, vec![account.clone()]).unwrap();
    let verified = run_verify(&packages, vec![account]).unwrap();
    assert_eq!(plumbed[..3], echoed[..]);
    assert_eq!(verified[..3], echoed[..]);
    assert_eq!((plumbed.len(), verified.len()), (4, 4));
}

#[test]
fn one_failed_recovery_fails_the_verification() {
    // No point of the curve has 5 for its x coordinate.
    let mut packages = make_packages(3).unwrap();
    packages[1].1 = vec![0u8; 64];
    packages[1].1[31] = 5;
    packages[1].1[63] = 1;
    packages[1].2 = 0;
    let error = Rejection::FailedRecovery { recovered: 2, expected: 3 };
    assert_eq!(verify_packages(&packages), Err(error));
    // Verification comes before the accounts are looked at.
    assert_eq!(run_verify(&packages, vec![]), Err(error));
    assert_eq!(
        error.message(),
        "every recovery must succeed, or the measurement is of the cheap error path"
    );
}

#[test]
fn faulty_packages_are_rejected() {
    let mut packages = make_packages(3).unwrap();
    packages[2].2 = 4;
    let error = Rejection::Fault(Fault::BadRecoveryId);
    assert_eq!(run_verify(&packages, vec![vec![]]), Err(error));
    assert_eq!(error.message(), "bad recovery id");
    packages[1].1.pop();
    let error = Rejection::Fault(Fault::MalformedSignature);
    assert_eq!(run_verify(&packages, vec![vec![]]), Err(error));
    assert_eq!(error.message(), "malformed signature");
    assert_eq!(Fault::DigestLength.message(), "digest must be 32 bytes");
}
