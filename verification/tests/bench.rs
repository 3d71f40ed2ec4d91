use kanon_cost::baseline::{keccak256, make_packages, sign_with_n_signers, Package};
use kanon_cost::bench::{
    keccak_bench, keccak_loop_overhead, recover_bench, tally_key, try_recover_bench,
    try_verify_bench, verify_bench, xor_into, Fault,
};

fn hex(text: &str) -> Vec<u8> {
    (0..text.len() / 2)
        .map(|i| u8::from_str_radix(&text[2 * i..2 * i + 2], 16).unwrap())
        .collect()
}

/// The order of the secp256k1 group.
const ORDER: &str = "fffffffffffffffffffffffffffffffebaaedce6af48a03bbfd25e8cd0364141";

/// A signature with a small `r` and the given `s`.
fn signature_with_s(s: &str) -> Vec<u8> {
    let mut bytes = vec![0u8; 31];
    bytes.push(1);
    bytes.extend(hex(s));
    bytes
}

#[test]
fn xor_into_folds_byte_by_byte() {
    let mut acc = [0x0fu8; 32];
    let mut block = [0u8; 32];
    block[0] = 0xff;
    block[31] = 0x0f;
    xor_into(&mut acc, &block);
    assert_eq!(acc[0], 0xf0);
    assert_eq!(acc[1], 0x0f);
    assert_eq!(acc[31], 0);
}

#[test]
fn keccak_bench_without_work_is_zero() {
    assert_eq!(keccak_bench(false, 16, 77), [0u8; 32]);
}

#[test]
fn keccak_bench_without_iterations_is_zero() {
    assert_eq!(keccak_bench(true, 0, 77), [0u8; 32]);
}

#[test]
fn one_iteration_hashes_the_message_itself() {
    let mut message = vec![0xa5u8; 77];
    message[0] = 0;
    assert_eq!(keccak_bench(true, 1, 77), keccak256(&message));
}

#[test]
fn iterations_fold_distinct_digests() {
    let mut expected = [0u8; 32];
    for i in 0..3u8 {
        let mut message = vec![0xa5u8; 32];
        message[0] = i;
        xor_into(&mut expected, &keccak256(&message));
    }
    assert_eq!(keccak_bench(true, 3, 32), expected);
    assert_ne!(expected, [0u8; 32]);
}

#[test]
fn empty_messages_cancel_in_pairs() {
    assert_eq!(keccak_bench(true, 1, 0), keccak256(&[]));
    assert_eq!(keccak_bench(true, 2, 0), [0u8; 32]);
}

#[test]
fn messages_repeat_after_256_iterations() {
    assert_eq!(keccak_bench(true, 512, 5), [0u8; 32]);
    assert_ne!(keccak_bench(true, 256, 5), [0u8; 32]);
}

#[test]
fn loop_overhead_without_work_is_zero() {
    assert_eq!(keccak_loop_overhead(false, 16, 77), [0u8; 32]);
}

#[test]
fn loop_overhead_is_flat_in_position_and_message_size() {
    // 0 ^ 1 ^ ... ^ 15 cancels; 0 ^ 1 ^ ... ^ 14 leaves 15.
    for len in [0u32, 32, 77, 141, 512] {
        assert_eq!(keccak_loop_overhead(true, 16, len), [0u8; 32]);
        assert_eq!(keccak_loop_overhead(true, 15, len), [15u8; 32]);
    }
    // Only the low byte of the iteration is folded in.
    assert_eq!(keccak_loop_overhead(true, 257, 1), [0u8; 32]);
    assert_eq!(keccak_loop_overhead(true, 258, 1), [1u8; 32]);
}

#[test]
fn tally_counts_keys_and_folds_their_second_byte() {
    let key = vec![4u8, 0x79, 0xbe];
    assert_eq!(tally_key((2, 0x0f), Some(&key)), (3, 0x76));
    assert_eq!(tally_key((2, 0x0f), None), (2, 0x0f));
}

#[test]
fn three_packages_recover_three_known_keys() {
    // The leading bytes of the x coordinates of G, 2G and 3G.
    let expected = 0x79 ^ 0xc6 ^ 0xf9;
    let packages = make_packages(3).unwrap();
    assert_eq!(try_verify_bench(true, &packages), Ok((3, expected)));
    assert_eq!(verify_bench(true, &packages), (3, expected));
    assert_eq!(verify_bench(false, &packages), (3, expected));
}

#[test]
fn verification_adds_up_over_the_packages() {
    let packages = make_packages(5).unwrap();
    let all = verify_bench(true, &packages);
    let first = verify_bench(true, &packages[..2]);
    let rest = verify_bench(true, &packages[2..]);
    assert_eq!(all.0, first.0 + rest.0);
    assert_eq!(all.1, first.1 ^ rest.1);
    assert_eq!(all, (5, 0x79 ^ 0xc6 ^ 0xf9 ^ 0xe4 ^ 0x2f));
}

#[test]
fn nothing_to_verify_recovers_nothing() {
    let none: Vec<Package> = Vec::new();
    assert_eq!(verify_bench(true, &none), (0, 0));
}

#[test]
fn a_wrong_digest_recovers_another_key_or_none() {
    let mut packages = make_packages(1).unwrap();
    packages[0].1 = vec![0x11u8; 32];
    assert_eq!(verify_bench(true, &packages), (1, 0x79));
    assert_ne!(verify_bench(false, &packages), (1, 0x79));
}

#[test]
fn a_failed_recovery_does_not_count() {
    // No point of the curve has 5 for its x coordinate.
    let mut signature = vec![0u8; 64];
    signature[31] = 5;
    signature[63] = 1;
    let mut packages = make_packages(2).unwrap();
    packages[0].2 = signature.clone();
    assert_eq!(try_verify_bench(true, &packages), Ok((1, 0xc6)));
    let sigs = vec![(signature, 0u8)];
    assert_eq!(recover_bench(true, &[7u8; 32], &sigs), (0, 0));
}

#[test]
fn a_shared_digest_recovers_the_same_keys() {
    let digest = keccak256(b"anything at all");
    let sigs = sign_with_n_signers(&digest, 3).unwrap();
    assert_eq!(
        recover_bench(true, &digest, &sigs),
        verify_bench(true, &make_packages(3).unwrap())
    );
    assert_eq!(
        try_recover_bench(true, &digest, &sigs),
        Ok((3, 0x79 ^ 0xc6 ^ 0xf9))
    );
}

#[test]
fn recovery_without_work_looks_at_nothing() {
    let sigs = vec![(vec![1u8, 2, 3], 200u8)];
    assert_eq!(recover_bench(false, &[1u8], &sigs), (0, 0));
    assert_eq!(try_recover_bench(false, &[1u8], &sigs), Ok((0, 0)));
}

#[test]
fn a_short_digest_is_a_fault_unless_it_is_computed() {
    let mut packages = make_packages(2).unwrap();
    packages[1].1.pop();
    assert_eq!(try_verify_bench(false, &packages), Err(Fault::DigestLength));
    assert_eq!(try_verify_bench(true, &packages), Ok((2, 0x79 ^ 0xc6)));
    assert_eq!(try_recover_bench(true, &[0u8; 31], &[]), Err(Fault::DigestLength));
}

#[test]
fn malformed_signatures_are_faults() {
    let good = make_packages(1).unwrap().remove(0);
    let mut short = good.2.clone();
    short.pop();
    let order_less_one = format!("{}40", &ORDER[..62]);
    let zero = "0".repeat(64);
    let ones = "f".repeat(64);
    for (signature, sound) in [
        (short, false),
        (signature_with_s(&zero), false),
        (signature_with_s(ORDER), false),
        (signature_with_s(&ones), false),
        (signature_with_s(&order_less_one), true),
    ] {
        let packages = vec![(good.0.clone(), good.1.clone(), signature.clone(), good.3)];
        let expected = if sound {
            None
        } else {
            Some(Fault::MalformedSignature)
        };
        assert_eq!(try_verify_bench(true, &packages).err(), expected);
        assert_eq!(try_recover_bench(true, &good.1, &[(signature, 0)]).err(), expected);
    }
}

#[test]
fn recovery_ids_are_two_bits() {
    let good = make_packages(1).unwrap().remove(0);
    for id in 0..=255u8 {
        let packages = vec![(good.0.clone(), good.1.clone(), good.2.clone(), id)];
        let expected = if id < 4 {
            None
        } else {
            Some(Fault::BadRecoveryId)
        };
        assert_eq!(try_verify_bench(true, &packages).err(), expected);
    }
}

#[test]
fn the_first_fault_is_reported() {
    let mut packages = make_packages(3).unwrap();
    packages[1].3 = 9;
    packages[2].2.clear();
    assert_eq!(try_verify_bench(true, &packages), Err(Fault::BadRecoveryId));
    packages[0].1.clear();
    assert_eq!(try_verify_bench(false, &packages), Err(Fault::DigestLength));
    let sigs = vec![(vec![0u8; 64], 9u8)];
    assert_eq!(
        try_recover_bench(true, &[0u8; 32], &sigs),
        Err(Fault::MalformedSignature)
    );
}

#[test]
fn recoveries_over_one_digest_add_up() {
    let digest = keccak256(b"shared");
    let sigs = sign_with_n_signers(&digest, 4).unwrap();
    let all = recover_bench(true, &digest, &sigs);
    let first = recover_bench(true, &digest, &sigs[..1]);
    let rest = recover_bench(true, &digest, &sigs[1..]);
    assert_eq!(all, (first.0 + rest.0, first.1 ^ rest.1));
    assert_eq!(all, (4, 0x79 ^ 0xc6 ^ 0xf9 ^ 0xe4));
}
