use k256::ecdsa::{RecoveryId, Signature, SigningKey, VerifyingKey};
use kanon_cost::baseline::{
    keccak256, make_packages, sign_with_n_signers, REDSTONE_SIGNED_BYTES,
};
use kanon_cost::probe;
use kanon_cost::signers::{sign_as, signed_bytes, SigningError};

fn hex(bytes: &[u8]) -> String {
    bytes.iter().map(|b| format!("{b:02x}")).collect()
}

#[test]
fn keccak256_of_known_messages() {
    assert_eq!(
        hex(&keccak256(b"")),
        "c5d2460186f7233c927e7db2dcc703c0e500b653ca82273b7bfad8045d85a470"
    );
    assert_eq!(
        hex(&keccak256(b"abc")),
        "4e03657aea45a94fc7d47ba826c8d667c0d1e6e33a64a036ec44f58fa12d6c45"
    );
}

#[test]
fn signed_bytes_differ_in_two_places() {
    let message = signed_bytes(37);
    assert_eq!(message.len(), REDSTONE_SIGNED_BYTES as usize);
    for (j, byte) in message.iter().enumerate() {
        let expected = match j {
            32 => 37,
            76 => 3, // 37 * 7 = 259
            _ => 0x5a,
        };
        assert_eq!(*byte, expected);
    }
}

#[test]
fn signed_bytes_repeat_every_256_signers() {
    assert_eq!(signed_bytes(3), signed_bytes(259));
    for i in 0..256usize {
        for k in 0..i {
            assert_ne!(signed_bytes(i), signed_bytes(k));
        }
    }
}

#[test]
fn packages_carry_their_own_digest_and_signature() {
    let packages = make_packages(4).unwrap();
    assert_eq!(packages.len(), 4);
    for (i, (message, digest, signature, recovery_id)) in packages.iter().enumerate() {
        assert_eq!(*message, signed_bytes(i));
        assert_eq!(*digest, keccak256(message).to_vec());
        let mut scalar = [0u8; 32];
        scalar[31] = i as u8 + 1;
        let key = SigningKey::from_bytes(&scalar.into()).unwrap();
        let recovered = VerifyingKey::recover_from_prehash(
            digest,
            &Signature::from_slice(signature).unwrap(),
            RecoveryId::from_byte(*recovery_id).unwrap(),
        )
        .unwrap();
        assert_eq!(recovered, *key.verifying_key());
    }
}

#[test]
fn a_package_takes_142_bytes_on_the_wire() {
    for n in [1usize, 3, 5] {
        let bytes: usize = make_packages(n)
            .unwrap()
            .iter()
            .map(|p| p.0.len() + p.2.len() + 1)
            .sum();
        assert_eq!(bytes, 142 * n);
    }
}

#[test]
fn packages_reproduce() {
    let five = make_packages(5).unwrap();
    assert_eq!(make_packages(5).unwrap(), five);
    assert_eq!(make_packages(3).unwrap(), five[..3]);
    assert!(make_packages(0).unwrap().is_empty());
}

#[test]
fn probe_packages_are_the_same_without_digests() {
    let published = make_packages(3).unwrap();
    let carried = probe::make_packages(3).unwrap();
    assert_eq!(carried.len(), 3);
    for (p, c) in published.iter().zip(&carried) {
        assert_eq!((&p.0, &p.2, p.3), (&c.0, &c.1, c.2));
    }
}

#[test]
fn there_are_keys_for_255_signers() {
    let digest = [9u8; 32];
    let error = SigningError::InvalidKey { signer: 255 };
    assert_eq!(sign_with_n_signers(&digest, 255).unwrap().len(), 255);
    assert_eq!(sign_with_n_signers(&digest, 256), Err(error));
    assert_eq!(sign_with_n_signers(&digest, usize::MAX), Err(error));
    assert_eq!(make_packages(256), Err(error));
    assert_eq!(probe::make_packages(1000), Err(error));
    assert_eq!(
        sign_as(511, &digest),
        Err(SigningError::InvalidKey { signer: 511 })
    );
    assert_eq!(sign_as(256, &digest), sign_as(0, &digest));
    let outside = SigningKey::from_bytes(&[0u8; 32].into()).err().unwrap();
    assert_eq!(error.message(), outside.to_string());
}

#[test]
fn signatures_depend_on_signer_and_digest() {
    let one = sign_as(0, &[1u8; 32]).unwrap();
    assert_eq!(one.0.len(), 64);
    assert!(one.1 < 4);
    assert_eq!(sign_as(0, &[1u8; 32]).unwrap(), one);
    assert_ne!(sign_as(1, &[1u8; 32]).unwrap(), one);
    assert_ne!(sign_as(0, &[2u8; 32]).unwrap(), one);
}

#[test]
fn shared_signatures_reproduce() {
    let digest = keccak256(b"again");
    let five = sign_with_n_signers(&digest, 5).unwrap();
    assert_eq!(sign_with_n_signers(&digest, 5).unwrap(), five);
    assert_eq!(sign_with_n_signers(&digest, 2).unwrap(), five[..2]);
    assert!(sign_with_n_signers(&digest, 0).unwrap().is_empty());
    for (signature, recovery_id) in &five {
        assert_eq!(signature.len(), 64);
        assert!(*recovery_id <= 3);
    }
}
