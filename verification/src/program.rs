//! What the measured programs compute.
//!
//! Three programs make up a measurement. One does nothing with its instruction,
//! one reads every package of it but does no cryptography, and one verifies
//! every package. The latter two leave a checksum in their account, so that the
//! work cannot be dropped as unused.
//!
//! A program is given the data of its input accounts, of which it wants exactly
//! one, and says what data the account holds afterwards.

use crate::bench::{
    found_keys, key_checksum, law_full_count, law_tally, law_xor_bytes, lemma_tally_push,
    package_faults, package_keys, recover_into, recovered_count, signature_fault, xor_bytes, Fault,
    PackageView,
};
use crate::first::{first_error, law_first_error, lemma_first_error_at, lemma_first_error_skip};
use crate::primitives::{
    hash_keccak256, keccak256_digest, recovered_key, well_formed_signature,
};
use crate::probe::{carried_by, carried_by_first, Package};
use crate::signers::{
    law_published_packages_verify, published_by, published_by_first, signer_checksum,
};
use crate::wire::{instruction_words, package_words, packages_words};
use vstd::prelude::*;

verus! {

/// A carried package as a mathematical value, with the digest that the program
/// computes for it.
pub open spec fn carried_view(package: Package) -> PackageView {
    PackageView {
        message: package.0@,
        digest: keccak256_digest(package.0@),
        signature: package.1@,
        recovery_id: package.2,
    }
}

/// Carried packages as mathematical values.
pub open spec fn carried_views(packages: Seq<Package>) -> Seq<PackageView> {
    packages.map_values(|package: Package| carried_view(package))
}

/// The faults of carried packages. The program hashes for itself, so only their
/// signatures can be at fault.
pub open spec fn carried_faults(packages: Seq<Package>) -> Seq<Option<Fault>> {
    packages.map_values(|package: Package| signature_fault(package.1@, package.2))
}

/// Why a program refuses to go on.
#[derive(Clone, Copy, Debug, PartialEq, Eq, Structural)]
pub enum Rejection {
    /// A package is no sound input.
    Fault(Fault),
    /// Some recovery failed.
    FailedRecovery { recovered: u32, expected: usize },
    /// There is not exactly one input account.
    AccountCount,
}

impl Rejection {
    /// The rejection in words.
    pub open spec fn text(self) -> Seq<char> {
        match self {
            Rejection::Fault(fault) => fault.text(),
            Rejection::FailedRecovery { .. } =>
                "every recovery must succeed, or the measurement is of the cheap error path"@,
            Rejection::AccountCount => "expected exactly one input account"@,
        }
    }

    /// The rejection in words.
    pub fn message(&self) -> (text: &'static str)
        ensures
            text@ == self.text(),
    {
        match self {
            Rejection::Fault(fault) => fault.message(),
            Rejection::FailedRecovery { .. } =>
                "every recovery must succeed, or the measurement is of the cheap error path",
            Rejection::AccountCount => "expected exactly one input account",
        }
    }
}

/// What verifying carried packages comes to: the checksum of the recovered keys,
/// if every package is sound and every recovery succeeds.
pub open spec fn verification(packages: Seq<Package>) -> Result<u8, Rejection> {
    let keys = package_keys(true, carried_views(packages));
    match first_error(carried_faults(packages)) {
        Some(fault) => Err(Rejection::Fault(fault)),
        None => if recovered_count(keys) == packages.len() {
            Ok(key_checksum(keys))
        } else {
            Err(
                Rejection::FailedRecovery {
                    recovered: recovered_count(keys) as u32,
                    expected: packages.len() as usize,
                },
            )
        },
    }
}

/// A full M-of-N verification: per package, keccak256 over that signer's signed
/// byte range, then public-key recovery.
pub fn verify_packages(packages: &[Package]) -> (verified: Result<u8, Rejection>)
    requires
        packages@.len() <= u32::MAX,
    ensures
        verified == verification(packages@),
{
    let mut tally: (u32, u8) = (0, 0);
    let ghost keys = package_keys(true, carried_views(packages@));
    let ghost faults = carried_faults(packages@);
    proof {
        assert(faults.skip(0) =~= faults);
        assert(keys.take(0) =~= Seq::empty());
        assert(found_keys(keys.take(0)).map_values(|key: Seq<u8>| key[1]) =~= Seq::empty());
    }
    let mut i: usize = 0;
    while i < packages.len()
        invariant
            i <= packages@.len() <= u32::MAX,
            keys == package_keys(true, carried_views(packages@)),
            faults == carried_faults(packages@),
            first_error(faults) == first_error(faults.skip(i as int)),
            tally.0 == recovered_count(keys.take(i as int)),
            tally.1 == key_checksum(keys.take(i as int)),
        decreases packages@.len() - i,
    {
        let package = &packages[i];
        let digest = hash_keccak256(package.0.as_slice());
        proof {
            lemma_first_error_skip(faults, i as int);
            assert(faults[i as int] == signature_fault(package.1@, package.2));
            assert(carried_views(packages@)[i as int] == carried_view(*package));
            law_full_count(keys.take(i as int));
            lemma_tally_push(keys.take(i as int), keys[i as int]);
            assert(keys.take(i + 1) =~= keys.take(i as int).push(keys[i as int]));
        }
        match recover_into(tally, &digest, package.1.as_slice(), package.2) {
            Ok(next) => {
                tally = next;
            },
            Err(fault) => {
                return Err(Rejection::Fault(fault));
            },
        }
        i = i + 1;
    }
    proof {
        assert(keys.take(i as int) =~= keys);
    }
    if tally.0 as usize == packages.len() {
        Ok(tally.1)
    } else {
        Err(Rejection::FailedRecovery { recovered: tally.0, expected: packages.len() })
    }
}

/// What the plumbing folds in of one package: its lengths and its recovery id.
pub open spec fn plumbing_byte(package: Package) -> u8 {
    (package.0@.len() % 256) as u8 ^ (package.1@.len() % 256) as u8 ^ package.2
}

/// What the plumbing folds in of all packages.
pub open spec fn plumbing_checksum(packages: Seq<Package>) -> u8 {
    xor_bytes(packages.map_values(|package: Package| plumbing_byte(package)))
}

/// Everything [`verify_packages`] does except the cryptography: every package is
/// read, and folding the lengths keeps that reading alive.
pub fn read_packages(packages: &[Package]) -> (checksum: u8)
    ensures
        checksum == plumbing_checksum(packages@),
{
    let ghost bytes = packages@.map_values(|package: Package| plumbing_byte(package));
    let mut checksum: u8 = 0;
    let mut i: usize = 0;
    while i < packages.len()
        invariant
            i <= packages@.len(),
            bytes == packages@.map_values(|package: Package| plumbing_byte(package)),
            checksum == xor_bytes(bytes.take(i as int)),
        decreases packages@.len() - i,
    {
        let package = &packages[i];
        let message_len: usize = package.0.len();
        let signature_len: usize = package.1.len();
        proof {
            assert(message_len as u8 == (message_len % 256) as u8) by (bit_vector);
            assert(signature_len as u8 == (signature_len % 256) as u8) by (bit_vector);
            assert(bytes.take(i + 1).drop_last() =~= bytes.take(i as int));
        }
        checksum = checksum ^ ((message_len as u8) ^ (signature_len as u8) ^ package.2);
        i = i + 1;
    }
    proof {
        assert(bytes.take(i as int) =~= bytes);
    }
    checksum
}

/// What each account holds.
pub open spec fn account_views(accounts: Seq<Vec<u8>>) -> Seq<Seq<u8>> {
    accounts.map_values(|data: Vec<u8>| data@)
}

/// The account data a program ends with, as a mathematical value.
pub open spec fn outcome_view(outcome: Result<Vec<u8>, Rejection>) -> Result<Seq<u8>, Rejection> {
    match outcome {
        Ok(data) => Ok(data@),
        Err(rejection) => Err(rejection),
    }
}

/// The empty program: its one account is left as it is.
pub open spec fn noop_outcome(accounts: Seq<Seq<u8>>) -> Result<Seq<u8>, Rejection> {
    if accounts.len() == 1 {
        Ok(accounts[0])
    } else {
        Err(Rejection::AccountCount)
    }
}

/// A program that ends with a checksum: its one account gains that byte.
pub open spec fn checksum_outcome(accounts: Seq<Seq<u8>>, checksum: u8) -> Result<
    Seq<u8>,
    Rejection,
> {
    match noop_outcome(accounts) {
        Ok(data) => Ok(data.push(checksum)),
        Err(rejection) => Err(rejection),
    }
}

/// The verifying program: it verifies before it looks at its accounts.
pub open spec fn verify_outcome(packages: Seq<Package>, accounts: Seq<Seq<u8>>) -> Result<
    Seq<u8>,
    Rejection,
> {
    match verification(packages) {
        Ok(checksum) => checksum_outcome(accounts, checksum),
        Err(rejection) => Err(rejection),
    }
}

/// Runs the program that does no work beyond the framework's own: it echoes its
/// account.
pub fn run_noop(accounts: Vec<Vec<u8>>) -> (outcome: Result<Vec<u8>, Rejection>)
    ensures
        outcome_view(outcome) == noop_outcome(account_views(accounts@)),
{
    let mut accounts = accounts;
    if accounts.len() != 1 {
        return Err(Rejection::AccountCount);
    }
    let data = accounts.swap_remove(0);
    Ok(data)
}

fn run_with_checksum(accounts: Vec<Vec<u8>>, checksum: u8) -> (outcome: Result<Vec<u8>, Rejection>)
    ensures
        outcome_view(outcome) == checksum_outcome(account_views(accounts@), checksum),
{
    match run_noop(accounts) {
        Ok(data) => {
            let mut after = data;
            after.push(checksum);
            Ok(after)
        },
        Err(rejection) => Err(rejection),
    }
}

/// Runs the program that handles its instruction without verifying it.
pub fn run_plumbing(packages: &[Package], accounts: Vec<Vec<u8>>) -> (outcome: Result<
    Vec<u8>,
    Rejection,
>)
    ensures
        outcome_view(outcome) == checksum_outcome(
            account_views(accounts@),
            plumbing_checksum(packages@),
        ),
{
    let checksum: u8 = read_packages(packages);
    run_with_checksum(accounts, checksum)
}

/// Runs the program that verifies its instruction.
pub fn run_verify(packages: &[Package], accounts: Vec<Vec<u8>>) -> (outcome: Result<
    Vec<u8>,
    Rejection,
>)
    requires
        packages@.len() <= u32::MAX,
    ensures
        outcome_view(outcome) == verify_outcome(packages@, account_views(accounts@)),
{
    match verify_packages(packages) {
        Ok(checksum) => run_with_checksum(accounts, checksum),
        Err(rejection) => Err(rejection),
    }
}

/// The verifying program does everything the plumbing does, and the plumbing
/// everything the empty program does: where a program succeeds the ones below it
/// succeed too, and their accounts differ in the last byte alone.
pub proof fn law_programs_extend_each_other(packages: Seq<Package>, accounts: Seq<Seq<u8>>)
    ensures
        checksum_outcome(accounts, plumbing_checksum(packages)) is Ok <==> noop_outcome(
            accounts,
        ) is Ok,
        checksum_outcome(accounts, plumbing_checksum(packages)) matches Ok(plumbed)
            ==> plumbed.drop_last() == noop_outcome(accounts)->Ok_0,
        verify_outcome(packages, accounts) matches Ok(verified) ==> {
            &&& checksum_outcome(accounts, plumbing_checksum(packages)) is Ok
            &&& verified.drop_last() == noop_outcome(accounts)->Ok_0
        },
{
    if accounts.len() == 1 {
        let data = accounts[0];
        assert(data.push(plumbing_checksum(packages)).drop_last() =~= data);
        if let Ok(checksum) = verification(packages) {
            assert(data.push(checksum).drop_last() =~= data);
        }
    }
}

/// The probe carries the baseline's packages, minus their digests: signer by
/// signer, the message, the signature and the recovery id are the same.
pub proof fn law_same_packages(n: nat, carried: Seq<Package>, published: Seq<PackageView>)
    requires
        carried_by_first(n, carried),
        published_by_first(n, published),
    ensures
        carried_views(carried) == published,
{
    assert forall|i: int| 0 <= i < n implies carried_views(carried)[i] == published[i] by {
        assert(carried_by(i as nat, carried[i]));
        assert(published_by(i as nat, published[i]));
    }
    assert(carried_views(carried) =~= published);
}

/// Verifying the packages that the signers publish succeeds, with the checksum
/// of the signers' public keys.
pub proof fn law_carried_packages_verify(n: nat, packages: Seq<Package>)
    requires
        carried_by_first(n, packages),
    ensures
        verification(packages) == Ok::<u8, Rejection>(signer_checksum(n)),
{
    let views = carried_views(packages);
    assert forall|i: int| 0 <= i < n implies published_by(i as nat, #[trigger] views[i]) by {
        assert(carried_by(i as nat, packages[i]));
    }
    law_published_packages_verify(true, n, views);
    assert(carried_faults(packages) =~= package_faults(true, views));
}

proof fn lemma_carried_words(n: nat, packages: Seq<Package>)
    requires
        carried_by_first(n, packages),
    ensures
        packages_words(packages).len() == 144 * n,
    decreases n,
{
    if n > 0 {
        let m = (n - 1) as nat;
        let init = packages.drop_last();
        assert forall|i: int| 0 <= i < m implies carried_by(i as nat, #[trigger] init[i]) by {
            assert(carried_by(i as nat, packages[i]));
        }
        lemma_carried_words(m, init);
        assert(carried_by(m, packages[m as int]));
        assert(package_words(packages.last()).len() == 144);
    }
}

/// The instruction grows by the same number of words with every signer, which
/// is what makes the framework's own handling of it linear in the signer count.
pub proof fn law_instruction_is_linear(n: nat, packages: Seq<Package>)
    requires
        carried_by_first(n, packages),
    ensures
        instruction_words(packages).len() == 1 + 144 * n,
{
    lemma_carried_words(n, packages);
}

/// Verification succeeds exactly when every package has a signature, a recovery
/// id of two bits, and a key that is recovered from them and the hash of its
/// whole message. A single failed recovery refuses all.
pub proof fn law_success_means_every_recovery(packages: Seq<Package>)
    ensures
        verification(packages) is Ok <==> forall|i: int|
            0 <= i < packages.len() ==> {
                &&& well_formed_signature((#[trigger] packages[i]).1@)
                &&& packages[i].2 <= 3
                &&& recovered_key(
                    keccak256_digest(packages[i].0@),
                    packages[i].1@,
                    packages[i].2,
                ) is Some
            },
{
    let faults = carried_faults(packages);
    let keys = package_keys(true, carried_views(packages));
    law_first_error(faults);
    law_full_count(keys);
    assert forall|i: int| 0 <= i < packages.len() implies #[trigger] keys[i] == recovered_key(
        keccak256_digest(packages[i].0@),
        packages[i].1@,
        packages[i].2,
    ) by {
        assert(carried_views(packages)[i] == carried_view(packages[i]));
    }
    if verification(packages) is Ok {
        assert forall|i: int| 0 <= i < packages.len() implies {
            &&& well_formed_signature((#[trigger] packages[i]).1@)
            &&& packages[i].2 <= 3
            &&& recovered_key(
                keccak256_digest(packages[i].0@),
                packages[i].1@,
                packages[i].2,
            ) is Some
        } by {
            assert(faults[i] is None);
            assert(keys[i] is Some);
        }
    } else if forall|i: int|
        0 <= i < packages.len() ==> {
            &&& well_formed_signature((#[trigger] packages[i]).1@)
            &&& packages[i].2 <= 3
            &&& recovered_key(
                keccak256_digest(packages[i].0@),
                packages[i].1@,
                packages[i].2,
            ) is Some
        } {
        assert forall|i: int| 0 <= i < faults.len() implies (#[trigger] faults[i]) is None by {
            assert(well_formed_signature(packages[i].1@));
        }
        assert forall|i: int| 0 <= i < keys.len() implies (#[trigger] keys[i]) is Some by {
            assert(well_formed_signature(packages[i].1@));
        }
    }
}

/// What a verification comes to follows package by package: nothing to verify
/// gives zero, and one more package from which a key is recovered folds in that
/// key's second byte.
pub proof fn law_one_more_verified_package(packages: Seq<Package>, package: Package)
    ensures
        verification(Seq::empty()) == Ok::<u8, Rejection>(0u8),
        verification(packages) matches Ok(checksum) ==> (recovered_key(
            keccak256_digest(package.0@),
            package.1@,
            package.2,
        ) matches Some(key) ==> (well_formed_signature(package.1@) && package.2 <= 3
            ==> verification(packages.push(package)) == Ok::<u8, Rejection>(checksum ^ key[1]))),
        verification(packages) is Err ==> verification(packages.push(package)) is Err,
{
    law_success_means_every_recovery(packages);
    law_success_means_every_recovery(packages.push(package));
    law_success_means_every_recovery(Seq::empty());
    let before = package_keys(true, carried_views(packages));
    let after = package_keys(true, carried_views(packages.push(package)));
    let key = recovered_key(keccak256_digest(package.0@), package.1@, package.2);
    assert(after =~= before.push(key));
    assert(package_keys(true, carried_views(Seq::empty())) =~= Seq::empty());
    law_tally(before, Seq::empty());
    if let Some(bytes) = key {
        law_tally(before, bytes);
        if verification(packages) is Ok && well_formed_signature(package.1@) && package.2 <= 3 {
            assert forall|i: int| 0 <= i < packages.push(package).len() implies {
                &&& well_formed_signature((#[trigger] packages.push(package)[i]).1@)
                &&& packages.push(package)[i].2 <= 3
                &&& recovered_key(
                    keccak256_digest(packages.push(package)[i].0@),
                    packages.push(package)[i].1@,
                    packages.push(package)[i].2,
                ) is Some
            } by {
                if i < packages.len() {
                    assert(packages.push(package)[i] == packages[i]);
                }
            }
        }
    }
    if verification(packages.push(package)) is Ok {
        assert forall|i: int| 0 <= i < packages.len() implies {
            &&& well_formed_signature((#[trigger] packages[i]).1@)
            &&& packages[i].2 <= 3
            &&& recovered_key(
                keccak256_digest(packages[i].0@),
                packages[i].1@,
                packages[i].2,
            ) is Some
        } by {
            assert(packages.push(package)[i] == packages[i]);
        }
    }
}

/// Sound packages of which some recovery fails are refused for that, with the
/// number of packages and the number of keys that were recovered.
pub proof fn law_a_failed_recovery_is_refused(packages: Seq<Package>, failed: int)
    requires
        packages.len() <= u32::MAX,
        forall|i: int|
            0 <= i < packages.len() ==> well_formed_signature((#[trigger] packages[i]).1@)
                && packages[i].2 <= 3,
        0 <= failed < packages.len(),
        recovered_key(
            keccak256_digest(packages[failed].0@),
            packages[failed].1@,
            packages[failed].2,
        ) is None,
    ensures
        verification(packages) matches Err(Rejection::FailedRecovery { recovered, expected }) && {
            &&& expected == packages.len()
            &&& recovered < expected
            &&& recovered == recovered_count(package_keys(true, carried_views(packages)))
        },
        package_keys(true, carried_views(packages)).len() == packages.len(),
        forall|i: int|
            0 <= i < packages.len() ==> #[trigger] package_keys(true, carried_views(packages))[i]
                == recovered_key(
                keccak256_digest(packages[i].0@),
                packages[i].1@,
                packages[i].2,
            ),
{
    let faults = carried_faults(packages);
    let keys = package_keys(true, carried_views(packages));
    assert forall|i: int| 0 <= i < packages.len() implies #[trigger] keys[i] == recovered_key(
        keccak256_digest(packages[i].0@),
        packages[i].1@,
        packages[i].2,
    ) by {
        assert(carried_views(packages)[i] == carried_view(packages[i]));
    }
    assert forall|i: int| 0 <= i < faults.len() implies (#[trigger] faults[i]) is None by {
        assert(well_formed_signature(packages[i].1@));
    }
    law_first_error(faults);
    law_full_count(keys);
    assert(keys[failed] is None);
}

/// The first package that is not sound decides the fault, whatever follows it
/// and whatever the recoveries before it came to.
pub proof fn law_first_unsound_carried_package_decides(packages: Seq<Package>, i: int)
    requires
        0 <= i < packages.len(),
        forall|k: int|
            0 <= k < i ==> well_formed_signature((#[trigger] packages[k]).1@) && packages[k].2
                <= 3,
    ensures
        !well_formed_signature(packages[i].1@) ==> verification(packages) == Err::<u8, Rejection>(
            Rejection::Fault(Fault::MalformedSignature),
        ),
        well_formed_signature(packages[i].1@) && packages[i].2 > 3 ==> verification(packages)
            == Err::<u8, Rejection>(Rejection::Fault(Fault::BadRecoveryId)),
{
    let faults = carried_faults(packages);
    assert forall|k: int| 0 <= k < i implies (#[trigger] faults[k]) is None by {
        assert(well_formed_signature(packages[k].1@));
    }
    assert(faults[i] == signature_fault(packages[i].1@, packages[i].2));
    if faults[i] is Some {
        lemma_first_error_at(faults, i);
    }
}

/// The plumbing looks at every package: nothing to read gives zero, and one more
/// package folds in both its lengths and its recovery id.
pub proof fn law_one_more_package_read(packages: Seq<Package>, package: Package)
    ensures
        plumbing_checksum(Seq::empty()) == 0,
        plumbing_checksum(packages.push(package)) == plumbing_checksum(packages) ^ ((
        package.0@.len() % 256) as u8 ^ (package.1@.len() % 256) as u8 ^ package.2),
{
    let byte = |p: Package| plumbing_byte(p);
    assert(packages.push(package).map_values(byte) =~= packages.map_values(byte).push(
        plumbing_byte(package),
    ));
    assert(Seq::<Package>::empty().map_values(byte) =~= Seq::empty());
    law_xor_bytes(packages.map_values(byte), plumbing_byte(package));
}

/// What the three programs leave in their account, given what they found in it:
/// the empty one what was there, the plumbing one byte more, and the verifying
/// one likewise if it verifies. With any other number of accounts all refuse,
/// and a refused verification is refused before the accounts are looked at.
pub proof fn law_accounts_after(
    packages: Seq<Package>,
    accounts: Seq<Vec<u8>>,
    noop: Result<Vec<u8>, Rejection>,
    plumbed: Result<Vec<u8>, Rejection>,
    verified: Result<Vec<u8>, Rejection>,
)
    requires
        outcome_view(noop) == noop_outcome(account_views(accounts)),
        outcome_view(plumbed) == checksum_outcome(
            account_views(accounts),
            plumbing_checksum(packages),
        ),
        outcome_view(verified) == verify_outcome(packages, account_views(accounts)),
    ensures
        accounts.len() == 1 ==> {
            &&& noop matches Ok(data) && data@ == accounts[0]@
            &&& plumbed matches Ok(data) && data@ == accounts[0]@.push(
                plumbing_checksum(packages),
            )
        },
        accounts.len() != 1 ==> {
            &&& noop == Err::<Vec<u8>, Rejection>(Rejection::AccountCount)
            &&& plumbed == Err::<Vec<u8>, Rejection>(Rejection::AccountCount)
        },
        match verification(packages) {
            Ok(checksum) => if accounts.len() == 1 {
                verified matches Ok(data) && data@ == accounts[0]@.push(checksum)
            } else {
                verified == Err::<Vec<u8>, Rejection>(Rejection::AccountCount)
            },
            Err(rejection) => verified == Err::<Vec<u8>, Rejection>(rejection),
        },
{
}

/// What each rejection is called.
pub proof fn law_rejection_texts(fault: Fault, recovered: u32, expected: usize)
    ensures
        Rejection::Fault(fault).text() == fault.text(),
        (Rejection::FailedRecovery { recovered, expected }).text()
            == "every recovery must succeed, or the measurement is of the cheap error path"@,
        Rejection::AccountCount.text() == "expected exactly one input account"@,
{
}

} // verus!
