//! What crosses the boundary between host and guest.
//!
//! The zkVM's own serializer writes everything as 32-bit words: a byte takes a
//! word of its own, a list is its length and then its elements, and a tuple is
//! its fields one after the other. Three things are read or written here: the
//! journal a guest commits, the instruction a program is given, and the id a
//! program has by its image.

use crate::decimal::decimal;
use vstd::prelude::*;

verus! {

/// The word that four bytes denote, least significant byte first.
pub open spec fn le_word(bytes: Seq<u8>) -> u32 {
    (bytes[0] + 0x100 * bytes[1] + 0x1_0000 * bytes[2] + 0x100_0000 * bytes[3]) as u32
}

/// The four bytes of a word, least significant byte first.
pub open spec fn le_bytes(word: u32) -> Seq<u8> {
    seq![
        (word % 0x100) as u8,
        (word / 0x100 % 0x100) as u8,
        (word / 0x1_0000 % 0x100) as u8,
        (word / 0x100_0000) as u8,
    ]
}

/// The words of a byte string.
pub open spec fn words_of(bytes: Seq<u8>) -> Seq<u32> {
    Seq::new(bytes.len() / 4, |i: int| le_word(bytes.subrange(4 * i, 4 * i + 4)))
}

/// The journal of a guest that commits a count and a checksum.
pub open spec fn tally_journal(tally: (u32, u8)) -> Seq<u8> {
    le_bytes(tally.0) + le_bytes(tally.1 as u32)
}

/// The count and checksum that a journal's words begin with, if they do: one
/// word each, and the checksum's fits a byte. Later words are not looked at.
pub open spec fn tally_of(words: Seq<u32>) -> Option<(u32, u8)> {
    if words.len() >= 2 && words[1] <= 0xff {
        Some((words[0], words[1] as u8))
    } else {
        None
    }
}

/// What the serializer says of a journal whose words do not begin with a count
/// and a checksum: that it ended too soon, or that the checksum is no byte.
pub open spec fn journal_error(words: Seq<u32>) -> Seq<char> {
    if words.len() < 2 {
        "Unexpected end during deserialization"@
    } else {
        "invalid value: integer `"@ + decimal(words[1] as nat) + "`, expected u8"@
    }
}

/// The words of a byte list.
pub open spec fn byte_list_words(bytes: Seq<u8>) -> Seq<u32> {
    seq![bytes.len() as u32] + bytes.map_values(|byte: u8| byte as u32)
}

/// `(signed_bytes, signature, recovery_id)` per signer.
pub type Package = (Vec<u8>, Vec<u8>, u8);

/// The words of one package.
pub open spec fn package_words(package: Package) -> Seq<u32> {
    byte_list_words(package.0@) + byte_list_words(package.1@) + seq![package.2 as u32]
}

/// The words of the packages one after the other.
pub open spec fn packages_words(packages: Seq<Package>) -> Seq<u32>
    decreases packages.len(),
{
    if packages.len() == 0 {
        Seq::empty()
    } else {
        packages_words(packages.drop_last()) + package_words(packages.last())
    }
}

/// The words of an instruction that carries `packages`.
pub open spec fn instruction_words(packages: Seq<Package>) -> Seq<u32> {
    seq![packages.len() as u32] + packages_words(packages)
}

/// Whether every length in an instruction fits the word it is written in.
pub open spec fn lengths_fit(packages: Seq<Package>) -> bool {
    &&& packages.len() <= u32::MAX
    &&& forall|i: int|
        0 <= i < packages.len() ==> {
            &&& (#[trigger] packages[i]).0@.len() <= u32::MAX
            &&& packages[i].1@.len() <= u32::MAX
        }
}

/// What `risc0_zkvm::compute_image_id` gives for a binary: the image id of a
/// program, or the words in which it complains of anything else.
pub uninterp spec fn image_id(binary: Seq<u8>) -> Result<Seq<u32>, Seq<char>>;

/// The error of the zkVM's serializer.
#[verifier::external_type_specification]
#[verifier::external_body]
pub struct ExSerdeError(risc0_zkvm::serde::Error);

/// The error of the zkVM's loader.
#[verifier::external_type_specification]
#[verifier::external_body]
pub struct ExLoaderError(anyhow::Error);

/// `risc0_zkvm::serde::from_slice` for a `(u32, u8)`, with the error in the words
/// it has for itself.
///
/// Claims that it reads the first two words, that it succeeds exactly when
/// there are two and the second fits a byte, that it ignores what follows, and
/// that its error reads as [`journal_error`] says.
#[verifier::external_body]
fn read_tally(words: &[u32]) -> (read: Result<(u32, u8), String>)
    ensures
        read is Ok <==> tally_of(words@) is Some,
        read matches Ok(tally) ==> tally_of(words@) == Some(tally),
        read matches Err(text) ==> text@ == journal_error(words@),
{
    let read: Result<(u32, u8), risc0_zkvm::serde::Error> = risc0_zkvm::serde::from_slice(words);
    match read {
        Ok(tally) => Ok(tally),
        Err(error) => Err(error.to_string()),
    }
}

/// `risc0_zkvm::serde::to_vec` for a list of packages.
///
/// Claims that it succeeds and writes exactly [`instruction_words`]. A length
/// above `u32::MAX` makes it panic, hence the requirement.
#[verifier::external_body]
fn write_packages(packages: &[Package]) -> (written: Result<Vec<u32>, risc0_zkvm::serde::Error>)
    requires
        lengths_fit(packages@),
    ensures
        written is Ok,
        written matches Ok(words) ==> words@ == instruction_words(packages@),
{
    risc0_zkvm::serde::to_vec(packages)
}

/// `risc0_zkvm::compute_image_id`, with the error and, in front of it, the words
/// it has for itself and its causes.
///
/// Claims that the outcome is a function of the binary, which [`image_id`]
/// names: the id, or those words. Of the error itself nothing is claimed, since
/// it has no form outside its crate. The loader walks file offsets in 32-bit
/// arithmetic, which cannot overflow while the binary itself is shorter than
/// that.
#[verifier::external_body]
fn load_image_id(binary: &[u8]) -> (loaded: Result<[u32; 8], (String, anyhow::Error)>)
    requires
        binary@.len() <= u32::MAX,
    ensures
        loaded is Ok <==> image_id(binary@) is Ok,
        loaded matches Ok(id) ==> id@ == image_id(binary@)->Ok_0,
        loaded matches Err(error) ==> error.0@ == image_id(binary@)->Err_0,
{
    match risc0_zkvm::compute_image_id(binary) {
        Ok(digest) => Ok(digest.into()),
        Err(error) => Err((format!("{error:#}"), error)),
    }
}

/// The words of a byte string.
pub fn to_words(bytes: &[u8]) -> (words: Vec<u32>)
    requires
        bytes@.len() % 4 == 0,
    ensures
        words@ == words_of(bytes@),
{
    let mut words: Vec<u32> = Vec::new();
    let mut at: usize = 0;
    while at < bytes.len()
        invariant
            at <= bytes@.len(),
            at % 4 == 0,
            bytes@.len() % 4 == 0,
            words@.len() == at / 4,
            forall|i: int| 0 <= i < words@.len() ==> words@[i] == words_of(bytes@)[i],
        decreases bytes@.len() - at,
    {
        let word: u32 = bytes[at] as u32 + 0x100 * (bytes[at + 1] as u32) + 0x1_0000 * (bytes[at
            + 2] as u32) + 0x100_0000 * (bytes[at + 3] as u32);
        proof {
            let chunk = bytes@.subrange(at as int, at + 4);
            assert(chunk[0] == bytes@[at as int] && chunk[1] == bytes@[at + 1] && chunk[2]
                == bytes@[at + 2] && chunk[3] == bytes@[at + 3]);
            assert(4 * (at as int / 4) == at);
        }
        words.push(word);
        at = at + 4;
    }
    proof {
        assert(words@ =~= words_of(bytes@));
    }
    words
}

/// A journal that does not begin with a count and a checksum.
#[derive(Clone, Debug, PartialEq, Eq)]
pub struct BadJournal {
    /// What the serializer says of it.
    pub text: String,
}

/// Decodes the count and checksum a guest committed.
pub fn decode_journal(journal: &[u8]) -> (decoded: Result<(u32, u8), BadJournal>)
    requires
        journal@.len() % 4 == 0,
    ensures
        decoded is Ok <==> tally_of(words_of(journal@)) is Some,
        decoded matches Ok(tally) ==> tally_of(words_of(journal@)) == Some(tally),
        decoded matches Err(error) ==> error.text@ == journal_error(words_of(journal@)),
{
    let words = to_words(journal);
    match read_tally(words.as_slice()) {
        Ok(tally) => Ok(tally),
        Err(text) => Err(BadJournal { text }),
    }
}

/// Encodes the instruction that carries `packages`.
pub fn encode_instruction(packages: &[Package]) -> (words: Vec<u32>)
    requires
        lengths_fit(packages@),
    ensures
        words@ == instruction_words(packages@),
{
    write_packages(packages).unwrap()
}

/// A binary that the zkVM cannot load.
#[derive(Debug)]
pub struct BadBinary {
    /// What the loader says of it, cause by cause.
    pub text: String,
    /// The loader's error itself.
    pub cause: anyhow::Error,
}

/// The id a program has by its image. The loader's error is handed on as it is.
pub fn program_id(binary: &[u8]) -> (id: Result<[u32; 8], BadBinary>)
    requires
        binary@.len() <= u32::MAX,
    ensures
        id is Ok <==> image_id(binary@) is Ok,
        id matches Ok(words) ==> words@ == image_id(binary@)->Ok_0,
        id matches Err(error) ==> error.text@ == image_id(binary@)->Err_0,
{
    match load_image_id(binary) {
        Ok(id) => Ok(id),
        Err((text, cause)) => Err(BadBinary { text, cause }),
    }
}

/// The journal of a tally decodes to that tally, whatever the guest commits
/// after it.
pub proof fn law_journal_round_trip(tally: (u32, u8), rest: Seq<u8>)
    ensures
        tally_of(words_of(tally_journal(tally) + rest)) == Some(tally),
{
    let journal = tally_journal(tally) + rest;
    let first = journal.subrange(0, 4);
    let second = journal.subrange(4, 8);
    assert(first =~= le_bytes(tally.0));
    assert(second =~= le_bytes(tally.1 as u32));
    assert(words_of(journal)[0] == le_word(first));
    assert(words_of(journal)[1] == le_word(second));
}

/// Four bytes and a word determine each other, least significant byte first.
pub proof fn law_word_bytes(word: u32, a: u8, b: u8, c: u8, d: u8)
    ensures
        le_word(seq![a, b, c, d]) == a + 256 * b + 65536 * c + 16777216 * d,
        le_bytes(word).len() == 4,
        le_word(le_bytes(word)) == word,
{
}

/// The words of a byte string are read four bytes at a time, from the front to
/// the end: a string in whole words comes first with all its words.
pub proof fn law_words_concatenate(front: Seq<u8>, rest: Seq<u8>, word: u32)
    requires
        front.len() % 4 == 0,
    ensures
        words_of(Seq::empty()) == Seq::<u32>::empty(),
        words_of(le_bytes(word)) == seq![word],
        words_of(front + rest) == words_of(front) + words_of(rest),
{
    let both = front + rest;
    let n = (front.len() / 4) as int;
    assert(words_of(Seq::empty()) =~= Seq::<u32>::empty());
    assert(le_bytes(word).subrange(0, 4) =~= le_bytes(word));
    law_word_bytes(word, 0, 0, 0, 0);
    assert(words_of(le_bytes(word)) =~= seq![word]);
    assert forall|i: int| 0 <= i < words_of(both).len() implies #[trigger] words_of(both)[i] == (
    words_of(front) + words_of(rest))[i] by {
        if i < n {
            assert(both.subrange(4 * i, 4 * i + 4) =~= front.subrange(4 * i, 4 * i + 4));
        } else {
            assert(both.subrange(4 * i, 4 * i + 4) =~= rest.subrange(
                4 * (i - n),
                4 * (i - n) + 4,
            ));
        }
    }
    assert(words_of(both) =~= words_of(front) + words_of(rest));
}

/// What a journal decodes to, byte by byte: the first four bytes are the count,
/// the next is the checksum, and the three after that have to be zero. A journal
/// that is shorter, or in which they are not zero, does not decode.
pub proof fn law_journal_bytes(journal: Seq<u8>)
    requires
        journal.len() % 4 == 0,
    ensures
        tally_of(words_of(journal)) is Some <==> journal.len() >= 8 && journal[5] == 0
            && journal[6] == 0 && journal[7] == 0,
        tally_of(words_of(journal)) matches Some(tally) ==> {
            &&& tally.0 == journal[0] + 256 * journal[1] + 65536 * journal[2] + 16777216
                * journal[3]
            &&& tally.1 == journal[4]
        },
{
    let words = words_of(journal);
    if journal.len() >= 8 {
        let first = journal.subrange(0, 4);
        let second = journal.subrange(4, 8);
        assert(words[0] == le_word(first));
        assert(words[1] == le_word(second));
        assert(second[0] == journal[4] && second[1] == journal[5] && second[2] == journal[6]
            && second[3] == journal[7]);
    }
}

/// What is said of a journal that does not decode.
pub proof fn law_journal_error_texts(words: Seq<u32>)
    ensures
        words.len() < 2 ==> journal_error(words) == "Unexpected end during deserialization"@,
        words.len() >= 2 ==> journal_error(words) == "invalid value: integer `"@ + decimal(
            words[1] as nat,
        ) + "`, expected u8"@,
{
}

/// An instruction says first how many packages it carries. One more package adds
/// its message, its signature and its recovery id at the end, each list behind
/// its length and each byte in a word of its own.
pub proof fn law_one_more_package_written(packages: Seq<Package>, package: Package)
    ensures
        instruction_words(Seq::empty()) == seq![0u32],
        instruction_words(packages.push(package)) == seq![(packages.len() + 1) as u32]
            + instruction_words(packages).skip(1) + seq![package.0@.len() as u32]
            + package.0@.map_values(|byte: u8| byte as u32) + seq![package.1@.len() as u32]
            + package.1@.map_values(|byte: u8| byte as u32) + seq![package.2 as u32],
{
    assert(packages.push(package).drop_last() =~= packages);
    assert(instruction_words(packages).skip(1) =~= packages_words(packages));
    assert(instruction_words(Seq::empty()) =~= seq![0u32]);
    assert(instruction_words(packages.push(package)) =~= seq![(packages.len() + 1) as u32]
        + instruction_words(packages).skip(1) + seq![package.0@.len() as u32]
        + package.0@.map_values(|byte: u8| byte as u32) + seq![package.1@.len() as u32]
        + package.1@.map_values(|byte: u8| byte as u32) + seq![package.2 as u32]);
}

/// An instruction can be written exactly when the number of its packages, and
/// the length of every message and signature, fits 32 bits.
pub proof fn law_what_can_be_written(packages: Seq<Package>)
    ensures
        lengths_fit(packages) <==> packages.len() <= 0xffff_ffff && forall|i: int|
            0 <= i < packages.len() ==> (#[trigger] packages[i]).0@.len() <= 0xffff_ffff
                && packages[i].1@.len() <= 0xffff_ffff,
{
}

} // verus!
