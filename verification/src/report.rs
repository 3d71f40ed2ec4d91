//! The differences a report quotes.

use crate::baseline::Run;
use crate::delta::Delta;
use vstd::prelude::*;

verus! {

/// A 64-bit number read as a two's-complement one.
pub open spec fn as_signed(n: u64) -> int {
    if n < 0x8000_0000_0000_0000 {
        n as int
    } else {
        n - 0x1_0000_0000_0000_0000
    }
}

/// The size of a run's proof, nothing if it was not proved.
pub open spec fn proof_size(run: Run) -> u64 {
    match run.proof_bytes {
        Some(bytes) => bytes as u64,
        None => 0,
    }
}

fn signed_difference(n: u64, m: u64) -> (difference: i64)
    requires
        i64::MIN <= as_signed(n) - as_signed(m) <= i64::MAX,
    ensures
        difference == as_signed(n) - as_signed(m),
{
    proof {
        assert(n < 0x8000_0000_0000_0000 ==> n as i64 == n) by (bit_vector);
        assert(n >= 0x8000_0000_0000_0000 ==> n as i64 == n - 0x1_0000_0000_0000_0000)
            by (bit_vector);
        assert(m < 0x8000_0000_0000_0000 ==> m as i64 == m) by (bit_vector);
        assert(m >= 0x8000_0000_0000_0000 ==> m as i64 == m - 0x1_0000_0000_0000_0000)
            by (bit_vector);
    }
    n as i64 - m as i64
}

/// What hashing adds to an update: the cycles of a run with hashing less those
/// of the same run without.
pub fn cycle_delta(with: &Run, without: &Run) -> (cycles: i64)
    requires
        i64::MIN <= as_signed(with.cycles) - as_signed(without.cycles) <= i64::MAX,
    ensures
        cycles == as_signed(with.cycles) - as_signed(without.cycles),
{
    signed_difference(with.cycles, without.cycles)
}

/// What hashing adds to an update's proof, in bytes. A run that was not proved
/// counts as an empty proof.
pub fn proof_bytes_delta(with: &Run, without: &Run) -> (bytes: i64)
    requires
        i64::MIN <= as_signed(proof_size(*with)) - as_signed(proof_size(*without)) <= i64::MAX,
    ensures
        bytes == as_signed(proof_size(*with)) - as_signed(proof_size(*without)),
{
    signed_difference(
        with.proof_bytes.unwrap_or(0) as u64,
        without.proof_bytes.unwrap_or(0) as u64,
    )
}

/// The work of the hashes themselves: the hashing loop's work less that of its
/// own bookkeeping, over all iterations.
pub fn net_work(hash: &Delta, bookkeeping: &Delta) -> (cycles: i128)
    ensures
        cycles == hash.work - bookkeeping.work,
{
    hash.work as i128 - bookkeeping.work as i128
}

/// Cycle counts below 2^63 subtract without surprises: the difference is the
/// plain one, and adding it back to the run without hashing gives the run with.
pub proof fn law_plain_difference(with: u64, without: u64)
    requires
        with <= i64::MAX,
        without <= i64::MAX,
    ensures
        as_signed(with) - as_signed(without) == with - without,
        i64::MIN <= as_signed(with) - as_signed(without) <= i64::MAX,
{
}

/// A 64-bit number and its signed reading agree but for a multiple of 2^64, and
/// the signed reading is the one that fits 64 signed bits.
pub proof fn law_signed_reading(n: u64)
    ensures
        i64::MIN <= as_signed(n) <= i64::MAX,
        as_signed(n) == n || as_signed(n) == n - 0x1_0000_0000_0000_0000,
{
}

/// The size that is compared is that of the proof there is.
pub proof fn law_proof_size(run: Run)
    ensures
        run.proof_bytes matches Some(bytes) ==> proof_size(run) == bytes,
        run.proof_bytes is None ==> proof_size(run) == 0,
{
}

} // verus!
