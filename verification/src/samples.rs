//! Repeated timings of the same work, in nanoseconds.
//!
//! Contention only ever adds time, so the fastest sample is the cleanest
//! estimate of the underlying cost, and the slowest one shows how far noise
//! reached.

use vstd::prelude::*;

verus! {

/// Whether `sample` is among `samples` and none is smaller.
pub open spec fn is_fastest(samples: Seq<u128>, sample: u128) -> bool {
    samples.contains(sample) && forall|i: int| 0 <= i < samples.len() ==> sample <= samples[i]
}

/// Whether `sample` is among `samples` and none is larger.
pub open spec fn is_slowest(samples: Seq<u128>, sample: u128) -> bool {
    samples.contains(sample) && forall|i: int| 0 <= i < samples.len() ==> samples[i] <= sample
}

/// The fastest sample, if there is any.
pub fn fastest(samples: &[u128]) -> (found: Option<u128>)
    ensures
        found is Some <==> samples@.len() > 0,
        found matches Some(sample) ==> is_fastest(samples@, sample),
{
    if samples.len() == 0 {
        return None;
    }
    let mut best: u128 = samples[0];
    let mut i: usize = 1;
    while i < samples.len()
        invariant
            1 <= i <= samples@.len(),
            samples@.contains(best),
            forall|k: int| 0 <= k < i ==> best <= samples@[k],
        decreases samples@.len() - i,
    {
        if samples[i] < best {
            best = samples[i];
        }
        i = i + 1;
    }
    Some(best)
}

/// The fastest and the slowest sample, if there is more than one to compare.
pub fn spread(samples: &[u128]) -> (found: Option<(u128, u128)>)
    ensures
        found is Some <==> samples@.len() > 1,
        found matches Some((low, high)) ==> {
            &&& is_fastest(samples@, low)
            &&& is_slowest(samples@, high)
        },
{
    if samples.len() <= 1 {
        return None;
    }
    let low: u128 = match fastest(samples) {
        Some(low) => low,
        None => {
            return None;
        },
    };
    let mut high: u128 = samples[0];
    let mut i: usize = 1;
    while i < samples.len()
        invariant
            1 <= i <= samples@.len(),
            samples@.contains(high),
            forall|k: int| 0 <= k < i ==> samples@[k] <= high,
        decreases samples@.len() - i,
    {
        if high < samples[i] {
            high = samples[i];
        }
        i = i + 1;
    }
    Some((low, high))
}

/// There is one fastest and one slowest sample, both were taken, and every sample
/// lies between them.
pub proof fn law_samples_lie_between(samples: Seq<u128>, low: u128, high: u128, other: u128)
    requires
        is_fastest(samples, low),
        is_slowest(samples, high),
    ensures
        exists|i: int| 0 <= i < samples.len() && samples[i] == low,
        exists|i: int| 0 <= i < samples.len() && samples[i] == high,
        forall|i: int| 0 <= i < samples.len() ==> low <= #[trigger] samples[i] <= high,
        is_fastest(samples, other) ==> other == low,
        is_slowest(samples, other) ==> other == high,
{
}

} // verus!
