//! The first error of a list in which every entry may have one.

use vstd::prelude::*;

verus! {

/// The first error of a list in which every entry may have one.
pub open spec fn first_error<E>(errors: Seq<Option<E>>) -> Option<E>
    decreases errors.len(),
{
    if errors.len() == 0 {
        None
    } else {
        match errors[0] {
            Some(error) => Some(error),
            None => first_error(errors.skip(1)),
        }
    }
}

/// Passing over an entry without an error leaves the first error to the rest.
pub(crate) proof fn lemma_first_error_skip<E>(errors: Seq<Option<E>>, i: int)
    requires
        0 <= i < errors.len(),
    ensures
        first_error(errors.skip(i)) == match errors[i] {
            Some(error) => Some(error),
            None => first_error(errors.skip(i + 1)),
        },
{
    assert(errors.skip(i).skip(1) =~= errors.skip(i + 1));
}

/// A list has no first error exactly when no entry has one; otherwise the first
/// error is that of an entry which has none before it.
pub proof fn law_first_error<E>(errors: Seq<Option<E>>)
    ensures
        first_error(errors) is None <==> forall|i: int|
            0 <= i < errors.len() ==> (#[trigger] errors[i]) is None,
        first_error(errors) is Some ==> exists|i: int|
            {
                &&& 0 <= i < errors.len()
                &&& #[trigger] errors[i] == first_error(errors)
                &&& forall|k: int| 0 <= k < i ==> (#[trigger] errors[k]) is None
            },
    decreases errors.len(),
{
    if errors.len() > 0 && errors[0] is None {
        let rest = errors.skip(1);
        law_first_error(rest);
        if first_error(rest) is None {
            assert forall|i: int| 0 <= i < errors.len() implies (#[trigger] errors[i]) is None by {
                if i > 0 {
                    assert(rest[i - 1] is None);
                }
            }
        } else {
            let j = choose|j: int|
                {
                    &&& 0 <= j < rest.len()
                    &&& #[trigger] rest[j] == first_error(rest)
                    &&& forall|k: int| 0 <= k < j ==> (#[trigger] rest[k]) is None
                };
            assert(errors[j + 1] == first_error(errors));
            assert forall|k: int| 0 <= k < j + 1 implies (#[trigger] errors[k]) is None by {
                if k > 0 {
                    assert(rest[k - 1] is None);
                }
            }
        }
    }
}

/// An entry with an error and none before it has the first error.
pub(crate) proof fn lemma_first_error_at<E>(errors: Seq<Option<E>>, i: int)
    requires
        0 <= i < errors.len(),
        errors[i] is Some,
        forall|k: int| 0 <= k < i ==> (#[trigger] errors[k]) is None,
    ensures
        first_error(errors) == errors[i],
{
    law_first_error(errors);
    let j = choose|j: int|
        {
            &&& 0 <= j < errors.len()
            &&& #[trigger] errors[j] == first_error(errors)
            &&& forall|k: int| 0 <= k < j ==> (#[trigger] errors[k]) is None
        };
    assert(!(forall|k: int| 0 <= k < errors.len() ==> (#[trigger] errors[k]) is None));
    assert(i == j);
}

} // verus!
