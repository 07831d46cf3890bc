//! Small helpers.

use rand::Rng;
use vstd::pervasive::cloned;
use vstd::prelude::*;

verus! {

/// Exchanges the values behind `these` with the values behind `with_these`,
/// place by place: afterwards each place of `these` holds a clone of what the
/// same place of `with_these` held, and the other way round. Places of
/// `with_these` beyond the length of `these` stay as they are.
pub fn swap<T: Clone>(these: &mut [&mut T], with_these: &mut [&mut T])
    requires
        old(these)@.len() <= old(with_these)@.len(),
    ensures
        final(these)@.len() == old(these)@.len(),
        final(with_these)@.len() == old(with_these)@.len(),
        forall|i: int|
            0 <= i < old(these)@.len() ==> cloned(
                *old(with_these)@[i],
                *#[trigger] final(these)@[i],
            ),
        forall|i: int|
            0 <= i < old(these)@.len() ==> cloned(
                *old(these)@[i],
                *#[trigger] final(with_these)@[i],
            ),
        forall|i: int|
            old(these)@.len() <= i < old(with_these)@.len() ==> *#[trigger] final(with_these)@[i]
                == *old(with_these)@[i],
{
    let n = these.len();
    let mut i: usize = 0;
    while i < n
        invariant
            i <= n,
            n == these@.len(),
            n == old(these)@.len(),
            with_these@.len() == old(with_these)@.len(),
            n <= with_these@.len(),
            forall|k: int| 0 <= k < i ==> cloned(*old(with_these)@[k], *#[trigger] these@[k]),
            forall|k: int| 0 <= k < i ==> cloned(*old(these)@[k], *#[trigger] with_these@[k]),
            forall|k: int| i <= k < n ==> *#[trigger] these@[k] == *old(these)@[k],
            forall|k: int|
                i <= k < with_these@.len() ==> *#[trigger] with_these@[k] == *old(with_these)@[k],
        decreases n - i,
    {
        let temp = these[i].clone();
        *these[i] = with_these[i].clone();
        *with_these[i] = temp;
        i += 1;
    }
}

/// `rand::Rng::gen` on the generator that `rand::thread_rng` hands out: a
/// byte that the operating system's randomness decides. Nothing is known of
/// it, and two calls may differ.
#[verifier::external_body]
pub(crate) fn random_color() -> u8 {
    rand::thread_rng().gen()
}

} // verus!
