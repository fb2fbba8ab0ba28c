//! The one random draw the library itself makes: the split-axis choice.

use vstd::prelude::*;

verus! {

/// Relies on rand::Rng::gen_range over the closed range `from..=to`: the
/// sample lies in that range; which value comes back is up to the thread's
/// generator, so nothing more is promised.
#[verifier::external_body]
pub fn rand_int(from: usize, to: usize) -> (r: usize)
    requires
        from <= to,
    ensures
        from <= r <= to,
{
    rand::Rng::gen_range(&mut rand::thread_rng(), from..=to)
}

} // verus!
