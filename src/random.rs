//! The random source of the generator: rand's standard generator, of which
//! only uniform choice among positions is used.
use vstd::prelude::*;
use rand::rngs::StdRng;
use rand::seq::IteratorRandom;

verus! {

/// rand's seedable standard generator, carried through the generator as is.
#[verifier::external_type_specification]
#[verifier::external_body]
pub struct ExStdRng(StdRng);

/// Relies on rand's `IteratorRandom::choose` over the range `0..n`: one
/// position drawn uniformly, `None` only when the range is empty.
#[verifier::external_body]
pub(crate) fn choose_index(rng: &mut StdRng, n: usize) -> (r: Option<usize>)
    ensures
        r is None <==> n == 0,
        r matches Some(i) ==> i < n,
{
    (0..n).choose(rng)
}

} // verus!
