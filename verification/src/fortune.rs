//! Picking one fortune out of a collection, optionally from a fixed seed.
//!
//! The random draw itself comes from the `rand` crate; everything proved
//! here holds of every outcome the generator can produce.

use vstd::prelude::*;
use rand::seq::SliceRandom;
use rand::SeedableRng;

verus! {

/// One fortune: the name of the file it came from, and its text.
#[derive(Debug)]
pub struct Fortune {
    pub source: String,
    pub text: String,
}

/// Declares rand's `StdRng` so that a generator can be carried through
/// verified code; its state stays opaque.
#[verifier::external_type_specification]
#[verifier::external_body]
pub struct ExStdRng(rand::rngs::StdRng);

/// Relies on rand's `SeedableRng::seed_from_u64`: builds a generator whose
/// draws are a function of the seed alone. Nothing is assumed of its state.
#[verifier::external_body]
fn rng_from_seed(seed: u64) -> rand::rngs::StdRng {
    rand::rngs::StdRng::seed_from_u64(seed)
}

/// Relies on rand's `SeedableRng::from_entropy`: builds a generator seeded
/// from the operating system. Nothing is assumed of its state.
#[verifier::external_body]
fn rng_from_entropy() -> rand::rngs::StdRng {
    rand::rngs::StdRng::from_entropy()
}

/// Relies on rand's `SliceRandom::choose`: yields `None` exactly on an empty
/// slice, and otherwise a reference to some element of the slice.
#[verifier::external_body]
fn choose_fortune<'a>(fortunes: &'a [Fortune], rng: &mut rand::rngs::StdRng) -> (r: Option<
    &'a Fortune,
>)
    ensures
        r is Some <==> fortunes@.len() > 0,
        r matches Some(f) ==> exists|i: int| 0 <= i < fortunes@.len() && *f == #[trigger] fortunes@[i],
{
    fortunes.choose(rng)
}

/// Pick the text of one fortune at random: with a seed, the draw is
/// reproducible; without one, it comes from system entropy.
///
/// Yields `None` exactly when there is no fortune to pick; any text yielded
/// is the text of one of the given fortunes.
pub fn pick_fortune(fortunes: &[Fortune], seed: Option<u64>) -> (r: Option<String>)
    ensures
        r is Some <==> fortunes@.len() > 0,
        r matches Some(t) ==> exists|i: int|
            0 <= i < fortunes@.len() && t@ == (#[trigger] fortunes@[i]).text@,
{
    let mut rng = match seed {
        None => rng_from_entropy(),
        Some(s) => rng_from_seed(s),
    };
    match choose_fortune(fortunes, &mut rng) {
        None => None,
        Some(f) => {
            let t = f.text.clone();
            proof {
                let i = choose|i: int| 0 <= i < fortunes@.len() && *f == fortunes@[i];
                assert(t@ == fortunes@[i].text@);
            }
            Some(t)
        },
    }
}

} // verus!
