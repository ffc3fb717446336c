//! Random picks among the inputs. The random numbers are the rand crate's.
use vstd::prelude::*;

verus! {

/// Calls `rand::random`: a machine word drawn by the thread's generator.
/// Nothing is known of its value.
#[verifier::external_body]
pub(crate) fn random_word() -> (word: usize) {
    rand::random::<usize>()
}

/// The input that a random word picks among `num_inputs`.
pub fn pick_input(word: usize, num_inputs: usize) -> (id: usize)
    requires
        num_inputs > 0,
    ensures
        id == word % num_inputs,
        id < num_inputs,
{
    word % num_inputs
}

} // verus!
