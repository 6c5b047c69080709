use vstd::prelude::*;

verus! {

/// Fills `buffer` from the operating system's random source with
/// `getrandom::fill`, reporting whether it succeeded; the contract promises
/// only that the length is kept.
#[verifier::external_body]
pub(crate) fn fill_random(buffer: &mut Vec<u8>) -> (filled: bool)
    ensures
        final(buffer)@.len() == old(buffer)@.len(),
{
    getrandom::fill(buffer.as_mut_slice()).is_ok()
}

} // verus!
