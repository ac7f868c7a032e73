use vstd::prelude::*;
use rand::Rng;

verus! {

/// Relies on rand::Rng::fill on a byte slice: fills exactly the given
/// range with random bytes and touches nothing else.
#[verifier::external_body]
pub(crate) fn rnd_fill(mem: &mut Vec<u8>, off: usize, len: usize)
    requires
        off + len <= old(mem)@.len(),
    ensures
        final(mem)@.len() == old(mem)@.len(),
        forall|i: int|
            0 <= i < old(mem)@.len() && !(off <= i < off + len) ==> final(mem)@[i] == old(
                mem,
            )@[i],
{
    rand::thread_rng().fill(&mut mem[off..off + len]);
}

/// Relies on rand::Rng::gen for u64: an arbitrary value; nothing can be
/// promised of it.
#[verifier::external_body]
pub(crate) fn rnd_u64() -> u64 {
    rand::thread_rng().gen()
}

/// Relies on rand::Rng::gen_ratio: true with probability num/denom; panics
/// unless 0 < denom and num <= denom, so those inputs are excluded here.
#[verifier::external_body]
pub(crate) fn rnd_ratio(num: u32, denom: u32) -> bool
    requires
        0 < denom,
        num <= denom,
{
    rand::thread_rng().gen_ratio(num, denom)
}

} // verus!
