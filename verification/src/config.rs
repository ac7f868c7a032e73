use vstd::prelude::*;

verus! {

/// Runtime configuration this core consults.
///
/// `afl_fix_ratio` is the denominator of the probability with which a flag
/// generator accepts externally mutated bytes verbatim on load (one in
/// `afl_fix_ratio`).  `singlethread` turns on the global call lock.
/// `dead_call` is the tolerance multiplier of the dead-call heuristic.
pub struct Config {
    pub afl_fix_ratio: u32,
    pub singlethread: bool,
    pub dead_call: usize,
}

impl Config {
    pub open spec fn inv(&self) -> bool {
        self.afl_fix_ratio >= 1
    }

    pub fn new(afl_fix_ratio: u32, singlethread: bool, dead_call: usize) -> (c: Config)
        requires
            afl_fix_ratio >= 1,
        ensures
            c.inv(),
            c.afl_fix_ratio == afl_fix_ratio,
            c.singlethread == singlethread,
            c.dead_call == dead_call,
    {
        Config { afl_fix_ratio, singlethread, dead_call }
    }
}

} // verus!
