use vstd::prelude::*;
use crate::call::Call;
use crate::observer::StateInfo;

verus! {

/// Configuration of the debug observer: whether it reports at all,
/// whether state-construction calls are included, an identity mask
/// narrowing which calls are reported, and whether only successful calls
/// are reported.
pub struct DebugConfig {
    pub noisy: bool,
    pub ctors_included: bool,
    pub mask: u64,
    pub only_successfull: bool,
}

impl DebugConfig {
    pub fn new(noisy: bool, ctors_included: bool, mask: u64, only_successfull: bool) -> (c:
        DebugConfig)
        ensures
            c.noisy == noisy,
            c.ctors_included == ctors_included,
            c.mask == mask,
            c.only_successfull == only_successfull,
    {
        DebugConfig { noisy, ctors_included, mask, only_successfull }
    }
}

/// When the debug observer reports a call: it is noisy, the state is not
/// a bare constructor context (unless those are included), the call's
/// identity passes the mask, and the last result was a success when only
/// successes are wanted.
pub open spec fn spec_should_log(cfg: DebugConfig, fd_invalid: bool, id: u64, ok: bool) -> bool {
    &&& cfg.noisy
    &&& (cfg.ctors_included || !fd_invalid)
    &&& (cfg.mask == 0 || id & cfg.mask != 0)
    &&& (!cfg.only_successfull || ok)
}

/// The reporting decision of the debug observer, separated from the
/// printing itself.
pub fn should_log(cfg: &DebugConfig, state: &StateInfo, call: &Call) -> (r: bool)
    ensures
        r == spec_should_log(
            *cfg,
            state.fd@.len() == 0,
            call.spec_id().0,
            call.spec_einfo().spec_success(),
        ),
{
    if !cfg.noisy {
        return false;
    }
    if !cfg.ctors_included && state.fd_invalid() {
        return false;
    }
    if cfg.mask != 0 && !call.id().masked_by(cfg.mask) {
        return false;
    }
    if cfg.only_successfull && !call.ok() {
        return false;
    }
    true
}

} // verus!
