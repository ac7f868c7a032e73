use vstd::prelude::*;
use crate::call::Call;

verus! {

/// The state context a call executes under: a diagnostic name and the
/// raw descriptor bytes of the state (empty when no descriptor exists
/// yet, e.g. around state construction).
pub struct StateInfo {
    pub name: String,
    pub fd: Vec<u8>,
}

impl StateInfo {
    pub fn new(name: &str, fd: Vec<u8>) -> (s: StateInfo)
        ensures
            s.name@ == name@,
            s.fd@ == fd@,
    {
        StateInfo { name: name.to_owned(), fd }
    }

    /// A state with no descriptor bytes carries no valid descriptor.
    pub fn fd_invalid(&self) -> (r: bool)
        ensures
            r == (self.fd@.len() == 0),
    {
        self.fd.len() == 0
    }
}

/// Pre-invocation callback, run once per call before its native function;
/// returning false vetoes the invocation.
pub trait ICallObserver: Send + Sync {
    fn notify(&self, info: &StateInfo, call: &Call) -> bool;
}

/// Callbacks around state lifecycle: construction (which may be denied)
/// and destruction.
pub trait IStateObserver: Send + Sync {
    fn notify_ctor(&self, info: &StateInfo) -> bool;

    fn notify_dtor(&self, info: &StateInfo);
}

/// The registry of observers consulted before every invocation and
/// around every state lifecycle event.
pub struct ObservationHub {
    call_obs: Vec<Box<dyn ICallObserver>>,
    state_obs: Vec<Box<dyn IStateObserver>>,
}

impl ObservationHub {
    /// How many call observers are registered.
    pub closed spec fn spec_n_call_obs(&self) -> nat {
        self.call_obs@.len()
    }

    /// How many state observers are registered.
    pub closed spec fn spec_n_state_obs(&self) -> nat {
        self.state_obs@.len()
    }

    pub fn new() -> (r: ObservationHub)
        ensures
            r.spec_n_call_obs() == 0,
            r.spec_n_state_obs() == 0,
    {
        ObservationHub { call_obs: Vec::new(), state_obs: Vec::new() }
    }

    pub fn register_call_observer(&mut self, obs: Box<dyn ICallObserver>)
        ensures
            final(self).spec_n_call_obs() == old(self).spec_n_call_obs() + 1,
            final(self).spec_n_state_obs() == old(self).spec_n_state_obs(),
    {
        let ghost before = self.call_obs@;
        self.call_obs.push(obs);
        proof {
            vstd::seq::axiom_seq_push_len(before, obs);
        }
    }

    pub fn register_state_observer(&mut self, obs: Box<dyn IStateObserver>)
        ensures
            final(self).spec_n_state_obs() == old(self).spec_n_state_obs() + 1,
            final(self).spec_n_call_obs() == old(self).spec_n_call_obs(),
    {
        let ghost before = self.state_obs@;
        self.state_obs.push(obs);
        proof {
            vstd::seq::axiom_seq_push_len(before, obs);
        }
    }

    /// Ask every call observer for approval; any veto wins.  With no
    /// observer registered every call is approved; what a registered
    /// observer answers is its own affair.
    pub fn call_notify(&self, info: &StateInfo, call: &Call) -> (approved: bool)
        ensures
            self.spec_n_call_obs() == 0 ==> approved,
    {
        let mut i: usize = 0;
        let mut approved = true;
        while i < self.call_obs.len()
            invariant
                i <= self.call_obs@.len(),
                self.call_obs@.len() == 0 ==> approved,
            decreases self.call_obs@.len() - i,
        {
            if !self.call_obs[i].notify(info, call) {
                approved = false;
            }
            i += 1;
        }
        approved
    }

    /// Ask every state observer whether the state may be fuzzed; any veto
    /// wins.  With no observer registered every state is approved.
    pub fn ctor_notify(&self, info: &StateInfo) -> (approved: bool)
        ensures
            self.spec_n_state_obs() == 0 ==> approved,
    {
        let mut i: usize = 0;
        let mut approved = true;
        while i < self.state_obs.len()
            invariant
                i <= self.state_obs@.len(),
                self.state_obs@.len() == 0 ==> approved,
            decreases self.state_obs@.len() - i,
        {
            if !self.state_obs[i].notify_ctor(info) {
                approved = false;
            }
            i += 1;
        }
        approved
    }

    /// Tell every state observer that fuzzing of the state is over.
    pub fn dtor_notify(&self, info: &StateInfo) {
        let mut i: usize = 0;
        while i < self.state_obs.len()
            invariant
                i <= self.state_obs@.len(),
            decreases self.state_obs@.len() - i,
        {
            self.state_obs[i].notify_dtor(info);
            i += 1;
        }
    }
}

} // verus!
