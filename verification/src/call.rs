use vstd::prelude::*;
use crate::arg::{spec_arg_render, Arg};
use crate::composite::spec_frags;
use crate::config::Config;
use crate::observer::{ObservationHub, StateInfo};
use crate::serialize::any_new_frag;
use crate::text::{dec_of, spec_dec};
use vstd::rwlock::RwLock;
use vstd::string::StringExecFns;

verus! {

/// One argument's entry in the reproduction text: the rendered slot,
/// behind a cast to the call's own argument type when the slot's
/// serialization carries a heap-allocation fragment.
pub open spec fn spec_wrap(name: Seq<char>, ind: int, heap: bool, d: Seq<char>) -> Seq<char> {
    if heap {
        seq!['('] + name + spec_dec(ind) + seq!['*', ')'] + d
    } else {
        d
    }
}

/// The joined argument entries of the first `k` slots, each preceded by
/// a comma, a line break and an indent.
pub open spec fn spec_args_text(name: Seq<char>, args: Seq<Arg>, fd: Seq<u8>, k: int) -> Seq<
    char,
>
    decreases k,
{
    if k <= 0 {
        Seq::empty()
    } else {
        spec_args_text(name, args, fd, k - 1) + seq![',', '\n', '\t'] + spec_wrap(
            name,
            k - 1,
            any_new_frag(spec_frags(args[k - 1].spec_gen(), args[k - 1]@, fd)),
            spec_arg_render(args[k - 1].spec_gen(), args[k - 1]@, fd),
        )
    }
}

/// The whole reproduction line of a call: its name applied to its
/// rendered arguments, or to the placeholder "void" when it has none.
pub open spec fn spec_call_text(name: Seq<char>, args: Seq<Arg>, fd: Seq<u8>) -> Seq<char> {
    if args.len() == 0 {
        name + seq!['(', 'v', 'o', 'i', 'd', ')', ';']
    } else {
        name + seq!['('] + spec_args_text(name, args, fd, args.len() as int).skip(1) + seq![
            ')',
            ';',
        ]
    }
}

/// Identity of a call in the call table.
#[derive(Clone, Copy, PartialEq, Eq, Structural, Debug)]
pub struct CallTableId(pub u64);

impl CallTableId {
    /// True when the identity shares a bit with the mask, the test the
    /// call table uses to select calls.
    pub fn masked_by(&self, mask: u64) -> (r: bool)
        ensures
            r == (self.0 & mask != 0),
    {
        self.0 & mask != 0
    }
}

/// What a native invocation reported back: success or failure, plus an
/// opaque extra-info payload (most commonly a returned descriptor).
pub struct CallInfo {
    success: bool,
    einfo: Vec<u8>,
}

impl CallInfo {
    pub closed spec fn spec_success(&self) -> bool {
        self.success
    }

    pub closed spec fn spec_einfo(&self) -> Seq<u8> {
        self.einfo@
    }

    /// The initial record: a failure with no extra info.
    pub fn fail() -> (r: CallInfo)
        ensures
            !r.spec_success(),
            r.spec_einfo() == Seq::<u8>::empty(),
    {
        CallInfo { success: false, einfo: Vec::new() }
    }

    pub fn new(success: bool, einfo: Vec<u8>) -> (r: CallInfo)
        ensures
            r.spec_success() == success,
            r.spec_einfo() == einfo@,
    {
        CallInfo { success, einfo }
    }

    pub fn success(&self) -> (r: bool)
        ensures
            r == self.spec_success(),
    {
        self.success
    }

    pub fn extra_info(&self) -> (r: &Vec<u8>)
        ensures
            r@ == self.spec_einfo(),
    {
        &self.einfo
    }

    /// Flip the recorded success flag, leaving the payload alone: used by
    /// analysis modules that reinterpret a result after the fact.
    pub fn negate(&mut self)
        ensures
            final(self).spec_success() == !old(self).spec_success(),
            final(self).spec_einfo() == old(self).spec_einfo(),
    {
        self.success = !self.success;
    }
}

/// The native operation behind a call, supplied at call-construction
/// time.  Implementors run the real invocation on the generated argument
/// slots and report the outcome; they must keep each slot's generator and
/// buffer length intact.
pub trait CCall: Send + Sync {
    fn invoke(&self, args: &mut Vec<Arg>) -> (r: CallInfo)
        ensures
            final(args)@.len() == old(args)@.len(),
            forall|i: int|
                0 <= i < old(args)@.len() && old(args)@[i].inv() ==> (#[trigger] final(args)@[i]).inv() && final(args)@[i].spec_gen() == old(args)@[i].spec_gen(),
    ;
}

/// The process-wide mutual-exclusion lock of single-thread mode.  Its
/// guarded value is the identity of the call that last held the critical
/// section.
pub struct CallLock {
    lock: RwLock<u64, spec_fn(u64) -> bool>,
}

impl CallLock {
    /// Any identity may be stored in the lock.
    pub closed spec fn wf(&self) -> bool {
        forall|v: u64| #[trigger] self.lock.inv(v)
    }

    pub fn new() -> (r: CallLock)
        ensures
            r.wf(),
    {
        let lock = RwLock::new(0u64, Ghost(|v: u64| true));
        CallLock { lock }
    }
}

/// One invokable operation: identity, name, ordered argument slots, the
/// native function, and running counters.
pub struct Call {
    id: CallTableId,
    name: String,
    einfo: CallInfo,
    total: usize,
    success: usize,
    args: Vec<Arg>,
    ccall: Box<dyn CCall>,
}

impl Call {
    pub closed spec fn spec_id(&self) -> CallTableId {
        self.id
    }

    pub closed spec fn spec_name(&self) -> Seq<char> {
        self.name@
    }

    pub closed spec fn spec_einfo(&self) -> CallInfo {
        self.einfo
    }

    pub closed spec fn spec_total(&self) -> usize {
        self.total
    }

    pub closed spec fn spec_success(&self) -> usize {
        self.success
    }

    pub closed spec fn spec_args(&self) -> Seq<Arg> {
        self.args@
    }

    /// Counters consistent, every argument slot well formed.
    pub open spec fn inv(&self) -> bool {
        &&& self.spec_success() <= self.spec_total()
        &&& forall|i: int|
            0 <= i < self.spec_args().len() ==> (#[trigger] self.spec_args()[i]).inv()
    }

    pub fn new(id: CallTableId, name: &str, args: Vec<Arg>, ccall: Box<dyn CCall>) -> (c: Call)
        requires
            forall|i: int| 0 <= i < args@.len() ==> (#[trigger] args@[i]).inv(),
        ensures
            c.inv(),
            c.spec_id() == id,
            c.spec_name() == name@,
            c.spec_total() == 0,
            c.spec_success() == 0,
            !c.spec_einfo().spec_success(),
            c.spec_args() == args@,
    {
        Call {
            id,
            name: name.to_owned(),
            einfo: CallInfo::fail(),
            total: 0,
            success: 0,
            args,
            ccall,
        }
    }

    /// Notify the observers and, if approved, run the native function and
    /// record what it reported.  False means the invocation was vetoed
    /// and nothing but the argument buffers changed.
    fn do_call_impl(&mut self, state: &StateInfo, hub: &ObservationHub) -> (r: bool)
        requires
            old(self).inv(),
        ensures
            final(self).inv(),
            final(self).spec_id() == old(self).spec_id(),
            final(self).spec_name() == old(self).spec_name(),
            final(self).spec_total() == old(self).spec_total(),
            final(self).spec_success() == old(self).spec_success(),
            final(self).spec_args().len() == old(self).spec_args().len(),
            forall|i: int|
                0 <= i < old(self).spec_args().len() ==> (#[trigger] final(self).spec_args()[i]).spec_gen() == old(self).spec_args()[i].spec_gen(),
            !r ==> final(self).spec_einfo() == old(self).spec_einfo() && final(self).spec_args()
                == old(self).spec_args(),
            hub.spec_n_call_obs() == 0 ==> r,
    {
        if !hub.call_notify(state, self) {
            return false;
        }
        let info = self.ccall.invoke(&mut self.args);
        self.einfo = info;
        true
    }

    /// Under single-thread mode take the global lock around observation
    /// and invocation, leaving this call's identity as the guarded value;
    /// otherwise run unsynchronized.
    fn do_call_safe(
        &mut self,
        state: &StateInfo,
        hub: &ObservationHub,
        cfg: &Config,
        lock: &CallLock,
    ) -> (r: bool)
        requires
            old(self).inv(),
            lock.wf(),
        ensures
            final(self).inv(),
            final(self).spec_id() == old(self).spec_id(),
            final(self).spec_name() == old(self).spec_name(),
            final(self).spec_total() == old(self).spec_total(),
            final(self).spec_success() == old(self).spec_success(),
            final(self).spec_args().len() == old(self).spec_args().len(),
            forall|i: int|
                0 <= i < old(self).spec_args().len() ==> (#[trigger] final(self).spec_args()[i]).spec_gen() == old(self).spec_args()[i].spec_gen(),
            !r ==> final(self).spec_einfo() == old(self).spec_einfo() && final(self).spec_args()
                == old(self).spec_args(),
            hub.spec_n_call_obs() == 0 ==> r,
    {
        if !cfg.singlethread {
            return self.do_call_impl(state, hub);
        }
        let (_last, handle) = lock.lock.acquire_write();
        let r = self.do_call_impl(state, hub);
        let id = self.id.0;
        handle.release_write(id);
        r
    }

    /// Trigger the call: count the attempt, regenerate every argument
    /// slot, ask the observers, and, if approved, invoke the native
    /// function and record its outcome.  False means the invocation was
    /// vetoed: the attempt is counted and the arguments were generated,
    /// but the success counter and the extra info are untouched.
    pub fn do_call(
        &mut self,
        fd: &[u8],
        state: &StateInfo,
        hub: &ObservationHub,
        cfg: &Config,
        lock: &CallLock,
    ) -> (r: bool)
        requires
            old(self).inv(),
            lock.wf(),
            old(self).spec_total() < usize::MAX,
        ensures
            final(self).inv(),
            final(self).spec_id() == old(self).spec_id(),
            final(self).spec_name() == old(self).spec_name(),
            final(self).spec_total() == old(self).spec_total() + 1,
            final(self).spec_args().len() == old(self).spec_args().len(),
            !r ==> final(self).spec_success() == old(self).spec_success() && final(self).spec_einfo() == old(self).spec_einfo(),
            r ==> final(self).spec_success() == old(self).spec_success() + (if final(self).spec_einfo().spec_success() {
                1int
            } else {
                0int
            }),
            hub.spec_n_call_obs() == 0 ==> r,
    {
        self.total = self.total + 1;
        proof {
            assert(self.spec_args() == old(self).spec_args());
            assert(forall|t: int|
                0 <= t < self.spec_args().len() ==> (#[trigger] self.spec_args()[t]).inv());
        }
        let mut i: usize = 0;
        while i < self.args.len()
            invariant
                i <= self.args@.len(),
                self.inv(),
                self.id == old(self).spec_id(),
                self.name@ == old(self).spec_name(),
                self.total == old(self).spec_total() + 1,
                self.success == old(self).spec_success(),
                self.einfo == old(self).spec_einfo(),
                self.args@.len() == old(self).spec_args().len(),
                old(self).spec_total() < usize::MAX,
            decreases self.args@.len() - i,
        {
            let ghost pre = self.spec_args();
            self.args[i].do_generate(fd);
            proof {
                assert forall|t: int|
                    0 <= t < self.spec_args().len() implies (#[trigger] self.spec_args()[t]).inv() by {
                    if t != i {
                        assert(self.spec_args()[t] == pre[t]);
                        assert(pre[t].inv());
                    }
                }
            }
            i += 1;
        }
        if !self.do_call_safe(state, hub, cfg, lock) {
            return false;
        }
        if self.einfo.success() {
            self.success = self.success + 1;
        }
        true
    }

    /// Render the call as one line of reproduction source text:
    /// `name(rendered args)` with the placeholder `void` when there are
    /// none, and a cast prefix on every heap-allocation argument.
    pub fn serialize(&self, fd: &[u8]) -> (r: String)
        requires
            self.inv(),
        ensures
            r@ == spec_call_text(self.spec_name(), self.spec_args(), fd@),
    {
        let mut out = self.name.clone();
        if self.args.len() == 0 {
            proof {
                reveal_strlit("(void);");
            }
            out.append("(void);");
            proof {
                assert(out@ =~= spec_call_text(self.spec_name(), self.spec_args(), fd@));
            }
            return out;
        }
        proof {
            reveal_strlit("(");
        }
        out.append("(");
        let ghost name = self.spec_name();
        let ghost argsv = self.spec_args();
        let mut i: usize = 0;
        while i < self.args.len()
            invariant
                self.inv(),
                name == self.spec_name(),
                argsv == self.spec_args(),
                0 < self.args@.len(),
                i <= self.args@.len(),
                i == 0 ==> out@ == name + seq!['('],
                i > 0 ==> out@ == name + seq!['('] + spec_args_text(
                    name,
                    argsv,
                    fd@,
                    i as int,
                ).skip(1),
            decreases self.args@.len() - i,
        {
            let heap = self.args[i].has_alloc_frag(fd);
            let rendered = self.args[i].do_serialize(fd);
            let mut entry = String::new();
            if heap {
                proof {
                    reveal_strlit("(");
                    reveal_strlit("*)");
                }
                entry.append("(");
                entry.append(self.name.as_str());
                let digits = dec_of(i as u64);
                entry.append(digits.as_str());
                entry.append("*)");
                entry.append(rendered.as_str());
            } else {
                entry.append(rendered.as_str());
            }
            proof {
                assert(entry@ =~= spec_wrap(
                    name,
                    i as int,
                    any_new_frag(spec_frags(argsv[i as int].spec_gen(), argsv[i as int]@, fd@)),
                    spec_arg_render(argsv[i as int].spec_gen(), argsv[i as int]@, fd@),
                ));
            }
            if i == 0 {
                proof {
                    reveal_strlit("\n\t");
                }
                out.append("\n\t");
            } else {
                proof {
                    reveal_strlit(",\n\t");
                }
                out.append(",\n\t");
            }
            out.append(entry.as_str());
            proof {
                let step = spec_args_text(name, argsv, fd@, i + 1);
                assert(step == spec_args_text(name, argsv, fd@, i as int) + seq![',', '\n', '\t']
                    + spec_wrap(
                    name,
                    i as int,
                    any_new_frag(spec_frags(argsv[i as int].spec_gen(), argsv[i as int]@, fd@)),
                    spec_arg_render(argsv[i as int].spec_gen(), argsv[i as int]@, fd@),
                ));
                assert(out@ =~= name + seq!['('] + step.skip(1));
            }
            i += 1;
        }
        proof {
            reveal_strlit(");");
        }
        out.append(");");
        proof {
            assert(out@ =~= spec_call_text(name, argsv, fd@));
        }
        out
    }

    pub fn name(&self) -> (r: &str)
        ensures
            r@ == self.spec_name(),
    {
        self.name.as_str()
    }

    pub fn id(&self) -> (r: CallTableId)
        ensures
            r == self.spec_id(),
    {
        self.id
    }

    pub fn total(&self) -> (r: usize)
        ensures
            r == self.spec_total(),
    {
        self.total
    }

    pub fn success(&self) -> (r: usize)
        ensures
            r == self.spec_success(),
    {
        self.success
    }

    /// Whether the last recorded invocation succeeded.
    pub fn ok(&self) -> (r: bool)
        ensures
            r == self.spec_einfo().spec_success(),
    {
        self.einfo.success()
    }

    /// The dead-call heuristic: the call has failed too often relative to
    /// the configured tolerance, and the scheduler should drop it.
    pub fn dead(&self, cfg: &Config) -> (r: bool)
        ensures
            r == (self.spec_total() > cfg.dead_call * (1 + self.spec_success())),
    {
        proof {
            let a = cfg.dead_call as u128;
            let b = 1 + (self.success as u128);
            assert(a * b <= 0xffff_ffff_ffff_ffffu128 * 0x1_0000_0000_0000_0000u128) by (nonlinear_arith)
                requires
                    a <= 0xffff_ffff_ffff_ffffu128,
                    b <= 0x1_0000_0000_0000_0000u128,
            ;
        }
        (self.total as u128) > (cfg.dead_call as u128) * (1 + self.success as u128)
    }

    /// The raw extra-info bytes of the last invocation.
    pub fn einfo(&self) -> (r: &Vec<u8>)
        ensures
            r@ == self.spec_einfo().spec_einfo(),
    {
        self.einfo.extra_info()
    }

    /// Flip the recorded success flag without re-invoking.
    pub fn neg_ret(&mut self)
        requires
            old(self).inv(),
        ensures
            final(self).inv(),
            final(self).spec_einfo().spec_success() == !old(self).spec_einfo().spec_success(),
            final(self).spec_einfo().spec_einfo() == old(self).spec_einfo().spec_einfo(),
            final(self).spec_id() == old(self).spec_id(),
            final(self).spec_name() == old(self).spec_name(),
            final(self).spec_total() == old(self).spec_total(),
            final(self).spec_success() == old(self).spec_success(),
            final(self).spec_args() == old(self).spec_args(),
    {
        self.einfo.negate();
        proof {
            assert(self.spec_args() == old(self).spec_args());
            assert(forall|i: int|
                0 <= i < self.spec_args().len() ==> (#[trigger] self.spec_args()[i]).inv());
        }
    }

    pub fn n_args(&self) -> (r: usize)
        ensures
            r == self.spec_args().len(),
    {
        self.args.len()
    }

    pub fn args_view(&self, ind: usize) -> (r: &Arg)
        requires
            ind < self.spec_args().len(),
        ensures
            r == self.spec_args()[ind as int],
    {
        &self.args[ind]
    }
}

/// The closing call of a fuzzing session, built by the embedding program
/// around a native action of its own.
pub trait GameOver: Sized {
    fn game_over() -> Self;
}

} // verus!
