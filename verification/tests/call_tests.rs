use fuzzcore::arg::Arg;
use fuzzcore::call::{Call, CallInfo, CallLock, CallTableId, CCall};
use fuzzcore::composite::GenNode;
use fuzzcore::config::Config;
use fuzzcore::debug::{should_log, DebugConfig};
use fuzzcore::leafs::RndData;
use fuzzcore::observer::{ICallObserver, ObservationHub, StateInfo};

struct AlwaysFail;

impl CCall for AlwaysFail {
    fn invoke(&self, _args: &mut Vec<Arg>) -> CallInfo {
        CallInfo::new(false, Vec::new())
    }
}

struct AlwaysOk;

impl CCall for AlwaysOk {
    fn invoke(&self, _args: &mut Vec<Arg>) -> CallInfo {
        CallInfo::new(true, vec![7, 8])
    }
}

struct Veto;

impl ICallObserver for Veto {
    fn notify(&self, _info: &StateInfo, _call: &Call) -> bool {
        false
    }
}

struct Approve;

impl ICallObserver for Approve {
    fn notify(&self, _info: &StateInfo, _call: &Call) -> bool {
        true
    }
}

fn rnd_arg(size: usize) -> Arg {
    Arg::new(GenNode::Rnd(RndData::new(size)))
}

fn plain_setup() -> (StateInfo, ObservationHub, Config, CallLock) {
    (
        StateInfo::new("state", vec![1]),
        ObservationHub::new(),
        Config::new(2, false, 3),
        CallLock::new(),
    )
}

#[test]
fn dead_flips_exactly_at_the_boundary() {
    // dead_call = 3, native always fails: dead becomes true exactly when
    // total > 3 * (1 + 0)
    let (state, hub, cfg, lock) = plain_setup();
    let mut call = Call::new(CallTableId(1), "failing", vec![rnd_arg(4)], Box::new(AlwaysFail));
    for _ in 0..3 {
        assert!(call.do_call(&[], &state, &hub, &cfg, &lock));
    }
    assert_eq!(call.total(), 3);
    assert_eq!(call.success(), 0);
    assert!(!call.dead(&cfg), "total == threshold must not be dead");
    assert!(call.do_call(&[], &state, &hub, &cfg, &lock));
    assert_eq!(call.total(), 4);
    assert!(call.dead(&cfg), "total == threshold + 1 must be dead");
}

#[test]
fn dead_counts_successes_into_the_tolerance() {
    let (state, hub, cfg, lock) = plain_setup();
    let mut call = Call::new(CallTableId(2), "fine", vec![], Box::new(AlwaysOk));
    for _ in 0..20 {
        assert!(call.do_call(&[], &state, &hub, &cfg, &lock));
    }
    assert_eq!(call.total(), 20);
    assert_eq!(call.success(), 20);
    // 20 <= 3 * 21
    assert!(!call.dead(&cfg));
}

#[test]
fn vetoed_call_counts_attempt_but_keeps_result() {
    let (state, _hub, cfg, lock) = plain_setup();
    let mut hub = ObservationHub::new();
    hub.register_call_observer(Box::new(Veto));
    let mut call = Call::new(CallTableId(3), "vetoed", vec![rnd_arg(4)], Box::new(AlwaysOk));
    let ok_before = call.ok();
    let einfo_before = call.einfo().clone();
    assert!(!call.do_call(&[], &state, &hub, &cfg, &lock));
    assert_eq!(call.total(), 1, "generation happened, the attempt counts");
    assert_eq!(call.success(), 0);
    assert_eq!(call.ok(), ok_before);
    assert_eq!(*call.einfo(), einfo_before);
}

#[test]
fn any_veto_wins_over_approvals() {
    let (state, _hub, cfg, lock) = plain_setup();
    let mut hub = ObservationHub::new();
    hub.register_call_observer(Box::new(Approve));
    hub.register_call_observer(Box::new(Veto));
    let mut call = Call::new(CallTableId(3), "vetoed", vec![], Box::new(AlwaysOk));
    assert!(!call.do_call(&[], &state, &hub, &cfg, &lock));
}

#[test]
fn approved_call_records_outcome_and_extra_info() {
    let (state, hub, cfg, lock) = plain_setup();
    let mut call = Call::new(CallTableId(4), "writer", vec![rnd_arg(2)], Box::new(AlwaysOk));
    assert!(!call.ok());
    assert!(call.do_call(&[], &state, &hub, &cfg, &lock));
    assert_eq!(call.total(), 1);
    assert_eq!(call.success(), 1);
    assert!(call.ok());
    assert_eq!(*call.einfo(), vec![7, 8]);
}

#[test]
fn do_call_under_single_thread_mode_still_works() {
    let (state, hub, _cfg, lock) = plain_setup();
    let cfg = Config::new(2, true, 3);
    let mut call = Call::new(CallTableId(9), "locked", vec![rnd_arg(2)], Box::new(AlwaysOk));
    for _ in 0..5 {
        assert!(call.do_call(&[], &state, &hub, &cfg, &lock));
    }
    assert_eq!(call.success(), 5);
}

#[test]
fn neg_ret_flips_the_recorded_result() {
    let (state, hub, cfg, lock) = plain_setup();
    let mut call = Call::new(CallTableId(5), "flip", vec![], Box::new(AlwaysOk));
    assert!(call.do_call(&[], &state, &hub, &cfg, &lock));
    assert!(call.ok());
    call.neg_ret();
    assert!(!call.ok());
    assert_eq!(*call.einfo(), vec![7, 8], "payload survives negation");
    call.neg_ret();
    assert!(call.ok());
}

#[test]
fn call_exposes_identity_and_arguments() {
    let call = Call::new(
        CallTableId(42),
        "mycall",
        vec![rnd_arg(2), rnd_arg(6)],
        Box::new(AlwaysFail),
    );
    assert_eq!(call.name(), "mycall");
    assert_eq!(call.id(), CallTableId(42));
    assert_eq!(call.n_args(), 2);
    assert_eq!(call.args_view(0).size(), 2);
    assert_eq!(call.args_view(1).size(), 6);
    assert_eq!(call.total(), 0);
    assert_eq!(call.success(), 0);
}

#[test]
fn serialize_without_arguments_keeps_the_placeholder() {
    let call = Call::new(CallTableId(6), "noop", vec![], Box::new(AlwaysFail));
    assert_eq!(call.serialize(&[]), "noop(void);");
}

#[test]
fn serialize_renders_arguments_in_hex() {
    let mut a0 = rnd_arg(2);
    a0.set_data(vec![0xDE, 0xAD]);
    let mut a1 = rnd_arg(2);
    a1.set_data(vec![0xBE, 0xEF]);
    let call = Call::new(CallTableId(7), "mycall", vec![a0, a1], Box::new(AlwaysFail));
    assert_eq!(call.serialize(&[]), "mycall(\n\tdead,\n\tbeef);");
}

#[test]
fn arg_round_trip_and_render() {
    let cfg = Config::new(2, false, 3);
    let mut a = rnd_arg(3);
    a.set_data(vec![1, 2, 3]);
    assert_eq!(a.do_serialize(&[]), "010203");
    let dumped = a.do_dump();
    assert_eq!(dumped, vec![1, 2, 3]);
    let mut b = rnd_arg(3);
    let used = b.do_load(&dumped, &[], &std::collections::HashMap::new(), &cfg);
    assert_eq!(used, 0);
    assert_eq!(*b.data(), vec![1, 2, 3]);
}

#[test]
fn call_table_id_mask_test() {
    assert!(CallTableId(0b1010).masked_by(0b0010));
    assert!(!CallTableId(0b1010).masked_by(0b0101));
}

#[test]
fn debug_observer_decision_follows_its_configuration() {
    let call_ok = {
        let (state, hub, cfg, lock) = {
            (
                StateInfo::new("s", vec![1]),
                ObservationHub::new(),
                Config::new(2, false, 3),
                CallLock::new(),
            )
        };
        let mut c = Call::new(CallTableId(0b100), "c", vec![], Box::new(AlwaysOk));
        assert!(c.do_call(&[], &state, &hub, &cfg, &lock));
        c
    };
    let with_fd = StateInfo::new("s", vec![1]);
    let ctor_state = StateInfo::new("s", vec![]);

    let quiet = DebugConfig::new(false, true, 0, false);
    assert!(!should_log(&quiet, &with_fd, &call_ok));

    let noisy = DebugConfig::new(true, false, 0, false);
    assert!(should_log(&noisy, &with_fd, &call_ok));
    assert!(!should_log(&noisy, &ctor_state, &call_ok));

    let ctors = DebugConfig::new(true, true, 0, false);
    assert!(should_log(&ctors, &ctor_state, &call_ok));

    let masked = DebugConfig::new(true, true, 0b010, false);
    assert!(!should_log(&masked, &with_fd, &call_ok));
    let masked_hit = DebugConfig::new(true, true, 0b100, false);
    assert!(should_log(&masked_hit, &with_fd, &call_ok));

    let only_ok = DebugConfig::new(true, true, 0, true);
    assert!(should_log(&only_ok, &with_fd, &call_ok));
    let mut failed = call_ok;
    failed.neg_ret();
    assert!(!should_log(&only_ok, &with_fd, &failed));
}

#[test]
fn call_info_reports_what_it_was_given() {
    let mut info = CallInfo::new(true, vec![9]);
    assert!(info.success());
    assert_eq!(*info.extra_info(), vec![9]);
    info.negate();
    assert!(!info.success());
    assert_eq!(*info.extra_info(), vec![9]);
    let f = CallInfo::fail();
    assert!(!f.success());
    assert!(f.extra_info().is_empty());
}
