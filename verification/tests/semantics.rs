use actor_model::actor::Id;
use actor_model::semantics::{LinearizabilityTester, RegisterOp, RegisterRet};

#[test]
fn empty_history_is_linearizable() {
    let h = LinearizabilityTester::new();
    assert!(h.serialized_history().is_some());
}

#[test]
fn sequential_write_then_read_is_linearizable() {
    let mut h = LinearizabilityTester::new();
    h.on_invoke(Id(1), RegisterOp::Write('A'));
    h.on_return(Id(1), RegisterRet::WriteOk);
    h.on_invoke(Id(1), RegisterOp::Read);
    h.on_return(Id(1), RegisterRet::ReadOk('A'));
    let w = h.serialized_history().unwrap();
    assert_eq!(
        w,
        vec![
            (RegisterOp::Write('A'), RegisterRet::WriteOk),
            (RegisterOp::Read, RegisterRet::ReadOk('A')),
        ]
    );
}

#[test]
fn stale_read_after_write_returned_is_not_linearizable() {
    let mut h = LinearizabilityTester::new();
    h.on_invoke(Id(1), RegisterOp::Write('A'));
    h.on_return(Id(1), RegisterRet::WriteOk);
    h.on_invoke(Id(2), RegisterOp::Read);
    h.on_return(Id(2), RegisterRet::ReadOk('B'));
    assert!(h.serialized_history().is_none());
}

#[test]
fn pending_write_may_justify_a_read() {
    let mut h = LinearizabilityTester::new();
    h.on_invoke(Id(1), RegisterOp::Write('A'));
    h.on_invoke(Id(2), RegisterOp::Read);
    h.on_return(Id(2), RegisterRet::ReadOk('A'));
    assert!(h.serialized_history().is_some());
}

#[test]
fn pending_write_may_also_never_take_effect() {
    let mut h = LinearizabilityTester::new();
    h.on_invoke(Id(1), RegisterOp::Write('A'));
    h.on_invoke(Id(2), RegisterOp::Read);
    h.on_return(Id(2), RegisterRet::ReadOk('\0'));
    assert!(h.serialized_history().is_some());
}

#[test]
fn concurrent_writes_allow_either_read_order() {
    let mut h = LinearizabilityTester::new();
    h.on_invoke(Id(1), RegisterOp::Write('A'));
    h.on_invoke(Id(2), RegisterOp::Write('B'));
    h.on_return(Id(1), RegisterRet::WriteOk);
    h.on_return(Id(2), RegisterRet::WriteOk);
    h.on_invoke(Id(1), RegisterOp::Read);
    h.on_return(Id(1), RegisterRet::ReadOk('A'));
    assert!(h.serialized_history().is_some());
}

#[test]
fn double_invocation_is_malformed() {
    let mut h = LinearizabilityTester::new();
    h.on_invoke(Id(1), RegisterOp::Write('A'));
    h.on_invoke(Id(1), RegisterOp::Read);
    assert!(h.serialized_history().is_none());
}

#[test]
fn return_without_invocation_is_malformed() {
    let mut h = LinearizabilityTester::new();
    h.on_return(Id(1), RegisterRet::WriteOk);
    assert!(h.serialized_history().is_none());
}
