use gateway_plugin::dispatch::{
    callback_allowed, write_action, write_gate, written, CallbackRefusal, Message,
    MiddlewareMethods, Parent, ReadAction, ReadFrame, ReadLoop, WriteAction, WriteGate,
};
use gateway_plugin::fault::{ErrorCode, RpcError};
use gateway_plugin::manifest::{Permission, Stage};

fn middleware() -> MiddlewareMethods {
    MiddlewareMethods {
        next: "middleware.next".to_owned(),
        body_read: "middleware.body.read".to_owned(),
        body_close: "middleware.body.close".to_owned(),
    }
}

fn frame(message: Message, parent: Parent) -> ReadFrame {
    ReadFrame { message, payload_empty: true, parent }
}

fn callback(id: u64) -> Message {
    Message::Callback { id, parent_id: 1, method: "host.http.do".to_owned() }
}

#[test]
fn callbacks_need_a_permission_and_a_stage() {
    let network = vec![Permission::Network];
    assert!(callback_allowed("host.http.do", Stage::Execution, &network, &middleware()));
    assert!(!callback_allowed("host.http.do", Stage::Execution, &vec![], &middleware()));
    assert!(!callback_allowed("host.auth.get", Stage::Execution, &network, &middleware()));
    assert!(!callback_allowed("unknown", Stage::Execution, &network, &middleware()));
    for (stage, log, state, http) in [
        (Stage::PublicManagement, false, false, false),
        (Stage::Registration, true, false, false),
        (Stage::Configuration, true, false, false),
        (Stage::Management, true, true, true),
    ] {
        assert_eq!(callback_allowed("host.log", stage, &network, &middleware()), log);
        assert_eq!(callback_allowed("host.state.get", stage, &network, &middleware()), state);
        assert_eq!(callback_allowed("host.http.do", stage, &network, &middleware()), http);
    }
    assert!(callback_allowed("middleware.next", Stage::Request, &vec![], &middleware()));
    assert!(!callback_allowed("middleware.next", Stage::Execution, &vec![], &middleware()));
}

#[test]
fn callbacks_are_numbered_upwards() {
    let mut reading = ReadLoop::new(vec![Permission::Network], middleware());
    let running = || Parent::Running(Stage::Execution);
    assert!(matches!(
        reading.step(false, Some(&frame(callback(2), running()))),
        ReadAction::AcquireSlot { id: 2, parent_id: 1 }
    ));
    assert!(matches!(
        reading.slot(2, 1, true),
        ReadAction::RunCallback { id: 2, parent_id: 1 }
    ));
    assert!(matches!(
        reading.slot(2, 1, false),
        ReadAction::RefuseCallback { id: 2, refusal: CallbackRefusal::CapacityExhausted }
    ));
    assert!(matches!(
        reading.step(false, Some(&frame(callback(2), running()))),
        ReadAction::Fail(RpcError::Protocol)
    ));
    assert!(matches!(
        reading.step(false, Some(&frame(callback(4), Parent::Cancelling))),
        ReadAction::RefuseCallback { id: 4, refusal: CallbackRefusal::ParentCancelled }
    ));
    assert_eq!(reading.last_callback, 4);
    for (id, parent) in [(0, running()), (7, running()), (6, Parent::Unknown)] {
        assert!(matches!(
            reading.step(false, Some(&frame(callback(id), parent))),
            ReadAction::Fail(RpcError::Protocol)
        ));
    }
    assert_eq!(reading.last_callback, 4);
}

#[test]
fn callbacks_without_permission_are_refused() {
    let mut reading = ReadLoop::new(vec![], middleware());
    let action = reading.step(false, Some(&frame(callback(2), Parent::Running(Stage::Execution))));
    match action {
        ReadAction::RefuseCallback { id, refusal } => {
            assert_eq!(id, 2);
            assert_eq!(refusal.code(), ErrorCode::PermissionDenied);
        }
        _ => panic!("the plugin has no permission"),
    }
}

#[test]
fn answers_reach_their_calls() {
    let mut reading = ReadLoop::new(vec![], middleware());
    assert!(matches!(
        reading.step(false, Some(&frame(Message::Result { id: 4 }, Parent::Unknown))),
        ReadAction::FinishResult { id: 4 }
    ));
    assert!(matches!(
        reading.step(
            false,
            Some(&frame(Message::Stream { id: 4, sequence: 2 }, Parent::Unknown))
        ),
        ReadAction::StreamChunk { id: 4, sequence: 2 }
    ));
    assert!(matches!(
        reading.step(false, Some(&frame(Message::Other, Parent::Unknown))),
        ReadAction::Fail(RpcError::Protocol)
    ));
    assert!(matches!(reading.step(true, None), ReadAction::Stop));
    assert!(matches!(reading.step(false, None), ReadAction::Fail(_)));
    assert!(reading.settled(Ok(())).is_none());
    assert!(matches!(reading.settled(Err(RpcError::Protocol)), Some(ReadAction::Fail(_))));
}

#[test]
fn what_is_written_is_noted_first() {
    assert!(matches!(write_gate(true, None), WriteGate::Stop));
    assert!(matches!(
        write_gate(false, Some(&Message::Call { id: 1 })),
        WriteGate::MarkTransmitted { id: 1 }
    ));
    assert!(matches!(
        write_action(WriteGate::MarkTransmitted { id: 1 }, true),
        WriteAction::Write
    ));
    assert!(matches!(
        write_action(WriteGate::MarkTransmitted { id: 1 }, false),
        WriteAction::Skip
    ));
    assert!(written(false, true).is_none());
    assert!(matches!(written(true, false), Some(WriteAction::Stop)));
    assert!(matches!(written(false, false), Some(WriteAction::Fail(_))));
}
