use bridge_lifecycle::errors::{Status, WriteError};
use bridge_lifecycle::lines::encode_line;
use bridge_lifecycle::slot::BridgeProcess;

#[test]
fn ping_is_framed_with_one_newline() {
    let block = encode_line(&b"ping".to_vec());
    assert_eq!(block, b"ping\n".to_vec());
}

#[test]
fn empty_payload_is_just_a_newline() {
    let block = encode_line(&Vec::new());
    assert_eq!(block, b"\n".to_vec());
}

#[test]
fn empty_slot_rejects_every_operation() {
    let mut slot: BridgeProcess<u32> = BridgeProcess::new(None);
    assert_eq!(slot.status(), Status::Stopped);
    assert_eq!(slot.write_line(&b"ping".to_vec()), Err(WriteError::NoProcess));
    assert_eq!(slot.terminate(), None);
    assert_eq!(slot.status(), Status::Stopped);
}

#[test]
fn installed_slot_reports_running_and_writes() {
    let mut slot: BridgeProcess<u32> = BridgeProcess::new(Some(7));
    assert_eq!(slot.status(), Status::Running);
    let block = slot.write_line(&b"ping".to_vec()).unwrap();
    assert_eq!(block, b"ping\n".to_vec());
}

#[test]
fn closed_input_stream_fails_with_stream_closed() {
    let mut slot: BridgeProcess<u32> = BridgeProcess::new(None);
    slot.install(9, false);
    assert_eq!(slot.status(), Status::Running);
    assert_eq!(slot.write_line(&b"ping".to_vec()), Err(WriteError::StreamClosed));
    let mut slot2: BridgeProcess<u32> = BridgeProcess::new(Some(3));
    slot2.input_closed();
    assert_eq!(slot2.write_line(&b"ping".to_vec()), Err(WriteError::StreamClosed));
    assert_eq!(slot2.status(), Status::Running);
}

#[test]
fn restart_cycle_replaces_the_process() {
    let mut slot: BridgeProcess<u32> = BridgeProcess::new(Some(1));
    let old = slot.terminate();
    assert_eq!(old, Some(1));
    assert_eq!(slot.status(), Status::Stopped);
    assert_eq!(slot.write_line(&b"ping".to_vec()), Err(WriteError::NoProcess));
    let prev = slot.install(2, true);
    assert_eq!(prev, None);
    assert_eq!(slot.status(), Status::Running);
    assert!(slot.write_line(&b"ping".to_vec()).is_ok());
}

#[test]
fn serialized_writes_do_not_interleave() {
    let mut slot: BridgeProcess<u32> = BridgeProcess::new(Some(1));
    let first = slot.write_line(&b"a".to_vec()).unwrap();
    let second = slot.write_line(&b"b".to_vec()).unwrap();
    let mut stream = first.clone();
    stream.extend_from_slice(&second);
    assert_eq!(stream, b"a\nb\n".to_vec());
    assert_ne!(stream, b"ab\n\n".to_vec());
}
