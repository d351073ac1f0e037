use bridge_lifecycle::forwarder::{StreamForwarder, StreamKind};

#[test]
fn three_lines_give_three_ordered_events() {
    let mut fwd = StreamForwarder::new(StreamKind::Stdout);
    let events = fwd.accept(&b"one\ntwo\nthree\n".to_vec());
    assert_eq!(events.len(), 3);
    assert_eq!(events[0].text, b"one".to_vec());
    assert_eq!(events[1].text, b"two".to_vec());
    assert_eq!(events[2].text, b"three".to_vec());
    assert_eq!(events[0].sequence, 0);
    assert_eq!(events[1].sequence, 1);
    assert_eq!(events[2].sequence, 2);
    assert!(events.iter().all(|e| e.stream == StreamKind::Stdout));
    assert_eq!(fwd.delivered(), 3);
}

#[test]
fn lines_split_across_chunks_stay_whole() {
    let mut fwd = StreamForwarder::new(StreamKind::Stderr);
    let first = fwd.accept(&b"hel".to_vec());
    assert!(first.is_empty());
    let second = fwd.accept(&b"lo\nwor".to_vec());
    assert_eq!(second.len(), 1);
    assert_eq!(second[0].text, b"hello".to_vec());
    assert_eq!(second[0].stream, StreamKind::Stderr);
    let third = fwd.accept(&b"ld\n".to_vec());
    assert_eq!(third.len(), 1);
    assert_eq!(third[0].text, b"world".to_vec());
    assert_eq!(third[0].sequence, 1);
}

#[test]
fn carriage_returns_are_stripped_from_line_ends() {
    let mut fwd = StreamForwarder::new(StreamKind::Stdout);
    let events = fwd.accept(&b"alpha\r\nbe\rta\r\n".to_vec());
    assert_eq!(events.len(), 2);
    assert_eq!(events[0].text, b"alpha".to_vec());
    assert_eq!(events[1].text, b"be\rta".to_vec());
}

#[test]
fn bytes_after_the_last_terminator_stay_pending() {
    let mut fwd = StreamForwarder::new(StreamKind::Stdout);
    let events = fwd.accept(&b"done\npartial".to_vec());
    assert_eq!(events.len(), 1);
    assert_eq!(events[0].text, b"done".to_vec());
    assert_eq!(fwd.delivered(), 1);
}

#[test]
fn empty_lines_are_delivered_empty() {
    let mut fwd = StreamForwarder::new(StreamKind::Stdout);
    let events = fwd.accept(&b"\n\n".to_vec());
    assert_eq!(events.len(), 2);
    assert!(events[0].text.is_empty());
    assert!(events[1].text.is_empty());
}

#[test]
fn a_written_frame_comes_back_as_one_line() {
    let block = bridge_lifecycle::lines::encode_line(&b"ping".to_vec());
    let mut fwd = StreamForwarder::new(StreamKind::Stdout);
    let events = fwd.accept(&block);
    assert_eq!(events.len(), 1);
    assert_eq!(events[0].text, b"ping".to_vec());
}
