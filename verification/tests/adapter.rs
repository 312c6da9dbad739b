use std::sync::mpsc::sync_channel;

use stream_bridge::adapter::{Pulled, Status, StreamAdapter};
use stream_bridge::buffer::{OutputBuffer, INITIAL_CAPACITY};
use stream_bridge::event::ResponseEvent;

fn unit(text: &str) -> Option<ResponseEvent> {
    Some(ResponseEvent::PartialUnit(text.to_string()))
}

fn chunk(pulled: Pulled) -> Vec<u8> {
    match pulled {
        Pulled::Chunk(bytes) => bytes.to_vec(),
        Pulled::Skipped => panic!("expected a chunk, got nothing"),
        Pulled::End => panic!("expected a chunk, got the end"),
    }
}

#[test]
fn new_buffer_is_empty() {
    let buffer = OutputBuffer::new();
    assert_eq!(buffer.len(), 0);
    assert_eq!(buffer.snapshot().to_vec(), Vec::<u8>::new());
    assert_eq!(INITIAL_CAPACITY, 1024);
}

#[test]
fn append_adds_at_the_end() {
    let mut buffer = OutputBuffer::new();
    buffer.append("I'm");
    assert_eq!(buffer.len(), 3);
    buffer.append(" a potato");
    assert_eq!(buffer.len(), 12);
    assert_eq!(buffer.snapshot().to_vec(), b"I'm a potato".to_vec());
}

#[test]
fn append_of_nothing_changes_nothing() {
    let mut buffer = OutputBuffer::new();
    buffer.append("");
    assert_eq!(buffer.len(), 0);
    buffer.append("ab");
    buffer.append("");
    assert_eq!(buffer.snapshot().to_vec(), b"ab".to_vec());
}

#[test]
fn append_past_the_first_capacity() {
    let mut buffer = OutputBuffer::new();
    let piece = "0123456789abcdef";
    let mut expected: Vec<u8> = Vec::new();
    for _ in 0..100 {
        buffer.append(piece);
        expected.extend_from_slice(piece.as_bytes());
    }
    assert_eq!(buffer.len(), 1600);
    assert_eq!(buffer.snapshot().to_vec(), expected);
}

#[test]
fn append_encodes_text_as_utf8() {
    let mut buffer = OutputBuffer::new();
    buffer.append("h\u{e9}");
    buffer.append("\u{20ac}");
    assert_eq!(buffer.len(), 6);
    assert_eq!(buffer.snapshot().to_vec(), vec![0x68, 0xc3, 0xa9, 0xe2, 0x82, 0xac]);
}

#[test]
fn snapshot_is_a_separate_copy() {
    let mut buffer = OutputBuffer::new();
    buffer.append("one");
    let early = buffer.snapshot();
    buffer.append("two");
    let late = buffer.snapshot();
    assert_eq!(early.to_vec(), b"one".to_vec());
    assert_eq!(late.to_vec(), b"onetwo".to_vec());
    assert_eq!(buffer.len(), 6);
}

#[test]
fn has_room_for_ordinary_sizes() {
    let mut buffer = OutputBuffer::new();
    assert!(buffer.has_room_for(0));
    assert!(buffer.has_room_for(1 << 20));
    assert!(buffer.has_room_for(isize::MAX as usize));
    assert!(!buffer.has_room_for(isize::MAX as usize + 1));
    assert!(!buffer.has_room_for(usize::MAX));
    buffer.append("x");
    assert!(buffer.has_room_for(isize::MAX as usize - 1));
    assert!(!buffer.has_room_for(isize::MAX as usize));
}

#[test]
fn fresh_adapter_streams_and_holds_nothing() {
    let adapter = StreamAdapter::new();
    assert_eq!(adapter.status(), Status::Streaming);
    assert!(!adapter.is_finished());
    assert!(!adapter.ended_abnormally());
    assert_eq!(adapter.len(), 0);
    assert_eq!(adapter.snapshot().to_vec(), Vec::<u8>::new());
}

#[test]
fn fragments_give_snapshots_of_the_whole_text() {
    let mut adapter = StreamAdapter::new();
    assert_eq!(chunk(adapter.accept(unit("I'm"))), b"I'm".to_vec());
    assert_eq!(chunk(adapter.accept(unit(" a"))), b"I'm a".to_vec());
    assert_eq!(chunk(adapter.accept(unit(" potato"))), b"I'm a potato".to_vec());
    assert_eq!(adapter.len(), 12);
    assert_eq!(adapter.status(), Status::Streaming);
}

#[test]
fn empty_fragment_gives_an_unchanged_snapshot() {
    let mut adapter = StreamAdapter::new();
    assert_eq!(chunk(adapter.accept(unit("a"))), b"a".to_vec());
    assert_eq!(chunk(adapter.accept(unit(""))), b"a".to_vec());
    assert_eq!(adapter.len(), 1);
}

#[test]
fn marker_completes_the_response() {
    let mut adapter = StreamAdapter::new();
    let _ = adapter.accept(unit("done"));
    assert!(matches!(adapter.accept(Some(ResponseEvent::TerminalMarker)), Pulled::End));
    assert_eq!(adapter.status(), Status::Completed);
    assert!(adapter.is_finished());
    assert!(!adapter.ended_abnormally());
    assert_eq!(adapter.snapshot().to_vec(), b"done".to_vec());
}

#[test]
fn closed_channel_ends_the_response_abnormally() {
    let mut adapter = StreamAdapter::new();
    let _ = adapter.accept(unit("cut"));
    assert!(matches!(adapter.accept(None), Pulled::End));
    assert_eq!(adapter.status(), Status::Disconnected);
    assert!(adapter.is_finished());
    assert!(adapter.ended_abnormally());
    assert_eq!(adapter.snapshot().to_vec(), b"cut".to_vec());
}

#[test]
fn diagnostic_is_skipped() {
    let mut adapter = StreamAdapter::new();
    let _ = adapter.accept(unit("a"));
    assert!(matches!(
        adapter.accept(Some(ResponseEvent::Other("note".to_string()))),
        Pulled::Skipped
    ));
    assert_eq!(adapter.status(), Status::Streaming);
    assert_eq!(adapter.len(), 1);
    assert_eq!(chunk(adapter.accept(unit("b"))), b"ab".to_vec());
}

#[test]
fn nothing_is_handed_out_after_the_marker() {
    let mut adapter = StreamAdapter::new();
    let _ = adapter.accept(unit("kept"));
    let _ = adapter.accept(Some(ResponseEvent::TerminalMarker));
    assert!(matches!(adapter.accept(unit("late")), Pulled::End));
    assert!(matches!(adapter.accept(Some(ResponseEvent::TerminalMarker)), Pulled::End));
    assert!(matches!(adapter.accept(Some(ResponseEvent::Other("x".to_string()))), Pulled::End));
    assert!(matches!(adapter.accept(None), Pulled::End));
    assert_eq!(adapter.status(), Status::Completed);
    assert_eq!(adapter.snapshot().to_vec(), b"kept".to_vec());
}

#[test]
fn nothing_is_handed_out_after_a_closed_channel() {
    let mut adapter = StreamAdapter::new();
    let _ = adapter.accept(None);
    assert!(matches!(adapter.accept(unit("late")), Pulled::End));
    assert!(matches!(adapter.accept(Some(ResponseEvent::TerminalMarker)), Pulled::End));
    assert_eq!(adapter.status(), Status::Disconnected);
    assert_eq!(adapter.len(), 0);
}

#[test]
fn can_accept_what_fits() {
    let mut adapter = StreamAdapter::new();
    assert!(adapter.can_accept(&unit("some text")));
    assert!(adapter.can_accept(&Some(ResponseEvent::TerminalMarker)));
    assert!(adapter.can_accept(&Some(ResponseEvent::Other("n".to_string()))));
    assert!(adapter.can_accept(&None));
    let _ = adapter.accept(Some(ResponseEvent::TerminalMarker));
    assert!(adapter.can_accept(&unit("after the end")));
}

#[test]
fn snapshot_lengths_never_shrink() {
    let mut adapter = StreamAdapter::new();
    let pieces = ["a", "", "bc", "", "", "def", "g"];
    let mut last = 0usize;
    let mut all: Vec<u8> = Vec::new();
    for piece in pieces {
        let bytes = chunk(adapter.accept(unit(piece)));
        all.extend_from_slice(piece.as_bytes());
        assert!(bytes.len() >= last);
        assert_eq!(bytes, all);
        last = bytes.len();
    }
    assert!(matches!(adapter.accept(Some(ResponseEvent::TerminalMarker)), Pulled::End));
    assert_eq!(last, 7);
}

#[test]
fn last_snapshot_is_all_fragments_in_order() {
    let fragments = ["The", " quick", " brown", " fox"];
    let mut adapter = StreamAdapter::new();
    let mut last: Vec<u8> = Vec::new();
    for fragment in fragments {
        last = chunk(adapter.accept(unit(fragment)));
    }
    let _ = adapter.accept(Some(ResponseEvent::TerminalMarker));
    assert_eq!(last, fragments.concat().into_bytes());
    assert_eq!(last, b"The quick brown fox".to_vec());
    assert_eq!(adapter.snapshot().to_vec(), last);
}

#[test]
fn offer_takes_what_fits() {
    let mut adapter = StreamAdapter::new();
    match adapter.offer(unit("ab")) {
        Ok(Pulled::Chunk(bytes)) => assert_eq!(bytes.to_vec(), b"ab".to_vec()),
        _ => panic!("expected a chunk"),
    }
    assert!(matches!(adapter.offer(Some(ResponseEvent::Other("n".to_string()))), Ok(Pulled::Skipped)));
    assert!(matches!(adapter.offer(Some(ResponseEvent::TerminalMarker)), Ok(Pulled::End)));
    assert!(matches!(adapter.offer(unit("late")), Ok(Pulled::End)));
    assert_eq!(adapter.status(), Status::Completed);
    assert_eq!(adapter.len(), 2);
}

#[test]
fn pull_takes_one_value_at_a_time() {
    let (tx, rx) = sync_channel::<ResponseEvent>(8);
    tx.send(ResponseEvent::PartialUnit("I'm".to_string())).expect("room");
    tx.send(ResponseEvent::Other("n".to_string())).expect("room");
    tx.send(ResponseEvent::PartialUnit(" here".to_string())).expect("room");
    tx.send(ResponseEvent::TerminalMarker).expect("room");
    tx.send(ResponseEvent::PartialUnit("next".to_string())).expect("room");
    let mut adapter = StreamAdapter::new();
    match adapter.pull(&rx) {
        Ok(Pulled::Chunk(bytes)) => assert_eq!(bytes.to_vec(), b"I'm".to_vec()),
        _ => panic!("expected a chunk"),
    }
    assert!(matches!(adapter.pull(&rx), Ok(Pulled::Skipped)));
    match adapter.pull(&rx) {
        Ok(Pulled::Chunk(bytes)) => assert_eq!(bytes.to_vec(), b"I'm here".to_vec()),
        _ => panic!("expected a chunk"),
    }
    assert!(matches!(adapter.pull(&rx), Ok(Pulled::End)));
    assert_eq!(adapter.status(), Status::Completed);
}

#[test]
fn pull_after_the_end_leaves_the_channel_alone() {
    let (tx, rx) = sync_channel::<ResponseEvent>(8);
    tx.send(ResponseEvent::TerminalMarker).expect("room");
    tx.send(ResponseEvent::PartialUnit("next".to_string())).expect("room");
    tx.send(ResponseEvent::TerminalMarker).expect("room");
    let mut first = StreamAdapter::new();
    assert!(matches!(first.pull(&rx), Ok(Pulled::End)));
    assert!(matches!(first.pull(&rx), Ok(Pulled::End)));
    assert!(matches!(first.pull(&rx), Ok(Pulled::End)));
    assert_eq!(first.len(), 0);
    let mut second = StreamAdapter::new();
    match second.pull(&rx) {
        Ok(Pulled::Chunk(bytes)) => assert_eq!(bytes.to_vec(), b"next".to_vec()),
        _ => panic!("the next response must still be on the channel"),
    }
    assert!(matches!(second.pull(&rx), Ok(Pulled::End)));
    assert_eq!(second.status(), Status::Completed);
}

#[test]
fn pull_from_a_closed_channel_ends_abnormally() {
    let (tx, rx) = sync_channel::<ResponseEvent>(2);
    tx.send(ResponseEvent::PartialUnit("cut".to_string())).expect("room");
    drop(tx);
    let mut adapter = StreamAdapter::new();
    assert!(matches!(adapter.pull(&rx), Ok(Pulled::Chunk(_))));
    assert!(matches!(adapter.pull(&rx), Ok(Pulled::End)));
    assert_eq!(adapter.status(), Status::Disconnected);
    assert!(adapter.ended_abnormally());
}
