use grouse_roam_core::connect::{connect_step, ConnectStep};
use grouse_roam_core::stream::READ_BUFFER;
use grouse_roam_core::writing::{write_step, WriteState, WriteStep};
use grouse_roam_core::{roam_connect, RoamStream};

/// A stream that has just been opened.
fn opened() -> RoamStream {
    let mut step = roam_connect("AAAAAAAAAAAAAAAAAAAAAAAAAAAAAAAAAAAAAAAAAAA=", "", None);
    loop {
        step = match step {
            ConnectStep::DecodeCard { then, .. } => connect_step(then, Ok(())),
            ConnectStep::Bind { then, .. } => connect_step(then, Ok(())),
            ConnectStep::Dial { then, .. } => connect_step(then, Ok(())),
            ConnectStep::Finished(Ok(stream)) => return stream,
            ConnectStep::Finished(Err(e)) => panic!("{}", e.to_string()),
        };
    }
}

fn arrive(stream: &mut RoamStream, bytes: &[u8]) -> bool {
    stream.receive(bytes, Some(bytes.len()))
}

/// The bytes of a read that neither waits nor fails.
fn bytes(stream: &mut RoamStream, max: i64) -> Vec<u8> {
    stream.read(max).unwrap().unwrap()
}

/// The message of a read that fails.
fn failure(stream: &mut RoamStream, max: i64) -> String {
    stream.read(max).unwrap().unwrap_err().to_string()
}

#[test]
fn excess_bytes_are_kept_for_the_next_read() {
    let mut s = opened();
    assert!(arrive(&mut s, b"hello"));
    assert_eq!(bytes(&mut s, 2), b"he");
    assert_eq!(bytes(&mut s, 2), b"ll");
    assert_eq!(bytes(&mut s, 2), b"o");
    assert!(s.read(2).is_none());
}

#[test]
fn a_read_does_not_join_chunks() {
    let mut s = opened();
    arrive(&mut s, b"one");
    arrive(&mut s, b"two");
    assert_eq!(bytes(&mut s, 100), b"one");
    assert_eq!(bytes(&mut s, i64::MAX), b"two");
}

#[test]
fn only_the_bytes_that_were_read_are_queued() {
    let mut s = opened();
    let buf = vec![7u8; READ_BUFFER];
    assert_eq!(READ_BUFFER, 16384);
    assert!(s.receive(&buf, Some(3)));
    assert_eq!(bytes(&mut s, 100), [7, 7, 7]);
}

#[test]
fn a_read_without_room_takes_nothing() {
    let mut s = opened();
    assert!(s.read(0).is_none());
    arrive(&mut s, b"x");
    assert!(bytes(&mut s, 0).is_empty());
    assert!(bytes(&mut s, -5).is_empty());
    assert!(bytes(&mut s, i64::MIN).is_empty());
    assert_eq!(bytes(&mut s, 1), b"x");
}

#[test]
fn the_end_of_the_stream_is_an_empty_read() {
    let mut s = opened();
    assert!(arrive(&mut s, b"last"));
    // The reader stops at the end.
    assert!(!arrive(&mut s, b""));
    assert_eq!(bytes(&mut s, 100), b"last");
    assert!(bytes(&mut s, 100).is_empty());
    // And it stays the end, whatever follows.
    s.cancel();
    s.shutdown();
    assert!(!arrive(&mut s, b"late"));
    assert!(bytes(&mut s, 100).is_empty());
}

#[test]
fn a_lost_connection_is_an_error() {
    let mut s = opened();
    assert!(arrive(&mut s, b"some"));
    assert!(!s.receive(b"", None));
    assert!(!arrive(&mut s, b"late"));
    assert_eq!(bytes(&mut s, 100), b"some");
    assert_eq!(failure(&mut s, 100), "stream closed");
    // An interruption is still possible; after it nothing can arrive any more.
    assert!(s.read(100).is_none());
    s.cancel();
    assert_eq!(failure(&mut s, 100), "cancelled");
    assert_eq!(failure(&mut s, 100), "stream closed");
    assert_eq!(failure(&mut s, 100), "stream closed");
}

#[test]
fn reads_continue_after_shutdown() {
    let mut s = opened();
    arrive(&mut s, b"before");
    s.shutdown();
    assert!(arrive(&mut s, b"after"));
    assert_eq!(bytes(&mut s, 100), b"before");
    assert_eq!(bytes(&mut s, 100), b"after");
    assert!(s.read(100).is_none());
    arrive(&mut s, b"");
    assert!(bytes(&mut s, 100).is_empty());
}

#[test]
fn cancel_interrupts_a_read_that_waits() {
    let mut s = opened();
    assert!(s.read(10).is_none());
    s.cancel();
    assert_eq!(failure(&mut s, 10), "cancelled");
    // The second one has nothing left to interrupt with.
    s.cancel();
    assert!(s.read(10).is_none());
    // The stream itself goes on.
    assert!(arrive(&mut s, b"still here"));
    assert_eq!(bytes(&mut s, 10), b"still here");
}

#[test]
fn cancel_loses_no_bytes() {
    let mut s = opened();
    arrive(&mut s, b"abc");
    s.cancel();
    arrive(&mut s, b"def");
    assert_eq!(bytes(&mut s, 2), b"ab");
    assert_eq!(bytes(&mut s, 2), b"c");
    assert_eq!(failure(&mut s, 2), "cancelled");
    assert_eq!(bytes(&mut s, 9), b"def");
}

#[test]
fn cancel_comes_after_the_chunks_that_wait() {
    let mut s = opened();
    let full = vec![5u8; READ_BUFFER];
    arrive(&mut s, b"abc");
    arrive(&mut s, &full);
    arrive(&mut s, b"z");
    assert_eq!(bytes(&mut s, 1), b"a");
    s.cancel();
    let room = READ_BUFFER as i64;
    assert_eq!(bytes(&mut s, room), b"bc");
    assert_eq!(bytes(&mut s, room), full);
    assert_eq!(bytes(&mut s, room), b"z");
    assert_eq!(failure(&mut s, room), "cancelled");
    // Once only, however often it is asked for.
    s.cancel();
    assert!(s.read(room).is_none());
}

#[test]
fn bytes_come_out_in_the_order_in_which_they_came_in() {
    let mut s = opened();
    let mut sent: Vec<u8> = Vec::new();
    let mut got: Vec<u8> = Vec::new();
    for i in 0..200u32 {
        let chunk: Vec<u8> = (0..(i % 7 + 1)).map(|k| (i * 3 + k) as u8).collect();
        sent.extend_from_slice(&chunk);
        arrive(&mut s, &chunk);
        if i == 50 {
            s.shutdown();
        }
        while got.len() + 10 < sent.len() {
            got.extend(bytes(&mut s, i64::from(i % 5 + 1)));
        }
    }
    arrive(&mut s, b"");
    loop {
        let more = bytes(&mut s, 3);
        if more.is_empty() {
            break;
        }
        got.extend(more);
    }
    assert_eq!(got, sent);
}

#[test]
fn a_write_is_handed_over_and_flushed() {
    let s = opened();
    let then = match s.write(b"frame".to_vec()) {
        WriteStep::WriteAll { data, then } => {
            assert_eq!(data, b"frame");
            then
        }
        _ => panic!("expected the bytes to be handed over"),
    };
    let then = match write_step(then, Ok(())) {
        WriteStep::Flush { then } => then,
        _ => panic!("expected a flush"),
    };
    assert!(matches!(write_step(then, Ok(())), WriteStep::Finished(Ok(()))));
}

#[test]
fn a_write_failure_is_reported() {
    for state in [WriteState::Writing, WriteState::Flushing] {
        match write_step(state, Err("connection lost".to_string())) {
            WriteStep::Finished(Err(e)) => assert_eq!(e.to_string(), "write: connection lost"),
            _ => panic!("expected a failure"),
        }
    }
}

#[test]
fn nothing_is_written_after_shutdown() {
    let mut s = opened();
    s.shutdown();
    s.shutdown();
    s.cancel();
    match s.write(b"late".to_vec()) {
        WriteStep::Finished(Err(e)) => assert_eq!(e.to_string(), "stream closed"),
        _ => panic!("expected the write to be refused"),
    };
}
