use grouse_roam_core::capi::{
    c_param, c_str, err_str, grc_card_fingerprint, grc_card_fingerprint_reply,
    grc_identity_generate, grc_identity_public_key, grc_roam_connect, grc_stream_cancel,
    grc_stream_read, grc_stream_shutdown, grc_stream_write, grc_stream_write_reply, CardCall,
    WriteCall,
};
use grouse_roam_core::connect::{connect_step, ConnectStep};
use grouse_roam_core::writing::WriteStep;
use grouse_roam_core::{RoamError, RoamStream};

const SECRET: &[u8] = b"AAAAAAAAAAAAAAAAAAAAAAAAAAAAAAAAAAAAAAAAAAA=";

fn connected() -> RoamStream {
    let mut step = grc_roam_connect(Some(SECRET), Some(b"card"), Some(b"desk"));
    loop {
        step = match step {
            ConnectStep::DecodeCard { card, then } => {
                assert_eq!(card, "card");
                connect_step(then, Ok(()))
            }
            ConnectStep::Bind { then, .. } => connect_step(then, Ok(())),
            ConnectStep::Dial { card, label, then } => {
                assert_eq!(card, "card");
                assert_eq!(label, Some("desk".to_string()));
                connect_step(then, Ok(()))
            }
            ConnectStep::Finished(Ok(stream)) => return stream,
            ConnectStep::Finished(Err(e)) => panic!("{}", e.to_string()),
        };
    }
}

fn message(text: &str) -> RoamError {
    RoamError::Message(text.to_string())
}

#[test]
fn text_that_comes_in() {
    assert_eq!(c_param(None), None);
    assert_eq!(c_param(Some(b"")), Some(""));
    assert_eq!(c_param(Some("gr\u{fc}n \u{1f426}".as_bytes())), Some("gr\u{fc}n \u{1f426}"));
    assert_eq!(c_param(Some(b"\xff")), None);
    assert_eq!(c_param(Some(b"\xed\xa0\x80")), None);
    assert_eq!(c_param(Some(b"\xc0\x80")), None);
}

#[test]
fn text_that_goes_out() {
    assert_eq!(c_str(""), None);
    assert_eq!(c_str(" "), Some(" ".to_string()));
    assert_eq!(c_str("gr\u{fc}n"), Some("gr\u{fc}n".to_string()));
    assert_eq!(c_str("a\0b"), None);
    assert_eq!(err_str(&message("write: x")), Some("write: x".to_string()));
    assert_eq!(err_str(&message("\0")), None);
    assert_eq!(err_str(&message("")), None);
}

#[test]
fn generated_identity_is_accepted() {
    let secret = grc_identity_generate().unwrap();
    let reply = grc_identity_public_key(Some(secret.as_bytes()));
    assert_eq!(reply.value.unwrap().len(), 64);
    assert_eq!(reply.error, None);
}

#[test]
fn public_key_or_error() {
    let reply = grc_identity_public_key(Some(SECRET));
    assert_eq!(
        reply.value,
        Some("3b6a27bcceb6a42d62a3a8d02a6f0d73653215771de243a63ac048a18b59da29".to_string())
    );
    assert_eq!(reply.error, None);
    for missing in [None, Some(&b"\xff"[..])] {
        let reply = grc_identity_public_key(missing);
        assert_eq!(reply.value, None);
        assert_eq!(reply.error, Some("secret is null".to_string()));
    }
    let reply = grc_identity_public_key(Some(b"not-base64!!"));
    assert_eq!(reply.value, None);
    assert_eq!(
        reply.error,
        Some("invalid identity: Invalid symbol 45, offset 3.".to_string())
    );
    let reply = grc_identity_public_key(Some(b""));
    assert_eq!(reply.value, None);
    assert_eq!(reply.error, Some("identity must be 32 bytes".to_string()));
}

#[test]
fn fingerprint_or_error() {
    match grc_card_fingerprint(None) {
        CardCall::Reply(reply) => {
            assert_eq!(reply.value, None);
            assert_eq!(reply.error, Some("card is null".to_string()));
        }
        CardCall::Decode(_) => panic!("there is no card to decode"),
    }
    assert!(matches!(grc_card_fingerprint(Some(b"junk")), CardCall::Decode(card) if card == "junk"));
    let reply = grc_card_fingerprint_reply(Ok("ab:cd".to_string()));
    assert_eq!(reply.value, Some("ab:cd".to_string()));
    assert_eq!(reply.error, None);
    let reply = grc_card_fingerprint_reply(Err("bad prefix".to_string()));
    assert_eq!(reply.value, None);
    assert_eq!(reply.error, Some("invalid card: bad prefix".to_string()));
}

#[test]
fn connecting_needs_a_secret_and_a_card() {
    for (secret, card) in [(None, Some(&b"card"[..])), (Some(SECRET), None), (None, None)] {
        match grc_roam_connect(secret, card, None) {
            ConnectStep::Finished(Err(e)) => assert_eq!(e.to_string(), "secret/card is null"),
            _ => panic!("expected a refusal"),
        }
    }
    // The label may be missing.
    match grc_roam_connect(Some(SECRET), Some(b"card"), None) {
        ConnectStep::DecodeCard { .. } => {}
        _ => panic!("expected the card to be decoded"),
    }
}

#[test]
fn a_read_fills_the_buffer_from_the_front() {
    let mut s = connected();
    let mut buf = [9u8; 4];
    assert!(grc_stream_read(Some(&mut s), Some(&mut buf)).is_none());
    s.receive(b"abcdef", Some(6));
    let reply = grc_stream_read(Some(&mut s), Some(&mut buf)).unwrap();
    assert_eq!((reply.count, reply.error), (4, None));
    assert_eq!(&buf, b"abcd");
    let reply = grc_stream_read(Some(&mut s), Some(&mut buf)).unwrap();
    assert_eq!((reply.count, reply.error), (2, None));
    assert_eq!(&buf, b"efcd");
    s.receive(b"", Some(0));
    let reply = grc_stream_read(Some(&mut s), Some(&mut buf)).unwrap();
    assert_eq!((reply.count, reply.error), (0, None));
    assert_eq!(&buf, b"efcd");
}

#[test]
fn a_read_that_fails_leaves_the_buffer_alone() {
    let mut s = connected();
    let mut buf = [9u8; 4];
    grc_stream_cancel(Some(&mut s));
    let reply = grc_stream_read(Some(&mut s), Some(&mut buf)).unwrap();
    assert_eq!((reply.count, reply.error), (-1, Some("cancelled".to_string())));
    let missing = || Some("stream/buffer is null".to_string());
    let reply = grc_stream_read(None, Some(&mut buf)).unwrap();
    assert_eq!((reply.count, reply.error), (-1, missing()));
    let reply = grc_stream_read(Some(&mut s), None).unwrap();
    assert_eq!((reply.count, reply.error), (-1, missing()));
    let reply = grc_stream_read(None, None).unwrap();
    assert_eq!((reply.count, reply.error), (-1, missing()));
    assert_eq!(buf, [9u8; 4]);
}

#[test]
fn a_write_needs_a_stream_and_its_bytes() {
    let mut s = connected();
    assert!(matches!(
        grc_stream_write(Some(&s), Some(b"hi"), 2),
        WriteCall::Write(WriteStep::WriteAll { data, .. }) if data == b"hi"
    ));
    assert!(matches!(
        grc_stream_write(Some(&s), None, 0),
        WriteCall::Write(WriteStep::WriteAll { data, .. }) if data.is_empty()
    ));
    for call in [
        grc_stream_write(Some(&s), None, 1),
        grc_stream_write(None, Some(b"hi"), 2),
        grc_stream_write(None, None, 0),
    ] {
        match call {
            WriteCall::Reply(r) => {
                assert_eq!((r.count, r.error), (0, Some("stream/buffer is null".to_string())));
            }
            WriteCall::Write(_) => panic!("expected a refusal"),
        }
    }
    grc_stream_shutdown(Some(&mut s));
    assert!(matches!(
        grc_stream_write(Some(&s), Some(b"hi"), 2),
        WriteCall::Write(WriteStep::Finished(Err(e))) if e.to_string() == "stream closed"
    ));
}

#[test]
fn a_write_is_answered_with_a_status() {
    let reply = grc_stream_write_reply(Ok(()));
    assert_eq!((reply.count, reply.error), (1, None));
    let reply = grc_stream_write_reply(Err(message("write: broken")));
    assert_eq!((reply.count, reply.error), (0, Some("write: broken".to_string())));
}

#[test]
fn a_missing_stream_is_left_alone() {
    grc_stream_cancel(None);
    grc_stream_shutdown(None);
}
