//! The surface for callers that speak C: pointers that may be null, C strings, status codes.
//!
//! A pointer is an `Option` here and a C string the bytes before its terminator. A text that
//! goes back to such a caller is not empty and holds no zero byte. A failure comes with a
//! message, a success with none.

use vstd::prelude::*;

use crate::card;
use crate::connect;
use crate::connect::{ConnectState, ConnectStep};
use crate::error;
use crate::error::RoamError;
use crate::identity;
use crate::stream::{ChunkView, RoamStream, StreamState};
use crate::text;
use crate::writing::{WriteState, WriteStep};

verus! {

/// The text that a C string holds; none for a null pointer or bytes that are not UTF-8.
pub open spec fn c_text(p: Option<Seq<u8>>) -> Option<Seq<char>> {
    match p {
        Some(bytes) if vstd::utf8::valid_utf8(bytes) => Some(vstd::utf8::decode_utf8(bytes)),
        _ => None,
    }
}

/// The bytes behind a pointer, if it is not null.
pub open spec fn pointed_to(p: Option<&[u8]>) -> Option<Seq<u8>> {
    match p {
        Some(bytes) => Some(bytes@),
        None => None,
    }
}

/// The text as it is handed out as a C string: as it is, or not at all where it is empty or
/// holds a zero.
pub open spec fn c_string(s: Seq<char>) -> Option<Seq<char>> {
    if s.len() == 0 || s.contains('\0') {
        None
    } else {
        Some(s)
    }
}

/// The text of `p`, if it holds any.
pub fn c_param(p: Option<&[u8]>) -> (r: Option<&str>)
    ensures
        match r {
            Some(s) => c_text(pointed_to(p)) == Some(s@),
            None => c_text(pointed_to(p)) is None,
        },
        r is Some <==> p is Some && vstd::utf8::valid_utf8(p->0@),
        r matches Some(s) ==> s@ == vstd::utf8::decode_utf8(p->0@),
{
    match p {
        None => None,
        Some(bytes) => text::utf8_text(bytes),
    }
}

/// The text to hand out as a C string.
pub fn c_str(s: &str) -> (r: Option<String>)
    ensures
        text::optional_text(r) == c_string(s@),
        r is None <==> s@.len() == 0 || s@.contains('\0'),
        r matches Some(t) ==> t@ == s@,
{
    if s.is_empty() {
        return None;
    }
    for c in it: s.chars()
        invariant
            it.seq() == s@,
            forall|j: int| 0 <= j < it.index() ==> s@[j] != '\0',
    {
        if c == '\0' {
            return None;
        }
    }
    Some(s.to_owned())
}

/// What a call answers that hands out a text: the text, or null with the message of the error
/// beside it.
pub struct TextReply {
    pub value: Option<String>,
    pub error: Option<String>,
}

/// A reply with a text, as a mathematical value.
pub struct TextReplyView {
    pub value: Option<Seq<char>>,
    pub error: Option<Seq<char>>,
}

impl View for TextReply {
    type V = TextReplyView;

    open spec fn view(&self) -> TextReplyView {
        TextReplyView {
            value: text::optional_text(self.value),
            error: text::optional_text(self.error),
        }
    }
}

/// The reply to a call that ends with `r`.
pub open spec fn text_reply(r: Result<Seq<char>, Seq<char>>) -> TextReplyView {
    match r {
        Ok(value) => TextReplyView { value: c_string(value), error: None },
        Err(message) => TextReplyView { value: None, error: c_string(message) },
    }
}

/// The reply to a call that ends with `r`, where the text of `r` can be handed out.
pub open spec fn whole_reply(r: Result<Seq<char>, Seq<char>>) -> TextReplyView {
    match r {
        Ok(value) => TextReplyView { value: Some(value), error: None },
        Err(message) => TextReplyView { value: None, error: Some(message) },
    }
}

/// What a call answers that moves bytes: a count or a status, and the message of an error.
pub struct CountReply {
    pub count: i64,
    pub error: Option<String>,
}

/// The message of `e`, to hand out as a C string.
pub fn err_str(e: &RoamError) -> (r: Option<String>)
    ensures
        text::optional_text(r) == c_string(e@),
        *e matches RoamError::Message(m) && (r is None <==> m@.len() == 0 || m@.contains('\0'))
            && (r matches Some(t) ==> t@ == m@),
{
    c_str(&e.to_string())
}

fn reply_with_text(r: Result<String, RoamError>) -> (reply: TextReply)
    ensures
        reply@ == text_reply(
            match r {
                Ok(value) => Ok(value@),
                Err(e) => Err(e@),
            },
        ),
{
    match r {
        Ok(value) => TextReply { value: c_str(&value), error: None },
        Err(e) => TextReply { value: None, error: err_str(&e) },
    }
}

/// A fresh secret key, as base64 text.
pub fn grc_identity_generate() -> (r: Option<String>)
    ensures
        r matches Some(secret_b64) && identity::secret_of(secret_b64@) is Ok && exists|
            secret: Seq<u8>,
        |
            secret.len() == 32 && secret_b64@ == #[trigger] crate::base64_text::base64_text(secret),
{
    let secret_b64 = identity::identity_generate();
    proof {
        let secret = choose|secret: Seq<u8>|
            secret.len() == 32 && secret_b64@ == #[trigger] crate::base64_text::base64_text(secret);
        law_identity_is_handed_out(secret);
    }
    c_str(&secret_b64)
}

/// The public key of a secret key, in hexadecimal.
pub fn grc_identity_public_key(secret: Option<&[u8]>) -> (reply: TextReply)
    ensures
        reply@ == whole_reply(
            match c_text(pointed_to(secret)) {
                None => Err("secret is null"@),
                Some(secret_b64) => identity::public_key_of(secret_b64),
            },
        ),
        reply@.value is Some <==> reply@.error is None,
        match secret {
            Some(bytes) if vstd::utf8::valid_utf8(bytes@) => match identity::public_key_of(
                vstd::utf8::decode_utf8(bytes@),
            ) {
                Ok(id) => reply.value is Some && reply.value->0@ == id && reply.error is None,
                Err(m) => reply.value is None && reply.error is Some && reply.error->0@ == m,
            },
            _ => reply.value is None && reply.error is Some && reply.error->0@
                == "secret is null"@,
        },
{
    proof {
        law_messages_are_handed_out(Seq::empty());
    }
    match c_param(secret) {
        None => reply_with_text(Err(error::message("secret is null"))),
        Some(secret_b64) => {
            let r = identity::identity_public_key(secret_b64);
            proof {
                if r is Ok {
                    identity::law_public_key_is_hex(secret_b64@);
                }
                assert(r matches Err(e) ==> e@.len() > 0) by {
                    reveal_strlit("invalid identity: ");
                    reveal_strlit("identity must be 32 bytes");
                }
            }
            reply_with_text(r)
        },
    }
}

/// What to do for the fingerprint of a card.
pub enum CardCall {
    /// Decode this card, and hand the outcome to `grc_card_fingerprint_reply`.
    Decode(String),
    /// Answer this.
    Reply(TextReply),
}

/// The fingerprint of a connection card: the first half, up to the card's decoding.
pub fn grc_card_fingerprint(card: Option<&[u8]>) -> (call: CardCall)
    ensures
        match c_text(pointed_to(card)) {
            None => call matches CardCall::Reply(reply) && reply@ == whole_reply(
                Err("card is null"@),
            ),
            Some(text) => call matches CardCall::Decode(c) && c@ == text,
        },
        match card {
            Some(bytes) if vstd::utf8::valid_utf8(bytes@) => call matches CardCall::Decode(c) && c@
                == vstd::utf8::decode_utf8(bytes@),
            _ => call matches CardCall::Reply(reply) && reply.value is None && reply.error is Some
                && reply.error->0@ == "card is null"@,
        },
{
    proof {
        law_messages_are_handed_out(Seq::empty());
    }
    match c_param(card) {
        None => CardCall::Reply(reply_with_text(Err(error::message("card is null")))),
        Some(text) => CardCall::Decode(text.to_owned()),
    }
}

/// The fingerprint of a connection card: the second half, from the outcome of decoding it.
pub fn grc_card_fingerprint_reply(decoded: Result<String, String>) -> (reply: TextReply)
    ensures
        reply@ == text_reply(
            card::fingerprint_of(
                match decoded {
                    Ok(fingerprint) => Ok(fingerprint@),
                    Err(fault) => Err(fault@),
                },
            ),
        ),
        decoded matches Ok(f) ==> {
            &&& reply.error is None
            &&& reply.value is Some <==> f@.len() > 0 && !f@.contains('\0')
            &&& reply.value matches Some(text) ==> text@ == f@
        },
        decoded matches Err(fault) ==> {
            &&& reply.value is None
            &&& reply.error is Some <==> !fault@.contains('\0')
            &&& reply.error matches Some(m) ==> m@ == "invalid card: "@ + fault@
        },
{
    proof {
        reveal_strlit("invalid card: ");
        if decoded is Err {
            let fault = decoded->Err_0@;
            let message = "invalid card: "@ + fault;
            assert forall|i: int| 0 <= i < fault.len() implies #[trigger] fault[i] == message[14
                + i] by {}
            assert(fault.contains('\0') ==> message.contains('\0'));
        }
    }
    reply_with_text(card::card_fingerprint(decoded))
}

/// The first step of an attempt to connect to the host that `card` names.
pub fn grc_roam_connect(
    secret: Option<&[u8]>,
    card: Option<&[u8]>,
    label: Option<&[u8]>,
) -> (step: ConnectStep)
    ensures
        step@ == match (c_text(pointed_to(secret)), c_text(pointed_to(card))) {
            (Some(s), Some(c)) => connect::connect_begin(s, c, c_text(pointed_to(label))),
            _ => connect::ConnectStepView::Finished(Err("secret/card is null"@)),
        },
        match (secret, card) {
            (Some(s), Some(c)) if vstd::utf8::valid_utf8(s@) && vstd::utf8::valid_utf8(c@) => {
                match identity::secret_of(vstd::utf8::decode_utf8(s@)) {
                    Ok(key) => {
                        &&& step matches ConnectStep::DecodeCard {
                            card: text,
                            then: ConnectState::DecodingCard {
                                secret: k,
                                card: to_dial,
                                label: l,
                            },
                        }
                        &&& text@ == vstd::utf8::decode_utf8(c@) && to_dial@ == text@ && k@ == key
                        &&& l is Some <==> label is Some && vstd::utf8::valid_utf8(label->0@)
                        &&& l matches Some(t) ==> t@ == vstd::utf8::decode_utf8(label->0@)
                    },
                    Err(reason) => step matches ConnectStep::Finished(Err(RoamError::Message(m)))
                        && m@ == reason,
                }
            },
            _ => step matches ConnectStep::Finished(Err(RoamError::Message(m))) && m@
                == "secret/card is null"@,
        },
{
    match (c_param(secret), c_param(card)) {
        (Some(s), Some(c)) => {
            let label = match c_param(label) {
                None => None,
                Some(l) => Some(l.to_owned()),
            };
            connect::roam_connect(s, c, label)
        },
        _ => ConnectStep::Finished(Err(error::message("secret/card is null"))),
    }
}

/// How many bytes a read into a buffer of `cap` bytes may take: as many as there is room for, as
/// far as the count that is handed back can tell them.
pub open spec fn room(cap: nat) -> int {
    if cap > i64::MAX {
        i64::MAX as int
    } else {
        cap as int
    }
}

/// Reads into `buf` as many bytes as it has room for: the count of those that were read, 0 at
/// the end of the stream, -1 and a message on an error or where a pointer is null. `None` while
/// the read has to wait.
pub fn grc_stream_read(stream: Option<&mut RoamStream>, buf: Option<&mut [u8]>) -> (reply: Option<
    CountReply,
>)
    ensures
        match (stream, buf) {
            (Some(s), Some(b)) => {
                let (after, answer) = s@.read(room(b@.len()));
                &&& final(s)@ == after
                &&& final(s)@.well_formed()
                &&& match answer {
                    None => reply is None && final(b)@ == b@,
                    Some(Ok(bytes)) => {
                        &&& reply matches Some(r)
                        &&& r.count == bytes.len() && r.error is None
                        &&& final(b)@ == bytes + b@.skip(bytes.len() as int)
                    },
                    Some(Err(message)) => {
                        &&& reply matches Some(r)
                        &&& r.count == -1 && text::optional_text(r.error) == Some(message)
                        &&& final(b)@ == b@
                    },
                }
            },
            (s, b) => {
                &&& reply matches Some(r)
                &&& r.count == -1 && text::optional_text(r.error) == Some(
                    "stream/buffer is null"@,
                )
                &&& s matches Some(stream) ==> final(stream)@ == stream@
                &&& b matches Some(buf) ==> final(buf)@ == buf@
            },
        },
        reply matches Some(r) ==> (r.count == -1 <==> r.error is Some) && r.count >= -1,
        match (stream, buf) {
            (Some(s), Some(b)) => {
                let count = if reply is Some && reply->0.count >= 0 {
                    reply->0.count as int
                } else {
                    0
                };
                // The bytes that are counted are the oldest that were to be read; what the
                // buffer holds behind them is as it was.
                &&& count <= b@.len() == final(b)@.len()
                &&& final(b)@.take(count) + final(s)@.unread() == s@.unread()
                &&& final(b)@.skip(count) == b@.skip(count)
                // As many as there is room for.
                &&& s@.pending.len() > 0 ==> reply is Some && reply->0.count == if
                    s@.pending.len() <= b@.len() {
                    s@.pending.len() as int
                } else {
                    b@.len() as int
                }
                &&& s@.pending.len() == 0 && !s@.closed && s@.queue.len() > 0 ==> (
                s@.queue[0] matches ChunkView::Data(chunk) ==> reply is Some && reply->0.count
                    == if chunk.len() <= b@.len() {
                    chunk.len() as int
                } else {
                    b@.len() as int
                })
                // None only at the end of the stream.
                &&& b@.len() > 0 ==> (reply is Some && reply->0.count == 0 <==> s@.pending.len()
                    == 0 && (s@.closed || (s@.queue.len() > 0 && s@.queue[0] is Eof)))
            },
            _ => reply is Some && reply->0.count == -1 && reply->0.error->0@
                == "stream/buffer is null"@,
        },
{
    proof {
        law_messages_are_handed_out(Seq::empty());
    }
    match (stream, buf) {
        (Some(s), Some(b)) => {
            let cap: usize = b.len();
            let max: i64 = if cap as u64 > i64::MAX as u64 {
                i64::MAX
            } else {
                cap as i64
            };
            let ghost s0 = s@;
            let ghost b0 = b@;
            let answer = s.read(max);
            proof {
                law_c_reads_fill_the_buffer(s0, b0.len());
                crate::stream_laws::law_read_takes_the_oldest_bytes(s0, max as int);
                assert(b0.take(0) + s@.unread() =~= s@.unread());
            }
            match answer {
                None => None,
                Some(Ok(bytes)) => {
                    let n: usize = bytes.len();
                    let ghost before = b@;
                    for i in 0..n
                        invariant
                            n == bytes@.len() <= before.len() == b@.len(),
                            b@ == bytes@.take(i as int) + before.skip(i as int),
                    {
                        b[i] = bytes[i];
                        assert(b@ =~= bytes@.take(i + 1) + before.skip(i + 1));
                    }
                    assert(bytes@.take(n as int) =~= bytes@);
                    assert(b@.take(n as int) =~= bytes@);
                    assert(b@.skip(n as int) =~= before.skip(n as int));
                    Some(CountReply { count: n as i64, error: None })
                },
                Some(Err(e)) => Some(CountReply { count: -1, error: err_str(&e) }),
            }
        },
        _ => Some(CountReply { count: -1, error: c_str("stream/buffer is null") }),
    }
}

/// What to do for a write.
pub enum WriteCall {
    /// Take the steps of this write, and hand its result to `grc_stream_write_reply`.
    Write(WriteStep),
    /// Answer this.
    Reply(CountReply),
}

/// Writes the bytes at `buf`: the first step. A null pointer is accepted where the caller's
/// `len` says that there are none; otherwise a call without a stream or without bytes is refused
/// with status 0 and a message.
pub fn grc_stream_write(stream: Option<&RoamStream>, buf: Option<&[u8]>, len: usize) -> (call:
    WriteCall)
    ensures
        match (stream, buf) {
            (Some(s), Some(b)) => call matches WriteCall::Write(step) && step@
                == crate::writing::write_begin(s@.write_open, b@),
            (Some(s), None) if len == 0 => call matches WriteCall::Write(step) && step@
                == crate::writing::write_begin(s@.write_open, seq![]),
            _ => call matches WriteCall::Reply(r) && r.count == 0 && text::optional_text(r.error)
                == Some("stream/buffer is null"@),
        },
        match (stream, buf) {
            (Some(s), Some(b)) if s@.write_open => call matches WriteCall::Write(
                WriteStep::WriteAll { data, then: WriteState::Writing },
            ) && data@ == b@,
            (Some(s), None) if len == 0 && s@.write_open => call matches WriteCall::Write(
                WriteStep::WriteAll { data, then: WriteState::Writing },
            ) && data@.len() == 0,
            (Some(s), b) if b is Some || len == 0 => call matches WriteCall::Write(
                WriteStep::Finished(Err(RoamError::Message(m))),
            ) && m@ == "stream closed"@,
            _ => call matches WriteCall::Reply(r) && r.count == 0 && r.error is Some
                && r.error->0@ == "stream/buffer is null"@,
        },
{
    proof {
        law_messages_are_handed_out(Seq::empty());
    }
    match stream {
        None => WriteCall::Reply(CountReply { count: 0, error: c_str("stream/buffer is null") }),
        Some(s) => match buf {
            Some(b) => WriteCall::Write(s.write(vstd::slice::slice_to_vec(b))),
            None => if len > 0 {
                WriteCall::Reply(CountReply { count: 0, error: c_str("stream/buffer is null") })
            } else {
                WriteCall::Write(s.write(Vec::new()))
            },
        },
    }
}

/// The reply to a write: status 1 if all was written, 0 with a message if not.
pub fn grc_stream_write_reply(result: Result<(), RoamError>) -> (reply: CountReply)
    ensures
        match result {
            Ok(()) => reply.count == 1 && reply.error is None,
            Err(e) => reply.count == 0 && text::optional_text(reply.error) == c_string(e@),
        },
        reply.count == 1 <==> result is Ok,
        result matches Err(RoamError::Message(m)) ==> {
            &&& reply.error is Some <==> m@.len() > 0 && !m@.contains('\0')
            &&& reply.error matches Some(text) ==> text@ == m@
        },
{
    match result {
        Ok(()) => CountReply { count: 1, error: None },
        Err(e) => CountReply { count: 0, error: err_str(&e) },
    }
}

/// Interrupts a read that waits; does nothing for a null pointer.
pub fn grc_stream_cancel(stream: Option<&mut RoamStream>)
    ensures
        stream matches Some(s) ==> final(s)@ == s@.cancel() && final(s)@.well_formed(),
{
    match stream {
        None => {},
        Some(s) => s.cancel(),
    }
}

/// Drops the write half, while reads go on until the end of the stream; does nothing for a
/// null pointer.
pub fn grc_stream_shutdown(stream: Option<&mut RoamStream>)
    ensures
        stream matches Some(s) ==> final(s)@ == s@.shutdown() && final(s)@.well_formed(),
{
    match stream {
        None => {},
        Some(s) => s.shutdown(),
    }
}

/// A call that hands out a text never hands out a message as well: on success the error stays
/// null, on failure the text does. Where the text of `r` is not empty and holds no zero, it is
/// handed out as it is.
pub proof fn law_reply_is_a_text_or_an_error(r: Result<Seq<char>, Seq<char>>)
    ensures
        r is Ok ==> text_reply(r).error is None,
        r is Err ==> text_reply(r).value is None,
        ({
            let text = match r {
                Ok(value) => value,
                Err(message) => message,
            };
            text.len() > 0 && !text.contains('\0') ==> text_reply(r) == whole_reply(r)
        }),
{
}

/// A fingerprint call hands out the fingerprint or the message of the failure, never both or
/// neither, where the card's decoder gives a text that a C string can hold.
pub proof fn law_fingerprint_or_message(decoded: Result<Seq<char>, Seq<char>>)
    requires
        match decoded {
            Ok(fingerprint) => fingerprint.len() > 0 && !fingerprint.contains('\0'),
            Err(fault) => !fault.contains('\0'),
        },
    ensures
        text_reply(card::fingerprint_of(decoded)) == whole_reply(card::fingerprint_of(decoded)),
{
    if decoded is Err {
        law_messages_are_handed_out(decoded->Err_0);
    }
}

/// Every message of the library can be handed out, as far as the words of an outside failure
/// that it quotes can be.
pub proof fn law_messages_are_handed_out(fault: Seq<char>)
    requires
        !fault.contains('\0'),
    ensures
        c_string("secret is null"@) == Some("secret is null"@),
        c_string("card is null"@) == Some("card is null"@),
        c_string("secret/card is null"@) == Some("secret/card is null"@),
        c_string("stream/buffer is null"@) == Some("stream/buffer is null"@),
        c_string("identity must be 32 bytes"@) == Some("identity must be 32 bytes"@),
        c_string("stream closed"@) == Some("stream closed"@),
        c_string("cancelled"@) == Some("cancelled"@),
        c_string("invalid identity: "@ + fault) == Some("invalid identity: "@ + fault),
        c_string("invalid card: "@ + fault) == Some("invalid card: "@ + fault),
        c_string("bind: "@ + fault) == Some("bind: "@ + fault),
        c_string("connect: "@ + fault) == Some("connect: "@ + fault),
        c_string("write: "@ + fault) == Some("write: "@ + fault),
{
    reveal_strlit("secret is null");
    reveal_strlit("card is null");
    reveal_strlit("secret/card is null");
    reveal_strlit("stream/buffer is null");
    reveal_strlit("identity must be 32 bytes");
    reveal_strlit("stream closed");
    reveal_strlit("cancelled");
    reveal_strlit("invalid identity: ");
    reveal_strlit("invalid card: ");
    reveal_strlit("bind: ");
    reveal_strlit("connect: ");
    reveal_strlit("write: ");
}

/// The identity text of a key is handed out as it is.
pub proof fn law_identity_is_handed_out(secret: Seq<u8>)
    requires
        secret.len() == 32,
    ensures
        c_string(crate::base64_text::base64_text(secret)) == Some(
            crate::base64_text::base64_text(secret),
        ),
{
    crate::base64_text::law_base64_chars(secret);
    crate::base64_text::law_base64_length(secret);
}

/// A read into a buffer of `cap` bytes takes as much of the chunk at the front as the buffer has
/// room for; with room for a byte, it takes none exactly at the end of the stream.
pub proof fn law_c_reads_fill_the_buffer(s: StreamState, cap: nat)
    requires
        s.well_formed(),
    ensures
        cap <= 0x7fff_ffff_ffff_ffff ==> room(cap) == cap,
        s.pending.len() == 0 && !s.closed && s.queue.len() > 0 ==> (
        s.queue[0] matches ChunkView::Data(chunk) ==> s.read(room(cap)).1 is Some && s.read(
            room(cap),
        ).1->0 is Ok && s.read(room(cap)).1->0->Ok_0.len() == if chunk.len() <= cap {
            chunk.len()
        } else {
            cap
        }),
        s.pending.len() > 0 ==> s.read(room(cap)).1 is Some && s.read(room(cap)).1->0 is Ok
            && s.read(room(cap)).1->0->Ok_0.len() == if s.pending.len() <= cap {
            s.pending.len()
        } else {
            cap
        },
        cap > 0 ==> (s.read(room(cap)).1 == Some(Ok::<Seq<u8>, Seq<char>>(seq![]))
            <==> s.pending.len() == 0 && (s.closed || (s.queue.len() > 0 && s.queue[0] is Eof))),
        cap > 0 ==> (s.read(room(cap)).1 is Some && s.read(room(cap)).1->0 is Ok && s.read(
            room(cap),
        ).1->0->Ok_0.len() == 0 <==> s.pending.len() == 0 && (s.closed || (s.queue.len() > 0
            && s.queue[0] is Eof))),
{
    if cap > 0 {
        crate::stream_laws::law_no_bytes_mean_the_end(s, room(cap));
    }
    assert(forall|bytes: Seq<u8>| bytes.len() == 0 ==> bytes =~= seq![]);
}

/// What comes in as a C string is the text that its bytes encode, if there is a pointer and they
/// encode any.
pub proof fn law_what_a_c_string_holds(p: Option<&[u8]>)
    ensures
        c_text(pointed_to(p)) is Some <==> p is Some && vstd::utf8::valid_utf8(p->0@),
        c_text(pointed_to(p)) is Some ==> c_text(pointed_to(p))->0 == vstd::utf8::decode_utf8(
            p->0@,
        ),
{
}

/// What goes out as a C string is the text itself; only an empty one or one with a zero in it is
/// withheld.
pub proof fn law_what_goes_out_as_a_c_string(s: Seq<char>)
    ensures
        c_string(s) is None <==> s.len() == 0 || s.contains('\0'),
        c_string(s) matches Some(t) ==> t == s,
{
}

/// A success is answered with its text and no message, a failure with its message and no text.
pub proof fn law_what_a_reply_carries(text: Seq<char>)
    ensures
        text_reply(Ok(text)).error is None,
        text_reply(Err(text)).value is None,
        text_reply(Ok(text)).value == text_reply(Err(text)).error,
        text.len() > 0 && !text.contains('\0') ==> text_reply(Ok(text)).value == Some(text),
        whole_reply(Ok(text)).value == Some(text) && whole_reply(Ok(text)).error is None,
        whole_reply(Err(text)).error == Some(text) && whole_reply(Err(text)).value is None,
{
}

/// A reply is seen as what it is.
pub proof fn law_a_reply_is_seen_whole(reply: TextReply)
    ensures
        reply.value is None <==> reply@.value is None,
        reply.error is None <==> reply@.error is None,
        reply.value matches Some(text) ==> reply@.value == Some(text@),
        reply.error matches Some(text) ==> reply@.error == Some(text@),
{
}

} // verus!
