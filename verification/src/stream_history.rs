//! What a stream does, told from its history alone: which operations were performed on it since
//! it was opened, and what its reads have answered.

use vstd::prelude::*;

use crate::stream::{ChunkView, StreamState, READ_BUFFER};
use crate::stream_laws::Operation;
use crate::writing::{WriteState, WriteStepView};

verus! {

/// Whether the operation is the last that a reader reports: the end of the stream, or a failure.
pub open spec fn ends_the_reader(op: Operation) -> bool {
    op == Operation::Receive(seq![]) || op == Operation::Lose
}

/// The bytes that the peer has sent: those of every `Receive`, up to the first operation that
/// ends the reader.
pub open spec fn received(ops: Seq<Operation>) -> Seq<u8>
    decreases ops.len(),
{
    if ops.len() == 0 || ends_the_reader(ops[0]) {
        seq![]
    } else {
        (match ops[0] {
            Operation::Receive(bytes) => bytes,
            _ => seq![],
        }) + received(ops.skip(1))
    }
}

/// Whether `op` does not occur in `ops`.
pub open spec fn without(ops: Seq<Operation>, op: Operation) -> bool {
    forall|i: int| 0 <= i < ops.len() ==> #[trigger] ops[i] != op
}

/// A stream that has just been opened holds nothing, has its write half and a reader, and can be
/// interrupted.
pub proof fn law_an_opened_stream_is_fresh()
    ensures
        StreamState::opened().pending.len() == 0,
        StreamState::opened().queue.len() == 0,
        !StreamState::opened().closed,
        StreamState::opened().write_open,
        StreamState::opened().cancel_armed,
        StreamState::opened().reader_live,
{
}

/// Only a shutdown drops the write half, and it does nothing else.
pub proof fn law_only_shutdown_drops_the_write_half(s: StreamState, op: Operation)
    ensures
        op is Shutdown ==> !op.apply(s).write_open,
        !(op is Shutdown) ==> op.apply(s).write_open == s.write_open,
        s.shutdown().pending == s.pending,
        s.shutdown().queue == s.queue,
        s.shutdown().closed == s.closed,
        s.shutdown().cancel_armed == s.cancel_armed,
        s.shutdown().reader_live == s.reader_live,
{
}

/// Only a cancel uses the interruption up. The first one queues it behind all that waits, a
/// further one does nothing, and neither touches the bytes, the write half or the reader.
pub proof fn law_only_cancel_uses_the_interruption_up(s: StreamState, op: Operation)
    ensures
        op is Cancel ==> !op.apply(s).cancel_armed,
        !(op is Cancel) ==> op.apply(s).cancel_armed == s.cancel_armed,
        s.cancel().queue == if s.cancel_armed {
            s.queue + seq![ChunkView::Cancelled]
        } else {
            s.queue
        },
        s.cancel().pending == s.pending,
        s.cancel().closed == s.closed,
        s.cancel().write_open == s.write_open,
        s.cancel().reader_live == s.reader_live,
{
    assert(s.queue.push(ChunkView::Cancelled) =~= s.queue + seq![ChunkView::Cancelled]);
}

/// The reader goes on after every chunk with bytes in it; only the end of the stream or a
/// failure stops it.
pub proof fn law_only_its_last_word_stops_the_reader(s: StreamState, op: Operation)
    ensures
        op.apply(s).reader_live == (s.reader_live && !ends_the_reader(op)),
{
    if let Operation::Receive(bytes) = op {
        assert(bytes.len() == 0 <==> bytes =~= seq![]);
    }
}

/// What a live reader reports goes behind all that waits, whole and as one chunk: its bytes, the
/// end of the stream, or the failure. Nothing else of the stream changes. A reader that has
/// stopped reports nothing.
pub proof fn law_the_reader_s_report_is_queued(s: StreamState, bytes: Seq<u8>)
    ensures
        s.reader_live && bytes.len() > 0 ==> s.receive(bytes).queue == s.queue + seq![
            ChunkView::Data(bytes),
        ],
        s.reader_live && bytes.len() == 0 ==> s.receive(bytes).queue == s.queue + seq![
            ChunkView::Eof,
        ],
        s.reader_live ==> s.lose().queue == s.queue + seq![ChunkView::Lost],
        !s.reader_live ==> s.receive(bytes) == s && s.lose() == s,
        s.receive(bytes).pending == s.pending && s.lose().pending == s.pending,
        s.receive(bytes).closed == s.closed && s.lose().closed == s.closed,
{
    assert(s.queue.push(ChunkView::Data(bytes)) =~= s.queue + seq![ChunkView::Data(bytes)]);
    assert(s.queue.push(ChunkView::Eof) =~= s.queue + seq![ChunkView::Eof]);
    assert(s.queue.push(ChunkView::Lost) =~= s.queue + seq![ChunkView::Lost]);
}

/// A read takes from the front: the rest of a chunk before the queue, and at most one chunk of
/// the queue. It touches neither the reader, nor the write half, nor the interruption.
pub proof fn law_a_read_takes_from_the_front(s: StreamState, max: int)
    ensures
        s.pending.len() > 0 || s.closed || s.queue.len() == 0 ==> s.read(max).0.queue == s.queue,
        s.pending.len() == 0 && !s.closed && s.queue.len() > 0 ==> s.read(max).0.queue
            == s.queue.subrange(1, s.queue.len() as int),
        s.read(max).0.reader_live == s.reader_live,
        s.read(max).0.write_open == s.write_open,
        s.read(max).0.cancel_armed == s.cancel_armed,
        s.read(max).0.closed <==> s.closed || (s.pending.len() == 0 && s.queue.len() > 0
            && s.queue[0] is Eof),
{
    if s.queue.len() > 0 {
        assert(s.queue.skip(1) =~= s.queue.subrange(1, s.queue.len() as int));
    }
}

/// A read hands out as many bytes of the chunk at the front as there is room for, and no fewer:
/// all of it, or the first `max`. The rest of it is what the next read starts with.
pub proof fn law_a_read_fills_its_room(s: StreamState, max: int, chunk: Seq<u8>)
    requires
        max >= 0,
        (s.pending.len() > 0 && chunk == s.pending) || (s.pending.len() == 0 && !s.closed
            && s.queue.len() > 0 && s.queue[0] == ChunkView::Data(chunk)),
    ensures
        s.read(max).1 matches Some(Ok(bytes)) && {
            &&& chunk.len() <= max ==> bytes == chunk && s.read(max).0.pending.len() == 0
            &&& chunk.len() > max ==> bytes.len() == max
            &&& bytes + s.read(max).0.pending == chunk
        },
{
    let n = if chunk.len() <= max { chunk.len() as int } else { max };
    assert(chunk.take(n) + chunk.skip(n) =~= chunk);
    if chunk.len() <= max {
        assert(chunk.take(n) =~= chunk);
    }
}

/// A read without room hands out no bytes, however little room it says that it has.
pub proof fn law_a_read_without_room(s: StreamState, max: int)
    requires
        max <= 0,
    ensures
        s.read(max).1 matches Some(Ok(bytes)) ==> bytes.len() == 0,
        s.read(max) == s.read(0),
{
}

/// What stands at the front decides what a read without bytes to hand out says.
pub proof fn law_a_read_tells_what_it_meets(s: StreamState, max: int)
    requires
        s.pending.len() == 0,
    ensures
        s.closed ==> s.read(max).1 == Some(Ok::<Seq<u8>, Seq<char>>(seq![])),
        !s.closed && s.queue.len() > 0 && s.queue[0] is Eof ==> s.read(max).1 == Some(
            Ok::<Seq<u8>, Seq<char>>(seq![]),
        ),
        !s.closed && s.queue.len() > 0 && s.queue[0] is Lost ==> s.read(max).1 == Some(
            Err::<Seq<u8>, Seq<char>>("stream closed"@),
        ),
        !s.closed && s.queue.len() > 0 && s.queue[0] is Cancelled ==> s.read(max).1 == Some(
            Err::<Seq<u8>, Seq<char>>("cancelled"@),
        ),
        !s.closed && s.queue.len() == 0 && (s.reader_live || s.cancel_armed) ==> s.read(max).1
            is None,
        !s.closed && s.queue.len() == 0 && !s.reader_live && !s.cancel_armed ==> s.read(max).1
            == Some(Err::<Seq<u8>, Seq<char>>("stream closed"@)),
{
}

proof fn lemma_inputs_are_received(s: StreamState, ops: Seq<Operation>)
    ensures
        crate::stream_laws::inputs(s, ops) == if s.reader_live {
            received(ops)
        } else {
            seq![]
        },
    decreases ops.len(),
{
    if ops.len() > 0 {
        let t = ops[0].apply(s);
        let rest = ops.skip(1);
        law_only_its_last_word_stops_the_reader(s, ops[0]);
        lemma_inputs_are_received(t, rest);
        assert(crate::stream_laws::inputs(s, ops) == ops[0].input(s)
            + crate::stream_laws::inputs(t, rest));
        if !s.reader_live || ends_the_reader(ops[0]) {
            assert(crate::stream_laws::inputs(s, ops) =~= seq![]);
        }
    }
}

/// What comes into a stream is what its reader has reported, every chunk of it, until the end
/// of the stream or a failure.
pub proof fn law_every_chunk_comes_in(s: StreamState, ops: Seq<Operation>)
    requires
        s.reader_live,
    ensures
        crate::stream_laws::inputs(s, ops) == received(ops),
{
    lemma_inputs_are_received(s, ops);
}

/// Whatever is done with an opened stream, its reads hand out a beginning of what the peer has
/// sent.
pub proof fn law_reads_hand_out_what_the_peer_sent(ops: Seq<Operation>)
    ensures
        crate::stream_laws::outputs(StreamState::opened(), ops).is_prefix_of(received(ops)),
{
    let s = StreamState::opened();
    crate::stream_laws::law_bytes_are_kept_in_order(s, ops);
    law_every_chunk_comes_in(s, ops);
    let out = crate::stream_laws::outputs(s, ops);
    let left = crate::stream_laws::run(s, ops).unread();
    assert(s.unread() =~= seq![]);
    assert(out + left =~= received(ops));
    assert(out =~= received(ops).take(out.len() as int));
}

/// Performing more operations hands out what they hand out of the stream as it is by then.
proof fn lemma_operations_follow(s: StreamState, a: Seq<Operation>, b: Seq<Operation>)
    ensures
        crate::stream_laws::run(s, a + b) == crate::stream_laws::run(
            crate::stream_laws::run(s, a),
            b,
        ),
        crate::stream_laws::outputs(s, a + b) == crate::stream_laws::outputs(s, a)
            + crate::stream_laws::outputs(crate::stream_laws::run(s, a), b),
    decreases a.len(),
{
    if a.len() == 0 {
        assert(a + b =~= b);
        assert(crate::stream_laws::outputs(s, a + b) =~= crate::stream_laws::outputs(s, a)
            + crate::stream_laws::outputs(s, b));
    } else {
        let t = a[0].apply(s);
        assert((a + b).skip(1) =~= a.skip(1) + b);
        lemma_operations_follow(t, a.skip(1), b);
        assert(crate::stream_laws::outputs(s, a + b) =~= crate::stream_laws::outputs(s, a)
            + crate::stream_laws::outputs(crate::stream_laws::run(s, a), b));
    }
}

/// Whether the reader brings no more bytes at a time than it asks for.
pub open spec fn chunks_fit(ops: Seq<Operation>) -> bool {
    forall|i: int|
        0 <= i < ops.len() ==> ((#[trigger] ops[i]) matches Operation::Receive(bytes)
            ==> bytes.len() <= READ_BUFFER)
}

proof fn lemma_run_keeps_streams_well_formed(s: StreamState, ops: Seq<Operation>)
    requires
        s.well_formed(),
        chunks_fit(ops),
    ensures
        crate::stream_laws::run(s, ops).well_formed(),
    decreases ops.len(),
{
    if ops.len() > 0 {
        let rest = ops.skip(1);
        assert(forall|i: int| 0 <= i < rest.len() ==> rest[i] == ops[i + 1]);
        assert(ops[0].input(s).len() <= READ_BUFFER);
        crate::stream_laws::law_operations_keep_streams_well_formed(s, ops[0]);
        lemma_run_keeps_streams_well_formed(ops[0].apply(s), rest);
    }
}

/// How the reader's work on an opened stream has ended by `ops`, if it has: with which
/// operation.
pub open spec fn ended_by(ops: Seq<Operation>) -> Option<Operation>
    decreases ops.len(),
{
    if ops.len() == 0 {
        None
    } else if ends_the_reader(ops[0]) {
        Some(ops[0])
    } else {
        ended_by(ops.skip(1))
    }
}

/// Whether the state is one that the reader's history explains: while it runs or after it has
/// reported the end, nothing tells of a failure; only after it has reported the end does
/// anything tell of that.
spec fn explained(s: StreamState, end: Option<Operation>) -> bool {
    &&& s.reader_live == (end is None)
    &&& end matches Some(op) ==> ends_the_reader(op)
    &&& s.closed ==> end == Some(Operation::Receive(seq![]))
    &&& forall|i: int|
        0 <= i < s.queue.len() ==> {
            &&& (#[trigger] s.queue[i]) is Eof ==> end == Some(Operation::Receive(seq![]))
            &&& s.queue[i] is Lost ==> end == Some(Operation::Lose)
            &&& s.queue[i] matches ChunkView::Data(bytes) ==> bytes.len() > 0
        }
    &&& end == Some(Operation::Receive(seq![])) ==> crate::stream_laws::end_has_arrived(s)
}

proof fn lemma_explained_step(s: StreamState, end: Option<Operation>, op: Operation)
    requires
        explained(s, end),
    ensures
        explained(
            op.apply(s),
            if end is None && ends_the_reader(op) {
                Some(op)
            } else {
                end
            },
        ),
{
    let t = op.apply(s);
    if let Operation::Receive(bytes) = op {
        assert(bytes.len() == 0 <==> bytes =~= seq![]);
    }
    if op is Read && s.queue.len() > 0 {
        let q = s.queue.skip(1);
        assert(forall|i: int| 0 <= i < q.len() ==> q[i] == s.queue[i + 1]);
        if end == Some(Operation::Receive(seq![])) && !s.closed {
            let k = choose|k: int| 0 <= k < s.queue.len() && (#[trigger] s.queue[k]) is Eof;
            if s.pending.len() == 0 {
                if k > 0 {
                    assert(t.queue[k - 1] is Eof);
                }
            } else {
                assert(t.queue[k] is Eof);
            }
        }
    } else if end == Some(Operation::Receive(seq![])) && !s.closed {
        let k = choose|k: int| 0 <= k < s.queue.len() && (#[trigger] s.queue[k]) is Eof;
        assert(t.queue[k] is Eof);
    } else if end is None && ends_the_reader(op) && op is Receive {
        assert(t.queue.last() is Eof);
    }
}

proof fn lemma_explained(s: StreamState, end: Option<Operation>, ops: Seq<Operation>)
    requires
        explained(s, end),
    ensures
        explained(
            crate::stream_laws::run(s, ops),
            if end is Some {
                end
            } else {
                ended_by(ops)
            },
        ),
    decreases ops.len(),
{
    if ops.len() > 0 {
        lemma_explained_step(s, end, ops[0]);
        let next = if end is None && ends_the_reader(ops[0]) {
            Some(ops[0])
        } else {
            end
        };
        lemma_explained(ops[0].apply(s), next, ops.skip(1));
    }
}

/// A read with room hands out no bytes only if the reader has reported the end of the stream,
/// and answers that the stream is closed only if it has reported a failure. While the reader
/// runs, every read hands out bytes, is interrupted, or waits.
pub proof fn law_only_the_peer_ends_a_stream(ops: Seq<Operation>, max: int)
    ensures
        max > 0 && crate::stream_laws::run(StreamState::opened(), ops).read(max).1 == Some(
            Ok::<Seq<u8>, Seq<char>>(seq![]),
        ) ==> ended_by(ops) == Some(Operation::Receive(seq![])),
        crate::stream_laws::run(StreamState::opened(), ops).read(max).1 == Some(
            Err::<Seq<u8>, Seq<char>>("stream closed"@),
        ) ==> ended_by(ops) == Some(Operation::Lose),
        ended_by(ops) is None ==> crate::stream_laws::run(StreamState::opened(), ops).reader_live,
        crate::stream_laws::run(StreamState::opened(), ops).read(max).1 matches Some(Err(message))
            ==> message == "stream closed"@ || message == "cancelled"@,
{
    assert("cancelled"@.len() != "stream closed"@.len()) by {
        reveal_strlit("cancelled");
        reveal_strlit("stream closed");
    }
    lemma_explained(StreamState::opened(), None, ops);
    let s = crate::stream_laws::run(StreamState::opened(), ops);
    if max > 0 && s.pending.len() > 0 {
        assert(s.read(max).1->0->Ok_0.len() > 0);
    } else if max > 0 && !s.closed && s.queue.len() > 0 && s.queue[0] is Data {
        assert(s.read(max).1->0->Ok_0.len() > 0);
    }
}

/// Once the reader has reported the end of the stream, reading on hands out all that the peer
/// has sent, and then no bytes. The reads that do it are given back.
pub proof fn law_all_that_the_peer_sent_is_read(ops: Seq<Operation>, max: int) -> (more: Seq<
    Operation,
>)
    requires
        chunks_fit(ops),
        ended_by(ops) == Some(Operation::Receive(seq![])),
        max > 0,
    ensures
        forall|i: int| 0 <= i < more.len() ==> #[trigger] more[i] == Operation::Read(max),
        crate::stream_laws::outputs(StreamState::opened(), ops + more) == received(ops),
        crate::stream_laws::run(StreamState::opened(), ops + more).read(max).1 == Some(
            Ok::<Seq<u8>, Seq<char>>(seq![]),
        ),
{
    let s = StreamState::opened();
    let t = crate::stream_laws::run(s, ops);
    lemma_explained(s, None, ops);
    lemma_run_keeps_streams_well_formed(s, ops);
    let more = crate::stream_laws::law_reads_reach_the_end(t, max);
    lemma_operations_follow(s, ops, more);
    crate::stream_laws::law_bytes_are_kept_in_order(s, ops);
    law_every_chunk_comes_in(s, ops);
    assert(s.unread() =~= seq![]);
    assert(crate::stream_laws::outputs(s, ops + more) =~= received(ops));
    more
}

/// As long as nothing has shut an opened stream down, a write to it begins by handing over
/// exactly the bytes that it was given; afterwards it is refused.
pub proof fn law_writes_are_taken_until_shutdown(ops: Seq<Operation>, data: Seq<u8>)
    ensures
        crate::writing::write_begin(
            crate::stream_laws::run(StreamState::opened(), ops).write_open,
            data,
        ) == if without(ops, Operation::Shutdown) {
            WriteStepView::WriteAll { data, then: WriteState::Writing }
        } else {
            WriteStepView::Finished(Err("stream closed"@))
        },
{
    lemma_write_half(StreamState::opened(), ops);
}

proof fn lemma_write_half(s: StreamState, ops: Seq<Operation>)
    ensures
        crate::stream_laws::run(s, ops).write_open == (s.write_open && without(
            ops,
            Operation::Shutdown,
        )),
    decreases ops.len(),
{
    if ops.len() > 0 {
        let rest = ops.skip(1);
        law_only_shutdown_drops_the_write_half(s, ops[0]);
        lemma_write_half(ops[0].apply(s), rest);
        lemma_without(ops, Operation::Shutdown);
    }
}

proof fn lemma_without(ops: Seq<Operation>, op: Operation)
    requires
        ops.len() > 0,
    ensures
        without(ops, op) <==> ops[0] != op && without(ops.skip(1), op),
{
    let rest = ops.skip(1);
    assert(forall|i: int| 0 <= i < rest.len() ==> rest[i] == ops[i + 1]);
    if ops[0] != op && without(rest, op) {
        assert forall|i: int| 0 <= i < ops.len() implies #[trigger] ops[i] != op by {
            if i > 0 {
                assert(rest[i - 1] == ops[i]);
            }
        }
    }
    if without(ops, op) {
        assert forall|i: int| 0 <= i < rest.len() implies #[trigger] rest[i] != op by {
            assert(ops[i + 1] != op);
        }
    }
}

/// However an opened stream has been used, its first cancel interrupts the read that waits, and
/// without a cancel no read is interrupted.
pub proof fn law_the_first_cancel_interrupts(ops: Seq<Operation>, max: int)
    requires
        without(ops, Operation::Cancel),
    ensures
        ({
            let s = crate::stream_laws::run(StreamState::opened(), ops);
            &&& s.cancel_armed
            &&& s.read(max).1 is None ==> s.cancel().read(max).1 == Some(
                Err::<Seq<u8>, Seq<char>>("cancelled"@),
            )
            &&& s.read(max).1 != Some(Err::<Seq<u8>, Seq<char>>("cancelled"@))
            &&& s.cancel().read(max).1 is Some
        }),
{
    assert("cancelled"@.len() != "stream closed"@.len()) by {
        reveal_strlit("cancelled");
        reveal_strlit("stream closed");
    }
    lemma_no_interruption(StreamState::opened(), ops);
}

proof fn lemma_no_interruption(s: StreamState, ops: Seq<Operation>)
    requires
        without(ops, Operation::Cancel),
        s.cancel_armed,
        forall|i: int| 0 <= i < s.queue.len() ==> !((#[trigger] s.queue[i]) is Cancelled),
    ensures
        ({
            let t = crate::stream_laws::run(s, ops);
            &&& t.cancel_armed
            &&& forall|i: int| 0 <= i < t.queue.len() ==> !((#[trigger] t.queue[i]) is Cancelled)
        }),
    decreases ops.len(),
{
    if ops.len() > 0 {
        lemma_without(ops, Operation::Cancel);
        law_only_cancel_uses_the_interruption_up(s, ops[0]);
        if s.queue.len() > 0 {
            let q = s.queue.skip(1);
            assert(forall|i: int| 0 <= i < q.len() ==> q[i] == s.queue[i + 1]);
        }
        lemma_no_interruption(ops[0].apply(s), ops.skip(1));
    }
}

} // verus!
