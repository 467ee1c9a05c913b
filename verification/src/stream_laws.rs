//! What holds of a stream over several operations.

use vstd::prelude::*;

use crate::stream::{ChunkView, StreamState, READ_BUFFER};
use crate::writing::WriteStepView;

verus! {

/// An operation on a stream.
pub enum Operation {
    /// The reader has got these bytes, or met the end of the stream if there are none.
    Receive(Seq<u8>),
    /// The reader's connection has failed.
    Lose,
    Read(int),
    Shutdown,
    Cancel,
}

impl Operation {
    /// The stream after the operation.
    pub open spec fn apply(self, s: StreamState) -> StreamState {
        match self {
            Operation::Receive(bytes) => s.receive(bytes),
            Operation::Lose => s.lose(),
            Operation::Read(max) => s.read(max).0,
            Operation::Shutdown => s.shutdown(),
            Operation::Cancel => s.cancel(),
        }
    }

    /// The bytes that the operation brings into the stream.
    pub open spec fn input(self, s: StreamState) -> Seq<u8> {
        match self {
            Operation::Receive(bytes) if s.reader_live => bytes,
            _ => seq![],
        }
    }

    /// The bytes that the operation hands out.
    pub open spec fn output(self, s: StreamState) -> Seq<u8> {
        match self {
            Operation::Read(max) => match s.read(max).1 {
                Some(Ok(bytes)) => bytes,
                _ => seq![],
            },
            _ => seq![],
        }
    }
}

/// The stream after the operations `ops`, one after the other.
pub open spec fn run(s: StreamState, ops: Seq<Operation>) -> StreamState
    decreases ops.len(),
{
    if ops.len() == 0 {
        s
    } else {
        run(ops[0].apply(s), ops.skip(1))
    }
}

/// All bytes that `ops` bring into the stream, in order.
pub open spec fn inputs(s: StreamState, ops: Seq<Operation>) -> Seq<u8>
    decreases ops.len(),
{
    if ops.len() == 0 {
        seq![]
    } else {
        ops[0].input(s) + inputs(ops[0].apply(s), ops.skip(1))
    }
}

/// All bytes that `ops` hand out, in order.
pub open spec fn outputs(s: StreamState, ops: Seq<Operation>) -> Seq<u8>
    decreases ops.len(),
{
    if ops.len() == 0 {
        seq![]
    } else {
        ops[0].output(s) + outputs(ops[0].apply(s), ops.skip(1))
    }
}

proof fn lemma_queued_bytes_push(queue: Seq<ChunkView>, chunk: ChunkView)
    ensures
        crate::stream::queued_bytes(queue.push(chunk)) == crate::stream::queued_bytes(queue)
            + chunk.bytes(),
    decreases queue.len(),
{
    reveal_with_fuel(crate::stream::queued_bytes, 2);
    if queue.len() == 0 {
        assert(queue.push(chunk).skip(1) =~= queue);
    } else {
        assert(queue.push(chunk).skip(1) =~= queue.skip(1).push(chunk));
        lemma_queued_bytes_push(queue.skip(1), chunk);
    }
}

/// A stream that has just been opened is well formed, and every operation keeps it so, as long
/// as the reader brings no more bytes at a time than it asks for.
pub proof fn law_operations_keep_streams_well_formed(s: StreamState, op: Operation)
    ensures
        StreamState::opened().well_formed(),
        s.well_formed() && op.input(s).len() <= READ_BUFFER ==> op.apply(s).well_formed(),
{
    if s.well_formed() && op is Read && s.queue.len() > 0 {
        let rest = s.queue.skip(1);
        assert(forall|i: int| 0 <= i < rest.len() ==> rest[i] == s.queue[i + 1]);
    }
}

/// A read of up to `max` bytes hands out at most that many, and they are the oldest that have
/// not been handed out; an answer without bytes takes none away.
pub proof fn law_read_takes_the_oldest_bytes(s: StreamState, max: int)
    ensures
        match s.read(max).1 {
            Some(Ok(bytes)) => {
                &&& bytes + s.read(max).0.unread() == s.unread()
                &&& bytes.len() <= if max <= 0 { 0 } else { max }
            },
            _ => s.read(max).0.unread() == s.unread(),
        },
{
    assert(s.unread() =~= s.pending + crate::stream::queued_bytes(s.queue));
    if s.pending.len() == 0 && !s.closed && s.queue.len() > 0 {
        assert(s.unread() =~= s.queue[0].bytes() + crate::stream::queued_bytes(s.queue.skip(1)));
        assert(s.read(max).0.unread() =~= s.read(max).0.pending + crate::stream::queued_bytes(
            s.queue.skip(1),
        ));
    }
    match s.read(max).1 {
        Some(Ok(bytes)) => {
            assert(bytes + s.read(max).0.unread() =~= s.unread());
        },
        _ => {
            assert(s.read(max).0.unread() =~= s.unread());
        },
    }
}

/// What one operation brings in and hands out is all that changes of what is to be read.
proof fn lemma_operation_keeps_bytes(s: StreamState, op: Operation)
    ensures
        op.output(s) + op.apply(s).unread() == s.unread() + op.input(s),
{
    match op {
        Operation::Read(max) => {
            law_read_takes_the_oldest_bytes(s, max);
        },
        Operation::Receive(bytes) => {
            if bytes.len() == 0 {
                lemma_queued_bytes_push(s.queue, ChunkView::Eof);
            } else {
                lemma_queued_bytes_push(s.queue, ChunkView::Data(bytes));
            }
        },
        Operation::Lose => {
            lemma_queued_bytes_push(s.queue, ChunkView::Lost);
        },
        Operation::Cancel => {
            lemma_queued_bytes_push(s.queue, ChunkView::Cancelled);
        },
        Operation::Shutdown => {},
    }
    assert(op.output(s) + op.apply(s).unread() =~= s.unread() + op.input(s));
}

/// Whatever is done with a stream and in whatever order, no byte is lost, repeated or moved:
/// what reads have handed out, followed by what is still to be read, is what was there before
/// followed by what has come in.
pub proof fn law_bytes_are_kept_in_order(s: StreamState, ops: Seq<Operation>)
    ensures
        outputs(s, ops) + run(s, ops).unread() == s.unread() + inputs(s, ops),
    decreases ops.len(),
{
    if ops.len() == 0 {
        assert(outputs(s, ops) + s.unread() =~= s.unread() + inputs(s, ops));
    } else {
        let t = ops[0].apply(s);
        let rest = ops.skip(1);
        lemma_operation_keeps_bytes(s, ops[0]);
        law_bytes_are_kept_in_order(t, rest);
        let (out, input) = (ops[0].output(s), ops[0].input(s));
        assert(outputs(s, ops) + run(s, ops).unread() =~= out + (outputs(t, rest) + run(
            t,
            rest,
        ).unread()));
        assert(out + (t.unread() + inputs(t, rest)) =~= (out + t.unread()) + inputs(t, rest));
        assert((s.unread() + input) + inputs(t, rest) =~= s.unread() + (input + inputs(t, rest)));
    }
}

/// A read with room for a byte hands out none exactly at the end of the stream: when every
/// byte has been read and the peer has finished.
pub proof fn law_no_bytes_mean_the_end(s: StreamState, max: int)
    requires
        s.well_formed(),
        max > 0,
    ensures
        s.read(max).1 == Some(Ok::<Seq<u8>, Seq<char>>(seq![])) <==> s.pending.len() == 0 && (
        s.closed || (s.queue.len() > 0 && s.queue[0] is Eof)),
        s.read(max).1 == Some(Ok::<Seq<u8>, Seq<char>>(seq![])) ==> s.unread() == Seq::<
            u8,
        >::empty() && s.read(max).0.closed,
{
    if s.pending.len() > 0 {
        assert(s.read(max).1->0->Ok_0.len() > 0);
    } else if !s.closed && s.queue.len() > 0 && s.queue[0] is Data {
        assert(s.read(max).1->0->Ok_0.len() > 0);
    }
    if s.pending.len() == 0 && (s.closed || (s.queue.len() > 0 && s.queue[0] is Eof)) {
        if s.closed {
            lemma_nothing_queued(s.queue);
            assert(s.unread() =~= Seq::<u8>::empty());
        } else {
            let rest = s.queue.skip(1);
            assert forall|i: int| 0 <= i < rest.len() implies (#[trigger] rest[i]) is Cancelled by {
                assert(s.queue[0].is_last_word());
                assert(s.queue[i + 1] is Cancelled);
            }
            lemma_nothing_queued(rest);
            assert(s.unread() =~= Seq::<u8>::empty());
        }
    }
}

proof fn lemma_nothing_queued(queue: Seq<ChunkView>)
    requires
        forall|i: int| 0 <= i < queue.len() ==> (#[trigger] queue[i]) is Cancelled,
    ensures
        crate::stream::queued_bytes(queue) == Seq::<u8>::empty(),
    decreases queue.len(),
{
    if queue.len() > 0 {
        assert(queue[0] is Cancelled);
        let rest = queue.skip(1);
        assert(forall|i: int| 0 <= i < rest.len() ==> rest[i] == queue[i + 1]);
        lemma_nothing_queued(rest);
    }
}

/// Once a read has met the end of the stream, every later one meets it again, whatever has
/// been done in between.
pub proof fn law_the_end_is_final(s: StreamState, ops: Seq<Operation>, max: int)
    requires
        s.well_formed(),
        s.closed,
        s.pending.len() == 0,
    ensures
        run(s, ops).closed,
        run(s, ops).read(max).1 == Some(Ok::<Seq<u8>, Seq<char>>(seq![])),
    decreases ops.len(),
{
    if ops.len() > 0 {
        law_operations_keep_streams_well_formed(s, ops[0]);
        law_the_end_is_final(ops[0].apply(s), ops.skip(1), max);
    }
}

/// Whether the end of the stream has arrived: a read has met it, or it waits in the queue.
pub open spec fn end_has_arrived(s: StreamState) -> bool {
    s.closed || exists|i: int| 0 <= i < s.queue.len() && (#[trigger] s.queue[i]) is Eof
}

/// Once the peer has finished, reading on with room for a byte hands out every byte that it
/// sent, and then meets the end of the stream. The reads that do it are given back.
pub proof fn law_reads_reach_the_end(s: StreamState, max: int) -> (reads: Seq<Operation>)
    requires
        s.well_formed(),
        end_has_arrived(s),
        max > 0,
    ensures
        forall|i: int| 0 <= i < reads.len() ==> #[trigger] reads[i] == Operation::Read(max),
        outputs(s, reads) == s.unread(),
        run(s, reads).read(max).1 == Some(Ok::<Seq<u8>, Seq<char>>(seq![])),
    decreases s.unread().len() + s.queue.len(),
{
    law_no_bytes_mean_the_end(s, max);
    if s.pending.len() == 0 && (s.closed || s.queue[0] is Eof) {
        Seq::empty()
    } else {
        let read = Operation::Read(max);
        let t = read.apply(s);
        law_operations_keep_streams_well_formed(s, read);
        law_read_takes_the_oldest_bytes(s, max);
        if !s.closed {
            let i = choose|i: int| 0 <= i < s.queue.len() && (#[trigger] s.queue[i]) is Eof;
            if s.pending.len() == 0 {
                assert(s.queue[0].is_last_word() ==> s.queue[i] is Cancelled);
                assert(t.queue[i - 1] is Eof);
            } else {
                assert(t.queue[i] is Eof);
            }
        }
        let rest = law_reads_reach_the_end(t, max);
        let reads = seq![read] + rest;
        assert(reads.skip(1) =~= rest);
        assert(outputs(s, reads) == read.output(s) + outputs(t, rest));
        reads
    }
}

/// Shutting the write half down changes nothing for reads: whatever is done afterwards, the
/// same bytes are handed out, and the next read answers as it would have.
pub proof fn law_reads_continue_after_shutdown(s: StreamState, ops: Seq<Operation>, max: int)
    ensures
        outputs(s.shutdown(), ops) == outputs(s, ops),
        run(s.shutdown(), ops) == run(s, ops).shutdown(),
        run(s.shutdown(), ops).read(max).1 == run(s, ops).read(max).1,
    decreases ops.len(),
{
    if ops.len() > 0 {
        assert(ops[0].apply(s.shutdown()) =~= ops[0].apply(s).shutdown());
        law_reads_continue_after_shutdown(ops[0].apply(s), ops.skip(1), max);
    }
}

/// After a shutdown, and whatever follows it, a write is refused.
pub proof fn law_no_write_after_shutdown(s: StreamState, ops: Seq<Operation>, data: Seq<u8>)
    ensures
        crate::writing::write_begin(run(s.shutdown(), ops).write_open, data)
            == WriteStepView::Finished(Err("stream closed"@)),
{
    lemma_write_half_stays_dropped(s.shutdown(), ops);
}

proof fn lemma_write_half_stays_dropped(s: StreamState, ops: Seq<Operation>)
    requires
        !s.write_open,
    ensures
        !run(s, ops).write_open,
    decreases ops.len(),
{
    if ops.len() > 0 {
        lemma_write_half_stays_dropped(ops[0].apply(s), ops.skip(1));
    }
}

/// A read waits exactly while there is nothing to hand out, the end has not been met, and
/// something can still arrive: data from the reader or an interruption.
pub proof fn law_when_a_read_waits(s: StreamState, max: int)
    ensures
        s.read(max).1 is None <==> s.pending.len() == 0 && s.queue.len() == 0 && !s.closed && (
        s.reader_live || s.cancel_armed),
        s.read(max).1 is None ==> s.read(max).0 == s,
{
}

/// While bytes are to be read, a read with room for one answers at once, and brings their end
/// nearer: it hands bytes out, or it takes a chunk without bytes off the queue.
pub proof fn law_reads_make_progress(s: StreamState, max: int)
    requires
        s.well_formed(),
        s.unread().len() > 0,
        max > 0,
    ensures
        match s.read(max).1 {
            None => false,
            Some(Ok(bytes)) => bytes.len() > 0,
            Some(Err(_)) => s.read(max).0.queue == s.queue.skip(1) && s.queue.len() > 0,
        },
{
    if s.pending.len() == 0 {
        if s.closed {
            lemma_nothing_queued(s.queue);
        } else if s.queue.len() > 0 && s.queue[0] is Eof {
            law_no_bytes_mean_the_end(s, max);
        }
    }
}

/// The first cancel interrupts the read that waits, and one that need not wait answers as it
/// would have. No byte is lost.
pub proof fn law_cancel_interrupts_a_waiting_read(s: StreamState, max: int)
    requires
        s.cancel_armed,
    ensures
        s.cancel().read(max).1 == match s.read(max).1 {
            None => Some(Err::<Seq<u8>, Seq<char>>("cancelled"@)),
            answer => answer,
        },
        s.cancel().unread() == s.unread(),
        s.cancel().cancel() == s.cancel(),
{
    lemma_queued_bytes_push(s.queue, ChunkView::Cancelled);
    assert(s.cancel().unread() =~= s.unread());
}

/// The chunks that wait, the one that has been read in part first.
pub open spec fn waiting_chunks(s: StreamState) -> Seq<Seq<u8>> {
    (if s.pending.len() > 0 {
        seq![s.pending]
    } else {
        seq![]
    }) + s.queue.map_values(|c: ChunkView| c.bytes())
}

/// `n` reads of up to `max` bytes.
pub open spec fn reads(n: nat, max: int) -> Seq<Operation> {
    Seq::new(n, |i: int| Operation::Read(max))
}

/// After a cancel, reads with room for a chunk hand out the chunks that were waiting, one each
/// and in order; the read after them is interrupted and does not wait for the peer.
pub proof fn law_cancel_comes_after_what_waits(s: StreamState, max: int)
    requires
        s.well_formed(),
        s.cancel_armed,
        s.reader_live,
        max >= READ_BUFFER,
    ensures
        forall|i: int|
            0 <= i < waiting_chunks(s).len() ==> run(s.cancel(), #[trigger] reads(i as nat, max)).read(
                max,
            ).1 == Some(Ok::<Seq<u8>, Seq<char>>(waiting_chunks(s)[i])),
        run(s.cancel(), reads(waiting_chunks(s).len(), max)).read(max).1 == Some(
            Err::<Seq<u8>, Seq<char>>("cancelled"@),
        ),
{
    let t = s.cancel();
    law_operations_keep_streams_well_formed(s, Operation::Cancel);
    assert(t.queue.drop_last() =~= s.queue);
    lemma_reads_before_an_interruption(t, waiting_chunks(s), max);
}

/// What `law_cancel_comes_after_what_waits` says, of a stream whose queue ends with an
/// interruption.
proof fn lemma_reads_before_an_interruption(t: StreamState, chunks: Seq<Seq<u8>>, max: int)
    requires
        t.well_formed(),
        !t.closed,
        t.queue.len() > 0,
        t.queue.last() is Cancelled,
        forall|i: int| 0 <= i < t.queue.len() - 1 ==> (#[trigger] t.queue[i]) is Data,
        chunks == waiting_chunks(StreamState { queue: t.queue.drop_last(), ..t }),
        max >= READ_BUFFER,
    ensures
        forall|i: int|
            0 <= i < chunks.len() ==> run(t, #[trigger] reads(i as nat, max)).read(max).1 == Some(
                Ok::<Seq<u8>, Seq<char>>(chunks[i]),
            ),
        run(t, reads(chunks.len(), max)).read(max).1 == Some(
            Err::<Seq<u8>, Seq<char>>("cancelled"@),
        ),
    decreases chunks.len(),
{
    assert(run(t, reads(0, max)) == t);
    if chunks.len() > 0 {
        let read = Operation::Read(max);
        let u = read.apply(t);
        law_operations_keep_streams_well_formed(t, read);
        assert(t.read(max).1 == Some(Ok::<Seq<u8>, Seq<char>>(chunks[0]))) by {
            assert(chunks[0].take(chunks[0].len() as int) =~= chunks[0]);
            if t.pending.len() == 0 {
                assert(t.queue[0] is Data);
                assert(chunks[0] == t.queue[0].bytes());
            }
        }
        if t.pending.len() > 0 {
            assert(u.queue == t.queue);
        } else {
            assert(forall|i: int| 0 <= i < u.queue.len() ==> u.queue[i] == t.queue[i + 1]);
        }
        assert(chunks.skip(1) =~= waiting_chunks(
            StreamState { queue: u.queue.drop_last(), ..u },
        ));
        lemma_reads_before_an_interruption(u, chunks.skip(1), max);
        assert forall|n: nat| n > 0 implies run(t, #[trigger] reads(n, max)) == run(
            u,
            reads((n - 1) as nat, max),
        ) by {
            assert(reads(n, max).skip(1) =~= reads((n - 1) as nat, max));
        }
        assert forall|i: int| 0 <= i < chunks.len() implies run(
            t,
            #[trigger] reads(i as nat, max),
        ).read(max).1 == Some(Ok::<Seq<u8>, Seq<char>>(chunks[i])) by {
            if i > 0 {
                assert(chunks.skip(1)[i - 1] == chunks[i]);
                assert(run(t, reads(i as nat, max)) == run(u, reads((i - 1) as nat, max)));
            }
        }
    }
}

/// How many reads among `ops` are answered that they were interrupted.
pub open spec fn interruptions(s: StreamState, ops: Seq<Operation>) -> nat
    decreases ops.len(),
{
    if ops.len() == 0 {
        0
    } else {
        let answer: nat = match ops[0] {
            Operation::Read(max) if s.read(max).1 == Some(
                Err::<Seq<u8>, Seq<char>>("cancelled"@),
            ) => 1,
            _ => 0,
        };
        answer + interruptions(ops[0].apply(s), ops.skip(1))
    }
}

/// Whether no read can be interrupted any more.
pub open spec fn interruption_is_spent(s: StreamState) -> bool {
    !s.cancel_armed && forall|i: int|
        0 <= i < s.queue.len() ==> !((#[trigger] s.queue[i]) is Cancelled)
}

/// However often a stream is cancelled, at most one read is interrupted.
pub proof fn law_one_read_is_interrupted(s: StreamState, ops: Seq<Operation>)
    requires
        s.well_formed(),
        forall|i: int|
            0 <= i < ops.len() ==> ((#[trigger] ops[i]) matches Operation::Receive(bytes)
                ==> bytes.len() <= READ_BUFFER),
    ensures
        interruptions(s, ops) <= 1,
        interruption_is_spent(s) ==> interruptions(s, ops) == 0,
    decreases ops.len(),
{
    if ops.len() > 0 {
        let rest = ops.skip(1);
        assert(forall|i: int| 0 <= i < rest.len() ==> rest[i] == ops[i + 1]);
        law_operations_keep_streams_well_formed(s, ops[0]);
        lemma_an_interruption_is_spent(s, ops[0]);
        law_one_read_is_interrupted(ops[0].apply(s), rest);
    }
}

/// A read that is interrupted spends the interruption, and what is spent stays spent.
proof fn lemma_an_interruption_is_spent(s: StreamState, op: Operation)
    requires
        s.well_formed(),
    ensures
        interruption_is_spent(s) ==> interruption_is_spent(op.apply(s)),
        op matches Operation::Read(max) ==> (s.read(max).1 == Some(
            Err::<Seq<u8>, Seq<char>>("cancelled"@),
        ) ==> !interruption_is_spent(s) && interruption_is_spent(op.apply(s))),
{
    assert("cancelled"@.len() != "stream closed"@.len()) by {
        reveal_strlit("cancelled");
        reveal_strlit("stream closed");
    }
    if s.queue.len() > 0 {
        let q = s.queue.skip(1);
        assert(forall|i: int| 0 <= i < q.len() ==> q[i] == s.queue[i + 1]);
        if op is Read && s.queue[0] is Cancelled {
            assert(!s.cancel_armed);
            assert forall|i: int| 0 <= i < q.len() implies !((#[trigger] q[i]) is Cancelled) by {
                assert(!(s.queue[i + 1] is Cancelled));
            }
        }
    }
}

/// When the reader has stopped, an interruption has been asked for, and all that was queued
/// has been read, a read fails rather than wait for ever.
pub proof fn law_a_dead_stream_is_reported(s: StreamState, max: int)
    requires
        !s.reader_live,
        !s.cancel_armed,
        !s.closed,
        s.pending.len() == 0,
        s.queue.len() == 0,
    ensures
        s.read(max).1 == Some(Err::<Seq<u8>, Seq<char>>("stream closed"@)),
        s.read(max).0 == s,
{
}

/// A failure comes after all that has arrived: reading on with room for a byte hands out every
/// byte that the peer has sent, and then answers that the stream is closed. The reads that do it
/// are given back.
pub proof fn law_a_failure_comes_after_what_waits(s: StreamState, max: int) -> (reads: Seq<
    Operation,
>)
    requires
        s.well_formed(),
        s.reader_live,
        max > 0,
    ensures
        forall|i: int| 0 <= i < reads.len() ==> #[trigger] reads[i] == Operation::Read(max),
        outputs(s.lose(), reads) == s.unread(),
        run(s.lose(), reads).read(max).1 == Some(Err::<Seq<u8>, Seq<char>>("stream closed"@)),
{
    let t = s.lose();
    law_operations_keep_streams_well_formed(s, Operation::Lose);
    lemma_queued_bytes_push(s.queue, ChunkView::Lost);
    assert(t.unread() =~= s.unread());
    assert(t.queue[s.queue.len() as int] is Lost);
    lemma_reads_reach_the_failure(t, s.queue.len() as int, max)
}

proof fn lemma_reads_reach_the_failure(s: StreamState, at: int, max: int) -> (reads: Seq<
    Operation,
>)
    requires
        s.well_formed(),
        !s.closed,
        0 <= at < s.queue.len(),
        s.queue[at] is Lost,
        max > 0,
    ensures
        forall|i: int| 0 <= i < reads.len() ==> #[trigger] reads[i] == Operation::Read(max),
        outputs(s, reads) == s.unread(),
        run(s, reads).read(max).1 == Some(Err::<Seq<u8>, Seq<char>>("stream closed"@)),
    decreases s.unread().len() + s.queue.len(),
{
    if s.pending.len() == 0 && at == 0 {
        let rest = s.queue.skip(1);
        assert forall|i: int| 0 <= i < rest.len() implies (#[trigger] rest[i]) is Cancelled by {
            assert(s.queue[0].is_last_word());
            assert(s.queue[i + 1] is Cancelled);
        }
        lemma_nothing_queued(rest);
        assert(s.unread() =~= Seq::<u8>::empty());
        Seq::empty()
    } else {
        let read = Operation::Read(max);
        let t = read.apply(s);
        law_operations_keep_streams_well_formed(s, read);
        law_read_takes_the_oldest_bytes(s, max);
        let next = if s.pending.len() == 0 {
            at - 1
        } else {
            at
        };
        if s.pending.len() == 0 {
            assert(s.queue[0].is_last_word() ==> s.queue[at] is Cancelled);
        }
        assert(t.queue[next] is Lost);
        let rest = lemma_reads_reach_the_failure(t, next, max);
        let reads = seq![read] + rest;
        assert(reads.skip(1) =~= rest);
        assert(outputs(s, reads) == read.output(s) + outputs(t, rest));
        reads
    }
}

} // verus!
