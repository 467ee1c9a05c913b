//! The client's end of an authorized stream.
//!
//! A reader takes chunks off the connection and queues them; `read` hands their bytes out.
//! The stream never waits by itself: where a read has to wait for the peer it says so, and
//! the caller tries again once something has been queued.

use std::collections::VecDeque;
use vstd::prelude::*;

use crate::error;
use crate::error::RoamError;
use crate::writing;
use crate::writing::{WriteState, WriteStep};

verus! {

/// How many bytes the reader asks the connection for at a time, and so the most that a chunk
/// holds.
pub const READ_BUFFER: usize = 16384;

/// What waits in the queue.
pub enum Chunk {
    /// Bytes that the peer sent.
    Data(Vec<u8>),
    /// The peer has finished.
    Eof,
    /// The connection has failed.
    Lost,
    /// A read is to be interrupted.
    Cancelled,
}

/// A chunk, as a mathematical value.
pub enum ChunkView {
    Data(Seq<u8>),
    Eof,
    Lost,
    Cancelled,
}

impl View for Chunk {
    type V = ChunkView;

    open spec fn view(&self) -> ChunkView {
        match self {
            Chunk::Data(bytes) => ChunkView::Data(bytes@),
            Chunk::Eof => ChunkView::Eof,
            Chunk::Lost => ChunkView::Lost,
            Chunk::Cancelled => ChunkView::Cancelled,
        }
    }
}

impl ChunkView {
    /// The bytes that the chunk brings.
    pub open spec fn bytes(self) -> Seq<u8> {
        match self {
            ChunkView::Data(bytes) => bytes,
            _ => seq![],
        }
    }

    /// Whether this is the last that the reader says.
    pub open spec fn is_last_word(self) -> bool {
        self is Eof || self is Lost
    }
}

/// The state of a stream, as a mathematical value.
#[verifier::ext_equal]
pub struct StreamState {
    /// Bytes of a chunk that no read has handed out yet.
    pub pending: Seq<u8>,
    /// Chunks that no read has looked at yet, the oldest first.
    pub queue: Seq<ChunkView>,
    /// Whether a read has met the end of the stream.
    pub closed: bool,
    /// Whether the write half is still there.
    pub write_open: bool,
    /// Whether `cancel` can still interrupt a read.
    pub cancel_armed: bool,
    /// Whether the reader still runs.
    pub reader_live: bool,
}

/// What a read answers: nothing while it has to wait, else bytes or a message.
pub type ReadView = Option<Result<Seq<u8>, Seq<char>>>;

/// How many of `available` bytes a read of up to `max` takes.
pub open spec fn read_count(available: nat, max: int) -> int {
    if max <= 0 {
        0
    } else if max < available {
        max
    } else {
        available as int
    }
}

/// The bytes of the chunks in a queue, in order.
pub open spec fn queued_bytes(queue: Seq<ChunkView>) -> Seq<u8>
    decreases queue.len(),
{
    if queue.len() == 0 {
        seq![]
    } else {
        queue[0].bytes() + queued_bytes(queue.skip(1))
    }
}

impl StreamState {
    /// A stream that has just been opened.
    pub open spec fn opened() -> StreamState {
        StreamState {
            pending: seq![],
            queue: seq![],
            closed: false,
            write_open: true,
            cancel_armed: true,
            reader_live: true,
        }
    }

    /// What holds of every stream. No chunk is empty or longer than what the reader asks for;
    /// the reader's last word comes once, after all its data, and only when the reader has
    /// stopped; an interruption comes once.
    pub open spec fn well_formed(self) -> bool {
        &&& self.pending.len() <= READ_BUFFER
        &&& forall|i: int|
            0 <= i < self.queue.len() ==> ((#[trigger] self.queue[i]) is Data
                ==> 0 < self.queue[i].bytes().len() <= READ_BUFFER)
        &&& self.reader_live ==> !self.closed
        &&& self.reader_live ==> forall|i: int|
            0 <= i < self.queue.len() ==> !(#[trigger] self.queue[i]).is_last_word()
        &&& self.closed ==> forall|i: int|
            0 <= i < self.queue.len() ==> (#[trigger] self.queue[i]) is Cancelled
        &&& forall|i: int, j: int|
            0 <= i < j < self.queue.len() && (#[trigger] self.queue[i]).is_last_word()
                ==> (#[trigger] self.queue[j]) is Cancelled
        &&& self.cancel_armed ==> forall|i: int|
            0 <= i < self.queue.len() ==> !((#[trigger] self.queue[i]) is Cancelled)
        &&& forall|i: int, j: int|
            0 <= i < j < self.queue.len() && (#[trigger] self.queue[i]) is Cancelled ==> !((
            #[trigger] self.queue[j]) is Cancelled)
    }

    /// The bytes that have arrived and that no read has handed out.
    pub open spec fn unread(self) -> Seq<u8> {
        self.pending + queued_bytes(self.queue)
    }

    /// The stream with one more chunk waiting.
    pub open spec fn push(self, chunk: ChunkView) -> StreamState {
        StreamState { queue: self.queue.push(chunk), ..self }
    }

    /// The stream after the reader has got `bytes`. To get no bytes is to meet the end of the
    /// stream.
    pub open spec fn receive(self, bytes: Seq<u8>) -> StreamState {
        if !self.reader_live {
            self
        } else if bytes.len() == 0 {
            StreamState { reader_live: false, ..self.push(ChunkView::Eof) }
        } else {
            self.push(ChunkView::Data(bytes))
        }
    }

    /// The stream after the reader's connection has failed.
    pub open spec fn lose(self) -> StreamState {
        if !self.reader_live {
            self
        } else {
            StreamState { reader_live: false, ..self.push(ChunkView::Lost) }
        }
    }

    /// The stream after `cancel`.
    pub open spec fn cancel(self) -> StreamState {
        if !self.cancel_armed {
            self
        } else {
            StreamState { cancel_armed: false, ..self.push(ChunkView::Cancelled) }
        }
    }

    /// The stream after `shutdown`.
    pub open spec fn shutdown(self) -> StreamState {
        StreamState { write_open: false, ..self }
    }

    /// The stream after a read of up to `max` bytes, and what the read answers.
    pub open spec fn read(self, max: int) -> (StreamState, ReadView) {
        if self.pending.len() > 0 {
            let n = read_count(self.pending.len(), max);
            (
                StreamState { pending: self.pending.skip(n), ..self },
                Some(Ok(self.pending.take(n))),
            )
        } else if self.closed {
            (self, Some(Ok(seq![])))
        } else if self.queue.len() == 0 {
            if self.reader_live || self.cancel_armed {
                (self, None)
            } else {
                (self, Some(Err("stream closed"@)))
            }
        } else {
            let rest = StreamState { queue: self.queue.skip(1), ..self };
            match self.queue[0] {
                ChunkView::Data(bytes) => {
                    let n = read_count(bytes.len(), max);
                    (StreamState { pending: bytes.skip(n), ..rest }, Some(Ok(bytes.take(n))))
                },
                ChunkView::Eof => (StreamState { closed: true, ..rest }, Some(Ok(seq![]))),
                ChunkView::Lost => (rest, Some(Err("stream closed"@))),
                ChunkView::Cancelled => (rest, Some(Err("cancelled"@))),
            }
        }
    }
}

impl StreamState {
    /// Taking the oldest chunk off the queue leaves a well-formed stream; if it was the end of
    /// the stream, no more than an interruption is left.
    proof fn lemma_rest_well_formed(self)
        requires
            self.well_formed(),
            self.queue.len() > 0,
        ensures
            (StreamState { queue: self.queue.skip(1), ..self }).well_formed(),
            self.queue[0].is_last_word() ==> (StreamState {
                queue: self.queue.skip(1),
                closed: true,
                ..self
            }).well_formed(),
    {
        let rest = self.queue.skip(1);
        assert(forall|i: int| 0 <= i < rest.len() ==> rest[i] == self.queue[i + 1]);
    }
}

/// The answer of a read, as a mathematical value.
pub open spec fn read_view(r: Option<Result<Vec<u8>, RoamError>>) -> ReadView {
    match r {
        None => None,
        Some(Ok(bytes)) => Some(Ok(bytes@)),
        Some(Err(e)) => Some(Err(e@)),
    }
}

/// A stream to a host that has accepted this device.
pub struct RoamStream {
    pending: Vec<u8>,
    queue: VecDeque<Chunk>,
    closed: bool,
    write_open: bool,
    cancel_armed: bool,
    reader_live: bool,
}

impl View for RoamStream {
    type V = StreamState;

    closed spec fn view(&self) -> StreamState {
        StreamState {
            pending: self.pending@,
            queue: self.queue@.map_values(|c: Chunk| c@),
            closed: self.closed,
            write_open: self.write_open,
            cancel_armed: self.cancel_armed,
            reader_live: self.reader_live,
        }
    }
}

impl RoamStream {
    #[verifier::type_invariant]
    spec fn inv(self) -> bool {
        self@.well_formed()
    }

    /// A stream that has just been opened.
    pub(crate) fn open() -> (s: RoamStream)
        ensures
            s@ == StreamState::opened(),
    {
        let s = RoamStream {
            pending: Vec::new(),
            queue: VecDeque::new(),
            closed: false,
            write_open: true,
            cancel_armed: true,
            reader_live: true,
        };
        assert(s@ =~= StreamState::opened());
        s
    }

    /// Splits off the bytes that a read of up to `max` takes: those bytes, and the rest.
    fn split(bytes: Vec<u8>, max: i64) -> (r: (Vec<u8>, Vec<u8>))
        ensures
            r.0@ == bytes@.take(read_count(bytes@.len(), max as int)),
            r.1@ == bytes@.skip(read_count(bytes@.len(), max as int)),
    {
        let mut head = bytes;
        let n: usize = if max <= 0 {
            0
        } else if (max as u64) < (head.len() as u64) {
            max as usize
        } else {
            head.len()
        };
        let tail = head.split_off(n);
        (head, tail)
    }

    /// Up to `max` bytes, as soon as at least one chunk has arrived; `None` until then. No
    /// bytes mean the end of the stream. What exceeds `max` is kept for the next read.
    pub fn read(&mut self, max: i64) -> (r: Option<Result<Vec<u8>, RoamError>>)
        ensures
            (final(self)@, read_view(r)) == old(self)@.read(max as int),
            match r {
                None => old(self)@.read(max as int).1 is None,
                Some(Ok(bytes)) => old(self)@.read(max as int).1 == Some(
                    Ok::<Seq<u8>, Seq<char>>(bytes@),
                ),
                Some(Err(RoamError::Message(m))) => old(self)@.read(max as int).1 == Some(
                    Err::<Seq<u8>, Seq<char>>(m@),
                ),
            },
            old(self)@.well_formed(),
            final(self)@.well_formed(),
    {
        proof {
            use_type_invariant(&*self);
        }
        if self.pending.len() > 0 {
            let mut pending: Vec<u8> = Vec::new();
            std::mem::swap(&mut pending, &mut self.pending);
            let (head, tail) = Self::split(pending, max);
            self.pending = tail;
            return Some(Ok(head));
        }
        if self.closed {
            return Some(Ok(Vec::new()));
        }
        let ghost before = self@;
        let mut queue: VecDeque<Chunk> = VecDeque::new();
        std::mem::swap(&mut queue, &mut self.queue);
        let next = queue.pop_front();
        proof {
            if before.queue.len() > 0 {
                assert(queue@.map_values(|c: Chunk| c@) =~= before.queue.skip(1));
                before.lemma_rest_well_formed();
            } else {
                assert(queue@.map_values(|c: Chunk| c@) =~= before.queue);
            }
        }
        self.queue = queue;
        match next {
            None => {
                if self.reader_live || self.cancel_armed {
                    None
                } else {
                    Some(Err(error::message("stream closed")))
                }
            },
            Some(Chunk::Data(bytes)) => {
                let (head, tail) = Self::split(bytes, max);
                self.pending = tail;
                Some(Ok(head))
            },
            Some(Chunk::Eof) => {
                self.closed = true;
                Some(Ok(Vec::new()))
            },
            Some(Chunk::Lost) => Some(Err(error::message("stream closed"))),
            Some(Chunk::Cancelled) => Some(Err(error::message("cancelled"))),
        }
    }

    /// Queues what the reader has met: `outcome` is how many bytes of `buf` it has got, of the
    /// `READ_BUFFER` that it asks for (none at the end of the stream), or nothing where the
    /// connection has failed. Tells whether the reader is to go on.
    pub fn receive(&mut self, buf: &[u8], outcome: Option<usize>) -> (again: bool)
        requires
            outcome matches Some(n) ==> n <= buf@.len() && n <= READ_BUFFER,
        ensures
            final(self)@ == match outcome {
                Some(n) => old(self)@.receive(buf@.take(n as int)),
                None => old(self)@.lose(),
            },
            again == final(self)@.reader_live,
            again <==> old(self)@.reader_live && outcome is Some && outcome->0 > 0,
            final(self)@.well_formed(),
    {
        proof {
            use_type_invariant(&*self);
        }
        if !self.reader_live {
            return false;
        }
        match outcome {
            None => {
                self.reader_live = false;
                self.enqueue(Chunk::Lost);
                false
            },
            Some(n) => {
                if n == 0 {
                    self.reader_live = false;
                    self.enqueue(Chunk::Eof);
                    false
                } else {
                    let bytes = vstd::slice::slice_to_vec(
                        vstd::slice::slice_subrange(buf, 0, n),
                    );
                    assert(bytes@ =~= buf@.take(n as int));
                    self.enqueue(Chunk::Data(bytes));
                    true
                }
            },
        }
    }

    /// Queues a chunk that may follow those that wait.
    fn enqueue(&mut self, chunk: Chunk)
        requires
            old(self)@.push(chunk@).well_formed(),
        ensures
            final(self)@ == old(self)@.push(chunk@),
    {
        let ghost before = self@;
        let mut queue: VecDeque<Chunk> = VecDeque::new();
        std::mem::swap(&mut queue, &mut self.queue);
        queue.push_back(chunk);
        assert(queue@.map_values(|c: Chunk| c@) =~= before.queue.push(chunk@));
        self.queue = queue;
    }

    /// Drops the write half, which tells the peer that nothing more comes. Reads go on until
    /// the end of the stream.
    pub fn shutdown(&mut self)
        ensures
            final(self)@ == old(self)@.shutdown(),
            final(self)@.well_formed(),
    {
        proof {
            use_type_invariant(&*self);
        }
        self.write_open = false;
    }

    /// Interrupts a read that waits: where the next one would wait for the peer, it answers
    /// with an error.
    pub fn cancel(&mut self)
        ensures
            final(self)@ == old(self)@.cancel(),
            final(self)@.well_formed(),
    {
        proof {
            use_type_invariant(&*self);
        }
        if self.cancel_armed {
            self.cancel_armed = false;
            self.enqueue(Chunk::Cancelled);
        }
    }

    /// The first step of a write of the whole of `data`.
    pub fn write(&self, data: Vec<u8>) -> (step: WriteStep)
        ensures
            step@ == writing::write_begin(self@.write_open, data@),
            self@.write_open ==> step == (WriteStep::WriteAll { data, then: WriteState::Writing }),
            !self@.write_open ==> (step matches WriteStep::Finished(Err(RoamError::Message(m)))
                && m@ == "stream closed"@),
    {
        if self.write_open {
            WriteStep::WriteAll { data, then: WriteState::Writing }
        } else {
            WriteStep::Finished(Err(error::message("stream closed")))
        }
    }
}

} // verus!
