//! Writing to a stream: the whole buffer is handed over, then flushed. Handing bytes over only
//! queues them; without the flush a short message can sit in the send buffer for good.

use vstd::prelude::*;

use crate::error;
use crate::error::RoamError;

verus! {

/// Which outcome a write waits for.
pub enum WriteState {
    /// That of handing the buffer over.
    Writing,
    /// That of flushing.
    Flushing,
}

/// What to do next for a write. The outcome of all but the last is to be handed to `write_step`,
/// together with `then`.
pub enum WriteStep {
    /// Hand all of `data` to the write half.
    WriteAll { data: Vec<u8>, then: WriteState },
    /// Flush the write half.
    Flush { then: WriteState },
    /// The write is over.
    Finished(Result<(), RoamError>),
}

/// A step of a write, as a mathematical value.
pub enum WriteStepView {
    WriteAll { data: Seq<u8>, then: WriteState },
    Flush { then: WriteState },
    Finished(Result<(), Seq<char>>),
}

impl View for WriteStep {
    type V = WriteStepView;

    open spec fn view(&self) -> WriteStepView {
        match self {
            WriteStep::WriteAll { data, then } => WriteStepView::WriteAll {
                data: data@,
                then: *then,
            },
            WriteStep::Flush { then } => WriteStepView::Flush { then: *then },
            WriteStep::Finished(Ok(())) => WriteStepView::Finished(Ok(())),
            WriteStep::Finished(Err(e)) => WriteStepView::Finished(Err(e@)),
        }
    }
}

/// The first step of a write of `data` to a stream whose write half is there or not.
pub open spec fn write_begin(write_open: bool, data: Seq<u8>) -> WriteStepView {
    if write_open {
        WriteStepView::WriteAll { data, then: WriteState::Writing }
    } else {
        WriteStepView::Finished(Err("stream closed"@))
    }
}

/// The step that follows an outcome.
pub open spec fn write_next(
    state: WriteState,
    outcome: Result<(), Seq<char>>,
) -> WriteStepView {
    match (state, outcome) {
        (_, Err(fault)) => WriteStepView::Finished(Err("write: "@ + fault)),
        (WriteState::Writing, Ok(())) => WriteStepView::Flush { then: WriteState::Flushing },
        (WriteState::Flushing, Ok(())) => WriteStepView::Finished(Ok(())),
    }
}

/// The step that follows the outcome of the step before.
pub fn write_step(state: WriteState, outcome: Result<(), String>) -> (step: WriteStep)
    ensures
        step@ == write_next(state, error::outcome_view(outcome)),
        outcome is Ok && state is Writing ==> step == (WriteStep::Flush {
            then: WriteState::Flushing,
        }),
        outcome is Ok && state is Flushing ==> step == WriteStep::Finished(Ok(())),
        outcome matches Err(fault) ==> (step matches WriteStep::Finished(
            Err(RoamError::Message(m)),
        ) && m@ == "write: "@ + fault@),
{
    match outcome {
        Err(fault) => WriteStep::Finished(Err(error::message_with("write: ", &fault))),
        Ok(()) => match state {
            WriteState::Writing => WriteStep::Flush { then: WriteState::Flushing },
            WriteState::Flushing => WriteStep::Finished(Ok(())),
        },
    }
}

/// The step after `step` when the outside operations have the outcomes that are given here.
pub open spec fn advance(
    step: WriteStepView,
    written: Result<(), Seq<char>>,
    flushed: Result<(), Seq<char>>,
) -> WriteStepView {
    match step {
        WriteStepView::WriteAll { data, then } => write_next(then, written),
        WriteStepView::Flush { then } => write_next(then, flushed),
        WriteStepView::Finished(r) => step,
    }
}

/// A write to an open stream hands the whole buffer over and is over after at most one step
/// more. It succeeds exactly if the buffer was handed over and the flush after it succeeded; it
/// fails with the first failure of the two.
pub proof fn law_write_result(
    data: Seq<u8>,
    written: Result<(), Seq<char>>,
    flushed: Result<(), Seq<char>>,
)
    ensures
        write_begin(true, data) matches WriteStepView::WriteAll { data: d, .. } && d == data,
        advance(advance(write_begin(true, data), written, flushed), written, flushed)
            == WriteStepView::Finished(
            match (written, flushed) {
                (Err(fault), _) => Err("write: "@ + fault),
                (Ok(()), Err(fault)) => Err("write: "@ + fault),
                (Ok(()), Ok(())) => Ok(()),
            },
        ),
        advance(write_begin(true, data), written, flushed) is Flush <==> written is Ok,
{
}

} // verus!
