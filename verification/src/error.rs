//! The error that every fallible operation reports.

use vstd::prelude::*;

verus! {

/// A failure, described by the message that the user is shown.
#[derive(Debug)]
pub enum RoamError {
    Message(String),
}

impl View for RoamError {
    type V = Seq<char>;

    /// The message.
    open spec fn view(&self) -> Seq<char> {
        match self {
            RoamError::Message(m) => m@,
        }
    }
}

impl RoamError {
    /// The message, as it is shown to the user.
    pub fn to_string(&self) -> (text: String)
        ensures
            text@ == self@,
            *self matches RoamError::Message(m) && text@ == m@,
    {
        match self {
            RoamError::Message(m) => m.clone(),
        }
    }
}

/// The outcome of an outside operation, as a mathematical value: success, or the words of the
/// failure.
pub open spec fn outcome_view(outcome: Result<(), String>) -> Result<(), Seq<char>> {
    match outcome {
        Ok(()) => Ok(()),
        Err(fault) => Err(fault@),
    }
}

/// An error whose message is `text`.
pub(crate) fn message(text: &str) -> (e: RoamError)
    ensures
        e@ == text@,
{
    RoamError::Message(text.to_owned())
}

/// An error whose message is `prefix` followed by `detail`, the text of the failure that
/// caused it.
pub(crate) fn message_with(prefix: &str, detail: &str) -> (e: RoamError)
    ensures
        e@ == prefix@ + detail@,
{
    let mut text: String = prefix.to_owned();
    text.append(detail);
    RoamError::Message(text)
}

/// An error is its message, whole.
pub proof fn law_an_error_is_its_message(e: RoamError)
    ensures
        e matches RoamError::Message(m) && m@ == e@,
{
}

/// An outcome is seen as what it is: a success, or a failure with all its words.
pub proof fn law_an_outcome_is_seen_whole(outcome: Result<(), String>)
    ensures
        outcome is Ok ==> outcome_view(outcome) == Ok::<(), Seq<char>>(()),
        outcome matches Err(fault) ==> outcome_view(outcome) == Err::<(), Seq<char>>(fault@),
{
}

} // verus!
