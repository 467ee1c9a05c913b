//! Connecting to a host: which outside operation comes next, and what its outcome means.

use vstd::prelude::*;

use crate::error;
use crate::error::RoamError;
use crate::identity;
use crate::stream::{RoamStream, StreamState};
use crate::text;

verus! {

/// Which outcome a connection attempt waits for, and what it still needs.
pub enum ConnectState {
    /// Whether the card can be decoded.
    DecodingCard { secret: [u8; 32], card: String, label: Option<String> },
    /// Whether a node for this identity could be bound.
    Binding { card: String, label: Option<String> },
    /// Whether the host could be dialled and accepted this device.
    Dialling,
}

/// What to do next for a connection attempt. The outcome of all but the last is to be handed
/// to `connect_step`, together with `then`.
pub enum ConnectStep {
    /// Decode the host's connection card.
    DecodeCard { card: String, then: ConnectState },
    /// Bind a node that has this secret key for its identity.
    Bind { secret: [u8; 32], then: ConnectState },
    /// Dial the host that this card names, from the bound node, under this label.
    Dial { card: String, label: Option<String>, then: ConnectState },
    /// The attempt is over. On success the stream is ready, and its reader is to be started.
    Finished(Result<RoamStream, RoamError>),
}

/// A state of a connection attempt, as a mathematical value.
pub enum ConnectStateView {
    DecodingCard { secret: Seq<u8>, card: Seq<char>, label: Option<Seq<char>> },
    Binding { card: Seq<char>, label: Option<Seq<char>> },
    Dialling,
}

/// A step of a connection attempt, as a mathematical value.
pub enum ConnectStepView {
    DecodeCard { card: Seq<char>, then: ConnectStateView },
    Bind { secret: Seq<u8>, then: ConnectStateView },
    Dial { card: Seq<char>, label: Option<Seq<char>>, then: ConnectStateView },
    Finished(Result<StreamState, Seq<char>>),
}

impl View for ConnectState {
    type V = ConnectStateView;

    open spec fn view(&self) -> ConnectStateView {
        match self {
            ConnectState::DecodingCard { secret, card, label } => ConnectStateView::DecodingCard {
                secret: secret@,
                card: card@,
                label: text::optional_text(*label),
            },
            ConnectState::Binding { card, label } => ConnectStateView::Binding {
                card: card@,
                label: text::optional_text(*label),
            },
            ConnectState::Dialling => ConnectStateView::Dialling,
        }
    }
}

impl View for ConnectStep {
    type V = ConnectStepView;

    open spec fn view(&self) -> ConnectStepView {
        match self {
            ConnectStep::DecodeCard { card, then } => ConnectStepView::DecodeCard {
                card: card@,
                then: then@,
            },
            ConnectStep::Bind { secret, then } => ConnectStepView::Bind {
                secret: secret@,
                then: then@,
            },
            ConnectStep::Dial { card, label, then } => ConnectStepView::Dial {
                card: card@,
                label: text::optional_text(*label),
                then: then@,
            },
            ConnectStep::Finished(Ok(stream)) => ConnectStepView::Finished(Ok(stream@)),
            ConnectStep::Finished(Err(e)) => ConnectStepView::Finished(Err(e@)),
        }
    }
}

/// The first step of a connection attempt.
pub open spec fn connect_begin(
    secret_b64: Seq<char>,
    card: Seq<char>,
    label: Option<Seq<char>>,
) -> ConnectStepView {
    match identity::secret_of(secret_b64) {
        Err(message) => ConnectStepView::Finished(Err(message)),
        Ok(secret) => ConnectStepView::DecodeCard {
            card,
            then: ConnectStateView::DecodingCard { secret, card, label },
        },
    }
}

/// The step that follows an outcome.
pub open spec fn connect_next(
    state: ConnectStateView,
    outcome: Result<(), Seq<char>>,
) -> ConnectStepView {
    match outcome {
        Ok(()) => match state {
            ConnectStateView::DecodingCard { secret, card, label } => ConnectStepView::Bind {
                secret,
                then: ConnectStateView::Binding { card, label },
            },
            ConnectStateView::Binding { card, label } => ConnectStepView::Dial {
                card,
                label,
                then: ConnectStateView::Dialling,
            },
            ConnectStateView::Dialling => ConnectStepView::Finished(Ok(StreamState::opened())),
        },
        Err(fault) => ConnectStepView::Finished(
            Err(
                match state {
                    ConnectStateView::DecodingCard { .. } => "invalid card: "@ + fault,
                    ConnectStateView::Binding { .. } => "bind: "@ + fault,
                    ConnectStateView::Dialling => "connect: "@ + fault,
                },
            ),
        ),
    }
}

/// The first step of an attempt to connect to the host that `card` names: dial it, complete
/// the handshake, and hand the authorized stream back. The identity is looked at before
/// anything else.
pub fn roam_connect(secret_b64: &str, card: &str, label: Option<String>) -> (step: ConnectStep)
    ensures
        step@ == connect_begin(secret_b64@, card@, text::optional_text(label)),
        match identity::secret_of(secret_b64@) {
            Ok(key) => {
                &&& step matches ConnectStep::DecodeCard {
                    card: c,
                    then: ConnectState::DecodingCard { secret, card: to_dial, label: l },
                }
                &&& c@ == card@ && secret@ == key && to_dial@ == card@ && l == label
            },
            Err(reason) => step matches ConnectStep::Finished(Err(RoamError::Message(m))) && m@
                == reason,
        },
{
    match identity::decode_secret(secret_b64) {
        Err(e) => ConnectStep::Finished(Err(e)),
        Ok(secret) => ConnectStep::DecodeCard {
            card: card.to_owned(),
            then: ConnectState::DecodingCard { secret, card: card.to_owned(), label },
        },
    }
}

/// The step that follows the outcome of the step before.
pub fn connect_step(state: ConnectState, outcome: Result<(), String>) -> (step: ConnectStep)
    ensures
        step@ == connect_next(state@, error::outcome_view(outcome)),
        match (state, outcome) {
            (ConnectState::DecodingCard { secret, card, label }, Ok(())) => step
                == (ConnectStep::Bind { secret, then: ConnectState::Binding { card, label } }),
            (ConnectState::Binding { card, label }, Ok(())) => step == (ConnectStep::Dial {
                card,
                label,
                then: ConnectState::Dialling,
            }),
            (ConnectState::Dialling, Ok(())) => step matches ConnectStep::Finished(Ok(stream))
                && stream@ == StreamState::opened(),
            (ConnectState::DecodingCard { .. }, Err(fault)) => step matches ConnectStep::Finished(
                Err(RoamError::Message(m)),
            ) && m@ == "invalid card: "@ + fault@,
            (ConnectState::Binding { .. }, Err(fault)) => step matches ConnectStep::Finished(
                Err(RoamError::Message(m)),
            ) && m@ == "bind: "@ + fault@,
            (ConnectState::Dialling, Err(fault)) => step matches ConnectStep::Finished(
                Err(RoamError::Message(m)),
            ) && m@ == "connect: "@ + fault@,
        },
{
    match state {
        ConnectState::DecodingCard { secret, card, label } => match outcome {
            Ok(()) => ConnectStep::Bind { secret, then: ConnectState::Binding { card, label } },
            Err(fault) => ConnectStep::Finished(
                Err(error::message_with("invalid card: ", &fault)),
            ),
        },
        ConnectState::Binding { card, label } => match outcome {
            Ok(()) => ConnectStep::Dial { card, label, then: ConnectState::Dialling },
            Err(fault) => ConnectStep::Finished(Err(error::message_with("bind: ", &fault))),
        },
        ConnectState::Dialling => match outcome {
            Ok(()) => ConnectStep::Finished(Ok(RoamStream::open())),
            Err(fault) => ConnectStep::Finished(Err(error::message_with("connect: ", &fault))),
        },
    }
}

/// The step after `step` when every outside operation has the outcome that it is given here.
pub open spec fn advance(
    step: ConnectStepView,
    decoded: Result<(), Seq<char>>,
    bound: Result<(), Seq<char>>,
    dialled: Result<(), Seq<char>>,
) -> ConnectStepView {
    match step {
        ConnectStepView::DecodeCard { card, then } => connect_next(then, decoded),
        ConnectStepView::Bind { secret, then } => connect_next(then, bound),
        ConnectStepView::Dial { card, label, then } => connect_next(then, dialled),
        ConnectStepView::Finished(r) => step,
    }
}

/// How a connection attempt ends: with the first failure of reading the identity, decoding the
/// card, binding the node and dialling the host, in this order, or with an open stream.
pub open spec fn connect_result(
    secret_b64: Seq<char>,
    decoded: Result<(), Seq<char>>,
    bound: Result<(), Seq<char>>,
    dialled: Result<(), Seq<char>>,
) -> Result<StreamState, Seq<char>> {
    if identity::secret_of(secret_b64) is Err {
        Err(identity::secret_of(secret_b64)->Err_0)
    } else if decoded is Err {
        Err("invalid card: "@ + decoded->Err_0)
    } else if bound is Err {
        Err("bind: "@ + bound->Err_0)
    } else if dialled is Err {
        Err("connect: "@ + dialled->Err_0)
    } else {
        Ok(StreamState::opened())
    }
}

/// A connection attempt is over after at most three outside operations, and ends as
/// `connect_result` says.
pub proof fn law_connect_result(
    secret_b64: Seq<char>,
    card: Seq<char>,
    label: Option<Seq<char>>,
    decoded: Result<(), Seq<char>>,
    bound: Result<(), Seq<char>>,
    dialled: Result<(), Seq<char>>,
)
    ensures
        advance(
            advance(
                advance(connect_begin(secret_b64, card, label), decoded, bound, dialled),
                decoded,
                bound,
                dialled,
            ),
            decoded,
            bound,
            dialled,
        ) == ConnectStepView::Finished(connect_result(secret_b64, decoded, bound, dialled)),
{
}

/// No node is bound before the identity and the card have been accepted, and none is bound
/// under another key than the caller's, whose public key is the one that the host sees. The
/// host is dialled only from a bound node: the one that the caller's card names, under the
/// caller's label.
pub proof fn law_nothing_is_dialled_early(
    secret_b64: Seq<char>,
    card: Seq<char>,
    label: Option<Seq<char>>,
    decoded: Result<(), Seq<char>>,
    bound: Result<(), Seq<char>>,
    dialled: Result<(), Seq<char>>,
)
    ensures
        ({
            let first = connect_begin(secret_b64, card, label);
            let second = advance(first, decoded, bound, dialled);
            let third = advance(second, decoded, bound, dialled);
            &&& !(first is Bind) && !(first is Dial) && !(second is Dial) && !(third is Bind)
            &&& first matches ConnectStepView::DecodeCard { card: c, .. } ==> c == card
            &&& second matches ConnectStepView::Bind { secret, .. } ==> decoded is Ok
                && identity::secret_of(secret_b64) == Ok::<Seq<u8>, Seq<char>>(secret)
                && identity::public_key_of(secret_b64) == Ok::<Seq<char>, Seq<char>>(
                identity::hex_text(identity::endpoint_key(secret)),
            )
            &&& third matches ConnectStepView::Dial { card: c, label: l, .. } ==> decoded is Ok
                && bound is Ok && c == card && l == label
        }),
{
}

/// Where the identity and the card are accepted and a node is bound, the steps of an attempt
/// are these: the caller's card is decoded, a node is bound under the key whose public key is
/// the caller's, and the host of that card is dialled under the caller's label.
pub proof fn law_who_dials_whom(
    secret_b64: Seq<char>,
    card: Seq<char>,
    label: Option<Seq<char>>,
    dialled: Result<(), Seq<char>>,
)
    requires
        identity::public_key_of(secret_b64) is Ok,
    ensures
        ({
            let first = connect_begin(secret_b64, card, label);
            let second = advance(first, Ok(()), Ok(()), dialled);
            let third = advance(second, Ok(()), Ok(()), dialled);
            &&& first matches ConnectStepView::DecodeCard { card: c, .. } && c == card
            &&& second matches ConnectStepView::Bind { secret, .. } && identity::hex_text(
                identity::endpoint_key(secret),
            ) == identity::public_key_of(secret_b64)->Ok_0
            &&& third matches ConnectStepView::Dial { card: c, label: l, .. } && c == card && l
                == label
        }),
{
}

/// The first thing that fails ends an attempt, and tells which it was: a bad identity before the
/// card, the card before the node, the node before the host. Where nothing fails, the stream is
/// open.
pub proof fn law_the_first_failure_is_told(
    secret_b64: Seq<char>,
    card: Seq<char>,
    label: Option<Seq<char>>,
    decoded: Result<(), Seq<char>>,
    bound: Result<(), Seq<char>>,
    dialled: Result<(), Seq<char>>,
)
    ensures
        ({
            let first = connect_begin(secret_b64, card, label);
            let second = advance(first, decoded, bound, dialled);
            let third = advance(second, decoded, bound, dialled);
            let end = advance(third, decoded, bound, dialled);
            let accepted = identity::secret_of(secret_b64) is Ok;
            &&& end is Finished
            &&& identity::secret_of(secret_b64) matches Err(reason) ==> first
                == ConnectStepView::Finished(Err(reason))
            &&& accepted ==> first is DecodeCard
            &&& accepted && decoded is Err ==> second == ConnectStepView::Finished(
                Err("invalid card: "@ + decoded->Err_0),
            )
            &&& accepted && decoded is Ok ==> second is Bind
            &&& accepted && decoded is Ok && bound is Err ==> third == ConnectStepView::Finished(
                Err("bind: "@ + bound->Err_0),
            )
            &&& accepted && decoded is Ok && bound is Ok ==> third is Dial
            &&& accepted && decoded is Ok && bound is Ok && dialled is Err ==> end
                == ConnectStepView::Finished(Err("connect: "@ + dialled->Err_0))
            &&& (end matches ConnectStepView::Finished(Ok(_))) <==> accepted && decoded is Ok
                && bound is Ok && dialled is Ok
            &&& end matches ConnectStepView::Finished(Ok(stream)) ==> stream
                == StreamState::opened()
        }),
{
}

} // verus!
