//! Connection cards, by which a host is found.

use vstd::prelude::*;

use crate::error;
use crate::error::RoamError;

verus! {

/// What `card_fingerprint` answers.
pub open spec fn fingerprint_of(decoded: Result<Seq<char>, Seq<char>>) -> Result<
    Seq<char>,
    Seq<char>,
> {
    match decoded {
        Ok(fingerprint) => Ok(fingerprint),
        Err(fault) => Err("invalid card: "@ + fault),
    }
}

/// The fingerprint of a connection card, for the user to see before the card is used: `decoded`
/// is the fingerprint of the card that was decoded, or the words of the failure to decode it.
pub fn card_fingerprint(decoded: Result<String, String>) -> (r: Result<String, RoamError>)
    ensures
        fingerprint_of(
            match decoded {
                Ok(fingerprint) => Ok(fingerprint@),
                Err(fault) => Err(fault@),
            },
        ) == match r {
            Ok(text) => Ok::<Seq<char>, Seq<char>>(text@),
            Err(e) => Err::<Seq<char>, Seq<char>>(e@),
        },
        decoded matches Ok(fingerprint) ==> (r matches Ok(text) && text@ == fingerprint@),
        decoded matches Err(fault) ==> (r matches Err(RoamError::Message(m)) && m@
            == "invalid card: "@ + fault@),
{
    match decoded {
        Ok(fingerprint) => Ok(fingerprint),
        Err(fault) => Err(error::message_with("invalid card: ", &fault)),
    }
}

/// A card that was decoded is answered with its own fingerprint, so two cards are told apart
/// exactly by their fingerprints.
pub proof fn law_a_fingerprint_is_its_card_s(a: Seq<char>, b: Seq<char>)
    ensures
        fingerprint_of(Ok(a)) == Ok::<Seq<char>, Seq<char>>(a),
        fingerprint_of(Ok(a)) == fingerprint_of(Ok(b)) <==> a == b,
{
}

/// A card that was not decoded is never answered with a fingerprint: the failure's words are
/// told, whole and behind the same prefix.
pub proof fn law_a_bad_card_has_no_fingerprint(fault: Seq<char>)
    ensures
        fingerprint_of(Err(fault)) matches Err(message) && message == "invalid card: "@ + fault,
{
}

} // verus!
