use grouse_roam_core::connect::{connect_step, ConnectStep};
use grouse_roam_core::{card_fingerprint, identity_generate, roam_connect, RoamStream};

const SECRET: &str = "AAAAAAAAAAAAAAAAAAAAAAAAAAAAAAAAAAAAAAAAAAA=";

/// Takes the steps of an attempt, with these outcomes; notes the steps taken.
fn attempt(
    secret: &str,
    outcomes: [Result<(), String>; 3],
) -> (Vec<String>, Result<RoamStream, String>) {
    let [decoded, bound, dialled] = outcomes;
    let mut taken: Vec<String> = Vec::new();
    let mut step = roam_connect(secret, "a card", Some("test".to_string()));
    loop {
        step = match step {
            ConnectStep::DecodeCard { card, then } => {
                taken.push(format!("decode {card}"));
                connect_step(then, decoded.clone())
            }
            ConnectStep::Bind { secret, then } => {
                taken.push(format!("bind {}", secret[0]));
                connect_step(then, bound.clone())
            }
            ConnectStep::Dial { card, label, then } => {
                taken.push(format!("dial {card} as {:?}", label));
                connect_step(then, dialled.clone())
            }
            ConnectStep::Finished(r) => return (taken, r.map_err(|e| e.to_string())),
        };
    }
}

fn no(fault: &str) -> Result<(), String> {
    Err(fault.to_string())
}

#[test]
fn a_connection_takes_three_steps() {
    let (taken, r) = attempt(SECRET, [Ok(()), Ok(()), Ok(())]);
    assert_eq!(taken, ["decode a card", "bind 0", "dial a card as Some(\"test\")"]);
    let mut stream = match r {
        Ok(stream) => stream,
        Err(e) => panic!("unexpected error: {e}"),
    };
    // Nothing has arrived yet: the read has to wait.
    assert!(stream.read(1).is_none());
}

#[test]
fn a_dial_failure_is_reported() {
    let (taken, r) = attempt(&identity_generate(), [Ok(()), Ok(()), no("relay unreachable")]);
    assert_eq!(taken.len(), 3);
    assert_eq!(r.err().unwrap(), "connect: relay unreachable");
}

#[test]
fn a_bind_failure_is_reported() {
    let (taken, r) = attempt(SECRET, [Ok(()), no("no socket"), no("unused")]);
    assert_eq!(taken.len(), 2);
    assert_eq!(r.err().unwrap(), "bind: no socket");
}

#[test]
fn a_bad_card_is_reported_before_anything_is_bound() {
    let (taken, r) = attempt(SECRET, [no("bad prefix"), Ok(()), Ok(())]);
    assert_eq!(taken, ["decode a card"]);
    assert_eq!(r.err().unwrap(), "invalid card: bad prefix");
}

#[test]
fn a_bad_identity_is_reported_before_the_card_is_looked_at() {
    let (taken, r) = attempt("AAAA", [no("bad prefix"), Ok(()), Ok(())]);
    assert!(taken.is_empty());
    assert_eq!(r.err().unwrap(), "identity must be 32 bytes");
}

#[test]
fn the_key_that_is_bound_is_the_caller_s() {
    let step = roam_connect("//////////////////////////////////////////8=", "c", None);
    let then = match step {
        ConnectStep::DecodeCard { card, then } => {
            assert_eq!(card, "c");
            then
        }
        _ => panic!("expected the card to be decoded"),
    };
    match connect_step(then, Ok(())) {
        ConnectStep::Bind { secret, then } => {
            assert_eq!(secret, [255u8; 32]);
            assert!(matches!(
                connect_step(then, Ok(())),
                ConnectStep::Dial { card, label: None, .. } if card == "c"
            ));
        }
        _ => panic!("expected a node to be bound"),
    };
}

#[test]
fn a_fingerprint_is_handed_on() {
    assert_eq!(card_fingerprint(Ok("ab:cd".to_string())).unwrap(), "ab:cd");
    assert_eq!(
        card_fingerprint(Err("bad prefix".to_string())).unwrap_err().to_string(),
        "invalid card: bad prefix"
    );
}
