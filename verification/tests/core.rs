use base64::Engine;
use grouse_roam_core::{identity_generate, identity_public_key};

#[test]
fn identity_round_trip_is_stable() {
    let secret = identity_generate();
    // Public key derived from the same secret must be identical every time.
    let pk1 = identity_public_key(&secret).unwrap();
    let pk2 = identity_public_key(&secret).unwrap();
    assert_eq!(pk1, pk2);
    assert!(pk1.len() >= 16, "public key should be a hex node id");
}

#[test]
fn identity_rejects_garbage() {
    assert!(identity_public_key("not-base64!!").is_err());
    assert!(identity_public_key("").is_err());
    // 31 bytes is not a 32-byte secret key.
    let short = base64::engine::general_purpose::STANDARD.encode([0u8; 31]);
    assert!(identity_public_key(&short).is_err());
}
