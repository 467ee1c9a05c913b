use base64::Engine;
use grouse_roam_core::identity::{decode_secret, identity_text};
use grouse_roam_core::{identity_generate, identity_public_key, RoamError};

fn encode(bytes: &[u8]) -> String {
    base64::engine::general_purpose::STANDARD.encode(bytes)
}

fn refusal(secret_b64: &str) -> String {
    identity_public_key(secret_b64).unwrap_err().to_string()
}

#[test]
fn generated_identity_is_base64_of_32_bytes() {
    let secret = identity_generate();
    assert_eq!(secret.len(), 44);
    let bytes = base64::engine::general_purpose::STANDARD.decode(&secret).unwrap();
    assert_eq!(bytes.len(), 32);
    assert_eq!(decode_secret(&secret).unwrap().to_vec(), bytes);
}

#[test]
fn the_text_of_a_key() {
    assert_eq!(identity_text(&[0u8; 32]), "AAAAAAAAAAAAAAAAAAAAAAAAAAAAAAAAAAAAAAAAAAA=");
    let secret: Vec<u8> = (0..32u8).map(|i| 255 - 3 * i).collect();
    let secret: [u8; 32] = secret.try_into().unwrap();
    assert_eq!(identity_text(&secret), encode(&secret));
    assert_eq!(decode_secret(&identity_text(&secret)).unwrap(), secret);
    assert_ne!(identity_text(&secret), identity_text(&[0u8; 32]));
}

#[test]
fn generated_identities_differ() {
    assert_ne!(identity_generate(), identity_generate());
}

#[test]
fn public_keys_of_known_secrets() {
    assert_eq!(
        identity_public_key(&encode(&[0u8; 32])).unwrap(),
        "3b6a27bcceb6a42d62a3a8d02a6f0d73653215771de243a63ac048a18b59da29"
    );
    assert_eq!(
        identity_public_key("nWGxne/9WmC6hEr0kuwsxERJxWl7MmkZcDusAxyuf2A=").unwrap(),
        "d75a980182b10ab7d54bfed3c964073a0ee172f3daa62325af021a68f707511a"
    );
}

#[test]
fn public_key_is_lower_case_hex() {
    let id = identity_public_key(&identity_generate()).unwrap();
    assert_eq!(id.len(), 64);
    assert!(id.chars().all(|c| c.is_ascii_digit() || ('a'..='f').contains(&c)));
}

#[test]
fn the_whole_alphabet_is_read_back() {
    // 0x00 0x10 0x83 .. is the run of all 64 symbols; its first 32 bytes use 43 of them.
    let text = "ABCDEFGHIJKLMNOPQRSTUVWXYZabcdefghijklmnop8=";
    let secret = decode_secret(text).unwrap();
    assert_eq!(secret[0], 0x00);
    assert_eq!(secret[1], 0x10);
    assert_eq!(secret[2], 0x83);
    assert_eq!(encode(&secret), text);
    let text = "qrstuvwxyz0123456789+/ABCDEFGHIJKLMNOPQRSTU=";
    let secret = decode_secret(text).unwrap();
    assert_eq!(secret[0], 0xaa);
    assert_eq!(encode(&secret), text);
}

#[test]
fn the_reason_for_a_refusal_is_told() {
    assert_eq!(refusal("not-base64!!"), "invalid identity: Invalid symbol 45, offset 3.");
    assert_eq!(refusal(""), "identity must be 32 bytes");
    assert_eq!(refusal(&encode(&[0u8; 31])), "identity must be 32 bytes");
    assert_eq!(refusal(&encode(&[0u8; 33])), "identity must be 32 bytes");
    assert_eq!(refusal("AAA"), "invalid identity: Invalid padding");
    assert_eq!(refusal("AAAAA"), "invalid identity: Invalid input length: 5");
    assert_eq!(refusal("AB=="), "invalid identity: Invalid last symbol 66, offset 1.");
}

#[test]
fn only_canonical_base64_is_accepted() {
    let good = encode(&[7u8; 32]);
    assert!(identity_public_key(&good).is_ok());
    // Without its padding, with too much of it, and with trailing bits set.
    assert!(identity_public_key(&good[..43]).is_err());
    assert!(identity_public_key(&format!("{good}=")).is_err());
    let mut bits = good.clone();
    bits.replace_range(42..43, "d");
    assert_ne!(bits, good);
    assert!(identity_public_key(&bits).is_err());
    // The symbols of the other common alphabet.
    assert!(identity_public_key(&good.replace('B', "-")).is_err());
}

#[test]
fn white_space_around_an_identity_does_not_count() {
    let secret = encode(&[9u8; 32]);
    let id = identity_public_key(&secret).unwrap();
    assert_eq!(identity_public_key(&format!("  {secret}\r\n")).unwrap(), id);
    assert_eq!(identity_public_key(&format!("\u{3000}\t{secret}\u{a0}\u{2028}")).unwrap(), id);
    // Inside, it does.
    let (a, b) = secret.split_at(20);
    assert!(identity_public_key(&format!("{a} {b}")).is_err());
    // White space alone is an empty identity.
    assert_eq!(refusal(" \n\t"), "identity must be 32 bytes");
}

#[test]
fn which_characters_are_white_space() {
    let listed = |c: char| {
        matches!(
            c,
            '\u{9}'..='\u{d}' | '\u{20}' | '\u{85}' | '\u{a0}' | '\u{1680}'
                | '\u{2000}'..='\u{200a}' | '\u{2028}' | '\u{2029}' | '\u{202f}' | '\u{205f}'
                | '\u{3000}'
        )
    };
    let secret = encode(&[1u8; 32]);
    for c in '\0'..=char::MAX {
        let before = format!("{c}{secret}");
        assert_eq!(decode_secret(&before).is_ok(), listed(c), "{:x}", c as u32);
        let after = format!("{secret}{c}");
        assert_eq!(decode_secret(&after).is_ok(), listed(c), "{:x}", c as u32);
    }
}

#[test]
fn an_error_tells_its_message() {
    let e = RoamError::Message("bind: no route".to_string());
    assert_eq!(e.to_string(), "bind: no route");
    assert_eq!(format!("{:?}", e), "Message(\"bind: no route\")");
}
