//! The identity of this device: a secret key, which the caller keeps, and the public key that
//! a host sees.

use vstd::prelude::*;

use crate::base64_text;
use crate::error;
use crate::error::RoamError;
use crate::text;

verus! {

/// The lower-case hexadecimal digit of a four-bit value.
pub open spec fn hex_digit(v: int) -> char {
    if v < 10 {
        ('0' as int + v) as char
    } else {
        ('a' as int + (v - 10)) as char
    }
}

/// The lower-case hexadecimal text of `bytes`: two digits a byte, the high one first.
pub open spec fn hex_text(bytes: Seq<u8>) -> Seq<char> {
    Seq::new(
        2 * bytes.len(),
        |i: int|
            hex_digit(
                if i % 2 == 0 {
                    bytes[i / 2] as int / 16
                } else {
                    bytes[i / 2] as int % 16
                },
            ),
    )
}

/// The bytes of the public key that belongs to the secret key `secret`.
pub uninterp spec fn endpoint_key(secret: Seq<u8>) -> Seq<u8>;

/// What an identity text holds: the bytes of a secret key, or the message that refuses it.
/// White space around the base64 text does not count.
pub open spec fn secret_of(secret_b64: Seq<char>) -> Result<Seq<u8>, Seq<char>> {
    let encoded = text::trimmed(secret_b64);
    if !base64_text::is_base64(encoded) {
        Err("invalid identity: "@ + base64_text::base64_fault(encoded))
    } else if base64_text::base64_bytes(encoded).len() != 32 {
        Err("identity must be 32 bytes"@)
    } else {
        Ok(base64_text::base64_bytes(encoded))
    }
}

/// What `identity_public_key` answers.
pub open spec fn public_key_of(secret_b64: Seq<char>) -> Result<Seq<char>, Seq<char>> {
    match secret_of(secret_b64) {
        Ok(secret) => Ok(hex_text(endpoint_key(secret))),
        Err(message) => Err(message),
    }
}

/// Calls `iroh::SecretKey::generate` and takes the key's bytes. They are random: nothing is
/// claimed of them but that there are 32.
#[verifier::external_body]
fn generate_secret() -> (secret: [u8; 32]) {
    iroh::SecretKey::generate().to_bytes()
}

/// Calls `iroh::SecretKey::public` on the key made of `secret`, and writes the public key as
/// its `Display` does. Believed of it: that the public key depends on the secret key alone,
/// that it has 32 bytes, and that it is written in lower-case hexadecimal.
///
/// A host lists a device by the key of its iroh endpoint, so it is iroh that is asked here;
/// `goose-roaming`, which binds the endpoint under the same secret key, is not.
#[verifier::external_body]
fn endpoint_id(secret: &[u8; 32]) -> (id: String)
    ensures
        id@ == hex_text(endpoint_key(secret@)),
        id@.len() == 64,
{
    iroh::SecretKey::from_bytes(secret).public().to_string()
}

/// The identity text of a secret key: its base64 text.
pub fn identity_text(secret: &[u8; 32]) -> (secret_b64: String)
    ensures
        secret_b64@ == base64_text::base64_text(secret@),
        secret_b64@.len() == 44,
        secret_of(secret_b64@) == Ok::<Seq<u8>, Seq<char>>(secret@),
{
    let secret_b64 = base64_text::encode_key(secret);
    proof {
        base64_text::law_base64_length(secret@);
        law_secret_round_trip(secret@, Seq::empty(), Seq::empty());
        assert(Seq::<char>::empty() + secret_b64@ + Seq::<char>::empty() =~= secret_b64@);
    }
    secret_b64
}

/// The identity text of a fresh secret key. The caller keeps it and hands it back on every
/// connect; nothing is stored here.
pub fn identity_generate() -> (secret_b64: String)
    ensures
        exists|secret: Seq<u8>|
            secret.len() == 32 && secret_b64@ == #[trigger] base64_text::base64_text(secret),
        secret_b64@.len() == 44,
        secret_of(secret_b64@) is Ok,
{
    identity_text(&generate_secret())
}

/// The public key of a secret key, in hexadecimal: the identity that a host lists when it
/// decides whether to accept this device.
pub fn identity_public_key(secret_b64: &str) -> (r: Result<String, RoamError>)
    ensures
        match r {
            Ok(id) => public_key_of(secret_b64@) == Ok::<Seq<char>, Seq<char>>(id@),
            Err(e) => public_key_of(secret_b64@) == Err::<Seq<char>, Seq<char>>(e@),
        },
        r matches Ok(id) ==> exists|secret: Seq<u8>| #[trigger]
            base64_text::base64_text(secret) == text::trimmed(secret_b64@) && secret.len() == 32
                && id@ == hex_text(endpoint_key(secret)),
        r matches Err(RoamError::Message(m)) ==> secret_of(secret_b64@) == Err::<
            Seq<u8>,
            Seq<char>,
        >(m@),
        r matches Ok(id) ==> id@.len() == 64,
        r matches Err(e) ==> !e@.contains('\0'),
{
    match decode_secret(secret_b64) {
        Ok(secret) => {
            let id = endpoint_id(&secret);
            assert(base64_text::base64_text(secret@) == text::trimmed(secret_b64@));
            Ok(id)
        },
        Err(e) => Err(e),
    }
}

/// Reads an identity text.
pub fn decode_secret(secret_b64: &str) -> (r: Result<[u8; 32], RoamError>)
    ensures
        match r {
            Ok(secret) => secret_of(secret_b64@) == Ok::<Seq<u8>, Seq<char>>(secret@),
            Err(e) => secret_of(secret_b64@) == Err::<Seq<u8>, Seq<char>>(e@),
        },
        r matches Ok(secret) ==> base64_text::base64_text(secret@) == text::trimmed(secret_b64@),
        r matches Err(RoamError::Message(m)) ==> if base64_text::is_base64(
            text::trimmed(secret_b64@),
        ) {
            m@ == "identity must be 32 bytes"@
        } else {
            m@ == "invalid identity: "@ + base64_text::base64_fault(text::trimmed(secret_b64@))
        },
        r matches Err(e) ==> !e@.contains('\0'),
{
    proof {
        reveal_strlit("invalid identity: ");
        reveal_strlit("identity must be 32 bytes");
    }
    let encoded = text::trim(secret_b64);
    match base64_text::decode(encoded) {
        Err(fault) => Err(error::message_with("invalid identity: ", &fault)),
        Ok(bytes) => {
            proof {
                base64_text::law_base64_round_trip(bytes@);
            }
            if bytes.len() != 32 {
                return Err(error::message("identity must be 32 bytes"));
            }
            let mut secret: [u8; 32] = [0; 32];
            for i in 0..32usize
                invariant
                    bytes@.len() == 32,
                    secret@.take(i as int) == bytes@.take(i as int),
            {
                secret[i] = bytes[i];
                assert(secret@.take(i + 1) =~= secret@.take(i as int).push(bytes@[i as int]));
                assert(bytes@.take(i + 1) =~= bytes@.take(i as int).push(bytes@[i as int]));
            }
            assert(secret@.take(32) =~= secret@);
            assert(bytes@.take(32) =~= bytes@);
            Ok(secret)
        },
    }
}

/// The base64 text of a 32-byte key is read back as that key, whatever white space stands
/// around it.
pub proof fn law_secret_round_trip(secret: Seq<u8>, before: Seq<char>, after: Seq<char>)
    requires
        secret.len() == 32,
        text::blank(before),
        text::blank(after),
    ensures
        secret_of(before + base64_text::base64_text(secret) + after) == Ok::<Seq<u8>, Seq<char>>(
            secret,
        ),
{
    let encoded = base64_text::base64_text(secret);
    base64_text::law_base64_chars(secret);
    base64_text::law_base64_length(secret);
    base64_text::law_base64_round_trip(secret);
    assert(base64_text::base64_char(encoded[0]));
    assert(base64_text::base64_char(encoded.last()));
    text::law_trim_drops_the_surroundings(before, encoded, after);
}

/// An identity is accepted exactly if, white space aside, it is the base64 text of 32 bytes.
pub proof fn law_secret_accepted(secret_b64: Seq<char>)
    ensures
        secret_of(secret_b64) is Ok <==> exists|secret: Seq<u8>|
            secret.len() == 32 && #[trigger] base64_text::base64_text(secret) == text::trimmed(
                secret_b64,
            ),
{
    let encoded = text::trimmed(secret_b64);
    if secret_of(secret_b64) is Ok {
        assert(base64_text::base64_text(base64_text::base64_bytes(encoded)) == encoded);
    }
    assert forall|secret: Seq<u8>|
        secret.len() == 32 && #[trigger] base64_text::base64_text(secret)
            == encoded implies secret_of(secret_b64) is Ok by {
        base64_text::law_base64_round_trip(secret);
    }
}

/// Two identity texts that hold the same key name the same device, and so does the same text
/// on every call.
pub proof fn law_public_key_is_stable(a: Seq<char>, b: Seq<char>)
    requires
        secret_of(a) is Ok,
        secret_of(a) == secret_of(b),
    ensures
        public_key_of(a) is Ok,
        public_key_of(a) == public_key_of(b),
{
}

/// A public key is written in lower-case hexadecimal digits only.
pub proof fn law_public_key_is_hex(secret_b64: Seq<char>)
    requires
        public_key_of(secret_b64) is Ok,
    ensures
        forall|i: int|
            0 <= i < public_key_of(secret_b64)->Ok_0.len() ==> {
                let c = #[trigger] public_key_of(secret_b64)->Ok_0[i];
                '0' <= c <= '9' || 'a' <= c <= 'f'
            },
{
}

/// Different keys have different identity texts.
pub proof fn law_identity_texts_differ(a: Seq<u8>, b: Seq<u8>)
    requires
        a != b,
    ensures
        base64_text::base64_text(a) != base64_text::base64_text(b),
{
    if base64_text::base64_text(a) == base64_text::base64_text(b) {
        base64_text::law_base64_injective(a, b);
    }
}

/// What is read of an identity text is the key whose base64 text it is, white space aside. A
/// text is refused only if it is no such text of any 32 bytes; the message tells base64 of
/// another length from what is no base64 at all, and then why it is none.
pub proof fn law_what_an_identity_holds(secret_b64: Seq<char>)
    ensures
        match secret_of(secret_b64) {
            Ok(secret) => secret.len() == 32 && base64_text::base64_text(secret) == text::trimmed(
                secret_b64,
            ),
            Err(message) => {
                &&& forall|secret: Seq<u8>| #[trigger]
                    base64_text::base64_text(secret) == text::trimmed(secret_b64) ==> secret.len()
                        != 32
                &&& (exists|bytes: Seq<u8>| #[trigger]
                    base64_text::base64_text(bytes) == text::trimmed(secret_b64)) ==> message
                    == "identity must be 32 bytes"@
                &&& (forall|bytes: Seq<u8>| #[trigger]
                    base64_text::base64_text(bytes) != text::trimmed(secret_b64)) ==> message
                    == "invalid identity: "@ + base64_text::base64_fault(text::trimmed(secret_b64))
            },
        },
{
    assert forall|bytes: Seq<u8>| #[trigger]
        base64_text::base64_text(bytes) == text::trimmed(
            secret_b64,
        ) implies base64_text::base64_bytes(text::trimmed(secret_b64)) == bytes by {
        base64_text::law_base64_round_trip(bytes);
    }
}

/// A device is listed under the public key of its own secret key, and under none if its identity
/// cannot be read: then the reason is told.
pub proof fn law_a_device_is_listed_under_its_own_key(secret_b64: Seq<char>)
    ensures
        match (secret_of(secret_b64), public_key_of(secret_b64)) {
            (Ok(secret), Ok(id)) => id == hex_text(endpoint_key(secret)),
            (Err(reason), Err(message)) => message == reason,
            _ => false,
        },
{
}

/// The value of a lower-case hexadecimal digit.
pub open spec fn hex_value(c: char) -> int {
    if '0' <= c <= '9' {
        c as int - 48
    } else {
        c as int - 97 + 10
    }
}

/// Hexadecimal text has two digits for each byte, and they are the digits of its value.
pub proof fn law_hex_digits(bytes: Seq<u8>, i: int)
    requires
        0 <= i < bytes.len(),
    ensures
        hex_text(bytes).len() == 2 * bytes.len(),
        hex_value(hex_text(bytes)[2 * i]) * 16 + hex_value(hex_text(bytes)[2 * i + 1]) == bytes[i],
{
    assert(hex_text(bytes)[2 * i] == hex_digit(bytes[i] as int / 16));
    assert(hex_text(bytes)[2 * i + 1] == hex_digit(bytes[i] as int % 16));
}

} // verus!
