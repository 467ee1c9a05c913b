//! Standard base64 with padding: what a text of it is, and the calls that write and read it.

use base64::Engine;
use vstd::prelude::*;

verus! {

/// The base64 symbol of a six-bit value.
pub open spec fn symbol(v: int) -> char {
    if v < 26 {
        ('A' as int + v) as char
    } else if v < 52 {
        ('a' as int + (v - 26)) as char
    } else if v < 62 {
        ('0' as int + (v - 52)) as char
    } else if v == 62 {
        '+'
    } else {
        '/'
    }
}

/// The base64 text of `bytes`: four symbols for every three bytes, most significant bits
/// first. A final group of one or two bytes is filled with zero bits and padded with `=`.
pub open spec fn base64_text(bytes: Seq<u8>) -> Seq<char>
    decreases bytes.len(),
{
    if bytes.len() == 0 {
        seq![]
    } else if bytes.len() == 1 {
        let a = bytes[0] as int;
        seq![symbol(a / 4), symbol(a % 4 * 16), '=', '=']
    } else if bytes.len() == 2 {
        let (a, b) = (bytes[0] as int, bytes[1] as int);
        seq![symbol(a / 4), symbol(a % 4 * 16 + b / 16), symbol(b % 16 * 4), '=']
    } else {
        let (a, b, c) = (bytes[0] as int, bytes[1] as int, bytes[2] as int);
        seq![
            symbol(a / 4),
            symbol(a % 4 * 16 + b / 16),
            symbol(b % 16 * 4 + c / 64),
            symbol(c % 64),
        ] + base64_text(bytes.skip(3))
    }
}

/// Whether `text` is the base64 text of some bytes.
pub open spec fn is_base64(text: Seq<char>) -> bool {
    exists|bytes: Seq<u8>| #[trigger] base64_text(bytes) == text
}

/// The bytes whose base64 text is `text`.
pub open spec fn base64_bytes(text: Seq<char>) -> Seq<u8>
    recommends
        is_base64(text),
{
    choose|bytes: Seq<u8>| #[trigger] base64_text(bytes) == text
}

/// The words in which the `base64` crate says why it refuses `text`.
pub uninterp spec fn base64_fault(text: Seq<char>) -> Seq<char>;

/// Calls `Engine::encode` of `base64::engine::general_purpose::STANDARD` on the bytes of a
/// key. Believed of it: that it writes the base64 text of those bytes, padding included.
#[verifier::external_body]
pub(crate) fn encode_key(bytes: &[u8; 32]) -> (text: String)
    ensures
        text@ == base64_text(bytes@),
{
    base64::engine::general_purpose::STANDARD.encode(bytes)
}

/// Calls `Engine::decode` of `base64::engine::general_purpose::STANDARD`, with the error as
/// its `Display` text. Believed of it: that it accepts exactly the texts that `encode` writes
/// (this engine asks for canonical padding and refuses set trailing bits) and then returns
/// the bytes written, and that the words of a refusal depend on the text alone and hold no zero
/// character: they are fixed words and decimal numbers.
#[verifier::external_body]
pub(crate) fn decode(text: &str) -> (r: Result<Vec<u8>, String>)
    ensures
        match r {
            Ok(bytes) => base64_text(bytes@) == text@,
            Err(fault) => !is_base64(text@) && fault@ == base64_fault(text@)
                && !fault@.contains('\0'),
        },
{
    base64::engine::general_purpose::STANDARD.decode(text).map_err(|e| e.to_string())
}

/// The characters that base64 text is made of.
pub open spec fn base64_char(c: char) -> bool {
    ||| 'A' <= c <= 'Z'
    ||| 'a' <= c <= 'z'
    ||| '0' <= c <= '9'
    ||| c == '+'
    ||| c == '/'
    ||| c == '='
}

proof fn lemma_symbol(v: int)
    requires
        0 <= v < 64,
    ensures
        base64_char(symbol(v)),
        symbol(v) != '=',
{
}

proof fn lemma_symbol_injective(v: int, w: int)
    requires
        0 <= v < 64,
        0 <= w < 64,
        symbol(v) == symbol(w),
    ensures
        v == w,
{
}

/// Base64 text is made of symbols and padding only.
pub proof fn law_base64_chars(bytes: Seq<u8>)
    ensures
        forall|i: int|
            0 <= i < base64_text(bytes).len() ==> base64_char(#[trigger] base64_text(bytes)[i]),
    decreases bytes.len(),
{
    assert forall|v: int| 0 <= v < 64 implies base64_char(#[trigger] symbol(v)) by {
        lemma_symbol(v);
    }
    if bytes.len() >= 3 {
        let rest = base64_text(bytes.skip(3));
        law_base64_chars(bytes.skip(3));
        assert forall|i: int| 0 <= i < base64_text(bytes).len() implies base64_char(
            #[trigger] base64_text(bytes)[i],
        ) by {
            if i >= 4 {
                assert(base64_text(bytes)[i] == rest[i - 4]);
            }
        }
    }
}

/// Base64 text has four characters for every group of three bytes, a last short group too.
pub proof fn law_base64_length(bytes: Seq<u8>)
    ensures
        base64_text(bytes).len() == (bytes.len() + 2) / 3 * 4,
    decreases bytes.len(),
{
    if bytes.len() >= 3 {
        law_base64_length(bytes.skip(3));
    }
}

/// No two byte sequences have the same base64 text.
pub proof fn law_base64_injective(x: Seq<u8>, y: Seq<u8>)
    requires
        base64_text(x) == base64_text(y),
    ensures
        x == y,
    decreases x.len(),
{
    law_base64_length(x);
    law_base64_length(y);
    let (s, t) = (base64_text(x), base64_text(y));
    assert forall|v: int| 0 <= v < 64 implies #[trigger] symbol(v) != '=' by {
        lemma_symbol(v);
    }
    assert forall|v: int, w: int|
        0 <= v < 64 && 0 <= w < 64 && #[trigger] symbol(v) == #[trigger] symbol(w) implies v
        == w by {
        lemma_symbol_injective(v, w);
    }
    if x.len() > 0 {
        assert(y.len() > 0);
        assert(s[0] == t[0] && s[1] == t[1] && s[2] == t[2] && s[3] == t[3]);
        if x.len() >= 3 {
            assert(s[2] != '=' && s[3] != '=');
            assert(y.len() >= 3);
            assert(s.skip(4) =~= base64_text(x.skip(3)));
            assert(t.skip(4) =~= base64_text(y.skip(3)));
            law_base64_injective(x.skip(3), y.skip(3));
            assert(x =~= x.take(3) + x.skip(3));
            assert(y =~= y.take(3) + y.skip(3));
            assert(x.take(3) =~= y.take(3));
        } else {
            assert(x =~= y);
        }
    }
}

/// The bytes read back from the base64 text of `bytes` are `bytes`.
pub proof fn law_base64_round_trip(bytes: Seq<u8>)
    ensures
        is_base64(base64_text(bytes)),
        base64_bytes(base64_text(bytes)) == bytes,
{
    law_base64_injective(base64_bytes(base64_text(bytes)), bytes);
}

/// The six-bit value that a base64 symbol stands for, read off the alphabet.
pub open spec fn symbol_value(c: char) -> int {
    if 'A' <= c <= 'Z' {
        c as int - 65
    } else if 'a' <= c <= 'z' {
        c as int - 97 + 26
    } else if '0' <= c <= '9' {
        c as int - 48 + 52
    } else if c == '+' {
        62
    } else {
        63
    }
}

/// Four symbols of base64 text hold, as one number of four six-bit digits, the three bytes that
/// they stand for, as one number of three eight-bit digits.
pub proof fn law_base64_group(bytes: Seq<u8>, group: int)
    requires
        0 <= group,
        3 * group + 3 <= bytes.len(),
    ensures
        ({
            let t = base64_text(bytes);
            let (i, k) = (4 * group, 3 * group);
            &&& i + 4 <= t.len()
            &&& symbol_value(t[i]) * 262144 + symbol_value(t[i + 1]) * 4096 + symbol_value(t[i + 2])
                * 64 + symbol_value(t[i + 3]) == bytes[k] * 65536 + bytes[k + 1] * 256 + bytes[k
                + 2]
            &&& t[i] != '=' && t[i + 1] != '=' && t[i + 2] != '=' && t[i + 3] != '='
        }),
    decreases group,
{
    assert forall|v: int| 0 <= v < 64 implies symbol_value(#[trigger] symbol(v)) == v && symbol(v)
        != '=' by {
        lemma_symbol(v);
    }
    law_base64_length(bytes);
    if group > 0 {
        let rest = bytes.skip(3);
        law_base64_group(rest, group - 1);
        let t = base64_text(bytes);
        let u = base64_text(rest);
        let i = 4 * group;
        assert(t[i] == u[i - 4] && t[i + 1] == u[i - 3] && t[i + 2] == u[i - 2] && t[i + 3] == u[i
            - 1]);
    }
}

/// A last group of two bytes ends with one `=`, one of a single byte with two; the symbols
/// before them hold the bytes, followed by zero bits.
pub proof fn law_base64_last_group(bytes: Seq<u8>)
    requires
        bytes.len() % 3 != 0,
    ensures
        ({
            let t = base64_text(bytes);
            let n = t.len() as int;
            let m = bytes.len() as int;
            &&& n >= 4
            &&& t[n - 1] == '='
            &&& m % 3 == 1 ==> t[n - 2] == '=' && symbol_value(t[n - 4]) * 64 + symbol_value(
                t[n - 3],
            ) == bytes[m - 1] * 16
            &&& m % 3 == 2 ==> t[n - 2] != '=' && symbol_value(t[n - 4]) * 4096 + symbol_value(
                t[n - 3],
            ) * 64 + symbol_value(t[n - 2]) == (bytes[m - 2] * 256 + bytes[m - 1]) * 4
        }),
    decreases bytes.len(),
{
    assert forall|v: int| 0 <= v < 64 implies symbol_value(#[trigger] symbol(v)) == v && symbol(v)
        != '=' by {
        lemma_symbol(v);
    }
    law_base64_length(bytes);
    if bytes.len() > 3 {
        let rest = bytes.skip(3);
        law_base64_last_group(rest);
        let t = base64_text(bytes);
        let u = base64_text(rest);
        assert(t.len() == u.len() + 4);
        assert forall|i: int| 0 <= i < u.len() implies #[trigger] u[i] == t[i + 4] by {}
    }
}

} // verus!
