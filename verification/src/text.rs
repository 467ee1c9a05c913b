//! Text as the callers hand it in: surrounding white space, and bytes that may not be text.

use vstd::prelude::*;

verus! {

/// An optional text, as a mathematical value.
pub open spec fn optional_text(text: Option<String>) -> Option<Seq<char>> {
    match text {
        None => None,
        Some(t) => Some(t@),
    }
}

/// The characters that Unicode gives the property `White_Space`.
pub open spec fn white_space(c: char) -> bool {
    ||| '\u{9}' <= c <= '\u{d}'
    ||| c == '\u{20}'
    ||| c == '\u{85}'
    ||| c == '\u{a0}'
    ||| c == '\u{1680}'
    ||| '\u{2000}' <= c <= '\u{200a}'
    ||| c == '\u{2028}'
    ||| c == '\u{2029}'
    ||| c == '\u{202f}'
    ||| c == '\u{205f}'
    ||| c == '\u{3000}'
}

/// `s` from its first character on that is not white space.
pub open spec fn trimmed_start(s: Seq<char>) -> Seq<char>
    decreases s.len(),
{
    if s.len() > 0 && white_space(s[0]) {
        trimmed_start(s.skip(1))
    } else {
        s
    }
}

/// `s` up to its last character that is not white space.
pub open spec fn trimmed_end(s: Seq<char>) -> Seq<char>
    decreases s.len(),
{
    if s.len() > 0 && white_space(s.last()) {
        trimmed_end(s.drop_last())
    } else {
        s
    }
}

/// `s` without the white space at its two ends.
pub open spec fn trimmed(s: Seq<char>) -> Seq<char> {
    trimmed_end(trimmed_start(s))
}

/// Whether every character of `s` is white space.
pub open spec fn blank(s: Seq<char>) -> bool {
    forall|i: int| 0 <= i < s.len() ==> white_space(#[trigger] s[i])
}

/// Calls `str::trim`. Believed of it: that it returns the text without leading and trailing
/// characters of the Unicode property `White_Space`.
#[verifier::external_body]
pub(crate) fn trim(s: &str) -> (t: &str)
    ensures
        t@ == trimmed(s@),
{
    s.trim()
}

/// Calls `std::str::from_utf8`. Believed of it: that it accepts exactly valid UTF-8 and
/// returns the characters that the bytes encode.
#[verifier::external_body]
pub(crate) fn utf8_text(bytes: &[u8]) -> (r: Option<&str>)
    ensures
        match r {
            Some(s) => vstd::utf8::valid_utf8(bytes@) && s@ == vstd::utf8::decode_utf8(bytes@),
            None => !vstd::utf8::valid_utf8(bytes@),
        },
{
    std::str::from_utf8(bytes).ok()
}

/// White space around a text that neither starts nor ends with any goes away, and nothing
/// else does.
pub proof fn law_trim_drops_the_surroundings(before: Seq<char>, s: Seq<char>, after: Seq<char>)
    requires
        blank(before),
        blank(after),
        s.len() > 0,
        !white_space(s[0]),
        !white_space(s.last()),
    ensures
        trimmed(before + s + after) == s,
{
    lemma_trimmed_start(before, s + after);
    assert(before + s + after =~= before + (s + after));
    lemma_trimmed_end(s, after);
}

proof fn lemma_trimmed_start(before: Seq<char>, s: Seq<char>)
    requires
        blank(before),
        s.len() > 0,
        !white_space(s[0]),
    ensures
        trimmed_start(before + s) == s,
    decreases before.len(),
{
    if before.len() > 0 {
        assert((before + s)[0] == before[0]);
        assert((before + s).skip(1) =~= before.skip(1) + s);
        lemma_trimmed_start(before.skip(1), s);
    } else {
        assert(before + s =~= s);
    }
}

proof fn lemma_trimmed_end(s: Seq<char>, after: Seq<char>)
    requires
        blank(after),
        s.len() > 0,
        !white_space(s.last()),
    ensures
        trimmed_end(s + after) == s,
    decreases after.len(),
{
    if after.len() > 0 {
        assert((s + after).last() == after.last());
        assert((s + after).drop_last() =~= s + after.drop_last());
        lemma_trimmed_end(s, after.drop_last());
    } else {
        assert(s + after =~= s);
    }
}

/// An optional text is seen as what it is.
pub proof fn law_an_optional_text_is_seen_whole(text: Option<String>)
    ensures
        text is None <==> optional_text(text) is None,
        text matches Some(t) ==> optional_text(text) == Some(t@),
{
}

/// White space alone is trimmed to nothing.
pub proof fn law_blank_text_is_trimmed_away(s: Seq<char>)
    requires
        blank(s),
    ensures
        trimmed(s) == Seq::<char>::empty(),
    decreases s.len(),
{
    if s.len() > 0 {
        assert(white_space(s[0]));
        let rest = s.skip(1);
        assert forall|i: int| 0 <= i < rest.len() implies white_space(#[trigger] rest[i]) by {
            assert(white_space(s[i + 1]));
        }
        law_blank_text_is_trimmed_away(rest);
        assert(trimmed_start(s) == trimmed_start(rest));
    } else {
        assert(s =~= Seq::<char>::empty());
    }
}

/// Trimming only drops white space at the ends: what is left is a stretch of the text, with
/// nothing but white space before and behind it, and it neither starts nor ends with any.
pub proof fn law_trim_leaves_the_middle(s: Seq<char>)
    ensures
        exists|i: int, j: int|
            #![trigger s.subrange(i, j)]
            0 <= i <= j <= s.len() && trimmed(s) == s.subrange(i, j) && blank(s.take(i)) && blank(
                s.skip(j),
            ),
        trimmed(s).len() > 0 ==> !white_space(trimmed(s)[0]) && !white_space(trimmed(s).last()),
{
    let i = lemma_start(s);
    let t = trimmed_start(s);
    let n = lemma_end(t);
    let j = i + n;
    assert(trimmed(s) =~= s.subrange(i, j));
    assert forall|k: int| 0 <= k < s.skip(j).len() implies white_space(#[trigger] s.skip(j)[k]) by {
        assert(s.skip(j)[k] == t.skip(n)[k]);
    }
}

proof fn lemma_start(s: Seq<char>) -> (i: int)
    ensures
        0 <= i <= s.len(),
        trimmed_start(s) == s.skip(i),
        blank(s.take(i)),
        i < s.len() ==> !white_space(s[i]),
    decreases s.len(),
{
    if s.len() > 0 && white_space(s[0]) {
        let k = lemma_start(s.skip(1));
        assert(s.skip(1).skip(k) =~= s.skip(k + 1));
        assert forall|n: int| 0 <= n < k + 1 implies white_space(#[trigger] s.take(k + 1)[n]) by {
            if n > 0 {
                assert(s.skip(1).take(k)[n - 1] == s[n]);
            }
        }
        k + 1
    } else {
        assert(s.skip(0) =~= s);
        0
    }
}

proof fn lemma_end(s: Seq<char>) -> (n: int)
    ensures
        0 <= n <= s.len(),
        trimmed_end(s) == s.take(n),
        blank(s.skip(n)),
        n > 0 ==> !white_space(s[n - 1]),
    decreases s.len(),
{
    if s.len() > 0 && white_space(s.last()) {
        let t = s.drop_last();
        let n = lemma_end(t);
        assert(t.take(n) =~= s.take(n));
        assert forall|k: int| 0 <= k < s.skip(n).len() implies white_space(
            #[trigger] s.skip(n)[k],
        ) by {
            if n + k < t.len() {
                assert(t.skip(n)[k] == s[n + k]);
            }
        }
        n
    } else {
        assert(s.take(s.len() as int) =~= s);
        s.len() as int
    }
}

} // verus!
