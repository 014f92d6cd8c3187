//! Source of the unpredictable text that identifiers and client secrets are made of.

use vstd::prelude::*;

verus! {

/// The characters identifiers and secrets are drawn from: letters, digits, `_` and `-`.
pub open spec fn is_safe_char(c: char) -> bool {
    ||| c == '_'
    ||| c == '-'
    ||| '0' <= c <= '9'
    ||| 'a' <= c <= 'z'
    ||| 'A' <= c <= 'Z'
}

/// Every character of `text` is one of the safe characters.
pub open spec fn is_safe_text(text: Seq<char>) -> bool {
    forall|i: int| 0 <= i < text.len() ==> is_safe_char(#[trigger] text[i])
}

/// Largest size a single request for random text may have.
pub const MAX_RANDOM_LEN: usize = 4096;

/// Draws `size` random characters.
///
/// Calls `nanoid::format` with `nanoid::rngs::default` and `nanoid::alphabet::SAFE`.
/// Trusted: the text has exactly `size` characters, each taken from that alphabet.
/// The size is kept positive and small because `format` does not return for a size
/// of zero and multiplies the size by eight.
#[verifier::external_body]
pub(crate) fn random_text(size: usize) -> (text: String)
    requires
        0 < size <= MAX_RANDOM_LEN,
    ensures
        text@.len() == size,
        is_safe_text(text@),
{
    nanoid::format(nanoid::rngs::default, &nanoid::alphabet::SAFE, size)
}

/// Safe text takes one byte for each character.
pub proof fn lemma_safe_text_bytes(text: Seq<char>)
    requires
        is_safe_text(text),
    ensures
        vstd::utf8::encode_utf8(text).len() == text.len(),
{
    assert forall|i: int| 0 <= i < text.len() implies '\0' <= #[trigger] text[i] <= '\u{7f}' by {
        assert(is_safe_char(text[i]));
    }
    vstd::utf8::is_ascii_chars_encode_utf8(text);
}

} // verus!
