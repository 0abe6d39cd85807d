//! Base64url without padding.

use vstd::prelude::*;

use base64::Engine;

use crate::text::view_of_bytes;

verus! {

/// What the unpadded base64url engine writes for a sequence of bytes.
pub uninterp spec fn base64url(bytes: Seq<u8>) -> Seq<char>;

/// What the unpadded base64url engine reads from a text, where it is one that it accepts.
pub uninterp spec fn from_base64url(text: Seq<char>) -> Option<Seq<u8>>;

/// Whether a character is one of the sixty-four of the URL-safe alphabet.
pub open spec fn is_base64url_char(c: char) -> bool {
    ||| 'A' <= c <= 'Z'
    ||| 'a' <= c <= 'z'
    ||| '0' <= c <= '9'
    ||| c == '-'
    ||| c == '_'
}

/// Whether a text is made of the characters of the URL-safe alphabet, which the padding character
/// is not one of.
pub open spec fn is_base64url_text(text: Seq<char>) -> bool {
    forall|i: int| 0 <= i < text.len() ==> is_base64url_char(#[trigger] text[i])
}

/// The number of characters that the encoding of so many bytes takes: four for each three, and
/// two or three for one or two that are left.
pub open spec fn base64url_length(bytes: nat) -> nat {
    (bytes * 4 + 2) / 3
}

/// Calls `encode` of the engine `URL_SAFE_NO_PAD` of the `base64` crate. The text is made of the
/// URL-safe alphabet, without padding, and the same engine reads it back as the bytes. The bound
/// keeps clear of the overflow of the length, on which the engine stops the program.
#[verifier::external_body]
pub(crate) fn encode(bytes: &[u8]) -> (text: String)
    requires
        bytes@.len() <= 0xffff,
    ensures
        text@ == base64url(bytes@),
        text@.len() == base64url_length(bytes@.len()),
        is_base64url_text(text@),
        from_base64url(text@) == Some(bytes@),
{
    base64::engine::general_purpose::URL_SAFE_NO_PAD.encode(bytes)
}

/// Calls `decode` of the engine `URL_SAFE_NO_PAD` of the `base64` crate. The engine accepts no
/// padding and no bits behind the last byte, so that a text that it accepts is the one that it
/// writes for the bytes, and is made of the URL-safe alphabet.
#[verifier::external_body]
pub(crate) fn decode(text: &str) -> (bytes: Option<Vec<u8>>)
    ensures
        view_of_bytes(bytes) == from_base64url(text@),
        bytes matches Some(bytes) ==> base64url(bytes@) == text@,
        bytes is Some ==> is_base64url_text(text@),
{
    base64::engine::general_purpose::URL_SAFE_NO_PAD.decode(text).ok()
}

} // verus!
