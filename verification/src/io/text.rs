//! Text on the wire: bytes of an 8-bit legacy encoding, read permissively.

use vstd::prelude::*;
use vstd::utf8::*;

verus! {

/// The text that permissive decoding makes of bytes that are not valid
/// UTF-8: every ill-formed run is replaced by U+FFFD.
pub uninterp spec fn lossy_text(bytes: Seq<u8>) -> Seq<char>;

/// The text that a run of bytes stands for. Well-formed UTF-8 decodes to
/// itself; anything else decodes with replacement characters.
#[verifier::opaque]
pub open spec fn text_of(bytes: Seq<u8>) -> Seq<char> {
    if valid_utf8(bytes) {
        decode_utf8(bytes)
    } else {
        lossy_text(bytes)
    }
}

/// The bytes a text is written as: its UTF-8 encoding.
#[verifier::opaque]
pub open spec fn text_bytes(text: Seq<char>) -> Seq<u8> {
    encode_utf8(text)
}

/// Text written and read back is the same text.
pub proof fn lemma_text_round_trip(text: Seq<char>)
    ensures
        text_of(text_bytes(text)) == text,
{
    reveal(text_of);
    reveal(text_bytes);
    encode_utf8_valid_utf8(text);
    encode_utf8_decode_utf8(text);
}

/// `String::from_utf8_lossy`, made owned: valid UTF-8 comes back as the
/// string it encodes, and bytes that are not valid come back with each
/// ill-formed run replaced by U+FFFD.
#[verifier::external_body]
pub(crate) fn decode_lossy(bytes: &[u8]) -> (text: String)
    ensures
        text@ == text_of(bytes@),
        !valid_utf8(bytes@) ==> text@ == lossy_text(bytes@),
{
    String::from_utf8_lossy(bytes).into_owned()
}

} // verus!
