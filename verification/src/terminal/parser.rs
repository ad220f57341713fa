//! Turning the bytes a terminal writes into text.
use vstd::prelude::*;
use vstd::utf8::{decode_utf8, valid_utf8};

verus! {

/// What `String::from_utf8_lossy` makes of a byte sequence.
pub uninterp spec fn lossy_utf8(bytes: Seq<u8>) -> Seq<char>;

/// `String::from_utf8_lossy`: valid UTF-8 decodes to its characters; each
/// invalid sequence becomes U+FFFD. Stated over the bytes: a valid prefix
/// decodes to its characters and the rest is read on from there; a single
/// byte from 0x80 up that ends the input is one invalid sequence. Where an
/// invalid sequence of several bytes ends is left to the name.
#[verifier::external_body]
fn from_utf8_lossy(bytes: &[u8]) -> (r: String)
    ensures
        r@ == lossy_utf8(bytes@),
        valid_utf8(bytes@) ==> r@ == decode_utf8(bytes@),
        forall|k: int|
            0 <= k <= bytes@.len() && valid_utf8(bytes@.take(k)) ==> r@ == decode_utf8(bytes@.take(k))
                + #[trigger] lossy_utf8(bytes@.skip(k)),
        forall|k: int|
            0 <= k && k + 1 == bytes@.len() && valid_utf8(#[trigger] bytes@.take(k)) && bytes@[k] >= 0x80
                ==> r@ == decode_utf8(bytes@.take(k)).push('\u{FFFD}'),
{
    String::from_utf8_lossy(bytes).into_owned()
}

/// Decodes terminal output.
pub struct TerminalParser;

impl TerminalParser {
    /// The text of terminal output: valid UTF-8 decodes to its characters, and
    /// each invalid sequence becomes U+FFFD (see `from_utf8_lossy`).
    pub fn decode(bytes: &[u8]) -> (r: String)
        ensures
            r@ == lossy_utf8(bytes@),
            valid_utf8(bytes@) ==> r@ == decode_utf8(bytes@),
            forall|k: int|
                0 <= k <= bytes@.len() && valid_utf8(bytes@.take(k)) ==> r@ == decode_utf8(bytes@.take(k))
                    + #[trigger] lossy_utf8(bytes@.skip(k)),
            forall|k: int|
                0 <= k && k + 1 == bytes@.len() && valid_utf8(#[trigger] bytes@.take(k)) && bytes@[k] >= 0x80
                    ==> r@ == decode_utf8(bytes@.take(k)).push('\u{FFFD}'),
    {
        from_utf8_lossy(bytes)
    }
}

} // verus!
