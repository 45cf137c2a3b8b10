//! Text inside canonical encodings.

use vstd::prelude::*;
use vstd::utf8::*;

verus! {

/// The text that `bytes` spell in UTF-8, through [`String::from_utf8`], which
/// returns the text when the bytes are valid UTF-8 and an error otherwise.
#[verifier::external_body]
pub(crate) fn text_of_bytes(bytes: Vec<u8>) -> (text: Option<String>)
    ensures
        match text {
            Some(text) => valid_utf8(bytes@) && text@ == decode_utf8(bytes@),
            None => !valid_utf8(bytes@),
        },
{
    String::from_utf8(bytes).ok()
}

} // verus!
