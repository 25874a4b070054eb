//! File metadata as it arrives in a command: arbitrary bytes, written as
//! base64 text.

use rustc_serialize::base64::FromBase64;
use rustc_serialize::base64::FromBase64Error;
use vstd::prelude::*;

verus! {

/// The reason `rustc_serialize` gives for refusing a text as base64.
#[verifier::external_type_specification]
#[verifier::external_body]
pub struct ExFromBase64Error(FromBase64Error);

/// The bytes that `rustc_serialize::base64::FromBase64::from_base64` reads
/// out of `text`, or `None` where it refuses the text as malformed.
pub uninterp spec fn base64_decoding(text: Seq<char>) -> Option<Seq<u8>>;

/// The metadata text of a command was not well-formed base64.
#[derive(Clone, Copy, Debug, PartialEq, Eq, Structural)]
pub struct DecodeError;

/// Calls `from_base64` of `rustc_serialize` on `text`. The decoder reads
/// nothing but the bytes of the text, so what it returns is the decoding of
/// that text: the bytes where it accepts the text, an error where it does
/// not.
#[verifier::external_body]
fn from_base64(text: &str) -> (r: Result<Vec<u8>, FromBase64Error>)
    ensures
        match base64_decoding(text@) {
            Some(bytes) => r is Ok && r->Ok_0@ == bytes,
            None => r is Err,
        },
{
    text.from_base64()
}

/// What is handed on of a decoder's answer: the bytes as they are, and of a
/// refusal only that it happened.
pub fn decoded<E>(answer: Result<Vec<u8>, E>) -> (r: Result<Vec<u8>, DecodeError>)
    ensures
        match answer {
            Ok(bytes) => r == Ok::<Vec<u8>, DecodeError>(bytes),
            Err(_) => r == Err::<Vec<u8>, DecodeError>(DecodeError),
        },
{
    match answer {
        Ok(bytes) => Ok(bytes),
        Err(_) => Err(DecodeError),
    }
}

/// Decodes the base64 text `encoded` into the bytes it stands for. Malformed
/// text is an error, and nothing of it is handed out.
pub fn decode(encoded: &str) -> (r: Result<Vec<u8>, DecodeError>)
    ensures
        match base64_decoding(encoded@) {
            Some(bytes) => r is Ok && r->Ok_0@ == bytes,
            None => r == Err::<Vec<u8>, DecodeError>(DecodeError),
        },
{
    decoded(from_base64(encoded))
}

} // verus!
