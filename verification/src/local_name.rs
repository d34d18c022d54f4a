//! The local-name decoder: interprets one AD structure's payload as UTF-8
//! text, yielding nothing when the bytes are not valid UTF-8.

use vstd::prelude::*;
use vstd::utf8::decode_utf8;
use vstd::utf8::encode_utf8;
use vstd::utf8::encode_utf8_decode_utf8;
use vstd::utf8::encode_utf8_valid_utf8;
use vstd::utf8::valid_utf8;

verus! {

/// Relies on String::from_utf8: it returns the decoded string exactly when
/// the bytes are valid UTF-8, and an error otherwise.
#[verifier::external_body]
fn bytes_to_string(data: &[u8]) -> (name: Option<String>)
    ensures
        name is Some <==> valid_utf8(data@),
        name matches Some(s) ==> s@ == decode_utf8(data@),
{
    String::from_utf8(data.to_vec()).ok()
}

/// Decodes a payload as UTF-8 text, as some devices advertise their local
/// name as a readable string. Present exactly when the bytes are valid
/// UTF-8 (an empty payload decodes to empty text); absent otherwise,
/// never an error.
pub fn parse_local_name(data: &[u8]) -> (name: Option<String>)
    ensures
        name is Some <==> valid_utf8(data@),
        name matches Some(s) ==> s@ == decode_utf8(data@),
{
    bytes_to_string(data)
}

/// Round trip: any text, put into UTF-8 bytes, is valid UTF-8 and decodes
/// back to the same text — so the local-name decoder returns every
/// encodable name unchanged.
pub proof fn lemma_name_round_trip(text: Seq<char>)
    ensures
        valid_utf8(encode_utf8(text)),
        decode_utf8(encode_utf8(text)) == text,
{
    encode_utf8_valid_utf8(text);
    encode_utf8_decode_utf8(text);
}

} // verus!
