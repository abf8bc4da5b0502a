//! The one response that the server gives, whatever was asked.

use vstd::prelude::*;

verus! {

/// The response as text: a status line, two header lines, a blank line, the
/// body and a trailing blank line. Lines end in a bare line feed, and the
/// connection header reads `clone`; clients have come to expect both.
pub const RESPONSE_TEXT: &'static str =
    "HTTP/1.1 200 Ok\nConnection: clone\nContent-Type: text/plain\n\nha?\n\n";

/// The bytes that are sent: one byte for each character of [`RESPONSE_TEXT`].
pub open spec fn response_bytes() -> Seq<u8> {
    Seq::new(RESPONSE_TEXT@.len(), |i: int| RESPONSE_TEXT@[i] as u8)
}

/// The response payload.
pub fn response() -> (payload: Vec<u8>)
    ensures
        payload@ == response_bytes(),
{
    let text: &str = RESPONSE_TEXT;
    proof {
        reveal_strlit("HTTP/1.1 200 Ok\nConnection: clone\nContent-Type: text/plain\n\nha?\n\n");
        assert(vstd::string::is_ascii(text));
        vstd::string::is_ascii_spec_bytes(text);
    }
    text.as_bytes_vec()
}

/// The payload written out byte by byte: 65 bytes, of which the last two are
/// line feeds.
pub proof fn lemma_response_bytes()
    ensures
        response_bytes() == seq![
            72u8, 84, 84, 80, 47, 49, 46, 49, 32, 50, 48, 48, 32, 79, 107, 10,
            67, 111, 110, 110, 101, 99, 116, 105, 111, 110, 58, 32, 99, 108, 111, 110, 101, 10,
            67, 111, 110, 116, 101, 110, 116, 45, 84, 121, 112, 101, 58, 32,
            116, 101, 120, 116, 47, 112, 108, 97, 105, 110, 10,
            10,
            104, 97, 63, 10,
            10,
        ],
        response_bytes().len() == 65,
{
    reveal_strlit("HTTP/1.1 200 Ok\nConnection: clone\nContent-Type: text/plain\n\nha?\n\n");
    assert(response_bytes() =~= seq![
        72u8, 84, 84, 80, 47, 49, 46, 49, 32, 50, 48, 48, 32, 79, 107, 10,
        67, 111, 110, 110, 101, 99, 116, 105, 111, 110, 58, 32, 99, 108, 111, 110, 101, 10,
        67, 111, 110, 116, 101, 110, 116, 45, 84, 121, 112, 101, 58, 32,
        116, 101, 120, 116, 47, 112, 108, 97, 105, 110, 10,
        10,
        104, 97, 63, 10,
        10,
    ]);
}

} // verus!
