//! Display text for byte strings that the format does not require to be valid text.

use vstd::prelude::*;
use vstd::utf8::{decode_utf8, valid_utf8};

verus! {

/// Each byte as the character with the same number, as ISO-8859-1 reads it.
pub open spec fn latin1_text(b: Seq<u8>) -> Seq<char> {
    b.map_values(|x: u8| x as char)
}

/// Relies on `std::str::from_utf8`: a string exactly where the bytes are valid UTF-8, and then
/// the one whose characters they encode.
#[verifier::external_body]
fn utf8_str(bytes: &[u8]) -> (r: Option<&str>)
    ensures
        r is Some <==> valid_utf8(bytes@),
        r matches Some(s) ==> s@ == decode_utf8(bytes@),
{
    std::str::from_utf8(bytes).ok()
}

/// Relies on `String::push`: appends one character.
#[verifier::external_body]
fn push_char(s: &mut String, c: char)
    ensures
        final(s)@ == old(s)@.push(c),
{
    s.push(c)
}

/// The text of `bytes` given what UTF-8 decoding made of them: that text where they decoded,
/// else each byte as the character with the same number (ISO-8859-1).
pub fn decode_with_fallback(bytes: &[u8], utf8: Option<&str>) -> (r: String)
    ensures
        r@ == match utf8 {
            Some(s) => s@,
            None => latin1_text(bytes@),
        },
{
    match utf8 {
        Some(s) => s.to_owned(),
        None => {
            let mut out = String::new();
            let mut i: usize = 0;
            while i < bytes.len()
                invariant
                    i <= bytes@.len(),
                    out@ =~= latin1_text(bytes@.subrange(0, i as int)),
                decreases bytes@.len() - i,
            {
                push_char(&mut out, bytes[i] as char);
                i += 1;
            }
            assert(bytes@.subrange(0, i as int) =~= bytes@);
            out
        },
    }
}

/// Attempts to decode the given byte slice as UTF-8; if this fails, stubbornly decodes it as
/// ISO-8859-1 instead.
pub fn best_effort_decode(bytes: &[u8]) -> (r: String)
    ensures
        r@ == if valid_utf8(bytes@) {
            decode_utf8(bytes@)
        } else {
            latin1_text(bytes@)
        },
{
    let utf8 = utf8_str(bytes);
    decode_with_fallback(bytes, utf8)
}

} // verus!
