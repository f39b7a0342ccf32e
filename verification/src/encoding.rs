//! Base64 text for bytes, with the standard alphabet of RFC 4648.
use vstd::prelude::*;

verus! {

/// The character for a six-bit group in the standard base64 alphabet.
pub open spec fn base64_symbol(n: int) -> char {
    if n < 26 {
        (65 + n) as char
    } else if n < 52 {
        (97 + n - 26) as char
    } else if n < 62 {
        (48 + n - 52) as char
    } else if n == 62 {
        '+'
    } else {
        '/'
    }
}

/// Standard base64 with padding: each three bytes become four characters,
/// and a final one or two bytes become four characters ending in `==` or
/// `=`.
pub open spec fn base64_standard(b: Seq<u8>) -> Seq<char>
    decreases b.len(),
{
    if b.len() == 0 {
        seq![]
    } else {
        let x = b[0] as int;
        let y = if b.len() > 1 {
            b[1] as int
        } else {
            0
        };
        let z = if b.len() > 2 {
            b[2] as int
        } else {
            0
        };
        let first = base64_symbol(x / 4);
        let second = base64_symbol((x % 4) * 16 + y / 16);
        if b.len() == 1 {
            seq![first, second, '=', '=']
        } else if b.len() == 2 {
            seq![first, second, base64_symbol((y % 16) * 4), '=']
        } else {
            seq![first, second, base64_symbol((y % 16) * 4 + z / 64), base64_symbol(z % 64)]
                + base64_standard(b.skip(3))
        }
    }
}

/// Calls base64's `STANDARD` engine to encode bytes: the standard alphabet
/// with padding, as RFC 4648 defines it. The engine panics when the length
/// of the text would overflow `usize`, which the precondition rules out.
#[verifier::external_body]
pub(crate) fn base64_encode(bytes: &[u8]) -> (s: String)
    requires
        4 * ((bytes@.len() + 2) / 3) <= usize::MAX,
    ensures
        s@ == base64_standard(bytes@),
{
    base64::Engine::encode(&base64::engine::general_purpose::STANDARD, bytes)
}

/// What base64's standard-alphabet decoder makes of a text, with padding
/// required to be canonical or not: the bytes, or the text of the error.
pub uninterp spec fn base64_decoded(text: Seq<char>, canonical_padding: bool) -> Result<
    Seq<u8>,
    Seq<char>,
>;

/// Calls `decode` of a base64 `GeneralPurpose` engine with the standard
/// alphabet, whose padding mode is `RequireCanonical` when
/// `canonical_padding` holds and `Indifferent` otherwise; an error is
/// returned as its displayed text. The result is the named decoding.
#[verifier::external_body]
pub(crate) fn base64_decode(text: &str, canonical_padding: bool) -> (r: Result<Vec<u8>, String>)
    ensures
        match r {
            Ok(b) => base64_decoded(text@, canonical_padding) == Ok::<Seq<u8>, Seq<char>>(b@),
            Err(m) => base64_decoded(text@, canonical_padding) == Err::<Seq<u8>, Seq<char>>(m@),
        },
{
    let mode = match canonical_padding {
        true => base64::engine::DecodePaddingMode::RequireCanonical,
        false => base64::engine::DecodePaddingMode::Indifferent,
    };
    let config = base64::engine::GeneralPurposeConfig::new().with_decode_padding_mode(mode);
    let engine = base64::engine::GeneralPurpose::new(&base64::alphabet::STANDARD, config);
    match base64::Engine::decode(&engine, text) {
        Ok(b) => Ok(b),
        Err(e) => Err(e.to_string()),
    }
}

} // verus!
