use vstd::prelude::*;

use crate::errors::HostError;

verus! {

/// What `base64_simd::forgiving_decode_to_vec` returns on the byte sequence
/// `s`: `Some(decoded)` when `s` is a well-formed forgiving-base64 string
/// (standard charset, ASCII whitespace ignored), `None` when it is malformed.
/// The result depends on the input bytes alone.
pub uninterp spec fn b64_forgiving_decoded(s: Seq<u8>) -> Option<Seq<u8>>;

/// The standard base64 encoding of the byte sequence `s` (the output of
/// `base64_simd::STANDARD.encode_to_string`, as bytes). Forgiving decoding
/// accepts every such encoding and inverts it.
pub uninterp spec fn b64_standard_encoded(s: Seq<u8>) -> Seq<u8>;

/// The decoded bytes carried by a raw decode result, if any.
pub open spec fn decoded_of_raw(r: Result<Vec<u8>, base64_simd::Error>) -> Option<Seq<u8>> {
    match r {
        Ok(v) => Some(v@),
        Err(_) => None,
    }
}

/// The decoded bytes carried by a decode-op result, if any.
pub open spec fn decoded_of(r: Result<Vec<u8>, HostError>) -> Option<Seq<u8>> {
    match r {
        Ok(v) => Some(v@),
        Err(_) => None,
    }
}

#[verifier::external_type_specification]
#[verifier::external_body]
pub struct ExBase64Error(base64_simd::Error);

/// Relies on `base64_simd::forgiving_decode_to_vec`: it decodes a
/// forgiving-base64 string (WHATWG forgiving-base64, standard charset) into
/// the encoded bytes and fails on malformed input; decoding is a pure
/// function of the input, and every standard base64 encoding (as produced by
/// `base64_simd::STANDARD`'s encoder) decodes back to the encoded bytes.
#[verifier::external_body]
fn b64_decode_raw(input: &[u8]) -> (r: Result<Vec<u8>, base64_simd::Error>)
    ensures
        decoded_of_raw(r) == b64_forgiving_decoded(input@),
{
    base64_simd::forgiving_decode_to_vec(input)
}

/// Relies on `base64_simd::STANDARD.encode_to_string`: it produces the
/// standard base64 encoding of the input (a function of the input bytes
/// alone), and forgiving decoding accepts that encoding and gives back
/// exactly the input bytes (WHATWG forgiving-base64 decodes every standard
/// base64 encoding).
#[verifier::external_body]
fn b64_encode_raw(input: &[u8]) -> (r: Vec<u8>)
    requires
        input@.len() / 3 * 4 + 4 <= usize::MAX,
    ensures
        r@ == b64_standard_encoded(input@),
        b64_forgiving_decoded(r@) == Some(input@),
{
    base64_simd::STANDARD.encode_to_string(input).into_bytes()
}

/// Standard base64 encoding of `input`. The bound on the input's length
/// keeps the encoded length representable.
///
/// Decoding an encoding gives back the encoded bytes: together with
/// [`op_base64_atob`]'s contract this states the round trip
/// `decode(encode(x)) == x` for every byte sequence `x`.
pub fn base64_encode(input: &[u8]) -> (r: Vec<u8>)
    requires
        input@.len() / 3 * 4 + 4 <= usize::MAX,
    ensures
        r@ == b64_standard_encoded(input@),
        b64_forgiving_decoded(r@) == Some(input@),
{
    b64_encode_raw(input)
}

/// The synchronous byte-decode op: decodes a forgiving-base64 input into the
/// bytes it encodes.
///
/// The op is a pure function of its argument: it fails with
/// [`HostError::DecodeError`] exactly on malformed input, mutates nothing,
/// and decodes every standard base64 encoding back to the encoded bytes.
pub fn op_base64_atob(input: &[u8]) -> (r: Result<Vec<u8>, HostError>)
    ensures
        decoded_of(r) == b64_forgiving_decoded(input@),
        r matches Err(e) ==> e == HostError::DecodeError,
{
    match b64_decode_raw(input) {
        Ok(v) => Ok(v),
        Err(_) => Err(HostError::DecodeError),
    }
}

} // verus!
