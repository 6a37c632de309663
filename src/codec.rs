//! URL-safe base64 without padding, the text form of gossip payloads.
use vstd::prelude::*;

use base64::engine::{DecodePaddingMode, GeneralPurpose, GeneralPurposeConfig};
use base64::Engine;

verus! {

#[verifier::external_type_specification]
#[verifier::external_body]
pub struct ExDecodeError(base64::DecodeError);

/// The URL-safe base64 text of `b`, without padding.
pub uninterp spec fn base64_text(b: Seq<u8>) -> Seq<char>;

/// The bytes that URL-safe base64 text stands for, if it is valid.
pub uninterp spec fn base64_bytes(s: Seq<char>) -> Option<Seq<u8>>;

/// Relies on `base64::Engine::encode` with the URL-safe alphabet and no padding.
#[verifier::external_body]
pub fn encode(b: &[u8]) -> (r: String)
    ensures
        r@ == base64_text(b@),
{
    let config = GeneralPurposeConfig::new().with_encode_padding(false);
    GeneralPurpose::new(&base64::alphabet::URL_SAFE, config).encode(b)
}

/// Relies on `base64::Engine::decode` with the URL-safe alphabet; padding is
/// accepted but not required.
#[verifier::external_body]
pub fn decode(s: &str) -> (r: Result<Vec<u8>, base64::DecodeError>)
    ensures
        base64_bytes(s@) is Some <==> r is Ok,
        r is Ok ==> r.unwrap()@ == base64_bytes(s@).unwrap(),
{
    let config = GeneralPurposeConfig::new().with_decode_padding_mode(
        DecodePaddingMode::Indifferent,
    );
    GeneralPurpose::new(&base64::alphabet::URL_SAFE, config).decode(s)
}

} // verus!
