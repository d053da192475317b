//! Trusted boundary to the `base64` and `bincode` crates.
//!
//! Points travel as standard base64 with required padding, so decoding
//! accepts exactly the strings the encoder produces. Key blobs are an
//! opaque binary serialization of a list of `(instance name, key
//! state, epoch)` records; encoding and decoding are inverse.

use vstd::prelude::*;

use crate::result::Error;

verus! {

/// The standard, padded base64 rendering of a byte string, as
/// `base64`'s `BASE64_STANDARD` engine produces it.
pub uninterp spec fn b64_of(bytes: Seq<u8>) -> Seq<char>;

/// The bytes an encoded string decodes to, if it is exactly an
/// encoder output.
pub uninterp spec fn b64_decoded(s: Seq<char>) -> Option<Seq<u8>>;

/// The byte serialization of a list of key records, as `bincode`
/// produces it.
pub uninterp spec fn keys_encoding(entries: Seq<(Seq<char>, Seq<u8>, u8)>) -> Seq<u8>;

/// The list of key records a byte string deserializes to, if any.
pub uninterp spec fn keys_decoding(bytes: Seq<u8>) -> Option<Seq<(Seq<char>, Seq<u8>, u8)>>;

/// The element-wise view of a key-record list.
pub open spec fn entries_view(entries: Seq<(String, Vec<u8>, u8)>) -> Seq<(Seq<char>, Seq<u8>, u8)> {
    entries.map_values(|t: (String, Vec<u8>, u8)| (t.0@, t.1@, t.2))
}

/// Relies on `base64`'s `BASE64_STANDARD` engine: encoding is a pure
/// function of the bytes and emits four characters per three-byte
/// group, padding included.
#[verifier::external_body]
pub(crate) fn base64_encode(bytes: &Vec<u8>) -> (s: String)
    ensures
        s@ == b64_of(bytes@),
        s@.len() == ((bytes@.len() + 2) / 3) * 4,
        b64_decoded(s@) == Some(bytes@),
{
    base64::Engine::encode(&base64::prelude::BASE64_STANDARD, bytes.as_slice())
}

/// Relies on `base64`'s `BASE64_STANDARD` engine: with canonical
/// padding required and trailing bits rejected, decoding succeeds on
/// exactly the strings the encoder produces, and inverts it.
#[verifier::external_body]
pub(crate) fn base64_decode(s: &str) -> (r: Result<Vec<u8>, Error>)
    ensures
        match r {
            Ok(b) => s@ == b64_of(b@) && b64_decoded(s@) == Some(b@),
            Err(e) => e == Error::Base64 && b64_decoded(s@) is None,
        },
{
    match base64::Engine::decode(&base64::prelude::BASE64_STANDARD, s) {
        Ok(b) => Ok(b),
        Err(_) => Err(Error::Base64),
    }
}

/// Relies on `bincode::serialize`: the encoding is a pure function of
/// the records, and `bincode::deserialize` inverts it. Serialization
/// cannot fail for these types: `bincode` 1.3 with its default
/// unbounded configuration errors only on size limits or custom
/// serializer errors, and strings, byte vectors and integers raise
/// neither.
#[verifier::external_body]
pub(crate) fn encode_keys(entries: &Vec<(String, Vec<u8>, u8)>) -> (bytes: Vec<u8>)
    ensures
        bytes@ == keys_encoding(entries_view(entries@)),
        keys_decoding(bytes@) == Some(entries_view(entries@)),
{
    bincode::serialize(entries).expect("serializing key records cannot fail")
}

/// Relies on `bincode::deserialize`: a payload either parses to one
/// record list or is rejected.
#[verifier::external_body]
pub(crate) fn decode_keys(bytes: &Vec<u8>) -> (r: Result<Vec<(String, Vec<u8>, u8)>, Error>)
    ensures
        match r {
            Ok(entries) => keys_decoding(bytes@) == Some(entries_view(entries@)),
            Err(e) => e == Error::KeySerialization && keys_decoding(bytes@) is None,
        },
{
    match bincode::deserialize::<Vec<(String, Vec<u8>, u8)>>(bytes.as_slice()) {
        Ok(entries) => Ok(entries),
        Err(_) => Err(Error::KeySerialization),
    }
}

} // verus!
