//! Codec bridge between binary message fields and their text
//! serialization: a byte blob, or an ordered sequence of blobs, is
//! rendered either as an unpadded URL-safe base64 token or as a canonical
//! 128-bit identifier string, and read back with exact round-trip
//! fidelity. Contracts state what every encode and decode returns and on
//! which tokens a decode is owed; proof functions state the round-trip
//! laws. Beside the codec stand the declarative build-configuration
//! helpers that attach a codec to a field of a generated type.
use vstd::prelude::*;

pub mod b64;
pub mod build_config;
pub mod codec;
pub mod id;
pub mod serde_config;

verus! {

/// Failure of an encode: raised by the identifier flavor when a blob's
/// length is neither 0 nor 16 bytes.
#[derive(Clone, Copy, Debug, PartialEq, Eq, Structural)]
pub enum EncodingError {
    InvalidLength,
}

/// Failure of a decode, naming the flavor that rejected the token.
#[derive(Clone, Copy, Debug, PartialEq, Eq, Structural)]
pub enum DecodingError {
    /// The base64 flavor saw a character outside the unpadded URL-safe
    /// alphabet, or a token of non-canonical shape.
    InvalidBase64,
    /// The identifier flavor saw a non-empty token that is not a canonical
    /// hyphenated identifier string.
    InvalidIdentifier,
}

impl EncodingError {
    /// A short account of the failure, for callers that report errors.
    pub fn describe(&self) -> (m: &'static str)
        ensures
            m@ == "invalid id length"@,
    {
        "invalid id length"
    }
}

impl DecodingError {
    /// A short account of the failure, for callers that report errors.
    pub fn describe(&self) -> (m: &'static str)
        ensures
            self is InvalidBase64 ==> m@ == "invalid base64 text"@,
            self is InvalidIdentifier ==> m@ == "invalid identifier text"@,
    {
        match self {
            DecodingError::InvalidBase64 => "invalid base64 text",
            DecodingError::InvalidIdentifier => "invalid identifier text",
        }
    }
}

/// Renders a message as a JSON string. Implemented by callers for the
/// composite types they generate; the library itself implements it for
/// no type.
pub trait ToJson {
    fn to_json(&self) -> String;
}

} // verus!
