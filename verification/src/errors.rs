use vstd::prelude::*;

verus! {

/// Failures of the token engine.
///
/// `UnsupportedAlgorithm` carries the offending algorithm string.
/// `InvalidKeyMaterial` and `SigningFailed` carry the underlying
/// library's message.
#[derive(Debug, Clone, PartialEq, Eq)]
pub enum TokenError {
    UnsupportedAlgorithm(String),
    InvalidKeyMaterial(String),
    SigningFailed(String),
    TokenInvalid,
    TokenExpired,
    InspectFailed,
    WrongTokenType,
    MissingSubject,
    MalformedToken,
}

/// Failures of the key-generation helpers.
#[derive(Debug, Clone, PartialEq, Eq)]
pub enum KeygenError {
    SecretTooSmall,
    KeySizeTooSmall,
    GenerationFailed(String),
}

} // verus!
