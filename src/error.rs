use vstd::prelude::*;

verus! {

/// Every failure that the core can report.
#[derive(Debug)]
pub enum LibError {
    /// The request body exceeded the allowed maximum size.
    RequestBodyTooLarge,
    /// The HTTP engine failed while reading or writing; the text describes it.
    Transport(String),
    /// A structured request payload could not be decoded.
    JsonParseError(serde_json::Error),
    /// A structured request payload was well-formed JSON of the wrong shape.
    InvalidPayload,
    /// A structured value could not be encoded for a response.
    Serialization(serde_json::Error),
}

#[verifier::external_type_specification]
#[verifier::external_body]
pub struct ExJsonError(serde_json::Error);

} // verus!
