//! What can go wrong with a call.

use vstd::prelude::*;

verus! {

/// `serde_json::Error`, carried through unread.
#[verifier::external_type_specification]
#[verifier::external_body]
pub struct ExSerdeJsonError(serde_json::Error);

/// The message of a `serde_json::Error`, as its `Display` writes it.
pub uninterp spec fn error_text(error: serde_json::Error) -> Seq<char>;

/// `bitcoin::consensus::encode::FromHexError`, carried through unread.
#[verifier::external_type_specification]
#[verifier::external_body]
pub struct ExFromHexError(bitcoin::consensus::encode::FromHexError);

/// The ways in which a call fails.
#[derive(Debug)]
pub enum RpcError {
    /// Text is not JSON, or a JSON value is not of the expected shape.
    Json(serde_json::Error),
    /// Hexadecimal text does not decode to the expected Bitcoin structure.
    BitcoinSerialization(bitcoin::consensus::encode::FromHexError),
    /// A reply lacks a part that it was expected to have.
    UnexpectedStructure,
    /// The server answered with an error, or the command is unknown.
    ReturnedError(String),
    /// The MCP connection failed.
    Mcp(String),
}

/// The error is a JSON error with that message.
pub open spec fn is_refusal(error: RpcError, message: Seq<char>) -> bool {
    error matches RpcError::Json(inner) && error_text(inner) == message
}

} // verus!
