use vstd::prelude::*;

verus! {

/// Failures of the byte-level layer: not enough bytes yet, or bytes that do
/// not have the shape an operation expects.
#[derive(Debug, Clone, Copy, PartialEq, Eq, Structural)]
pub enum NetworkError {
    /// A declared length or fixed-width field needs more bytes than are present.
    ShortMsg { expected_length: usize, actual_length: usize },
    /// Not even the length information of a message is present.
    TooShortMsg,
    /// The bytes are present but not a whole number of elements.
    InvalidMsg { input_length: usize },
}

/// Violations of the protocol's rules; fatal for the connection.
#[derive(Debug, Clone, Copy, PartialEq, Eq, Structural)]
pub enum RuleError {
    /// The type byte names no known message.
    InvalidPacketType(usize),
}

/// Any failure of decoding a message.
#[derive(Debug, Clone, Copy, PartialEq, Eq, Structural)]
pub enum ProtocolError {
    Network(NetworkError),
    Rule(RuleError),
}

} // verus!
