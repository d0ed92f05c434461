//! The failure taxonomy of a scan: network-level failures, malformed wire
//! data, and status payloads that do not have the shape the filter needs.
//! Every per-host failure is classified here and recovered by skipping the
//! host; none of them is ever fatal to a scan.
use vstd::prelude::*;

verus! {

/// A network-level failure while talking to one host.
#[derive(Clone, Copy, Debug, PartialEq, Eq, Structural)]
pub enum ConnectionError {
    /// The host could not be reached at all.
    Unreachable,
    /// A connect, read or write exceeded its time bound.
    Timeout,
    /// The host closed or reset the connection mid-exchange.
    Reset,
}

/// Malformed wire data, possibly from an adversarial host.
#[derive(Clone, Copy, Debug, PartialEq, Eq, Structural)]
pub enum ProtocolError {
    /// A VarInt ran past five bytes or encodes a value outside 31 bits.
    MalformedVarInt,
    /// The data ended before a complete frame or field arrived.
    Truncated,
    /// The response packet carried an id other than the status id.
    UnexpectedPacketId,
    /// The declared packet length exceeds the sane upper bound.
    OversizedPacket,
}

/// Why a status payload failed to parse into a [`crate::status::StatusResponse`].
#[derive(Clone, Copy, Debug, PartialEq, Eq, Structural)]
pub enum PayloadFault {
    /// The payload is not valid JSON at all.
    NotJson,
    /// The top-level JSON value is not an object.
    NotObject,
    /// There is no `description` field.
    MissingDescription,
    /// `description` is neither a string nor an object with a `text` string.
    BadDescription,
    /// There is no `players` field.
    MissingPlayers,
    /// `players` is not an object.
    BadPlayers,
    /// `players.max` is missing or is not an unsigned 32-bit integer.
    BadMax,
    /// `players.online` is missing or is not an unsigned 32-bit integer.
    BadOnline,
    /// `players.sample` is present but is not an array of player objects.
    BadSample,
    /// There is no `version` field.
    MissingVersion,
    /// `version` is not an object with a string `name` and an unsigned
    /// 32-bit integer `protocol`.
    BadVersion,
}

/// A status payload that fails to conform to the minimal shape the filter
/// requires, with the first fault found as the diagnostic cause.
#[derive(Clone, Copy, Debug, PartialEq, Eq, Structural)]
pub enum ParseError {
    InvalidPayload(PayloadFault),
}

/// Everything that can go wrong for a single host. Each variant is recovered
/// locally by skipping that host.
#[derive(Clone, Copy, Debug, PartialEq, Eq, Structural)]
pub enum ScanError {
    Connection(ConnectionError),
    Protocol(ProtocolError),
    Parse(ParseError),
}

} // verus!
