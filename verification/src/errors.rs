//! Error types shared across the library.
//!
//! The business layer reports limit failures with `LimitCheckError`,
//! `LimitUpdateError` and `VerifyError`; the wire codec reports malformed
//! input through `AppError` carrying a precise `DecodeError`.

use vstd::prelude::*;

use crate::address::NodeAddr;

verus! {

/// Error produced when checking limits for a charge.
#[derive(Clone, Copy, Debug, PartialEq, Eq, Structural)]
pub enum LimitCheckError {
    CardLimitExceeded,
    AccountLimitExceeded,
}

/// Error produced when a limit change is refused.
#[derive(Clone, Copy, Debug, PartialEq, Eq, Structural)]
pub enum LimitUpdateError {
    /// The new limit is below the amount already consumed.
    BelowCurrentUsage,
}

/// Verification-phase error of a business operation.
#[derive(Clone, Copy, Debug, PartialEq, Eq, Structural)]
pub enum VerifyError {
    ChargeLimit(LimitCheckError),
    LimitUpdate(LimitUpdateError),
}

/// Application-phase error of a business operation.
#[derive(Clone, Copy, Debug, PartialEq, Eq, Structural)]
pub enum ApplyError {
    LimitUpdate(LimitUpdateError),
}

/// Why a byte sequence could not be turned into a value.
#[derive(Clone, Copy, Debug, PartialEq, Eq, Structural)]
pub enum DecodeError {
    /// A requested byte range lies outside the payload or has the wrong size.
    NotEnoughBytes,
    /// The first byte of a message names no known message type.
    UnknownMessageType { tag: u8 },
    /// The first byte of an operation names no known operation type.
    UnknownOperationType { tag: u8 },
    /// An operation body does not have the length its type requires.
    WrongLength { tag: u8, len: usize },
    /// The `from_offline_station` byte is neither 0 nor 1.
    InvalidOfflineFlag { value: u8 },
    /// Only IPv4 addresses can be written on the wire.
    NotIpv4,
    /// A payload is too long for the two-byte length of a frame.
    FrameTooLong { len: usize },
}

/// Application-level error.
#[derive(Clone, Copy, Debug, PartialEq, Eq, Structural)]
pub enum AppError {
    /// Invalid or malformed data.
    InvalidData { reason: DecodeError },
    /// Invalid protocol format.
    InvalidProtocol { reason: DecodeError },
    /// A peer refused the connection.
    ConnectionRefused { addr: NodeAddr },
    /// The connection with a peer was lost.
    ConnectionLostWith { address: NodeAddr },
    /// A connection was lost, with no peer known.
    ConnectionLost,
    /// The connection limit was reached.
    ConnectionLimit { max: usize },
    /// A business-rule verification failed.
    Verify(VerifyError),
    /// A business-rule application failed.
    Apply(ApplyError),
}

} // verus!
