//! The ways in which a login connection ends in failure.

use crate::protocol::{ClientMessage, LogonChallenge, ReconnectChallenge};
use crate::srp::InvalidPublicKeyError;
use vstd::prelude::*;

verus! {

/// The message that the server was waiting for when the wrong one arrived.
#[derive(Copy, Clone, Debug, Ord, PartialOrd, Eq, PartialEq, Hash, Structural)]
pub enum ExpectedOpcode {
    LoginOrReconnect,
    LogonProof,
    ReconnectProof,
    XferOrResume,
}

/// Why no message of the expected kind could be read.
#[derive(Copy, Clone, Debug, PartialEq, Eq, Structural)]
pub enum ExpectedOpcodeError {
    /// A message with this opcode arrived instead.
    Opcode(u32),
    /// The message had the right opcode and a body that does not parse.
    Parse,
    /// The connection failed or closed.
    Io,
}

/// Why a connection was given up. Each failed connection ends with exactly one of these.
#[derive(Debug, Clone, PartialEq, Eq)]
#[allow(inconsistent_fields)]
pub enum InternalError {
    MessageInvalid { message: LogonChallenge, opcode: ClientMessage },
    UsernameInvalid { message: LogonChallenge },
    UsernameNotFound { message: LogonChallenge },
    InvalidPasswordForUser { message: LogonChallenge },
    InvalidIntegrityCheckForUser { message: LogonChallenge },
    PinInvalidForUser { message: LogonChallenge },
    PinNotSentForUser { message: LogonChallenge },
    MatrixCardDataNotSentForUser { message: LogonChallenge },
    MatrixCardInvalidForUser { message: LogonChallenge },
    InvalidUserAttemptedReconnect { message: ReconnectChallenge },
    InvalidReconnectIntegrityCheckForUser { message: ReconnectChallenge },
    InvalidReconnectProofForUser { message: ReconnectChallenge },
    InvalidPublicKey { message: LogonChallenge, err: InvalidPublicKeyError },
    ExpectedOpcodeError { expected: ExpectedOpcode, err: ExpectedOpcodeError },
    ProvidedFileTooLarge { message: LogonChallenge, size: usize },
    TransferOffsetTooLarge { message: LogonChallenge, size: u64 },
    /// A write or a peek on the connection failed; the caller holds the cause.
    Io,
}

} // verus!
