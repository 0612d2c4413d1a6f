//! The resumption of a session that an earlier logon has established.

use crate::auth::{finish, refusal, Action, AuthState};
use crate::error::{ExpectedOpcode, ExpectedOpcodeError, InternalError};
use crate::keys::KeyStorage;
use crate::logon::same_hash;
use crate::protocol::{ClientMessage, LoginResult, ReconnectChallenge, ReconnectProof, ServerMessage};
use crate::srp::{
    reconnect_challenge_data, srp_reconnect_accepts, srp_reconnect_challenge,
    verify_reconnection_attempt,
};
use vstd::prelude::*;
use wow_srp::server::SrpServer;

verus! {

/// What a reconnect challenge leads to, with the sessions `sessions` in the store.
pub open spec fn reconnect_post(
    challenge: ReconnectChallenge,
    sessions: Map<Seq<char>, SrpServer>,
    r: (AuthState, Action),
) -> bool {
    if sessions.dom().contains(challenge.account_name@) {
        &&& r.0 == AuthState::ReconnectChallengeSent {
            challenge,
            server: sessions[challenge.account_name@],
        }
        &&& r.1 matches Action::Send(
            ServerMessage::ReconnectChallengeSuccess { challenge_data, checksum_salt },
        )
        &&& challenge_data@ == srp_reconnect_challenge(sessions[challenge.account_name@])
        &&& checksum_salt@ == Seq::new(16, |i: int| 0u8)
    } else {
        r == refusal(
            ServerMessage::ReconnectChallengeFailUnknownAccount,
            InternalError::InvalidUserAttemptedReconnect { message: challenge },
        )
    }
}

/// A reconnect challenge has arrived: an account without a stored session is
/// refused as unknown, with no fall back to a logon; any other is sent the
/// challenge of its session.
pub fn reconnect<S: KeyStorage>(challenge: ReconnectChallenge, store: &mut S) -> (r: (
    AuthState,
    Action,
))
    ensures
        final(store).sessions() == old(store).sessions(),
        reconnect_post(challenge, old(store).sessions(), r),
{
    match store.get_key_for_user(challenge.account_name.as_str()) {
        None => (
            AuthState::Failing {
                error: InternalError::InvalidUserAttemptedReconnect { message: challenge },
            },
            Action::Send(ServerMessage::ReconnectChallengeFailUnknownAccount),
        ),
        Some(server) => {
            let checksum_salt = [0u8;16];
            assert(checksum_salt@ =~= Seq::new(16, |i: int| 0u8));
            let message = ServerMessage::ReconnectChallengeSuccess {
                challenge_data: reconnect_challenge_data(&server),
                checksum_salt,
            };
            (AuthState::ReconnectChallengeSent { challenge, server }, Action::Send(message))
        },
    }
}

/// The read of the reconnect proof has ended. Anything but a reconnect proof
/// ends the connection; for the proof the integrity hash is asked.
pub fn reconnect_proof(
    challenge: ReconnectChallenge,
    server: SrpServer,
    read: Result<ClientMessage, ExpectedOpcodeError>,
) -> (r: (AuthState, Action))
    ensures
        r == match read {
            Err(err) => finish(
                Err(
                    InternalError::ExpectedOpcodeError {
                        expected: ExpectedOpcode::ReconnectProof,
                        err,
                    },
                ),
            ),
            Ok(ClientMessage::ReconnectProof(proof)) => (
                AuthState::ReconnectIntegrityCheck { challenge, server, proof },
                Action::ReconnectIntegrity { proof_data: proof.proof_data },
            ),
            Ok(other) => finish(
                Err(
                    InternalError::ExpectedOpcodeError {
                        expected: ExpectedOpcode::ReconnectProof,
                        err: ExpectedOpcodeError::Opcode(other.spec_opcode() as u32),
                    },
                ),
            ),
        },
{
    match read {
        Err(err) => (
            AuthState::Finished,
            Action::Finish(
                Err(
                    InternalError::ExpectedOpcodeError {
                        expected: ExpectedOpcode::ReconnectProof,
                        err,
                    },
                ),
            ),
        ),
        Ok(ClientMessage::ReconnectProof(proof)) => (
            AuthState::ReconnectIntegrityCheck { challenge, server, proof },
            Action::ReconnectIntegrity { proof_data: proof.proof_data },
        ),
        Ok(other) => {
            let opcode = other.opcode();
            (
                AuthState::Finished,
                Action::Finish(
                    Err(
                        InternalError::ExpectedOpcodeError {
                            expected: ExpectedOpcode::ReconnectProof,
                            err: ExpectedOpcodeError::Opcode(opcode as u32),
                        },
                    ),
                ),
            )
        },
    }
}

/// The session has said whether it accepts the client's proof: a proof it
/// does not accept is refused as a wrong password, an accepted one is
/// answered with success.
pub fn reconnect_verified(challenge: ReconnectChallenge, accepted: bool) -> (r: (AuthState, Action))
    ensures
        r == if accepted {
            (
                AuthState::ReconnectProofSent { challenge },
                Action::Send(ServerMessage::ReconnectProof { result: LoginResult::Success }),
            )
        } else {
            refusal(
                ServerMessage::ReconnectProof { result: LoginResult::FailIncorrectPassword },
                InternalError::InvalidReconnectProofForUser { message: challenge },
            )
        },
{
    if accepted {
        (
            AuthState::ReconnectProofSent { challenge },
            Action::Send(ServerMessage::ReconnectProof { result: LoginResult::Success }),
        )
    } else {
        (
            AuthState::Failing {
                error: InternalError::InvalidReconnectProofForUser { message: challenge },
            },
            Action::Send(
                ServerMessage::ReconnectProof { result: LoginResult::FailIncorrectPassword },
            ),
        )
    }
}

/// The integrity hash of the reconnect is here. A hash that differs from the
/// client's checksum is refused as an invalid version; otherwise the session
/// decides on the client's proof.
pub fn reconnect_integrity(
    challenge: ReconnectChallenge,
    server: SrpServer,
    proof: ReconnectProof,
    hash: [u8; 20],
) -> (r: (AuthState, Action))
    ensures
        r == if hash@ != proof.client_checksum@ {
            refusal(
                ServerMessage::ReconnectProof { result: LoginResult::FailVersionInvalid },
                InternalError::InvalidReconnectIntegrityCheckForUser { message: challenge },
            )
        } else if srp_reconnect_accepts(server, proof.proof_data@, proof.client_proof@) {
            (
                AuthState::ReconnectProofSent { challenge },
                Action::Send(ServerMessage::ReconnectProof { result: LoginResult::Success }),
            )
        } else {
            refusal(
                ServerMessage::ReconnectProof { result: LoginResult::FailIncorrectPassword },
                InternalError::InvalidReconnectProofForUser { message: challenge },
            )
        },
{
    if !same_hash(&proof.client_checksum, &hash) {
        (
            AuthState::Failing {
                error: InternalError::InvalidReconnectIntegrityCheckForUser { message: challenge },
            },
            Action::Send(ServerMessage::ReconnectProof { result: LoginResult::FailVersionInvalid }),
        )
    } else {
        let mut session = server;
        let accepted = verify_reconnection_attempt(&mut session, proof.proof_data, proof.client_proof);
        reconnect_verified(challenge, accepted)
    }
}

} // verus!
